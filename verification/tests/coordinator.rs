use update_actor::actor::{UpdateActor, UpdateMsg, UpdateReply};
use update_actor::update::{PayloadData, UpdateError, UpdateMeta, UpdateStatus};

fn payload_of(s: &[u8]) -> Vec<PayloadData> {
    vec![PayloadData::Bytes(s.to_vec())]
}

fn enqueued_id(r: &Result<UpdateStatus, UpdateError>) -> u64 {
    match r {
        Ok(UpdateStatus::Enqueued(rec)) => rec.update_id,
        other => panic!("expected an enqueued status, got {:?}", other),
    }
}

#[test]
fn submit_with_payload_enqueues_first_id() {
    let mut actor = UpdateActor::new();
    let collection: u128 = 42;
    let r = actor.handle_update(collection, UpdateMeta::DocumentsAddition, &payload_of(b"{\"a\":1}"));
    match &r {
        Ok(UpdateStatus::Enqueued(rec)) => {
            assert_eq!(rec.update_id, 1);
            assert_eq!(rec.meta, UpdateMeta::DocumentsAddition);
            assert!(rec.payload.is_some());
        },
        other => panic!("expected an enqueued status, got {:?}", other),
    }
    let listed = actor.handle_list_updates(collection).unwrap();
    assert_eq!(listed.len(), 1);
    match &listed[0] {
        UpdateStatus::Enqueued(rec) => assert_eq!(rec.update_id, 1),
        other => panic!("expected the enqueued record, got {:?}", other),
    }
}

#[test]
fn submit_empty_payload_registers_without_blob() {
    let mut actor = UpdateActor::new();
    let r = actor.handle_update(7, UpdateMeta::DocumentsAddition, &Vec::new());
    match r {
        Ok(UpdateStatus::Enqueued(rec)) => {
            assert_eq!(rec.update_id, 1);
            assert_eq!(rec.payload, None);
        },
        other => panic!("expected an enqueued status, got {:?}", other),
    }
    let info = actor.handle_get_info().unwrap();
    assert_eq!(info.size, 0);
    assert_eq!(info.pending, 1);
}

#[test]
fn submit_malformed_payload_consumes_no_sequence_id() {
    let mut actor = UpdateActor::new();
    let collection: u128 = 3;
    let r = actor.handle_update(collection, UpdateMeta::DocumentsAddition, &payload_of(b"{\"a\":1"));
    match r {
        Err(UpdateError::InvalidPayload(m)) => assert!(!m.is_empty()),
        other => panic!("expected an invalid-payload error, got {:?}", other),
    }
    assert_eq!(actor.handle_list_updates(collection).unwrap().len(), 0);
    // the rejected submission's blob is left behind for cleanup
    assert_eq!(actor.handle_get_info().unwrap().size, 6);
    // the next valid submission still receives the first id
    let r = actor.handle_update(collection, UpdateMeta::DocumentsAddition, &payload_of(b"{\"a\":1}"));
    assert_eq!(enqueued_id(&r), 1);
}

#[test]
fn sequence_ids_strictly_increase_without_gaps() {
    let mut actor = UpdateActor::new();
    let collection: u128 = 11;
    let r1 = actor.handle_update(collection, UpdateMeta::DocumentsAddition, &payload_of(b"{}"));
    let r2 = actor.handle_update(collection, UpdateMeta::DeleteDocuments, &payload_of(b"[1]"));
    let r3 = actor.handle_update(collection, UpdateMeta::Settings, &Vec::new());
    assert_eq!(enqueued_id(&r1), 1);
    assert_eq!(enqueued_id(&r2), 2);
    assert_eq!(enqueued_id(&r3), 3);
    // another collection sequences independently
    let other = actor.handle_update(99, UpdateMeta::ClearDocuments, &Vec::new());
    assert_eq!(enqueued_id(&other), 1);
}

#[test]
fn minus_zero_payload_submission_registers() {
    let mut actor = UpdateActor::new();
    let r = actor.handle_update(13, UpdateMeta::DocumentsAddition, &payload_of(b"-0.5"));
    assert_eq!(enqueued_id(&r), 1);
    assert_eq!(actor.handle_list_updates(13).unwrap().len(), 1);
}

#[test]
fn settings_kind_ignores_payload_stream() {
    let mut actor = UpdateActor::new();
    let r = actor.handle_update(5, UpdateMeta::Settings, &payload_of(b"ignored"));
    match r {
        Ok(UpdateStatus::Enqueued(rec)) => assert_eq!(rec.payload, None),
        other => panic!("expected an enqueued status, got {:?}", other),
    }
    assert_eq!(actor.handle_get_info().unwrap().size, 0);
}

#[test]
fn get_update_unknown_id_is_an_error() {
    let mut actor = UpdateActor::new();
    let collection: u128 = 8;
    assert_eq!(
        actor.handle_get_update(collection, 42),
        Err(UpdateError::UnexistingUpdate(42)),
    );
    let r = actor.handle_update(collection, UpdateMeta::DocumentsAddition, &payload_of(b"{}"));
    let id = enqueued_id(&r);
    match actor.handle_get_update(collection, id) {
        Ok(UpdateStatus::Enqueued(rec)) => assert_eq!(rec.update_id, id),
        other => panic!("expected the registered record, got {:?}", other),
    }
    // an id known for one collection is unknown for another
    assert_eq!(actor.handle_get_update(9999, id), Err(UpdateError::UnexistingUpdate(id)));
}

#[test]
fn delete_all_is_idempotent() {
    let mut actor = UpdateActor::new();
    let collection: u128 = 21;
    actor.handle_update(collection, UpdateMeta::DocumentsAddition, &payload_of(b"{\"a\":1}")).unwrap();
    actor.handle_update(collection, UpdateMeta::DocumentsAddition, &payload_of(b"{\"b\":2}")).unwrap();
    assert_eq!(actor.handle_delete(collection), Ok(()));
    assert_eq!(actor.handle_list_updates(collection).unwrap().len(), 0);
    assert_eq!(actor.handle_get_info().unwrap().size, 0);
    assert_eq!(actor.handle_delete(collection), Ok(()));
    assert_eq!(actor.handle_list_updates(collection).unwrap().len(), 0);
}

#[test]
fn ids_are_never_reused_after_delete_all() {
    let mut actor = UpdateActor::new();
    let collection: u128 = 2;
    actor.handle_update(collection, UpdateMeta::DocumentsAddition, &payload_of(b"{}")).unwrap();
    actor.handle_update(collection, UpdateMeta::DocumentsAddition, &payload_of(b"{}")).unwrap();
    actor.handle_delete(collection).unwrap();
    let r = actor.handle_update(collection, UpdateMeta::DocumentsAddition, &payload_of(b"{}"));
    assert_eq!(enqueued_id(&r), 3);
}

#[test]
fn operations_apply_in_submission_order() {
    let mut actor = UpdateActor::new();
    let collection: u128 = 6;
    let inbox = vec![
        UpdateMsg::Update {
            uuid: collection,
            meta: UpdateMeta::DocumentsAddition,
            data: payload_of(b"{\"a\":1}"),
        },
        UpdateMsg::Update {
            uuid: collection,
            meta: UpdateMeta::DocumentsAddition,
            data: payload_of(b"{\"b\":2}"),
        },
        UpdateMsg::Delete { uuid: collection },
        UpdateMsg::ListUpdates { uuid: collection },
    ];
    let replies = actor.run(inbox);
    assert_eq!(replies.len(), 4);
    // a deletion issued after the submissions leaves the listing empty
    match &replies[3] {
        UpdateReply::List(Ok(listed)) => assert_eq!(listed.len(), 0),
        other => panic!("expected an empty listing, got {:?}", other),
    }
    // a deletion issued before a submission does not stop it
    let inbox = vec![
        UpdateMsg::Delete { uuid: collection },
        UpdateMsg::Update {
            uuid: collection,
            meta: UpdateMeta::DocumentsAddition,
            data: payload_of(b"{\"c\":3}"),
        },
        UpdateMsg::ListUpdates { uuid: collection },
    ];
    let replies = actor.run(inbox);
    assert_eq!(replies.len(), 3);
    match &replies[2] {
        UpdateReply::List(Ok(listed)) => {
            assert_eq!(listed.len(), 1);
            match &listed[0] {
                UpdateStatus::Enqueued(rec) => assert_eq!(rec.update_id, 3),
                other => panic!("expected the enqueued record, got {:?}", other),
            }
        },
        other => panic!("expected a one-record listing, got {:?}", other),
    }
}

#[test]
fn snapshot_and_dump_select_named_collections() {
    let mut actor = UpdateActor::new();
    actor.handle_update(1, UpdateMeta::DocumentsAddition, &payload_of(b"{}")).unwrap();
    actor.handle_update(2, UpdateMeta::DocumentsAddition, &payload_of(b"[]")).unwrap();
    actor.handle_update(1, UpdateMeta::Settings, &Vec::new()).unwrap();
    let snap = actor.handle_snapshot(&vec![1]).unwrap();
    assert_eq!(snap.len(), 2);
    assert!(snap.iter().all(|e| e.0 == 1));
    let dumped = actor.handle_dump(&vec![1, 2]).unwrap();
    assert_eq!(dumped.len(), 3);
    let none = actor.handle_snapshot(&vec![77]).unwrap();
    assert_eq!(none.len(), 0);
}

#[test]
fn info_counts_pending_and_blob_sizes() {
    let mut actor = UpdateActor::new();
    actor.handle_update(4, UpdateMeta::DocumentsAddition, &payload_of(b"{\"a\":1}")).unwrap();
    actor.handle_update(4, UpdateMeta::DocumentsAddition, &payload_of(b"{\"bb\":22}")).unwrap();
    let info = actor.handle_get_info().unwrap();
    assert_eq!(info.pending, 2);
    assert_eq!(info.size, 7 + 9);
}

#[test]
fn shutdown_drops_requests_without_reply() {
    let mut actor = UpdateActor::new();
    actor.handle_update(1, UpdateMeta::Settings, &Vec::new()).unwrap();
    actor.signal_exit();
    // a request received after the flag is set is dropped without reply
    assert_eq!(actor.step(Some(UpdateMsg::GetInfo)), None);
    let replies = actor.run(vec![UpdateMsg::Delete { uuid: 1 }]);
    assert_eq!(replies.len(), 0);
    // nothing was processed: the record survived
    assert_eq!(actor.handle_list_updates(1).unwrap().len(), 1);
}

#[test]
fn closed_inbox_ends_the_loop() {
    let mut actor = UpdateActor::new();
    assert_eq!(actor.step(None), None);
    match actor.step(Some(UpdateMsg::GetInfo)) {
        Some(UpdateReply::GetInfo(Ok(info))) => assert_eq!(info.pending, 0),
        other => panic!("expected the statistics reply, got {:?}", other),
    }
}
