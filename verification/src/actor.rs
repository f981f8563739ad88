//! The coordinator actor: the single gatekeeper through which every
//! mutation to a collection is accepted, captured, validated and
//! registered with the update log, strictly one operation at a time,
//! in arrival order.
//!
//! Everything that suspends or blocks — the inbox channel, the payload
//! channel, file writes, the worker pool — lives with the embedding
//! runtime. It hands this core plain values: each received operation as
//! an [`UpdateMsg`], each payload stream as its sequence of
//! [`PayloadData`] chunks, and carries each [`UpdateReply`] back to the
//! requester's reply channel.

use vstd::prelude::*;
use crate::payload::{all_bytes, capture_payload, concat_bytes, first_error_msg, fresh_blob_id};
use crate::store::{
    contains_id, count_enqueued, entries_of, find_record, payload_ids, records_of,
    without_collection, UpdateStore,
};
use crate::update::{
    PayloadData, UpdateError, UpdateMeta, UpdateRecord, UpdateStatus, UpdateStoreInfo,
};
use crate::validation::{parse_diagnostic, spec_payload_valid, validate_payload};

verus! {

/// One captured payload blob: the raw concatenated request bytes under
/// a freshly generated identifier, as materialized in the coordinator's
/// blob directory.
#[derive(Clone, PartialEq, Eq, Debug)]
pub struct Blob {
    pub id: u128,
    pub content: Vec<u8>,
}

/// A blob as the contracts see it: its identifier and its bytes.
pub open spec fn blob_view(b: Blob) -> (u128, Seq<u8>) {
    (b.id, b.content@)
}

/// The blob directory as the contracts see it.
pub open spec fn blobs_as_dir(bs: Seq<Blob>) -> Seq<(u128, Seq<u8>)> {
    bs.map_values(|b: Blob| blob_view(b))
}

/// The blob directory with every blob referenced by `ids` removed.
pub open spec fn retain_blobs(bs: Seq<(u128, Seq<u8>)>, ids: Seq<u128>) -> Seq<(u128, Seq<u8>)>
    decreases bs.len(),
{
    if bs.len() == 0 {
        Seq::empty()
    } else {
        let rest = retain_blobs(bs.drop_last(), ids);
        if ids.contains(bs.last().0) {
            rest
        } else {
            rest.push(bs.last())
        }
    }
}

/// The total byte size of the blob directory.
pub open spec fn blobs_total_size(bs: Seq<(u128, Seq<u8>)>) -> int
    decreases bs.len(),
{
    if bs.len() == 0 {
        0int
    } else {
        blobs_total_size(bs.drop_last()) + bs.last().1.len()
    }
}

/// The blob directory's total size is never negative.
pub proof fn lemma_blobs_total_size_nonneg(bs: Seq<(u128, Seq<u8>)>)
    ensures
        blobs_total_size(bs) >= 0,
    decreases bs.len(),
{
    if bs.len() > 0 {
        lemma_blobs_total_size_nonneg(bs.drop_last());
    }
}

/// `n` clamped into `u64`.
pub open spec fn sat64(n: int) -> u64 {
    if n > u64::MAX {
        u64::MAX
    } else if n < 0 {
        0
    } else {
        n as u64
    }
}

/// An operation request, as it arrives over the actor's inbox. The
/// per-request reply channels stay with the embedding runtime; the
/// payload stream of a submission arrives as its received chunks.
#[derive(Clone, PartialEq, Eq, Debug)]
pub enum UpdateMsg {
    Update { uuid: u128, meta: UpdateMeta, data: Vec<PayloadData> },
    ListUpdates { uuid: u128 },
    GetUpdate { uuid: u128, id: u64 },
    Delete { uuid: u128 },
    Snapshot { uuids: Vec<u128>, path: String },
    Dump { uuids: Vec<u128>, path: String },
    GetInfo,
}

/// The reply the actor sends back for one operation request. For a
/// snapshot or a dump it hands the embedding runtime the selected
/// update state together with the destination path to persist it at.
#[derive(PartialEq, Eq, Debug)]
pub enum UpdateReply {
    Update(Result<UpdateStatus, UpdateError>),
    List(Result<Vec<UpdateStatus>, UpdateError>),
    GetUpdate(Result<UpdateStatus, UpdateError>),
    Delete(Result<(), UpdateError>),
    Snapshot { path: String, entries: Result<Vec<(u128, UpdateStatus)>, UpdateError> },
    Dump { path: String, entries: Result<Vec<(u128, UpdateStatus)>, UpdateError> },
    GetInfo(Result<UpdateStoreInfo, UpdateError>),
}

/// The coordinator actor: owns the single handle to the update log and
/// the blob directory, and a shutdown flag shared with the log's
/// background work.
pub struct UpdateActor {
    store: UpdateStore,
    blobs: Vec<Blob>,
    must_exit: bool,
}

/// Neither the log, nor the counters, nor the blob directory changed.
pub open spec fn unchanged_state(pre: UpdateActor, post: UpdateActor) -> bool {
    &&& post.log() == pre.log()
    &&& post.blob_dir() == pre.blob_dir()
    &&& forall|c: u128| post.next_seq(c) == pre.next_seq(c)
}

/// The outcome of the registration step for a submission whose payload
/// reference is `content`: with a sequence id left to assign, the
/// collection's next id is bound to an `Enqueued` record appended to
/// the log and the counter advances by exactly one; otherwise the
/// submission fails and the log is untouched.
pub open spec fn registered_outcome(
    pre: UpdateActor,
    post: UpdateActor,
    uuid: u128,
    meta: UpdateMeta,
    content: Option<u128>,
    r: Result<UpdateStatus, UpdateError>,
) -> bool {
    if pre.next_seq(uuid) < u64::MAX {
        &&& r matches Ok(UpdateStatus::Enqueued(rec))
        &&& rec == (UpdateRecord { update_id: pre.next_seq(uuid), meta, payload: content })
        &&& post.log() == pre.log().push((uuid, UpdateStatus::Enqueued(rec)))
        &&& post.next_seq(uuid) == pre.next_seq(uuid) + 1
        &&& forall|c: u128| c != uuid ==> post.next_seq(c) == pre.next_seq(c)
    } else {
        &&& r matches Err(e) && e == UpdateError::SequenceExhausted
        &&& post.log() == pre.log()
        &&& forall|c: u128| post.next_seq(c) == pre.next_seq(c)
    }
}

/// The outcome of one Submit Update: a transport failure aborts the
/// submission with the state untouched; a payload-carrying kind with
/// bytes captures one fresh blob and registers it if and only if the
/// bytes are well-formed JSON (an invalid payload surfaces the full
/// parse's diagnostic, registers nothing, and leaves the blob behind
/// for cleanup); every other submission registers without a payload
/// reference and leaves the blob directory alone.
pub open spec fn submit_outcome(
    pre: UpdateActor,
    post: UpdateActor,
    uuid: u128,
    meta: UpdateMeta,
    data: Seq<PayloadData>,
    r: Result<UpdateStatus, UpdateError>,
) -> bool {
    let bytes = concat_bytes(data);
    if meta.spec_carries_payload() && !all_bytes(data) {
        &&& r matches Err(UpdateError::Transport(m)) && m@ == first_error_msg(data)
        &&& unchanged_state(pre, post)
    } else if meta.spec_carries_payload() && bytes.len() > 0 {
        &&& post.blob_dir().len() == pre.blob_dir().len() + 1
        &&& post.blob_dir().drop_last() == pre.blob_dir()
        &&& post.blob_dir().last().1 == bytes
        &&& if spec_payload_valid(bytes) {
            registered_outcome(pre, post, uuid, meta, Some(post.blob_dir().last().0), r)
        } else {
            &&& r matches Err(UpdateError::InvalidPayload(m)) && m@ == parse_diagnostic(bytes)
                && m@.len() > 0
            &&& post.log() == pre.log()
            &&& forall|c: u128| post.next_seq(c) == pre.next_seq(c)
        }
    } else {
        &&& post.blob_dir() == pre.blob_dir()
        &&& registered_outcome(pre, post, uuid, meta, None, r)
    }
}

/// The outcome of one Delete All: the collection's records and the
/// blobs they referenced are removed; counters are kept, and the call
/// never fails — also where nothing was left to remove.
pub open spec fn delete_outcome(pre: UpdateActor, post: UpdateActor, uuid: u128) -> bool {
    &&& post.log() == without_collection(pre.log(), uuid)
    &&& post.blob_dir() == retain_blobs(pre.blob_dir(), payload_ids(pre.log(), uuid))
    &&& forall|c: u128| post.next_seq(c) == pre.next_seq(c)
}

/// What the reply to one dispatched operation says, and how the state
/// moved, for every operation variant.
pub open spec fn dispatch_outcome(
    pre: UpdateActor,
    post: UpdateActor,
    msg: UpdateMsg,
    r: UpdateReply,
) -> bool {
    match msg {
        UpdateMsg::Update { uuid, meta, data } => {
            &&& r matches UpdateReply::Update(res)
            &&& submit_outcome(pre, post, uuid, meta, data@, res)
        },
        UpdateMsg::ListUpdates { uuid } => {
            &&& r matches UpdateReply::List(Ok(v)) && v@ == records_of(pre.log(), uuid)
            &&& unchanged_state(pre, post)
        },
        UpdateMsg::GetUpdate { uuid, id } => {
            &&& r matches UpdateReply::GetUpdate(res)
            &&& res is Ok <==> find_record(pre.log(), uuid, id) is Some
            &&& res matches Ok(st) ==> find_record(pre.log(), uuid, id) == Some(st)
            &&& res matches Err(e) ==> e == UpdateError::UnexistingUpdate(id)
            &&& unchanged_state(pre, post)
        },
        UpdateMsg::Delete { uuid } => {
            &&& r matches UpdateReply::Delete(res) && res is Ok
            &&& delete_outcome(pre, post, uuid)
        },
        UpdateMsg::Snapshot { uuids, path } => {
            &&& r matches UpdateReply::Snapshot { path: p, entries: Ok(v) } && p == path && v@
                == entries_of(pre.log(), uuids@)
            &&& unchanged_state(pre, post)
        },
        UpdateMsg::Dump { uuids, path } => {
            &&& r matches UpdateReply::Dump { path: p, entries: Ok(v) } && p == path && v@
                == entries_of(pre.log(), uuids@)
            &&& unchanged_state(pre, post)
        },
        UpdateMsg::GetInfo => {
            &&& r matches UpdateReply::GetInfo(Ok(info)) && info.pending == count_enqueued(
                pre.log(),
            ) && info.size == sat64(blobs_total_size(pre.blob_dir()))
            &&& unchanged_state(pre, post)
        },
    }
}

/// One inbox cycle after another: with the shutdown flag set the
/// remaining requests are dropped without replies; otherwise each
/// message is dispatched in arrival order and answered in turn.
pub open spec fn run_outcome(
    pre: UpdateActor,
    post: UpdateActor,
    msgs: Seq<UpdateMsg>,
    rs: Seq<UpdateReply>,
) -> bool
    decreases msgs.len(),
{
    if pre.stopped() || msgs.len() == 0 {
        post == pre && rs.len() == 0
    } else {
        exists|mid: UpdateActor, reply: UpdateReply|
            #![auto]
            {
                &&& dispatch_outcome(pre, mid, msgs[0], reply)
                &&& mid.stopped() == pre.stopped()
                &&& rs.len() > 0 && rs[0] == reply
                &&& run_outcome(
                    mid,
                    post,
                    msgs.subrange(1, msgs.len() as int),
                    rs.subrange(1, rs.len() as int),
                )
            }
    }
}

/// Removing nothing keeps every blob: retaining against an empty id
/// set is the identity.
pub proof fn lemma_retain_blobs_empty_ids(bs: Seq<(u128, Seq<u8>)>, ids: Seq<u128>)
    requires
        ids.len() == 0,
    ensures
        retain_blobs(bs, ids) == bs,
    decreases bs.len(),
{
    if bs.len() > 0 {
        lemma_retain_blobs_empty_ids(bs.drop_last(), ids);
        assert(retain_blobs(bs, ids) =~= bs);
    }
}

/// Sequence ids are assigned consecutively: of two registrations for
/// the same collection performed one after the other, the second
/// succeeds with exactly the id one above the first — strictly
/// increasing, with no gap and no repeat, for any chain of
/// registrations read pairwise.
pub proof fn lemma_registration_ids_consecutive(
    a0: UpdateActor,
    a1: UpdateActor,
    a2: UpdateActor,
    uuid: u128,
    m1: UpdateMeta,
    m2: UpdateMeta,
    c1: Option<u128>,
    c2: Option<u128>,
    r1: Result<UpdateStatus, UpdateError>,
    r2: Result<UpdateStatus, UpdateError>,
)
    requires
        registered_outcome(a0, a1, uuid, m1, c1, r1),
        registered_outcome(a1, a2, uuid, m2, c2, r2),
        r1 is Ok,
        r2 is Ok,
    ensures
        r2->Ok_0.spec_id() == r1->Ok_0.spec_id() + 1,
{
}

/// Registering N updates for one collection in sequence yields N
/// strictly increasing sequence ids with no gaps and no repeats: the
/// i-th registration of the chain is assigned the collection's
/// starting id plus exactly i.
pub proof fn lemma_sequence_ids_no_gaps(
    states: Seq<UpdateActor>,
    metas: Seq<UpdateMeta>,
    contents: Seq<Option<u128>>,
    results: Seq<Result<UpdateStatus, UpdateError>>,
    uuid: u128,
    k: int,
)
    requires
        states.len() == results.len() + 1,
        metas.len() == results.len(),
        contents.len() == results.len(),
        forall|i: int|
            0 <= i < results.len() ==> registered_outcome(
                #[trigger] states[i],
                states[i + 1],
                uuid,
                metas[i],
                contents[i],
                results[i],
            ),
        forall|i: int| 0 <= i < results.len() ==> results[i] is Ok,
        0 <= k < results.len(),
    ensures
        results[k]->Ok_0.spec_id() == states[0].next_seq(uuid) + k,
        states[k + 1].next_seq(uuid) == states[0].next_seq(uuid) + k + 1,
    decreases k,
{
    if k > 0 {
        lemma_sequence_ids_no_gaps(states, metas, contents, results, uuid, k - 1);
    }
}

/// Delete All is idempotent at the coordinator: a second deletion of
/// the same collection, right after a first, changes nothing — the
/// record set stays empty and the blob directory stays as the first
/// deletion left it.
pub proof fn lemma_handle_delete_idempotent(
    a0: UpdateActor,
    a1: UpdateActor,
    a2: UpdateActor,
    uuid: u128,
)
    requires
        delete_outcome(a0, a1, uuid),
        delete_outcome(a1, a2, uuid),
    ensures
        a2.log() == a1.log(),
        a2.blob_dir() == a1.blob_dir(),
        records_of(a1.log(), uuid).len() == 0,
        records_of(a2.log(), uuid).len() == 0,
{
    crate::store::lemma_delete_all_idempotent(a0.log(), uuid);
    lemma_retain_blobs_empty_ids(a1.blob_dir(), payload_ids(a1.log(), uuid));
}

impl UpdateActor {
    /// The registered entries of the update log, in registration order.
    pub closed spec fn log(self) -> Seq<(u128, UpdateStatus)> {
        self.store.log()
    }

    /// The sequence id the next registration for `c` will receive.
    pub closed spec fn next_seq(self, c: u128) -> u64 {
        self.store.next_seq(c)
    }

    /// The blob directory: each captured payload's id and bytes.
    pub closed spec fn blob_dir(self) -> Seq<(u128, Seq<u8>)> {
        blobs_as_dir(self.blobs@)
    }

    /// Whether the shared shutdown flag is set.
    pub closed spec fn stopped(self) -> bool {
        self.must_exit
    }

    /// Well-formedness of the owned update log.
    pub closed spec fn wf(self) -> bool {
        self.store.wf()
    }

    /// Constructs the coordinator over a freshly opened, empty update
    /// log and an empty blob directory, with the shutdown flag clear.
    pub fn new() -> (r: UpdateActor)
        ensures
            r.wf(),
            !r.stopped(),
            r.log() == Seq::<(u128, UpdateStatus)>::empty(),
            r.blob_dir() == Seq::<(u128, Seq<u8>)>::empty(),
            forall|c: u128| r.next_seq(c) == 1,
    {
        let r = UpdateActor { store: UpdateStore::new(), blobs: Vec::new(), must_exit: false };
        proof {
            assert(r.blob_dir() =~= Seq::<(u128, Seq<u8>)>::empty());
        }
        r
    }

    /// Sets the shared shutdown flag, as the update log's background
    /// work does on a fatal fault: the loop will exit at its next
    /// inbox cycle, dropping a just-received request without reply.
    pub fn signal_exit(&mut self)
        ensures
            final(self).stopped(),
            unchanged_state(*old(self), *final(self)),
            final(self).wf() == old(self).wf(),
    {
        self.must_exit = true;
    }

    /// Handles one Submit Update: captures the payload stream, runs
    /// the two-phase JSON validity check on a captured blob, and
    /// registers the update with the log, which assigns the
    /// collection's next sequence id.
    pub fn handle_update(
        &mut self,
        uuid: u128,
        meta: UpdateMeta,
        payload: &Vec<PayloadData>,
    ) -> (r: Result<UpdateStatus, UpdateError>)
        requires
            old(self).wf(),
        ensures
            final(self).wf(),
            final(self).stopped() == old(self).stopped(),
            submit_outcome(*old(self), *final(self), uuid, meta, payload@, r),
    {
        if meta.carries_payload() {
            match capture_payload(payload) {
                Err(e) => Err(e),
                Ok(None) => self.register(uuid, meta, None),
                Ok(Some(bytes)) => {
                    let id = fresh_blob_id();
                    let valid = validate_payload(&bytes);
                    let ghost pre_blobs = self.blobs@;
                    let ghost bv = bytes@;
                    self.blobs.push(Blob { id, content: bytes });
                    proof {
                        assert(blobs_as_dir(self.blobs@) =~= blobs_as_dir(pre_blobs).push(
                            (id, bv),
                        ));
                        assert(blobs_as_dir(pre_blobs).push((id, bv)).drop_last() =~= blobs_as_dir(
                            pre_blobs,
                        ));
                    }
                    match valid {
                        Ok(_) => self.register(uuid, meta, Some(id)),
                        Err(m) => Err(UpdateError::InvalidPayload(m)),
                    }
                },
            }
        } else {
            self.register(uuid, meta, None)
        }
    }

    /// Registers with the log and wraps the assigned record in its
    /// `Enqueued` status.
    fn register(&mut self, uuid: u128, meta: UpdateMeta, content: Option<u128>) -> (r: Result<
        UpdateStatus,
        UpdateError,
    >)
        requires
            old(self).wf(),
        ensures
            final(self).wf(),
            final(self).stopped() == old(self).stopped(),
            final(self).blob_dir() == old(self).blob_dir(),
            registered_outcome(*old(self), *final(self), uuid, meta, content, r),
    {
        match self.store.register_update(meta, content, uuid) {
            Ok(rec) => Ok(UpdateStatus::Enqueued(rec)),
            Err(e) => Err(e),
        }
    }

    /// Lists every status registered for `uuid`, in registration
    /// order.
    pub fn handle_list_updates(&self, uuid: u128) -> (r: Result<Vec<UpdateStatus>, UpdateError>)
        ensures
            r matches Ok(v) && v@ == records_of(self.log(), uuid),
    {
        self.store.list(uuid)
    }

    /// Looks up one registered update by sequence id; an id never
    /// assigned for `uuid` is an Unknown-Update error, never a default
    /// record.
    pub fn handle_get_update(&self, uuid: u128, id: u64) -> (r: Result<UpdateStatus, UpdateError>)
        ensures
            r is Ok <==> find_record(self.log(), uuid, id) is Some,
            r matches Ok(st) ==> find_record(self.log(), uuid, id) == Some(st),
            r matches Err(e) ==> e == UpdateError::UnexistingUpdate(id),
    {
        match self.store.meta(uuid, id) {
            Some(st) => Ok(st),
            None => Err(UpdateError::UnexistingUpdate(id)),
        }
    }

    /// Removes every record of the collection and the blobs they
    /// referenced; idempotent, and never an error — also the second
    /// time in a row.
    pub fn handle_delete(&mut self, uuid: u128) -> (r: Result<(), UpdateError>)
        requires
            old(self).wf(),
        ensures
            final(self).wf(),
            final(self).stopped() == old(self).stopped(),
            r is Ok,
            delete_outcome(*old(self), *final(self), uuid),
    {
        let ids = self.store.collection_payload_ids(uuid);
        match self.store.delete_all(uuid) {
            Ok(u) => u,
            Err(e) => {
                return Err(e);
            },
        };
        let mut kept: Vec<Blob> = Vec::new();
        let mut i: usize = 0;
        while i < self.blobs.len()
            invariant
                0 <= i <= self.blobs@.len(),
                self.blobs@ == old(self).blobs@,
                ids@ == payload_ids(old(self).log(), uuid),
                blobs_as_dir(kept@) == retain_blobs(
                    blobs_as_dir(self.blobs@.take(i as int)),
                    ids@,
                ),
            decreases self.blobs@.len() - i,
        {
            let ghost k0 = kept@;
            let bid: u128 = self.blobs[i].id;
            proof {
                let t1 = blobs_as_dir(self.blobs@.take(i + 1));
                let t0 = blobs_as_dir(self.blobs@.take(i as int));
                assert(t1 =~= t0.push(blob_view(self.blobs@[i as int])));
                assert(t1.drop_last() =~= t0);
                assert(t1.last() == blob_view(self.blobs@[i as int]));
            }
            if !contains_id(&ids, bid) {
                let content = self.blobs[i].content.clone();
                proof {
                    assert(content@ =~= self.blobs@[i as int].content@);
                }
                kept.push(Blob { id: bid, content });
                proof {
                    assert(blobs_as_dir(kept@) =~= blobs_as_dir(k0).push(
                        blob_view(self.blobs@[i as int]),
                    ));
                }
            }
            i += 1;
        }
        proof {
            assert(self.blobs@.take(self.blobs@.len() as int) == self.blobs@);
        }
        self.blobs = kept;
        Ok(())
    }

    /// Hands out the consistent copy of the named collections' update
    /// state that a snapshot persists at its destination.
    pub fn handle_snapshot(&self, uuids: &Vec<u128>) -> (r: Result<
        Vec<(u128, UpdateStatus)>,
        UpdateError,
    >)
        ensures
            r matches Ok(v) && v@ == entries_of(self.log(), uuids@),
    {
        Ok(self.store.selected_entries(uuids))
    }

    /// Hands out the named collections' update history that a dump
    /// serializes to its destination.
    pub fn handle_dump(&self, uuids: &Vec<u128>) -> (r: Result<
        Vec<(u128, UpdateStatus)>,
        UpdateError,
    >)
        ensures
            r matches Ok(v) && v@ == entries_of(self.log(), uuids@),
    {
        Ok(self.store.selected_entries(uuids))
    }

    /// Reports aggregate statistics: pending updates and the blob
    /// directory's total size, clamped at `u64::MAX`.
    pub fn handle_get_info(&self) -> (r: Result<UpdateStoreInfo, UpdateError>)
        ensures
            r matches Ok(info) && info.pending == count_enqueued(self.log()) && info.size == sat64(
                blobs_total_size(self.blob_dir()),
            ),
    {
        let pending = self.store.pending_count();
        let mut size: u64 = 0;
        let mut i: usize = 0;
        while i < self.blobs.len()
            invariant
                0 <= i <= self.blobs@.len(),
                size == sat64(blobs_total_size(blobs_as_dir(self.blobs@.take(i as int)))),
            decreases self.blobs@.len() - i,
        {
            let l: usize = self.blobs[i].content.len();
            let l64: u64 = l as u64;
            proof {
                let t1 = blobs_as_dir(self.blobs@.take(i + 1));
                let t0 = blobs_as_dir(self.blobs@.take(i as int));
                assert(t1 =~= t0.push(blob_view(self.blobs@[i as int])));
                assert(t1.drop_last() =~= t0);
                assert(blobs_total_size(t1) == blobs_total_size(t0)
                    + self.blobs@[i as int].content@.len());
                lemma_blobs_total_size_nonneg(t0);
                assert(l64 == l);
                assert(l == self.blobs@[i as int].content@.len());
            }
            if u64::MAX - size < l64 {
                size = u64::MAX;
            } else {
                size = size + l64;
            }
            i += 1;
        }
        proof {
            assert(self.blobs@.take(self.blobs@.len() as int) == self.blobs@);
        }
        Ok(UpdateStoreInfo { size, pending })
    }

    /// The id of the most recently captured blob still in the blob
    /// directory, if any — after a rejected payload, the blob left
    /// behind for cleanup, so the embedding runtime can mirror it.
    pub fn last_blob_id(&self) -> (r: Option<u128>)
        ensures
            r is Some <==> self.blob_dir().len() > 0,
            r matches Some(id) ==> id == self.blob_dir().last().0,
    {
        if self.blobs.len() == 0 {
            None
        } else {
            let k = self.blobs.len() - 1;
            proof {
                assert(self.blob_dir()[k as int] == blob_view(self.blobs@[k as int]));
            }
            Some(self.blobs[k].id)
        }
    }

    /// Dispatches one operation request to its handler and wraps the
    /// handler's result as the reply for the request's channel.
    pub fn dispatch(&mut self, msg: UpdateMsg) -> (r: UpdateReply)
        requires
            old(self).wf(),
        ensures
            final(self).wf(),
            final(self).stopped() == old(self).stopped(),
            dispatch_outcome(*old(self), *final(self), msg, r),
    {
        match msg {
            UpdateMsg::Update { uuid, meta, data } => {
                UpdateReply::Update(self.handle_update(uuid, meta, &data))
            },
            UpdateMsg::ListUpdates { uuid } => UpdateReply::List(self.handle_list_updates(uuid)),
            UpdateMsg::GetUpdate { uuid, id } => {
                UpdateReply::GetUpdate(self.handle_get_update(uuid, id))
            },
            UpdateMsg::Delete { uuid } => UpdateReply::Delete(self.handle_delete(uuid)),
            UpdateMsg::Snapshot { uuids, path } => {
                UpdateReply::Snapshot { path, entries: self.handle_snapshot(&uuids) }
            },
            UpdateMsg::Dump { uuids, path } => {
                UpdateReply::Dump { path, entries: self.handle_dump(&uuids) }
            },
            UpdateMsg::GetInfo => UpdateReply::GetInfo(self.handle_get_info()),
        }
    }

    /// One inbox cycle: after receiving, the shutdown flag is checked
    /// first — when set, the just-received request is dropped without
    /// a reply, a deliberate choice a caller must read as "request
    /// abandoned", not as success. A closed inbox (`None`) also ends
    /// the loop; otherwise the message is dispatched and its reply
    /// returned for sending.
    pub fn step(&mut self, msg: Option<UpdateMsg>) -> (r: Option<UpdateReply>)
        requires
            old(self).wf(),
        ensures
            final(self).wf(),
            final(self).stopped() == old(self).stopped(),
            old(self).stopped() || msg is None ==> r is None && *final(self) == *old(self),
            !old(self).stopped() ==> (msg matches Some(m) ==> r matches Some(reply)
                && dispatch_outcome(*old(self), *final(self), m, reply)),
    {
        if self.must_exit {
            return None;
        }
        match msg {
            None => None,
            Some(m) => Some(self.dispatch(m)),
        }
    }

    /// Runs the actor over a finite inbox: requests are processed
    /// strictly in arrival order, one at a time, each fully completed
    /// before the next begins, and answered in the same order. With
    /// the shutdown flag set nothing further is processed.
    pub fn run(&mut self, inbox: Vec<UpdateMsg>) -> (r: Vec<UpdateReply>)
        requires
            old(self).wf(),
        ensures
            final(self).wf(),
            run_outcome(*old(self), *final(self), inbox@, r@),
        decreases inbox@.len(),
    {
        let mut inbox = inbox;
        if self.must_exit || inbox.len() == 0 {
            return Vec::new();
        }
        let ghost pre = *old(self);
        let ghost msgs = inbox@;
        let first = inbox.remove(0);
        let ghost tail = inbox@;
        let reply = self.dispatch(first);
        let ghost mid = *self;
        let mut rest = self.run(inbox);
        let ghost rest0 = rest@;
        let mut out: Vec<UpdateReply> = Vec::new();
        out.push(reply);
        out.append(&mut rest);
        proof {
            assert(tail =~= msgs.subrange(1, msgs.len() as int));
            assert(out@.subrange(1, out@.len() as int) =~= rest0);
            assert(out@[0] == reply);
            assert(dispatch_outcome(pre, mid, msgs[0], reply));
            assert(run_outcome(mid, *self, msgs.subrange(1, msgs.len() as int), out@.subrange(1, out@.len() as int)));
            assert(run_outcome(pre, *self, msgs, out@));
        }
        out
    }
}

} // verus!
