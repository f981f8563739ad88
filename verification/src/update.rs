//! The operation protocol's data model: update kinds, payload stream
//! chunks, records, statuses, store statistics and the error taxonomy.

use vstd::prelude::*;

verus! {

/// The kind of mutation an update carries, together with the rule that
/// decides whether an out-of-band payload stream accompanies it.
#[derive(Clone, Copy, PartialEq, Eq, Structural, Debug)]
pub enum UpdateMeta {
    /// Add or replace documents; document bodies travel in the payload stream.
    DocumentsAddition,
    /// Delete the documents named by the payload stream.
    DeleteDocuments,
    /// Remove every document of the collection; no payload.
    ClearDocuments,
    /// Change the collection's settings; no payload.
    Settings,
}

impl UpdateMeta {
    /// Whether this kind of update is accompanied by a payload stream.
    pub open spec fn spec_carries_payload(self) -> bool {
        self is DocumentsAddition || self is DeleteDocuments
    }

    /// Decides whether a payload stream must be captured for this update.
    pub fn carries_payload(&self) -> (r: bool)
        ensures
            r == self.spec_carries_payload(),
    {
        match self {
            UpdateMeta::DocumentsAddition => true,
            UpdateMeta::DeleteDocuments => true,
            UpdateMeta::ClearDocuments => false,
            UpdateMeta::Settings => false,
        }
    }
}

/// One element of a payload stream: either a chunk of bytes or a
/// transport failure that terminates the stream with its message.
#[derive(Clone, PartialEq, Eq, Debug)]
pub enum PayloadData {
    Bytes(Vec<u8>),
    TransportFailed(String),
}

/// The unit persisted by the update log: the per-collection sequence id
/// assigned at registration, the update's kind, and an optional
/// reference to a captured payload blob.
#[derive(Clone, Copy, PartialEq, Eq, Debug)]
pub struct UpdateRecord {
    pub update_id: u64,
    pub meta: UpdateMeta,
    pub payload: Option<u128>,
}

/// The lifecycle status of a registered update. This core only ever
/// creates `Enqueued` records; the later states are advanced by the
/// update log's own background applier.
#[derive(Clone, Copy, PartialEq, Eq, Debug)]
pub enum UpdateStatus {
    Enqueued(UpdateRecord),
    Processing(UpdateRecord),
    Processed(UpdateRecord),
    Failed(UpdateRecord),
}

impl UpdateStatus {
    /// The record carried by any status.
    pub open spec fn spec_record(self) -> UpdateRecord {
        match self {
            UpdateStatus::Enqueued(r) => r,
            UpdateStatus::Processing(r) => r,
            UpdateStatus::Processed(r) => r,
            UpdateStatus::Failed(r) => r,
        }
    }

    /// The sequence id of the record carried by any status.
    pub open spec fn spec_id(self) -> u64 {
        self.spec_record().update_id
    }

    /// Returns the record carried by this status.
    pub fn record(&self) -> (r: UpdateRecord)
        ensures
            r == self.spec_record(),
    {
        match self {
            UpdateStatus::Enqueued(r) => *r,
            UpdateStatus::Processing(r) => *r,
            UpdateStatus::Processed(r) => *r,
            UpdateStatus::Failed(r) => *r,
        }
    }
}

/// Aggregate, point-in-time statistics describing the update log as a
/// whole: total size of captured payload blobs and the number of
/// updates still waiting to be applied.
#[derive(Clone, Copy, PartialEq, Eq, Debug)]
pub struct UpdateStoreInfo {
    pub size: u64,
    pub pending: u64,
}

/// The error taxonomy surfaced to callers of the coordinator.
#[derive(Clone, PartialEq, Eq, Debug)]
pub enum UpdateError {
    /// A payload chunk failed in transit; carries the transport's message.
    Transport(String),
    /// The payload is not well-formed JSON; carries the diagnostic
    /// derived from the full fallback parse.
    InvalidPayload(String),
    /// The requested sequence id is unknown for the collection.
    UnexistingUpdate(u64),
    /// The collection's sequence counter cannot assign a further id.
    SequenceExhausted,
    /// A local file operation failed; raised by the embedding runtime,
    /// which owns all file I/O — never by the verified core itself.
    Io(String),
}

impl UpdateError {
    /// A short human-readable description of the error; for the two
    /// message-carrying variants it is the carried message itself.
    pub fn message(&self) -> (r: String)
        ensures
            self matches UpdateError::Transport(m) ==> r@ == m@,
            self matches UpdateError::InvalidPayload(m) ==> r@ == m@,
            self matches UpdateError::Io(m) ==> r@ == m@,
            self is UnexistingUpdate || self is SequenceExhausted ==> r@.len() > 0,
    {
        match self {
            UpdateError::Transport(m) => m.clone(),
            UpdateError::InvalidPayload(m) => m.clone(),
            UpdateError::Io(m) => m.clone(),
            UpdateError::UnexistingUpdate(_) => {
                proof {
                    reveal_strlit("update doesn't exist");
                }
                "update doesn't exist".to_owned()
            },
            UpdateError::SequenceExhausted => {
                proof {
                    reveal_strlit("sequence ids exhausted");
                }
                "sequence ids exhausted".to_owned()
            },
        }
    }
}

} // verus!
