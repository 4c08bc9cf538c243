//! Message types of the service: identifiers, records, changes, and the
//! request/reply shapes of the four operations.
//!
//! Each wire-visible type carries a mathematical view: identifiers are seen
//! as their UTF-8 bytes (the storage layer works on bytes), records and
//! changes as plain field tuples over those byte views.

use vstd::prelude::*;
use vstd::utf8::encode_utf8;

verus! {

/// Identifies the principal whose namespace a record lives in.
/// The value is an opaque non-empty UTF-8 string; because the composite
/// storage key separates owner and record with the byte `0x2F`, the service
/// rejects identifiers that contain that byte on ingress.
#[derive(Clone, PartialEq, Debug)]
pub struct OwnerId {
    pub value: String,
}

impl View for OwnerId {
    type V = Seq<u8>;

    open spec fn view(&self) -> Seq<u8> {
        encode_utf8(self.value@)
    }
}

/// Identifies a record inside an owner's namespace.  Assigned by the server
/// at creation time and immutable thereafter.
#[derive(Clone, PartialEq, Debug)]
pub struct RecordId {
    pub value: String,
}

impl View for RecordId {
    type V = Seq<u8>;

    open spec fn view(&self) -> Seq<u8> {
        encode_utf8(self.value@)
    }
}

/// Per-record counter used for optimistic concurrency: `0` at creation,
/// advanced by exactly one on each accepted update.
#[derive(Clone, Copy, PartialEq, Eq, Structural, Debug)]
pub struct Version {
    pub value: i32,
}

/// Cursor into the change journal: the big-endian 8-byte encoding of a
/// monotonic 64-bit journal identifier.  Opaque to clients.
#[derive(Clone, PartialEq, Debug)]
pub struct ChangeId {
    pub value: Vec<u8>,
}

impl View for ChangeId {
    type V = Seq<u8>;

    open spec fn view(&self) -> Seq<u8> {
        self.value@
    }
}

/// A self-describing dynamic value, kept as its encoded bytes.  The engine
/// treats it opaquely: it is stored, retrieved, and echoed into change
/// entries byte-for-byte.
#[derive(Clone, PartialEq, Debug)]
pub struct Payload {
    pub bytes: Vec<u8>,
}

impl View for Payload {
    type V = Seq<u8>;

    open spec fn view(&self) -> Seq<u8> {
        self.bytes@
    }
}

/// Mathematical view of a [`StoredRecord`].
pub struct StoredRecordView {
    pub version: Option<i32>,
    pub payload: Option<Seq<u8>>,
}

/// Current state of a record; replaced wholesale on update.
#[derive(Clone, PartialEq, Debug)]
pub struct StoredRecord {
    pub version: Option<Version>,
    pub payload: Option<Payload>,
}

impl View for StoredRecord {
    type V = StoredRecordView;

    open spec fn view(&self) -> StoredRecordView {
        StoredRecordView {
            version: match self.version {
                Some(v) => Some(v.value),
                None => None,
            },
            payload: match self.payload {
                Some(ref p) => Some(p.bytes@),
                None => None,
            },
        }
    }
}

/// Mathematical view of a [`Change`].
pub struct ChangeView {
    pub owner_id: Option<Seq<u8>>,
    pub record_id: Option<Seq<u8>>,
    pub version: Option<i32>,
    pub payload: Option<Seq<u8>>,
}

/// Immutable journal entry describing one accepted mutation.
#[derive(Clone, PartialEq, Debug)]
pub struct Change {
    pub owner_id: Option<OwnerId>,
    pub record_id: Option<RecordId>,
    pub version: Option<Version>,
    pub payload: Option<Payload>,
}

impl View for Change {
    type V = ChangeView;

    open spec fn view(&self) -> ChangeView {
        ChangeView {
            owner_id: match self.owner_id {
                Some(ref o) => Some(o@),
                None => None,
            },
            record_id: match self.record_id {
                Some(ref r) => Some(r@),
                None => None,
            },
            version: match self.version {
                Some(v) => Some(v.value),
                None => None,
            },
            payload: match self.payload {
                Some(ref p) => Some(p.bytes@),
                None => None,
            },
        }
    }
}

/// Outcome of a request that could not be served, mirroring the standard
/// RPC status set the service speaks.
#[derive(Clone, Copy, PartialEq, Eq, Structural, Debug)]
pub enum ApiError {
    /// A required field is missing, empty, or holds the key separator byte.
    InvalidArgument,
    /// The optimistic version check failed: the expected version does not
    /// match the record's current version.
    Aborted,
    /// The storage engine failed, or stored bytes could not be decoded.
    Internal,
}

/// Asks for a new record under `owner_id`, optionally with a payload.
#[derive(Clone, PartialEq, Debug)]
pub struct CreateRequest {
    pub owner_id: Option<OwnerId>,
    pub payload: Option<Payload>,
}

/// Carries the server-assigned identifier of the new record.
#[derive(Clone, PartialEq, Debug)]
pub struct CreateResponse {
    pub record_id: Option<RecordId>,
}

/// Asks for the current state of one record.
#[derive(Clone, PartialEq, Debug)]
pub struct GetRequest {
    pub owner_id: Option<OwnerId>,
    pub record_id: Option<RecordId>,
}

/// Echoes the identifiers and carries the record, absent when the key does
/// not exist.
#[derive(Clone, PartialEq, Debug)]
pub struct GetReply {
    pub owner_id: Option<OwnerId>,
    pub record_id: Option<RecordId>,
    pub record: Option<StoredRecord>,
}

/// Asks to replace a record's payload, guarded by the expected current
/// version.
#[derive(Clone, PartialEq, Debug)]
pub struct UpdateRequest {
    pub owner_id: Option<OwnerId>,
    pub record_id: Option<RecordId>,
    pub version: Option<Version>,
    pub payload: Option<Payload>,
}

/// Echoes the identifiers and carries the version the record now has.
#[derive(Clone, PartialEq, Debug)]
pub struct UpdateReply {
    pub owner_id: Option<OwnerId>,
    pub record_id: Option<RecordId>,
    pub new_version: Option<Version>,
}

/// Asks for up to `limit` journal entries, from the beginning or from a
/// cursor returned by an earlier call (the cursor is an inclusive lower
/// bound).
#[derive(Clone, PartialEq, Debug)]
pub struct ReadChangesRequest {
    pub after: Option<ChangeId>,
    pub limit: i32,
}

/// A page of journal entries in append order, with a cursor to the last
/// returned entry, absent when the page is empty.
#[derive(Clone, PartialEq, Debug)]
pub struct ChangesReply {
    pub last_change: Option<ChangeId>,
    pub changes: Vec<Change>,
}

} // verus!
