//! The service: the journaled write path (create, update), the point
//! lookup, and the change-feed reader, over the storage engine adapter.
//!
//! Every mutation inserts the new stored record and appends a change entry
//! in one atomic engine transaction; updates are guarded by the
//! optimistic-concurrency version check.  The service invariant ties the
//! two key spaces together: every stored record decodes, every journal
//! entry decodes, journal identifiers sit below the generator's floor, and
//! the latest change for each record carries the record's current version
//! and payload.

use vstd::prelude::*;

use crate::engine::{
    engine_id_floor, engine_journal, engine_resources, fresh_record_id, is_page, Engine,
};
use crate::keys::{
    check_ident_bytes, journal_key_bytes, journal_key_bytes_of, parse_journal_key,
    storage_key_bytes, valid_ident_bytes, KEY_SEPARATOR,
};
use crate::protos::{
    ApiError, Change, ChangeId, ChangeView, ChangesReply, CreateRequest, CreateResponse, GetReply,
    GetRequest, OwnerId, Payload, ReadChangesRequest, RecordId, StoredRecord, StoredRecordView,
    UpdateReply, UpdateRequest, Version,
};
use crate::wire::{
    dec_change, dec_stored, decode_change, decode_stored_record, enc_change, enc_stored,
    encode_change, encode_stored_record,
};

verus! {

broadcast use vstd::utf8::encode_utf8_valid_utf8;

/// View of an optional owner as its UTF-8 bytes.
pub open spec fn owner_view(o: Option<OwnerId>) -> Option<Seq<u8>> {
    match o {
        Some(x) => Some(x@),
        None => None,
    }
}

/// View of an optional record identifier as its UTF-8 bytes.
pub open spec fn record_view(r: Option<RecordId>) -> Option<Seq<u8>> {
    match r {
        Some(x) => Some(x@),
        None => None,
    }
}

/// View of an optional payload as its bytes.
pub open spec fn payload_view(p: Option<Payload>) -> Option<Seq<u8>> {
    match p {
        Some(x) => Some(x@),
        None => None,
    }
}

/// The bytes of an owner that is known to be present.
pub open spec fn the_owner_bytes(o: Option<OwnerId>) -> Seq<u8> {
    match o {
        Some(x) => x@,
        None => Seq::empty(),
    }
}

/// The bytes of a record identifier that is known to be present.
pub open spec fn the_record_bytes(r: Option<RecordId>) -> Seq<u8> {
    match r {
        Some(x) => x@,
        None => Seq::empty(),
    }
}

/// The value of a version that is known to be present.
pub open spec fn the_version_value(v: Option<Version>) -> i32 {
    match v {
        Some(x) => x.value,
        None => 0,
    }
}

/// A create request the service accepts: present, valid owner; payload
/// within the encoding layer's field limit.
pub open spec fn valid_create_request(req: CreateRequest) -> bool {
    &&& (req.owner_id matches Some(o) && valid_ident_bytes(o@))
    &&& (req.payload matches Some(p) ==> p@.len() <= 0x7fffffff)
}

/// A get request the service accepts: both identifiers present and valid.
pub open spec fn valid_get_request(req: GetRequest) -> bool {
    &&& (req.owner_id matches Some(o) && valid_ident_bytes(o@))
    &&& (req.record_id matches Some(r) && valid_ident_bytes(r@))
}

/// An update request the service accepts.
pub open spec fn valid_update_request(req: UpdateRequest) -> bool {
    &&& (req.owner_id matches Some(o) && valid_ident_bytes(o@))
    &&& (req.record_id matches Some(r) && valid_ident_bytes(r@))
    &&& req.version is Some
    &&& (req.payload matches Some(p) ==> p@.len() <= 0x7fffffff)
}

/// A change-feed request the service accepts: a non-negative limit and,
/// when present, a cursor of exactly eight bytes.
pub open spec fn valid_read_changes_request(req: ReadChangesRequest) -> bool {
    &&& req.limit >= 0
    &&& (req.after matches Some(c) ==> c@.len() == 8)
}

/// Stored bytes are well formed: they decode to a record whose version is
/// present and non-negative.
pub open spec fn valid_stored_bytes(b: Seq<u8>) -> bool {
    &&& dec_stored(b) matches Some(r)
    &&& dec_stored(b) matches Some(r) ==> r.version matches Some(v) && v >= 0
}

/// Journal bytes are well formed: they decode to a change that names a
/// valid owner and record and carries a non-negative version.
pub open spec fn valid_change_bytes(b: Seq<u8>) -> bool {
    &&& dec_change(b) matches Some(c)
    &&& dec_change(b) matches Some(c) ==> {
        &&& c.owner_id matches Some(o) && valid_ident_bytes(o)
        &&& c.record_id matches Some(r) && valid_ident_bytes(r)
        &&& c.version matches Some(v) && v >= 0
    }
}

/// The change entry concerns the record stored at key `k`.
pub open spec fn change_is_for(b: Seq<u8>, k: Seq<u8>) -> bool {
    &&& dec_change(b) matches Some(c)
    &&& dec_change(b) matches Some(c) ==> c.owner_id matches Some(o) && c.record_id matches Some(
        r,
    ) && storage_key_bytes(o, r) == k
}

/// The change entry carries the same version and payload as the stored
/// record bytes.
pub open spec fn change_matches_stored(cb: Seq<u8>, rb: Seq<u8>) -> bool {
    &&& dec_change(cb) matches Some(c)
    &&& dec_stored(rb) matches Some(r)
    &&& (dec_change(cb) matches Some(c) && dec_stored(rb) matches Some(r)) ==> c.version
        == r.version && c.payload == r.payload
}

/// `id` is the latest journal entry for the record at key `k`, and it
/// agrees with the stored record.
pub open spec fn latest_change_witness(
    res: Map<Seq<u8>, Seq<u8>>,
    jnl: Map<u64, Seq<u8>>,
    k: Seq<u8>,
    id: u64,
) -> bool {
    &&& jnl.contains_key(id)
    &&& change_is_for(jnl[id], k)
    &&& change_matches_stored(jnl[id], res[k])
    &&& forall|id2: u64|
        #[trigger] jnl.contains_key(id2) && id2 > id ==> !change_is_for(jnl[id2], k)
}

/// Journal-state agreement: every stored record has a latest change in the
/// journal carrying its current version and payload.
pub open spec fn journal_state_agree(res: Map<Seq<u8>, Seq<u8>>, jnl: Map<u64, Seq<u8>>) -> bool {
    forall|k: Seq<u8>|
        #[trigger] res.contains_key(k) ==> exists|id: u64| latest_change_witness(res, jnl, k, id)
}

/// The whole service state is well formed.
pub open spec fn wf_state(res: Map<Seq<u8>, Seq<u8>>, jnl: Map<u64, Seq<u8>>, floor: u64) -> bool {
    &&& forall|k: Seq<u8>| #[trigger] res.contains_key(k) ==> valid_stored_bytes(res[k])
    &&& forall|id: u64|
        #[trigger] jnl.contains_key(id) ==> id < floor && valid_change_bytes(jnl[id])
    &&& journal_state_agree(res, jnl)
}

/// The version the record at `skey` currently has; `-1` when absent.
pub open spec fn current_version(res: Map<Seq<u8>, Seq<u8>>, skey: Seq<u8>) -> int {
    if res.contains_key(skey) {
        match dec_stored(res[skey]) {
            Some(r) => match r.version {
                Some(v) => v as int,
                None => 0,
            },
            None => 0,
        }
    } else {
        -1
    }
}

/// The optimistic-concurrency rule: an update commits exactly when the
/// expected version equals the current one (and the version space is not
/// exhausted).
pub open spec fn update_allowed(res: Map<Seq<u8>, Seq<u8>>, skey: Seq<u8>, expected: i32) -> bool {
    &&& expected == current_version(res, skey)
    &&& expected < i32::MAX
}

/// One accepted mutation of the record `(owner, record)`: its stored bytes
/// are replaced at version `v` with payload `p`, and a change entry under
/// a fresh journal identifier `id` is appended, atomically.
pub open spec fn mutation_step(
    res0: Map<Seq<u8>, Seq<u8>>,
    jnl0: Map<u64, Seq<u8>>,
    floor0: u64,
    res1: Map<Seq<u8>, Seq<u8>>,
    jnl1: Map<u64, Seq<u8>>,
    floor1: u64,
    owner: Seq<u8>,
    record: Seq<u8>,
    v: i32,
    p: Option<Seq<u8>>,
    id: u64,
) -> bool {
    &&& res1 == res0.insert(
        storage_key_bytes(owner, record),
        enc_stored(StoredRecordView { version: Some(v), payload: p }),
    )
    &&& jnl1 == jnl0.insert(
        id,
        enc_change(
            ChangeView {
                owner_id: Some(owner),
                record_id: Some(record),
                version: Some(v),
                payload: p,
            },
        ),
    )
    &&& id >= floor0
    &&& floor1 > id
}

/// An accepted mutation preserves the service invariant.
pub proof fn lemma_mutation_preserves_inv(
    res0: Map<Seq<u8>, Seq<u8>>,
    jnl0: Map<u64, Seq<u8>>,
    floor0: u64,
    res1: Map<Seq<u8>, Seq<u8>>,
    jnl1: Map<u64, Seq<u8>>,
    floor1: u64,
    owner: Seq<u8>,
    record: Seq<u8>,
    v: i32,
    p: Option<Seq<u8>>,
    id: u64,
)
    requires
        wf_state(res0, jnl0, floor0),
        mutation_step(res0, jnl0, floor0, res1, jnl1, floor1, owner, record, v, p, id),
        v >= 0,
        valid_ident_bytes(owner),
        valid_ident_bytes(record),
        vstd::utf8::valid_utf8(owner),
        vstd::utf8::valid_utf8(record),
        p matches Some(pp) ==> pp.len() <= 0x7fffffff,
    ensures
        wf_state(res1, jnl1, floor1),
{
    let skey = storage_key_bytes(owner, record);
    let rec = StoredRecordView { version: Some(v), payload: p };
    let ch = ChangeView {
        owner_id: Some(owner),
        record_id: Some(record),
        version: Some(v),
        payload: p,
    };
    crate::wire::lemma_stored_roundtrip(rec);
    crate::wire::lemma_change_roundtrip(ch);
    assert forall|k: Seq<u8>| #[trigger] res1.contains_key(k) implies valid_stored_bytes(
        res1[k],
    ) by {
        if k != skey {
            assert(res0.contains_key(k) && res1[k] == res0[k]);
        }
    }
    assert forall|jid: u64| #[trigger] jnl1.contains_key(jid) implies jid < floor1
        && valid_change_bytes(jnl1[jid]) by {
        if jid != id {
            assert(jnl0.contains_key(jid));
            assert(jid < floor0);
        }
    }
    assert forall|k: Seq<u8>| #[trigger] res1.contains_key(k) implies exists|wid: u64|
        latest_change_witness(res1, jnl1, k, wid) by {
        if k == skey {
            assert forall|id2: u64| #[trigger] jnl1.contains_key(id2) && id2 > id implies
            !change_is_for(jnl1[id2], k) by {
                assert(jnl0.contains_key(id2));
                assert(id2 < floor0);
                assert(false);
            }
            assert(latest_change_witness(res1, jnl1, k, id));
        } else {
            assert(res0.contains_key(k));
            let wid = choose|wid: u64| latest_change_witness(res0, jnl0, k, wid);
            assert(latest_change_witness(res0, jnl0, k, wid));
            assert(jnl0.contains_key(wid));
            assert(wid < floor0);
            assert(wid != id);
            assert(jnl1[wid] == jnl0[wid]);
            assert(res1[k] == res0[k]);
            assert forall|id2: u64| #[trigger] jnl1.contains_key(id2) && id2 > wid implies
            !change_is_for(jnl1[id2], k) by {
                if id2 == id {
                    assert(jnl1[id] == enc_change(ch));
                    assert(storage_key_bytes(owner, record) == skey);
                } else {
                    assert(jnl0.contains_key(id2));
                }
            }
            assert(latest_change_witness(res1, jnl1, k, wid));
        }
    }
}

/// Checks an optional owner identifier.
fn check_owner(o: &Option<OwnerId>) -> (r: bool)
    ensures
        r == (owner_view(*o) matches Some(b) && valid_ident_bytes(b)),
{
    match o {
        Some(x) => check_ident_bytes(x.value.as_str().as_bytes()),
        None => false,
    }
}

/// Checks an optional record identifier.
fn check_record(o: &Option<RecordId>) -> (r: bool)
    ensures
        r == (record_view(*o) matches Some(b) && valid_ident_bytes(b)),
{
    match o {
        Some(x) => check_ident_bytes(x.value.as_str().as_bytes()),
        None => false,
    }
}

/// Checks an optional payload against the encoding layer's field limit.
fn check_payload(p: &Option<Payload>) -> (r: bool)
    ensures
        r == (payload_view(*p) matches Some(b) ==> b.len() <= 0x7fffffff),
{
    match p {
        Some(x) => x.bytes.len() <= 0x7fffffff,
        None => true,
    }
}

/// Copies a byte vector.
fn dup_bytes(v: &Vec<u8>) -> (r: Vec<u8>)
    ensures
        r@ == v@,
{
    let mut r: Vec<u8> = Vec::new();
    let mut i: usize = 0;
    while i < v.len()
        invariant
            0 <= i <= v@.len(),
            r@ == v@.take(i as int),
        decreases v@.len() - i,
    {
        r.push(v[i]);
        proof {
            assert(r@ =~= v@.take(i as int + 1));
        }
        i = i + 1;
    }
    proof {
        assert(v@.take(v@.len() as int) =~= v@);
    }
    r
}

/// Copies an optional payload.
fn dup_payload(p: &Option<Payload>) -> (r: Option<Payload>)
    ensures
        payload_view(r) == payload_view(*p),
{
    match p {
        Some(x) => Some(Payload { bytes: dup_bytes(&x.bytes) }),
        None => None,
    }
}

/// The service: the open engine handle, and a fuse that trips when an
/// engine transaction fails.  A failed commit may leave the engine's key
/// spaces half-applied, so from then on every operation refuses with
/// `Internal` rather than serve from a possibly divergent state.
pub struct BobsledJournalApi {
    engine: Engine,
    poisoned: bool,
}

impl BobsledJournalApi {
    /// Contents of the `resources` key space.
    pub closed spec fn resources(&self) -> Map<Seq<u8>, Seq<u8>> {
        engine_resources(&self.engine)
    }

    /// Contents of the `journal` key space.
    pub closed spec fn journal(&self) -> Map<u64, Seq<u8>> {
        engine_journal(&self.engine)
    }

    /// Strict upper bound on every journal identifier handed out so far.
    pub closed spec fn id_floor(&self) -> u64 {
        engine_id_floor(&self.engine)
    }

    /// The fuse: set once an engine transaction has failed.
    pub closed spec fn poisoned(&self) -> bool {
        self.poisoned
    }

    /// Says whether the fuse has tripped; a poisoned service answers every
    /// well-formed request with `Internal`.
    pub fn is_poisoned(&self) -> (r: bool)
        ensures
            r == self.poisoned(),
    {
        self.poisoned
    }

    /// The service invariant; established at open and preserved by every
    /// operation.  It constrains only the healthy state: once the fuse has
    /// tripped nothing more is claimed of the engine, and nothing is
    /// served from it.
    pub open spec fn inv(&self) -> bool {
        !self.poisoned() ==> wf_state(self.resources(), self.journal(), self.id_floor())
    }

    /// Opens a fresh, empty, temporary store.
    pub fn open_temporary() -> (r: Result<Self, ApiError>)
        ensures
            r matches Ok(s) ==> {
                &&& s.inv()
                &&& !s.poisoned()
                &&& s.resources() == Map::<Seq<u8>, Seq<u8>>::empty()
                &&& s.journal() == Map::<u64, Seq<u8>>::empty()
            },
    {
        match Engine::open_temporary() {
            Ok(e) => Ok(BobsledJournalApi { engine: e, poisoned: false }),
            Err(_) => Err(ApiError::Internal),
        }
    }

    /// Builds the composite storage key of a record.
    pub fn make_storage_key(owner_id: &OwnerId, record_id: &RecordId) -> (r: Vec<u8>)
        ensures
            r@ == storage_key_bytes(owner_id@, record_id@),
    {
        let mut r: Vec<u8> = Vec::new();
        r.extend_from_slice(owner_id.value.as_str().as_bytes());
        r.push(KEY_SEPARATOR);
        r.extend_from_slice(record_id.value.as_str().as_bytes());
        proof {
            assert(r@ =~= storage_key_bytes(owner_id@, record_id@));
        }
        r
    }

    /// Creates a record under a server-assigned fresh identifier.
    pub fn create(&mut self, request: CreateRequest) -> (r: Result<CreateResponse, ApiError>)
        requires
            old(self).inv(),
        ensures
            final(self).inv(),
            final(self).id_floor() >= old(self).id_floor(),
            old(self).poisoned() ==> final(self).poisoned() && final(self).resources() == old(
                self,
            ).resources() && final(self).journal() == old(self).journal(),
            !old(self).poisoned() && final(self).poisoned() ==> r == Err::<
                CreateResponse,
                ApiError,
            >(ApiError::Internal),
            !valid_create_request(request) ==> r == Err::<CreateResponse, ApiError>(
                ApiError::InvalidArgument,
            ),
            valid_create_request(request) && old(self).poisoned() ==> r == Err::<
                CreateResponse,
                ApiError,
            >(ApiError::Internal),
            valid_create_request(request) ==> r != Err::<CreateResponse, ApiError>(
                ApiError::InvalidArgument,
            ) && r != Err::<CreateResponse, ApiError>(ApiError::Aborted),
            r matches Err(_) && !final(self).poisoned() ==> final(self).resources() == old(
                self,
            ).resources() && final(self).journal() == old(self).journal(),
            r matches Ok(resp) ==> {
                &&& !old(self).poisoned() && !final(self).poisoned()
                &&& valid_create_request(request)
                &&& resp.record_id matches Some(rid) && valid_ident_bytes(rid@) && (exists|id: u64|
                    #[trigger] mutation_step(
                        old(self).resources(),
                        old(self).journal(),
                        old(self).id_floor(),
                        final(self).resources(),
                        final(self).journal(),
                        final(self).id_floor(),
                        the_owner_bytes(request.owner_id),
                        rid@,
                        0,
                        payload_view(request.payload),
                        id,
                    ))
            },
    {
        if !check_owner(&request.owner_id) || !check_payload(&request.payload) {
            return Err(ApiError::InvalidArgument);
        }
        let record = RecordId { value: fresh_record_id() };
        match self.create_with_record_id(request, record) {
            Ok(resp) => Ok(resp),
            Err(ApiError::InvalidArgument) => Err(ApiError::Internal),
            Err(e) => Err(e),
        }
    }

    /// Creates a record under a caller-supplied identifier; the core of
    /// `create`, deterministic in its inputs.
    pub fn create_with_record_id(&mut self, request: CreateRequest, record: RecordId) -> (r:
        Result<CreateResponse, ApiError>)
        requires
            old(self).inv(),
        ensures
            final(self).inv(),
            final(self).id_floor() >= old(self).id_floor(),
            old(self).poisoned() ==> final(self).poisoned() && final(self).resources() == old(
                self,
            ).resources() && final(self).journal() == old(self).journal(),
            !old(self).poisoned() && final(self).poisoned() ==> r == Err::<
                CreateResponse,
                ApiError,
            >(ApiError::Internal),
            !(valid_create_request(request) && valid_ident_bytes(record@)) ==> r == Err::<
                CreateResponse,
                ApiError,
            >(ApiError::InvalidArgument),
            valid_create_request(request) && valid_ident_bytes(record@) && old(self).poisoned()
                ==> r == Err::<CreateResponse, ApiError>(ApiError::Internal),
            valid_create_request(request) && valid_ident_bytes(record@) ==> r != Err::<
                CreateResponse,
                ApiError,
            >(ApiError::InvalidArgument) && r != Err::<CreateResponse, ApiError>(ApiError::Aborted),
            r matches Err(_) && !final(self).poisoned() ==> final(self).resources() == old(
                self,
            ).resources() && final(self).journal() == old(self).journal(),
            r matches Ok(resp) ==> {
                &&& !old(self).poisoned() && !final(self).poisoned()
                &&& valid_create_request(request)
                &&& resp.record_id matches Some(rid) && rid@ == record@ && valid_ident_bytes(rid@)
                    && (exists|id: u64|
                    #[trigger] mutation_step(
                        old(self).resources(),
                        old(self).journal(),
                        old(self).id_floor(),
                        final(self).resources(),
                        final(self).journal(),
                        final(self).id_floor(),
                        the_owner_bytes(request.owner_id),
                        rid@,
                        0,
                        payload_view(request.payload),
                        id,
                    ))
            },
    {
        if !check_owner(&request.owner_id) || !check_payload(&request.payload)
            || !check_ident_bytes(record.value.as_str().as_bytes()) {
            return Err(ApiError::InvalidArgument);
        }
        if self.poisoned {
            return Err(ApiError::Internal);
        }
        let owner = match request.owner_id {
            Some(o) => o,
            None => {
                return Err(ApiError::InvalidArgument);
            },
        };
        let version = Version { value: 0 };
        let skey = Self::make_storage_key(&owner, &record);
        let stored = StoredRecord { version: Some(version), payload: dup_payload(&request.payload) };
        let stored_bytes = encode_stored_record(&stored);
        let change = Change {
            owner_id: Some(owner),
            record_id: Some(RecordId { value: record.value.clone() }),
            version: Some(version),
            payload: request.payload,
        };
        let change_bytes = encode_change(&change);
        match self.engine.txn_insert(&skey, &stored_bytes, &change_bytes) {
            Ok(id) => {
                proof {
                    assert(stored@ == StoredRecordView {
                        version: Some(0),
                        payload: payload_view(request.payload),
                    });
                    assert(change@ == ChangeView {
                        owner_id: Some(the_owner_bytes(request.owner_id)),
                        record_id: Some(record@),
                        version: Some(0),
                        payload: payload_view(request.payload),
                    });
                    assert(mutation_step(
                        old(self).resources(),
                        old(self).journal(),
                        old(self).id_floor(),
                        self.resources(),
                        self.journal(),
                        self.id_floor(),
                        the_owner_bytes(request.owner_id),
                        record@,
                        0,
                        payload_view(request.payload),
                        id,
                    ));
                    lemma_mutation_preserves_inv(
                        old(self).resources(),
                        old(self).journal(),
                        old(self).id_floor(),
                        self.resources(),
                        self.journal(),
                        self.id_floor(),
                        the_owner_bytes(request.owner_id),
                        record@,
                        0,
                        payload_view(request.payload),
                        id,
                    );
                }
                Ok(CreateResponse { record_id: Some(record) })
            },
            Err(_) => {
                self.poisoned = true;
                Err(ApiError::Internal)
            },
        }
    }

    /// Point lookup of a record's current state.
    pub fn get(&self, request: GetRequest) -> (r: Result<GetReply, ApiError>)
        requires
            self.inv(),
        ensures
            !valid_get_request(request) ==> r == Err::<GetReply, ApiError>(
                ApiError::InvalidArgument,
            ),
            valid_get_request(request) ==> r != Err::<GetReply, ApiError>(ApiError::InvalidArgument)
                && r != Err::<GetReply, ApiError>(ApiError::Aborted),
            valid_get_request(request) && self.poisoned() ==> r == Err::<GetReply, ApiError>(
                ApiError::Internal,
            ),
            r matches Ok(reply) ==> {
                let skey = storage_key_bytes(
                    the_owner_bytes(request.owner_id),
                    the_record_bytes(request.record_id),
                );
                &&& !self.poisoned()
                &&& valid_get_request(request)
                &&& owner_view(reply.owner_id) == owner_view(request.owner_id)
                &&& record_view(reply.record_id) == record_view(request.record_id)
                &&& match reply.record {
                    Some(rec) => self.resources().contains_key(skey) && dec_stored(
                        self.resources()[skey],
                    ) == Some(rec@),
                    None => !self.resources().contains_key(skey),
                }
            },
    {
        if !check_owner(&request.owner_id) || !check_record(&request.record_id) {
            return Err(ApiError::InvalidArgument);
        }
        if self.poisoned {
            return Err(ApiError::Internal);
        }
        let owner = match request.owner_id {
            Some(o) => o,
            None => {
                return Err(ApiError::InvalidArgument);
            },
        };
        let record = match request.record_id {
            Some(x) => x,
            None => {
                return Err(ApiError::InvalidArgument);
            },
        };
        let skey = Self::make_storage_key(&owner, &record);
        let found = match self.engine.get_resource(&skey) {
            Ok(o) => o,
            Err(_) => {
                return Err(ApiError::Internal);
            },
        };
        let rec = match found {
            Some(bytes) => match decode_stored_record(&bytes) {
                Some(rec) => Some(rec),
                None => {
                    return Err(ApiError::Internal);
                },
            },
            None => None,
        };
        Ok(GetReply { owner_id: Some(owner), record_id: Some(record), record: rec })
    }

    /// Replaces a record's payload, guarded by the expected version.  On
    /// success the new record and its change entry are committed together;
    /// if the engine fails mid-commit the fuse trips and the service stops
    /// answering, so a half-applied state is never served.  An absent
    /// record reads as version `-1`, so an update expecting `-1` creates
    /// the record at version 0 under the caller's identifier; an existing
    /// record can never be overwritten that way.
    pub fn update(&mut self, request: UpdateRequest) -> (r: Result<UpdateReply, ApiError>)
        requires
            old(self).inv(),
        ensures
            final(self).inv(),
            final(self).id_floor() >= old(self).id_floor(),
            old(self).poisoned() ==> final(self).poisoned() && final(self).resources() == old(
                self,
            ).resources() && final(self).journal() == old(self).journal(),
            !old(self).poisoned() && final(self).poisoned() ==> r == Err::<UpdateReply, ApiError>(
                ApiError::Internal,
            ),
            !valid_update_request(request) ==> r == Err::<UpdateReply, ApiError>(
                ApiError::InvalidArgument,
            ) && final(self).resources() == old(self).resources() && final(self).journal() == old(self).journal(),
            valid_update_request(request) && old(self).poisoned() ==> r == Err::<
                UpdateReply,
                ApiError,
            >(ApiError::Internal),
            r matches Err(_) && !final(self).poisoned() ==> final(self).resources() == old(
                self,
            ).resources() && final(self).journal() == old(self).journal(),
            r == Err::<UpdateReply, ApiError>(ApiError::Aborted) ==> valid_update_request(request)
                && !update_allowed(
                old(self).resources(),
                storage_key_bytes(
                    the_owner_bytes(request.owner_id),
                    the_record_bytes(request.record_id),
                ),
                the_version_value(request.version),
            ),
            valid_update_request(request) && !update_allowed(
                old(self).resources(),
                storage_key_bytes(
                    the_owner_bytes(request.owner_id),
                    the_record_bytes(request.record_id),
                ),
                the_version_value(request.version),
            ) ==> r == Err::<UpdateReply, ApiError>(ApiError::Aborted) || r == Err::<
                UpdateReply,
                ApiError,
            >(ApiError::Internal),
            valid_update_request(request) && update_allowed(
                old(self).resources(),
                storage_key_bytes(
                    the_owner_bytes(request.owner_id),
                    the_record_bytes(request.record_id),
                ),
                the_version_value(request.version),
            ) ==> r matches Ok(_) || r == Err::<UpdateReply, ApiError>(ApiError::Internal),
            r matches Ok(reply) ==> {
                let expected = the_version_value(request.version);
                &&& !old(self).poisoned() && !final(self).poisoned()
                &&& valid_update_request(request)
                &&& update_allowed(
                    old(self).resources(),
                    storage_key_bytes(
                        the_owner_bytes(request.owner_id),
                        the_record_bytes(request.record_id),
                    ),
                    expected,
                )
                &&& owner_view(reply.owner_id) == owner_view(request.owner_id)
                &&& record_view(reply.record_id) == record_view(request.record_id)
                &&& reply.new_version == Some(Version { value: (expected + 1) as i32 })
                &&& (exists|id: u64|
                    #[trigger] mutation_step(
                        old(self).resources(),
                        old(self).journal(),
                        old(self).id_floor(),
                        final(self).resources(),
                        final(self).journal(),
                        final(self).id_floor(),
                        the_owner_bytes(request.owner_id),
                        the_record_bytes(request.record_id),
                        (expected + 1) as i32,
                        payload_view(request.payload),
                        id,
                    ))
            },
    {
        if !check_owner(&request.owner_id) || !check_record(&request.record_id) || !check_payload(
            &request.payload,
        ) {
            return Err(ApiError::InvalidArgument);
        }
        let owner = match request.owner_id {
            Some(o) => o,
            None => {
                return Err(ApiError::InvalidArgument);
            },
        };
        let record = match request.record_id {
            Some(x) => x,
            None => {
                return Err(ApiError::InvalidArgument);
            },
        };
        let expected: i32 = match request.version {
            Some(v) => v.value,
            None => {
                return Err(ApiError::InvalidArgument);
            },
        };
        if self.poisoned {
            return Err(ApiError::Internal);
        }
        let skey = Self::make_storage_key(&owner, &record);
        let found = match self.engine.get_resource(&skey) {
            Ok(o) => o,
            Err(_) => {
                return Err(ApiError::Internal);
            },
        };
        let current: i32 = match found {
            Some(bytes) => match decode_stored_record(&bytes) {
                Some(rec) => match rec.version {
                    Some(v) => v.value,
                    None => {
                        return Err(ApiError::Internal);
                    },
                },
                None => {
                    return Err(ApiError::Internal);
                },
            },
            None => -1,
        };
        proof {
            assert(current as int == current_version(old(self).resources(), skey@));
        }
        if expected != current || expected == i32::MAX {
            return Err(ApiError::Aborted);
        }
        let new_version = Version { value: expected + 1 };
        let stored = StoredRecord {
            version: Some(new_version),
            payload: dup_payload(&request.payload),
        };
        let stored_bytes = encode_stored_record(&stored);
        let change = Change {
            owner_id: Some(OwnerId { value: owner.value.clone() }),
            record_id: Some(RecordId { value: record.value.clone() }),
            version: Some(new_version),
            payload: request.payload,
        };
        let change_bytes = encode_change(&change);
        match self.engine.txn_insert(&skey, &stored_bytes, &change_bytes) {
            Ok(id) => {
                proof {
                    assert(stored@ == StoredRecordView {
                        version: Some((expected + 1) as i32),
                        payload: payload_view(request.payload),
                    });
                    assert(change@ == ChangeView {
                        owner_id: Some(the_owner_bytes(request.owner_id)),
                        record_id: Some(the_record_bytes(request.record_id)),
                        version: Some((expected + 1) as i32),
                        payload: payload_view(request.payload),
                    });
                    assert(mutation_step(
                        old(self).resources(),
                        old(self).journal(),
                        old(self).id_floor(),
                        self.resources(),
                        self.journal(),
                        self.id_floor(),
                        the_owner_bytes(request.owner_id),
                        the_record_bytes(request.record_id),
                        (expected + 1) as i32,
                        payload_view(request.payload),
                        id,
                    ));
                    lemma_mutation_preserves_inv(
                        old(self).resources(),
                        old(self).journal(),
                        old(self).id_floor(),
                        self.resources(),
                        self.journal(),
                        self.id_floor(),
                        owner@,
                        record@,
                        (expected + 1) as i32,
                        payload_view(request.payload),
                        id,
                    );
                }
                Ok(
                    UpdateReply {
                        owner_id: Some(owner),
                        record_id: Some(record),
                        new_version: Some(new_version),
                    },
                )
            },
            Err(_) => {
                self.poisoned = true;
                Err(ApiError::Internal)
            },
        }
    }

    /// Reads up to `limit` journal entries in append order, starting at
    /// the cursor (an inclusive lower bound) or at the beginning.
    pub fn read_changes(&self, request: ReadChangesRequest) -> (r: Result<ChangesReply, ApiError>)
        requires
            self.inv(),
        ensures
            !valid_read_changes_request(request) ==> r == Err::<ChangesReply, ApiError>(
                ApiError::InvalidArgument,
            ),
            valid_read_changes_request(request) ==> r != Err::<ChangesReply, ApiError>(
                ApiError::InvalidArgument,
            ) && r != Err::<ChangesReply, ApiError>(ApiError::Aborted),
            valid_read_changes_request(request) && self.poisoned() ==> r == Err::<
                ChangesReply,
                ApiError,
            >(ApiError::Internal),
            r matches Ok(reply) ==> {
                &&& !self.poisoned()
                &&& valid_read_changes_request(request)
                &&& exists|lower: u64, ids: Seq<u64>|
                    {
                        &&& match request.after {
                            Some(c) => c@ == journal_key_bytes_of(lower),
                            None => lower == 0,
                        }
                        &&& #[trigger] is_page(
                            self.journal(),
                            lower,
                            request.limit as nat,
                            ids,
                        )
                        &&& feed_matches(self.journal(), ids, reply)
                    }
            },
    {
        if request.limit < 0 {
            return Err(ApiError::InvalidArgument);
        }
        let lower: u64 = match &request.after {
            Some(c) => match parse_journal_key(&c.value) {
                Some(id) => {
                    proof {
                        assert(c.value@.len() == 8);
                    }
                    id
                },
                None => {
                    return Err(ApiError::InvalidArgument);
                },
            },
            None => 0,
        };
        if self.poisoned {
            return Err(ApiError::Internal);
        }
        let page = match self.engine.scan_journal(lower, request.limit as usize) {
            Ok(p) => p,
            Err(_) => {
                return Err(ApiError::Internal);
            },
        };
        let mut changes: Vec<Change> = Vec::new();
        let mut idx: usize = 0;
        while idx < page.len()
            invariant
                0 <= idx <= page@.len(),
                changes@.len() == idx,
                !self.poisoned(),
                valid_read_changes_request(request),
                match request.after {
                    Some(c) => c@ == journal_key_bytes_of(lower),
                    None => lower == 0,
                },
                is_page(
                    self.journal(),
                    lower,
                    request.limit as nat,
                    crate::engine::page_ids(page@),
                ),
                forall|i: int|
                    0 <= i < page@.len() ==> (#[trigger] page@[i]).1@ == self.journal()[page@[i].0],
                forall|i: int|
                    0 <= i < idx ==> dec_change(self.journal()[page@[i].0]) == Some(
                        (#[trigger] changes@[i])@,
                    ),
            decreases page@.len() - idx,
        {
            proof {
                assert(crate::engine::page_ids(page@)[idx as int] == page@[idx as int].0);
            }
            match decode_change(&page[idx].1) {
                Some(c) => changes.push(c),
                None => {
                    return Err(ApiError::Internal);
                },
            }
            idx = idx + 1;
        }
        let last_change: Option<ChangeId> = if page.len() > 0 {
            let last_id: u64 = page[page.len() - 1].0;
            proof {
                assert(crate::engine::page_ids(page@).last() == page@[page@.len() - 1].0);
            }
            Some(ChangeId { value: journal_key_bytes(last_id) })
        } else {
            None
        };
        let reply = ChangesReply { last_change, changes };
        proof {
            let ids = crate::engine::page_ids(page@);
            assert(reply.changes@.len() == ids.len());
            assert(feed_matches(self.journal(), ids, reply));
            assert(is_page(self.journal(), lower, request.limit as nat, ids));
        }
        Ok(reply)
    }
}

/// The reply mirrors the journal entries named by `ids`, in order, and its
/// cursor is the key of the last returned entry.
pub open spec fn feed_matches(jnl: Map<u64, Seq<u8>>, ids: Seq<u64>, reply: ChangesReply) -> bool {
    &&& reply.changes@.len() == ids.len()
    &&& forall|i: int|
        0 <= i < ids.len() ==> dec_change(jnl[ids[i]]) == Some((#[trigger] reply.changes@[i])@)
    &&& match reply.last_change {
        Some(c) => ids.len() > 0 && c@ == journal_key_bytes_of(ids.last()),
        None => ids.len() == 0,
    }
}

} // verus!
