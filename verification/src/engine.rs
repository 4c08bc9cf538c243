//! Storage engine adapter: two named ordered key spaces (`resources` and
//! `journal`) in an embedded store, a monotonic identifier generator, and
//! a multi-space atomic transaction over both.
//!
//! The embedded engine (sled) is an external collaborator; this module
//! holds its handles behind a small set of trusted wrappers.  The
//! wrappers' contracts speak of the key spaces' contents through the
//! uninterpreted names `engine_resources`, `engine_journal` and
//! `engine_id_floor`; everything built on top of them is verified.

use sled::transaction::TransactionalTree;
use sled::Transactional;
use vstd::prelude::*;

verus! {

/// Open handles to the embedded database and its two key spaces.  The
/// struct is opaque to the verifier; its contents are visible to contracts
/// only through the uninterpreted names below, and nothing outside this
/// module can touch the handles directly.
#[verifier::external_body]
pub struct Engine {
    db: sled::Db,
    resources: sled::Tree,
    journal: sled::Tree,
}

/// The embedded store reported an I/O or transaction failure.
#[derive(Clone, Copy, PartialEq, Eq, Structural, Debug)]
pub struct EngineError;

/// Contents of the `resources` key space: storage key to stored bytes.
pub uninterp spec fn engine_resources(e: &Engine) -> Map<Seq<u8>, Seq<u8>>;

/// Contents of the `journal` key space, keyed by the 64-bit identifier
/// whose big-endian bytes form the on-disk key.
pub uninterp spec fn engine_journal(e: &Engine) -> Map<u64, Seq<u8>>;

/// Strict upper bound on every identifier the generator has handed out so
/// far; the generator never hands out a value below it.
pub uninterp spec fn engine_id_floor(e: &Engine) -> u64;

/// A page of the journal: at most `limit` entries, all at or past `lower`,
/// strictly ascending, and with nothing of the journal skipped up to the
/// last returned entry (or at all, when the page is not full).
pub open spec fn is_page(jnl: Map<u64, Seq<u8>>, lower: u64, limit: nat, ids: Seq<u64>) -> bool {
    &&& ids.len() <= limit
    &&& forall|i: int| 0 <= i < ids.len() ==> jnl.contains_key(#[trigger] ids[i]) && ids[i] >= lower
    &&& forall|i: int, j: int| 0 <= i < j < ids.len() ==> ids[i] < ids[j]
    &&& ids.len() < limit ==> (forall|k: u64|
        #[trigger] jnl.contains_key(k) && k >= lower ==> ids.contains(k))
    &&& ids.len() > 0 ==> (forall|k: u64|
        #[trigger] jnl.contains_key(k) && lower <= k <= ids.last() ==> ids.contains(k))
}

/// The identifiers of a page, in page order.
pub open spec fn page_ids(page: Seq<(u64, Vec<u8>)>) -> Seq<u64> {
    page.map_values(|pr: (u64, Vec<u8>)| pr.0)
}

impl Engine {
    /// Relies on `sled::Config::open` with `temporary(true)`: a freshly
    /// created database holds no trees, so both key spaces start empty.
    #[verifier::external_body]
    pub fn open_temporary() -> (r: Result<Engine, EngineError>)
        ensures
            r matches Ok(e) ==> {
                &&& engine_resources(&e) == Map::<Seq<u8>, Seq<u8>>::empty()
                &&& engine_journal(&e) == Map::<u64, Seq<u8>>::empty()
            },
    {
        let db = match sled::Config::default().temporary(true).open() {
            Ok(d) => d,
            Err(_) => return Err(EngineError),
        };
        let resources = match db.open_tree(b"resources") {
            Ok(t) => t,
            Err(_) => return Err(EngineError),
        };
        let journal = match db.open_tree(b"journal") {
            Ok(t) => t,
            Err(_) => return Err(EngineError),
        };
        Ok(Engine { db, resources, journal })
    }

    /// Relies on `sled::Tree::get`: a point lookup in the `resources` key
    /// space returns the bytes stored at the key, if any.
    #[verifier::external_body]
    pub fn get_resource(&self, key: &Vec<u8>) -> (r: Result<Option<Vec<u8>>, EngineError>)
        ensures
            r matches Ok(o) ==> match o {
                Some(v) => engine_resources(self).contains_key(key@) && v@ == engine_resources(
                    self,
                )[key@],
                None => !engine_resources(self).contains_key(key@),
            },
    {
        match self.resources.get(key) {
            Ok(Some(iv)) => Ok(Some(iv.to_vec())),
            Ok(None) => Ok(None),
            Err(_) => Err(EngineError),
        }
    }

    /// Relies on sled's multi-tree transaction discipline
    /// (`Transactional::transaction` over both trees) and on
    /// `sled::Db::generate_id`, whose results are strictly monotonic over
    /// the life of the database.  On success both inserts are applied.  On
    /// failure less is promised: the trees commit one after the other, so
    /// an I/O error mid-commit can leave the `resources` insert (or both
    /// inserts) already applied; the contract only narrows the outcome to
    /// those three shapes, and callers must treat a failed transaction as
    /// fatal.  The identifier is drawn before the transaction (inside it
    /// the generator would contend with the transaction's own lock), so a
    /// failed transaction consumes it; the floor advances either way.
    #[verifier::external_body]
    pub fn txn_insert(&mut self, skey: &Vec<u8>, sval: &Vec<u8>, jval: &Vec<u8>) -> (r: Result<
        u64,
        EngineError,
    >)
        ensures
            r matches Ok(id) ==> {
                &&& engine_resources(final(self)) == engine_resources(old(self)).insert(
                    skey@,
                    sval@,
                )
                &&& engine_journal(final(self)) == engine_journal(old(self)).insert(id, jval@)
                &&& id >= engine_id_floor(old(self))
                &&& engine_id_floor(final(self)) > id
            },
            r matches Err(_) ==> {
                &&& engine_id_floor(final(self)) >= engine_id_floor(old(self))
                &&& (engine_resources(final(self)) == engine_resources(old(self))
                    || engine_resources(final(self)) == engine_resources(old(self)).insert(
                    skey@,
                    sval@,
                ))
                &&& (engine_journal(final(self)) == engine_journal(old(self)) || (exists|id: u64|
                    engine_journal(final(self)) == #[trigger] engine_journal(old(self)).insert(
                        id,
                        jval@,
                    ) && id >= engine_id_floor(old(self)) && engine_id_floor(final(self)) > id))
            },
    {
        let id = match self.db.generate_id() {
            Ok(i) => i,
            Err(_) => return Err(EngineError),
        };
        let trees = (&self.resources, &self.journal);
        let r: Result<u64, sled::transaction::TransactionError<()>> =
            trees.transaction(|(rt, jt): &(TransactionalTree, TransactionalTree)| {
                rt.insert(skey.clone(), sval.clone())?;
                jt.insert(&id.to_be_bytes(), jval.clone())?;
                Ok(id)
            });
        match r {
            Ok(i) => Ok(i),
            Err(_) => Err(EngineError),
        }
    }

    /// Relies on `sled::Tree::range` and its iterator: entries come back
    /// in ascending key order, and because journal keys are fixed-width
    /// big-endian, byte order is numeric order.
    #[verifier::external_body]
    pub fn scan_journal(&self, lower: u64, limit: usize) -> (r: Result<
        Vec<(u64, Vec<u8>)>,
        EngineError,
    >)
        ensures
            r matches Ok(page) ==> {
                &&& is_page(engine_journal(self), lower, limit as nat, page_ids(page@))
                &&& forall|i: int|
                    0 <= i < page@.len() ==> (#[trigger] page@[i]).1@ == engine_journal(
                        self,
                    )[page@[i].0]
            },
    {
        let mut out: Vec<(u64, Vec<u8>)> = Vec::new();
        for item in self.journal.range(lower.to_be_bytes().to_vec()..).take(limit) {
            match item {
                Ok((k, v)) => match <[u8; 8]>::try_from(k.as_ref()) {
                    Ok(arr) => out.push((u64::from_be_bytes(arr), v.to_vec())),
                    Err(_) => return Err(EngineError),
                },
                Err(_) => return Err(EngineError),
            }
        }
        Ok(out)
    }
}

/// Relies on `uuid::Uuid::new_v4` and its simple formatting: a freshly
/// drawn random identifier rendered as exactly 32 lowercase hexadecimal
/// characters.  Nothing is promised about which identifier comes back.
#[verifier::external_body]
pub fn fresh_record_id() -> (s: String)
    ensures
        s@.len() == 32,
{
    uuid::Uuid::new_v4().simple().to_string()
}

} // verus!
