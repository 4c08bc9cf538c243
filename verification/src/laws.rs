//! Cross-operation guarantees of the service, stated and proved over the
//! spec-level transitions (`mutation_step`), the optimistic-concurrency
//! rule (`update_allowed`), and the page description (`is_page`) that the
//! operations' own contracts use.

use vstd::prelude::*;

use crate::engine::is_page;
use crate::keys::storage_key_bytes;
use crate::protos::StoredRecordView;
use crate::server::{current_version, mutation_step, update_allowed};
use crate::wire::{dec_stored, lemma_stored_roundtrip};

verus! {

/// Round trip: after a create of `(owner, record)` with payload `p`, the
/// stored bytes at the record's key decode to version zero and exactly
/// `p` — which is what a point lookup then returns.
pub proof fn lemma_create_then_get(
    res0: Map<Seq<u8>, Seq<u8>>,
    jnl0: Map<u64, Seq<u8>>,
    floor0: u64,
    res1: Map<Seq<u8>, Seq<u8>>,
    jnl1: Map<u64, Seq<u8>>,
    floor1: u64,
    owner: Seq<u8>,
    record: Seq<u8>,
    p: Option<Seq<u8>>,
    id: u64,
)
    requires
        mutation_step(res0, jnl0, floor0, res1, jnl1, floor1, owner, record, 0, p, id),
        p matches Some(pp) ==> pp.len() <= 0x7fffffff,
    ensures
        res1.contains_key(storage_key_bytes(owner, record)),
        dec_stored(res1[storage_key_bytes(owner, record)]) == Some(
            StoredRecordView { version: Some(0), payload: p },
        ),
{
    lemma_stored_roundtrip(StoredRecordView { version: Some(0), payload: p });
}

/// Monotone versions: an accepted mutation leaves the record at the
/// version it wrote, so the next accepted update of the same record can
/// only expect that version and commits at exactly one more.
pub proof fn lemma_versions_consecutive(
    res0: Map<Seq<u8>, Seq<u8>>,
    jnl0: Map<u64, Seq<u8>>,
    floor0: u64,
    res1: Map<Seq<u8>, Seq<u8>>,
    jnl1: Map<u64, Seq<u8>>,
    floor1: u64,
    res2: Map<Seq<u8>, Seq<u8>>,
    jnl2: Map<u64, Seq<u8>>,
    floor2: u64,
    owner: Seq<u8>,
    record: Seq<u8>,
    v1: i32,
    p1: Option<Seq<u8>>,
    p2: Option<Seq<u8>>,
    id1: u64,
    id2: u64,
    e2: i32,
)
    requires
        mutation_step(res0, jnl0, floor0, res1, jnl1, floor1, owner, record, v1, p1, id1),
        v1 >= 0,
        p1 matches Some(pp) ==> pp.len() <= 0x7fffffff,
        p2 matches Some(pp) ==> pp.len() <= 0x7fffffff,
        update_allowed(res1, storage_key_bytes(owner, record), e2),
        mutation_step(
            res1,
            jnl1,
            floor1,
            res2,
            jnl2,
            floor2,
            owner,
            record,
            (e2 + 1) as i32,
            p2,
            id2,
        ),
    ensures
        e2 == v1,
        current_version(res2, storage_key_bytes(owner, record)) == v1 + 1,
{
    let skey = storage_key_bytes(owner, record);
    lemma_stored_roundtrip(StoredRecordView { version: Some(v1), payload: p1 });
    assert(current_version(res1, skey) == v1);
    lemma_stored_roundtrip(StoredRecordView { version: Some((e2 + 1) as i32), payload: p2 });
}

/// Journal monotonicity: of two mutations in sequence, whatever records
/// they touch, the second appends under a strictly larger journal
/// identifier.
pub proof fn lemma_journal_ids_monotone(
    res0: Map<Seq<u8>, Seq<u8>>,
    jnl0: Map<u64, Seq<u8>>,
    floor0: u64,
    res1: Map<Seq<u8>, Seq<u8>>,
    jnl1: Map<u64, Seq<u8>>,
    floor1: u64,
    res2: Map<Seq<u8>, Seq<u8>>,
    jnl2: Map<u64, Seq<u8>>,
    floor2: u64,
    owner1: Seq<u8>,
    record1: Seq<u8>,
    v1: i32,
    p1: Option<Seq<u8>>,
    id1: u64,
    owner2: Seq<u8>,
    record2: Seq<u8>,
    v2: i32,
    p2: Option<Seq<u8>>,
    id2: u64,
)
    requires
        mutation_step(res0, jnl0, floor0, res1, jnl1, floor1, owner1, record1, v1, p1, id1),
        mutation_step(res1, jnl1, floor1, res2, jnl2, floor2, owner2, record2, v2, p2, id2),
    ensures
        id2 > id1,
{
}

/// Optimistic concurrency: once an update expecting version `e` has
/// committed, a rival update expecting the same version is no longer
/// allowed — the service answers it with an abort and appends nothing.
pub proof fn lemma_update_excludes_rival(
    res0: Map<Seq<u8>, Seq<u8>>,
    jnl0: Map<u64, Seq<u8>>,
    floor0: u64,
    res1: Map<Seq<u8>, Seq<u8>>,
    jnl1: Map<u64, Seq<u8>>,
    floor1: u64,
    owner: Seq<u8>,
    record: Seq<u8>,
    e: i32,
    p: Option<Seq<u8>>,
    id: u64,
)
    requires
        e >= -1,
        update_allowed(res0, storage_key_bytes(owner, record), e),
        mutation_step(res0, jnl0, floor0, res1, jnl1, floor1, owner, record, (e + 1) as i32, p, id),
        p matches Some(pp) ==> pp.len() <= 0x7fffffff,
    ensures
        !update_allowed(res1, storage_key_bytes(owner, record), e),
        jnl1 == jnl0.insert(id, jnl1[id]),
{
    lemma_stored_roundtrip(StoredRecordView { version: Some((e + 1) as i32), payload: p });
    assert(current_version(res1, storage_key_bytes(owner, record)) == e + 1);
}

/// Cursor resume: reading a page and then reading again from its final
/// cursor continues the journal contiguously — the second page starts at
/// the cursor entry (the bound is inclusive), nothing between the pages is
/// skipped, and the pages are in order.
pub proof fn lemma_cursor_resume(
    jnl: Map<u64, Seq<u8>>,
    l0: u64,
    n1: nat,
    n2: nat,
    ids1: Seq<u64>,
    ids2: Seq<u64>,
)
    requires
        is_page(jnl, l0, n1, ids1),
        ids1.len() > 0,
        n2 > 0,
        is_page(jnl, ids1.last(), n2, ids2),
    ensures
        ids2.len() > 0,
        ids2[0] == ids1.last(),
        forall|k: u64|
            #[trigger] jnl.contains_key(k) && l0 <= k <= ids2.last() ==> ids1.contains(k)
                || ids2.contains(k),
        forall|i: int, j: int|
            0 <= i < ids1.len() && 0 <= j < ids2.len() ==> #[trigger] ids1[i] <= #[trigger] ids2[j],
{
    let b = ids1.last();
    assert(ids1[ids1.len() - 1] == b);
    assert(jnl.contains_key(b));
    if ids2.len() == 0 {
        assert(ids2.contains(b));
        assert(false);
    }
    assert(ids2[ids2.len() - 1] >= b);
    assert(b <= ids2.last());
    assert(ids2.contains(b));
    let j0 = choose|i: int| 0 <= i < ids2.len() && ids2[i] == b;
    assert(ids2[j0] == b);
    if j0 > 0 {
        assert(ids2[0] < ids2[j0]);
        assert(ids2[0] >= b);
        assert(false);
    }
    assert(ids2[0] == b);
    assert forall|k: u64| #[trigger] jnl.contains_key(k) && l0 <= k <= ids2.last() implies
    ids1.contains(k) || ids2.contains(k) by {
        if k <= b {
            assert(ids1.contains(k));
        } else {
            assert(ids2.contains(k));
        }
    }
    assert forall|i: int, j: int|
        0 <= i < ids1.len() && 0 <= j < ids2.len() implies #[trigger] ids1[i] <= #[trigger] ids2[j] by {
        if i < ids1.len() - 1 {
            assert(ids1[i] < ids1[ids1.len() - 1]);
        }
        assert(ids1[i] <= b);
        assert(ids2[j] >= b);
    }
}

} // verus!
