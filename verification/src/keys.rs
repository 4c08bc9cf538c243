//! Key codec: composite storage keys for the `resources` key space and
//! fixed-width big-endian keys for the `journal` key space.
//!
//! A storage key is `owner ++ 0x2F ++ record`.  The service rejects
//! identifiers containing `0x2F` on ingress, which makes the composite
//! injective.  A journal key is the big-endian 8-byte form of a monotonic
//! 64-bit identifier, so lexicographic byte order equals numeric order.

use vstd::prelude::*;

verus! {

/// The byte that separates owner from record in a storage key.
pub const KEY_SEPARATOR: u8 = 47;

/// Composite key of a record in the `resources` key space.
pub open spec fn storage_key_bytes(owner: Seq<u8>, record: Seq<u8>) -> Seq<u8> {
    owner + seq![KEY_SEPARATOR] + record
}

/// An identifier the service accepts: non-empty, free of the separator,
/// and within the encoding layer's 2 GiB field limit.
pub open spec fn valid_ident_bytes(b: Seq<u8>) -> bool {
    &&& 0 < b.len() <= 0x7fffffff
    &&& forall|i: int| 0 <= i < b.len() ==> b[i] != KEY_SEPARATOR
}

/// Checks executably that a byte string is a valid identifier.
pub fn check_ident_bytes(v: &[u8]) -> (r: bool)
    ensures
        r == valid_ident_bytes(v@),
{
    if v.len() == 0 || v.len() > 0x7fffffff {
        return false;
    }
    let mut i: usize = 0;
    while i < v.len()
        invariant
            0 <= i <= v@.len(),
            forall|j: int| 0 <= j < i ==> v@[j] != KEY_SEPARATOR,
        decreases v@.len() - i,
    {
        if v[i] == KEY_SEPARATOR {
            return false;
        }
        i = i + 1;
    }
    true
}

/// Because owners are separator-free, a storage key determines its owner
/// and record: distinct pairs never collide in the `resources` key space.
pub proof fn lemma_storage_key_injective(o1: Seq<u8>, r1: Seq<u8>, o2: Seq<u8>, r2: Seq<u8>)
    requires
        valid_ident_bytes(o1),
        valid_ident_bytes(o2),
        storage_key_bytes(o1, r1) == storage_key_bytes(o2, r2),
    ensures
        o1 == o2,
        r1 == r2,
{
    let k1 = storage_key_bytes(o1, r1);
    let k2 = storage_key_bytes(o2, r2);
    assert(k1.len() == o1.len() + 1 + r1.len());
    assert(k1[o1.len() as int] == KEY_SEPARATOR);
    assert(k2[o2.len() as int] == KEY_SEPARATOR);
    if o1.len() < o2.len() {
        assert(k2[o1.len() as int] == o2[o1.len() as int]);
        assert(k1[o1.len() as int] == KEY_SEPARATOR);
        assert(false);
    }
    if o2.len() < o1.len() {
        assert(k1[o2.len() as int] == o1[o2.len() as int]);
        assert(false);
    }
    assert(o1.len() == o2.len());
    assert(o1 =~= o2) by {
        assert forall|i: int| 0 <= i < o1.len() implies o1[i] == o2[i] by {
            assert(k1[i] == o1[i]);
            assert(k2[i] == o2[i]);
        }
    }
    assert(r1 =~= r2) by {
        assert forall|i: int| 0 <= i < r1.len() implies r1[i] == r2[i] by {
            assert(k1[o1.len() + 1 + i] == r1[i]);
            assert(k2[o2.len() + 1 + i] == r2[i]);
        }
    }
}

/// Big-endian 8-byte form of a journal identifier.
pub open spec fn journal_key_bytes_of(id: u64) -> Seq<u8> {
    seq![
        ((id >> 56) & 0xff) as u8,
        ((id >> 48) & 0xff) as u8,
        ((id >> 40) & 0xff) as u8,
        ((id >> 32) & 0xff) as u8,
        ((id >> 24) & 0xff) as u8,
        ((id >> 16) & 0xff) as u8,
        ((id >> 8) & 0xff) as u8,
        (id & 0xff) as u8,
    ]
}

/// Builds the big-endian key bytes of a journal identifier.
pub fn journal_key_bytes(id: u64) -> (r: Vec<u8>)
    ensures
        r@ == journal_key_bytes_of(id),
        r@.len() == 8,
{
    proof {
        assert((id >> 56) & 0xff < 256 && (id >> 48) & 0xff < 256 && (id >> 40) & 0xff < 256
            && (id >> 32) & 0xff < 256 && (id >> 24) & 0xff < 256 && (id >> 16) & 0xff < 256
            && (id >> 8) & 0xff < 256 && id & 0xff < 256) by (bit_vector);
    }
    let mut r: Vec<u8> = Vec::new();
    r.push(((id >> 56) & 0xff) as u8);
    r.push(((id >> 48) & 0xff) as u8);
    r.push(((id >> 40) & 0xff) as u8);
    r.push(((id >> 32) & 0xff) as u8);
    r.push(((id >> 24) & 0xff) as u8);
    r.push(((id >> 16) & 0xff) as u8);
    r.push(((id >> 8) & 0xff) as u8);
    r.push((id & 0xff) as u8);
    proof {
        assert(r@ =~= journal_key_bytes_of(id));
    }
    r
}

/// Reads a journal identifier back from its big-endian key bytes; rejects
/// byte strings that are not exactly eight bytes long.
pub fn parse_journal_key(b: &Vec<u8>) -> (r: Option<u64>)
    ensures
        match r {
            Some(id) => b@ == journal_key_bytes_of(id),
            None => b@.len() != 8,
        },
{
    if b.len() != 8 {
        return None;
    }
    let b0 = b[0];
    let b1 = b[1];
    let b2 = b[2];
    let b3 = b[3];
    let b4 = b[4];
    let b5 = b[5];
    let b6 = b[6];
    let b7 = b[7];
    let id: u64 = ((b0 as u64) << 56) | ((b1 as u64) << 48) | ((b2 as u64) << 40) | ((b3
        as u64) << 32) | ((b4 as u64) << 24) | ((b5 as u64) << 16) | ((b6 as u64) << 8) | (b7
        as u64);
    proof {
        lemma_be_bytes_reassemble(b0, b1, b2, b3, b4, b5, b6, b7);
        assert(b@ =~= journal_key_bytes_of(id));
    }
    Some(id)
}

/// The eight big-endian bytes of a reassembled identifier are the bytes it
/// was reassembled from.
proof fn lemma_be_bytes_reassemble(b0: u8, b1: u8, b2: u8, b3: u8, b4: u8, b5: u8, b6: u8, b7: u8)
    ensures
        ({
            let id = ((b0 as u64) << 56) | ((b1 as u64) << 48) | ((b2 as u64) << 40) | ((b3
                as u64) << 32) | ((b4 as u64) << 24) | ((b5 as u64) << 16) | ((b6 as u64) << 8) | (
            b7 as u64);
            &&& ((id >> 56) & 0xff) as u8 == b0
            &&& ((id >> 48) & 0xff) as u8 == b1
            &&& ((id >> 40) & 0xff) as u8 == b2
            &&& ((id >> 32) & 0xff) as u8 == b3
            &&& ((id >> 24) & 0xff) as u8 == b4
            &&& ((id >> 16) & 0xff) as u8 == b5
            &&& ((id >> 8) & 0xff) as u8 == b6
            &&& (id & 0xff) as u8 == b7
        }),
{
    let id = ((b0 as u64) << 56) | ((b1 as u64) << 48) | ((b2 as u64) << 40) | ((b3 as u64) << 32)
        | ((b4 as u64) << 24) | ((b5 as u64) << 16) | ((b6 as u64) << 8) | (b7 as u64);
    assert(((id >> 56) & 0xff) as u8 == b0 && ((id >> 48) & 0xff) as u8 == b1 && ((id >> 40)
        & 0xff) as u8 == b2 && ((id >> 32) & 0xff) as u8 == b3 && ((id >> 24) & 0xff) as u8 == b4
        && ((id >> 16) & 0xff) as u8 == b5 && ((id >> 8) & 0xff) as u8 == b6 && (id & 0xff) as u8
        == b7) by (bit_vector)
        requires
            id == ((b0 as u64) << 56) | ((b1 as u64) << 48) | ((b2 as u64) << 40) | ((b3
                as u64) << 32) | ((b4 as u64) << 24) | ((b5 as u64) << 16) | ((b6 as u64) << 8) | (
            b7 as u64),
    ;
}

/// Two distinct identifiers never share journal key bytes.
pub proof fn lemma_journal_key_injective(id1: u64, id2: u64)
    requires
        journal_key_bytes_of(id1) == journal_key_bytes_of(id2),
    ensures
        id1 == id2,
{
    assert(journal_key_bytes_of(id1)[0] == journal_key_bytes_of(id2)[0]);
    assert(journal_key_bytes_of(id1)[1] == journal_key_bytes_of(id2)[1]);
    assert(journal_key_bytes_of(id1)[2] == journal_key_bytes_of(id2)[2]);
    assert(journal_key_bytes_of(id1)[3] == journal_key_bytes_of(id2)[3]);
    assert(journal_key_bytes_of(id1)[4] == journal_key_bytes_of(id2)[4]);
    assert(journal_key_bytes_of(id1)[5] == journal_key_bytes_of(id2)[5]);
    assert(journal_key_bytes_of(id1)[6] == journal_key_bytes_of(id2)[6]);
    assert(journal_key_bytes_of(id1)[7] == journal_key_bytes_of(id2)[7]);
    assert(id1 == id2) by (bit_vector)
        requires
            ((id1 >> 56) & 0xff) as u8 == ((id2 >> 56) & 0xff) as u8,
            ((id1 >> 48) & 0xff) as u8 == ((id2 >> 48) & 0xff) as u8,
            ((id1 >> 40) & 0xff) as u8 == ((id2 >> 40) & 0xff) as u8,
            ((id1 >> 32) & 0xff) as u8 == ((id2 >> 32) & 0xff) as u8,
            ((id1 >> 24) & 0xff) as u8 == ((id2 >> 24) & 0xff) as u8,
            ((id1 >> 16) & 0xff) as u8 == ((id2 >> 16) & 0xff) as u8,
            ((id1 >> 8) & 0xff) as u8 == ((id2 >> 8) & 0xff) as u8,
            (id1 & 0xff) as u8 == (id2 & 0xff) as u8,
    ;
}

} // verus!
