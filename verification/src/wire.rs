//! Encoding layer: the stable, length-prefixed, field-tagged binary format
//! in which records and change entries are persisted.
//!
//! Fields are emitted in tag order and defaulted fields are omitted, so the
//! format round-trips exactly: `dec_stored(enc_stored(r)) == Some(r)` and
//! likewise for changes.  Decoding accepts exactly the canonical byte
//! strings the encoder produces; stored bytes that fail to decode are
//! treated as engine corruption by the callers.

use vstd::prelude::*;

use crate::protos::{Change, ChangeView, Payload, StoredRecord, StoredRecordView, Version};

verus! {

broadcast use vstd::seq_lib::group_seq_properties;

/// Base-128 varint: least-significant seven bits first, high bit set on
/// every byte but the last.
pub open spec fn enc_varint(n: u64) -> Seq<u8>
    decreases n,
{
    if n < 128 {
        seq![n as u8]
    } else {
        proof {
            assert(n / 128 < n) by (nonlinear_arith)
                requires
                    n >= 128,
            ;
        }
        seq![((n % 128) + 128) as u8] + enc_varint(n / 128)
    }
}

/// Reads one varint from the front; rejects unterminated, overlong, or
/// overflowing forms.  Returns the value and the remaining bytes.
pub open spec fn dec_varint(b: Seq<u8>) -> Option<(u64, Seq<u8>)>
    decreases b.len(),
{
    if b.len() == 0 {
        None
    } else if b[0] < 128 {
        Some((b[0] as u64, b.skip(1)))
    } else {
        match dec_varint(b.skip(1)) {
            None => None,
            Some((hi, rest)) => {
                let val = (b[0] - 128) + 128 * (hi as int);
                if hi == 0 || val > u64::MAX {
                    None
                } else {
                    Some((val as u64, rest))
                }
            },
        }
    }
}

/// A varint followed by that many bytes.
pub open spec fn enc_ld(b: Seq<u8>) -> Seq<u8> {
    enc_varint(b.len() as u64) + b
}

/// Reads one length-delimited chunk from the front.
pub open spec fn dec_ld(b: Seq<u8>) -> Option<(Seq<u8>, Seq<u8>)> {
    match dec_varint(b) {
        None => None,
        Some((n, rest)) => if n <= rest.len() {
            Some((rest.take(n as int), rest.skip(n as int)))
        } else {
            None
        },
    }
}

/// An optional length-delimited field: tag byte plus chunk when present,
/// nothing when absent.
pub open spec fn enc_opt_field(tag: u8, body: Option<Seq<u8>>) -> Seq<u8> {
    match body {
        Some(b) => seq![tag] + enc_ld(b),
        None => Seq::empty(),
    }
}

/// Reads an optional field with the given tag from the front.
pub open spec fn dec_opt_field(tag: u8, b: Seq<u8>) -> Option<(Option<Seq<u8>>, Seq<u8>)> {
    if b.len() > 0 && b[0] == tag {
        match dec_ld(b.skip(1)) {
            Some((body, rest)) => Some((Some(body), rest)),
            None => None,
        }
    } else {
        Some((None, b))
    }
}

/// Body of a version message: field 1 as a varint, omitted when zero.
/// Defined for the versions the service stores, which are never negative.
pub open spec fn enc_version_body(v: i32) -> Seq<u8> {
    if v == 0 {
        Seq::empty()
    } else {
        seq![8u8] + enc_varint(v as u64)
    }
}

/// Decodes a version message body.
pub open spec fn dec_version_body(b: Seq<u8>) -> Option<i32> {
    if b.len() == 0 {
        Some(0)
    } else if b[0] == 8 {
        match dec_varint(b.skip(1)) {
            Some((n, rest)) => if rest.len() == 0 && 0 < n <= i32::MAX as u64 {
                Some(n as i32)
            } else {
                None
            },
            None => None,
        }
    } else {
        None
    }
}

/// Body of an identifier message: field 1 as a length-delimited string,
/// omitted when empty.
pub open spec fn enc_ident_body(b: Seq<u8>) -> Seq<u8> {
    if b.len() == 0 {
        Seq::empty()
    } else {
        seq![10u8] + enc_ld(b)
    }
}

/// Decodes an identifier message body; identifiers are strings, so the
/// bytes must be valid UTF-8.
pub open spec fn dec_ident_body(b: Seq<u8>) -> Option<Seq<u8>> {
    if b.len() == 0 {
        Some(Seq::empty())
    } else if b[0] == 10 {
        match dec_ld(b.skip(1)) {
            Some((body, rest)) => if rest.len() == 0 && body.len() > 0 && vstd::utf8::valid_utf8(
                body,
            ) {
                Some(body)
            } else {
                None
            },
            None => None,
        }
    } else {
        None
    }
}

/// A stored-record view the encoder is defined on: versions are never
/// negative, and byte fields observe the schema language's 2 GiB limit.
pub open spec fn wf_stored_view(r: StoredRecordView) -> bool {
    &&& (r.version matches Some(v) ==> v >= 0)
    &&& (r.payload matches Some(p) ==> p.len() <= 0x7fffffff)
}

/// Encoding of a stored record: optional version message (field 1), then
/// optional payload bytes (field 2).
pub open spec fn enc_stored(r: StoredRecordView) -> Seq<u8> {
    enc_opt_field(
        10u8,
        match r.version {
            Some(v) => Some(enc_version_body(v)),
            None => None,
        },
    ) + enc_opt_field(18u8, r.payload)
}

/// Decoding of a stored record; rejects trailing bytes.
pub open spec fn dec_stored(b: Seq<u8>) -> Option<StoredRecordView> {
    match dec_opt_field(10u8, b) {
        None => None,
        Some((f1, rest1)) => match dec_opt_field(18u8, rest1) {
            None => None,
            Some((f2, rest2)) => if rest2.len() != 0 {
                None
            } else {
                match f1 {
                    Some(vb) => match dec_version_body(vb) {
                        Some(v) => Some(StoredRecordView { version: Some(v), payload: f2 }),
                        None => None,
                    },
                    None => Some(StoredRecordView { version: None, payload: f2 }),
                }
            },
        },
    }
}

/// A change view the encoder is defined on: identifiers are the UTF-8
/// bytes of strings, within the schema language's 2 GiB limit.
pub open spec fn wf_change_view(c: ChangeView) -> bool {
    &&& (c.owner_id matches Some(o) ==> o.len() <= 0x7fffffff && vstd::utf8::valid_utf8(o))
    &&& (c.record_id matches Some(r) ==> r.len() <= 0x7fffffff && vstd::utf8::valid_utf8(r))
    &&& (c.version matches Some(v) ==> v >= 0)
    &&& (c.payload matches Some(p) ==> p.len() <= 0x7fffffff)
}

/// Encoding of a change entry: optional owner (field 1), record (field 2),
/// version (field 3) and payload (field 4) in tag order.
pub open spec fn enc_change(c: ChangeView) -> Seq<u8> {
    enc_opt_field(
        10u8,
        match c.owner_id {
            Some(o) => Some(enc_ident_body(o)),
            None => None,
        },
    ) + enc_opt_field(
        18u8,
        match c.record_id {
            Some(r) => Some(enc_ident_body(r)),
            None => None,
        },
    ) + enc_opt_field(
        26u8,
        match c.version {
            Some(v) => Some(enc_version_body(v)),
            None => None,
        },
    ) + enc_opt_field(34u8, c.payload)
}

/// Decoding of a change entry; rejects trailing bytes.
pub open spec fn dec_change(b: Seq<u8>) -> Option<ChangeView> {
    match dec_opt_field(10u8, b) {
        None => None,
        Some((f1, rest1)) => match dec_opt_field(18u8, rest1) {
            None => None,
            Some((f2, rest2)) => match dec_opt_field(26u8, rest2) {
                None => None,
                Some((f3, rest3)) => match dec_opt_field(34u8, rest3) {
                    None => None,
                    Some((f4, rest4)) => if rest4.len() != 0 {
                        None
                    } else {
                        let owner = match f1 {
                            Some(ob) => match dec_ident_body(ob) {
                                Some(o) => Some(Some(o)),
                                None => None,
                            },
                            None => Some(None),
                        };
                        let record = match f2 {
                            Some(rb) => match dec_ident_body(rb) {
                                Some(r) => Some(Some(r)),
                                None => None,
                            },
                            None => Some(None),
                        };
                        let version = match f3 {
                            Some(vb) => match dec_version_body(vb) {
                                Some(v) => Some(Some(v)),
                                None => None,
                            },
                            None => Some(None),
                        };
                        match (owner, record, version) {
                            (Some(o), Some(r), Some(v)) => Some(
                                ChangeView { owner_id: o, record_id: r, version: v, payload: f4 },
                            ),
                            _ => None,
                        }
                    },
                },
            },
        },
    }
}

/// Decoding a varint undoes encoding it, whatever follows.
pub proof fn lemma_varint_roundtrip(n: u64, rest: Seq<u8>)
    ensures
        dec_varint(enc_varint(n) + rest) == Some((n, rest)),
    decreases n,
{
    if n < 128 {
        assert((seq![n as u8] + rest).skip(1) =~= rest);
    } else {
        assert(n / 128 < n && n / 128 > 0 && n % 128 < 128 && n == 128 * (n / 128) + n % 128)
            by (nonlinear_arith)
            requires
                n >= 128,
        ;
        let b0 = ((n % 128) + 128) as u8;
        let tail = enc_varint(n / 128) + rest;
        assert(enc_varint(n) + rest =~= seq![b0] + tail);
        assert((seq![b0] + tail).skip(1) =~= tail);
        lemma_varint_roundtrip(n / 128, rest);
        assert((b0 - 128) + 128 * ((n / 128) as int) == n);
    }
}

/// Decoding a length-delimited chunk undoes encoding it, whatever follows.
pub proof fn lemma_ld_roundtrip(body: Seq<u8>, rest: Seq<u8>)
    requires
        body.len() <= u64::MAX,
    ensures
        dec_ld(enc_ld(body) + rest) == Some((body, rest)),
{
    let n = body.len() as u64;
    assert(enc_ld(body) + rest =~= enc_varint(n) + (body + rest));
    lemma_varint_roundtrip(n, body + rest);
    assert((body + rest).take(n as int) =~= body);
    assert((body + rest).skip(n as int) =~= rest);
}

/// Decoding an optional field undoes encoding it, provided what follows an
/// absent field does not itself start with the field's tag.
pub proof fn lemma_opt_field_roundtrip(tag: u8, body: Option<Seq<u8>>, rest: Seq<u8>)
    requires
        body matches Some(b) ==> b.len() <= u64::MAX,
        body is None ==> rest.len() == 0 || rest[0] != tag,
    ensures
        dec_opt_field(tag, enc_opt_field(tag, body) + rest) == Some((body, rest)),
{
    match body {
        Some(b) => {
            let whole = enc_opt_field(tag, body) + rest;
            assert(whole[0] == tag);
            assert(whole.skip(1) =~= enc_ld(b) + rest);
            lemma_ld_roundtrip(b, rest);
        },
        None => {
            assert(enc_opt_field(tag, body) + rest =~= rest);
        },
    }
}

/// Decoding a version body undoes encoding it, for the versions the
/// service stores.
pub proof fn lemma_version_body_roundtrip(v: i32)
    requires
        v >= 0,
    ensures
        dec_version_body(enc_version_body(v)) == Some(v),
{
    if v != 0 {
        let b = enc_version_body(v);
        lemma_varint_roundtrip(v as u64, Seq::empty());
        assert(enc_varint(v as u64) + Seq::<u8>::empty() =~= enc_varint(v as u64));
        assert(b.skip(1) =~= enc_varint(v as u64));
    }
}

/// Decoding an identifier body undoes encoding it.
pub proof fn lemma_ident_body_roundtrip(b: Seq<u8>)
    requires
        b.len() <= u64::MAX,
        vstd::utf8::valid_utf8(b),
    ensures
        dec_ident_body(enc_ident_body(b)) == Some(b),
{
    if b.len() != 0 {
        let e = enc_ident_body(b);
        lemma_ld_roundtrip(b, Seq::empty());
        assert(enc_ld(b) + Seq::<u8>::empty() =~= enc_ld(b));
        assert(e.skip(1) =~= enc_ld(b));
        assert(e[0] == 10u8);
        assert(e.len() > 0);
    }
}

/// The encoder never writes an empty byte string for a present field, and
/// every present field starts with its tag; helper facts for chaining.
proof fn lemma_opt_field_shape(tag: u8, body: Option<Seq<u8>>)
    ensures
        body is None ==> enc_opt_field(tag, body) == Seq::<u8>::empty(),
        body is Some ==> enc_opt_field(tag, body).len() > 0 && enc_opt_field(tag, body)[0] == tag,
{
}

/// Decoding a stored record undoes encoding it.
pub proof fn lemma_stored_roundtrip(r: StoredRecordView)
    requires
        wf_stored_view(r),
    ensures
        dec_stored(enc_stored(r)) == Some(r),
{
    let f1 = match r.version {
        Some(v) => Some(enc_version_body(v)),
        None => None,
    };
    let e1 = enc_opt_field(10u8, f1);
    let e2 = enc_opt_field(18u8, r.payload);
    lemma_opt_field_shape(18u8, r.payload);
    match r.version {
        Some(v) => {
            lemma_varint_len(v as u64);
            lemma_opt_field_roundtrip(10u8, f1, e2);
        },
        None => {
            lemma_opt_field_roundtrip(10u8, f1, e2);
        },
    }
    assert(dec_opt_field(10u8, e1 + e2) == Some((f1, e2)));
    lemma_opt_field_roundtrip(18u8, r.payload, Seq::empty());
    assert(e2 + Seq::<u8>::empty() =~= e2);
    assert(dec_opt_field(18u8, e2) == Some((r.payload, Seq::<u8>::empty())));
    match r.version {
        Some(v) => {
            lemma_version_body_roundtrip(v);
        },
        None => {},
    }
}

/// Decoding a change undoes encoding it.
#[verifier::rlimit(100)]
#[verifier::spinoff_prover]
pub proof fn lemma_change_roundtrip(c: ChangeView)
    requires
        wf_change_view(c),
    ensures
        dec_change(enc_change(c)) == Some(c),
{
    let f1 = match c.owner_id {
        Some(o) => Some(enc_ident_body(o)),
        None => None,
    };
    let f2 = match c.record_id {
        Some(r) => Some(enc_ident_body(r)),
        None => None,
    };
    let f3 = match c.version {
        Some(v) => Some(enc_version_body(v)),
        None => None,
    };
    let e1 = enc_opt_field(10u8, f1);
    let e2 = enc_opt_field(18u8, f2);
    let e3 = enc_opt_field(26u8, f3);
    let e4 = enc_opt_field(34u8, c.payload);
    lemma_opt_field_shape(18u8, f2);
    lemma_opt_field_shape(26u8, f3);
    lemma_opt_field_shape(34u8, c.payload);
    match c.owner_id {
        Some(o) => lemma_ident_body_len(o),
        None => (),
    }
    match c.record_id {
        Some(r) => lemma_ident_body_len(r),
        None => (),
    }
    match c.version {
        Some(v) => lemma_varint_len(v as u64),
        None => (),
    }
    let rest1 = e2 + (e3 + e4);
    assert(enc_change(c) =~= e1 + rest1);
    assert(rest1.len() > 0 ==> rest1[0] == 18 || rest1[0] == 26 || rest1[0] == 34) by {
        if e2.len() > 0 {
            assert(rest1[0] == e2[0]);
        } else if e3.len() > 0 {
            assert(rest1 =~= e3 + e4);
            assert(rest1[0] == e3[0]);
        } else if e4.len() > 0 {
            assert(rest1 =~= e4);
        }
    }
    lemma_opt_field_roundtrip(10u8, f1, rest1);
    let rest2 = e3 + e4;
    assert(rest2.len() > 0 ==> rest2[0] == 26 || rest2[0] == 34) by {
        if e3.len() > 0 {
        } else if e4.len() > 0 {
            assert(rest2 =~= e4);
        }
    }
    lemma_opt_field_roundtrip(18u8, f2, rest2);
    lemma_opt_field_roundtrip(26u8, f3, e4);
    lemma_opt_field_roundtrip(34u8, c.payload, Seq::empty());
    assert(e4 + Seq::<u8>::empty() =~= e4);
    match c.owner_id {
        Some(o) => lemma_ident_body_roundtrip(o),
        None => (),
    }
    match c.record_id {
        Some(r) => lemma_ident_body_roundtrip(r),
        None => (),
    }
    match c.version {
        Some(v) => lemma_version_body_roundtrip(v),
        None => (),
    }
}

/// A crude but sufficient bound: a varint is never longer than the value
/// plus one, so message bodies of bounded values fit their length prefix.
proof fn lemma_varint_len(n: u64)
    ensures
        enc_varint(n).len() <= n + 1,
    decreases n,
{
    if n < 128 {
    } else {
        assert(n / 128 < n && n / 128 >= 1 && n / 128 + 2 <= n + 1) by (nonlinear_arith)
            requires
                n >= 128,
        ;
        lemma_varint_len(n / 128);
    }
}

/// An identifier body is at most a prefix longer than the identifier.
proof fn lemma_ident_body_len(b: Seq<u8>)
    requires
        b.len() <= 0x7fffffff,
    ensures
        enc_ident_body(b).len() <= 2 * b.len() + 2,
{
    if b.len() != 0 {
        lemma_varint_len(b.len() as u64);
    }
}

/// Appends the varint encoding of `n`.
pub fn encode_varint(n: u64, out: &mut Vec<u8>)
    ensures
        final(out)@ == old(out)@ + enc_varint(n),
    decreases n,
{
    if n < 128 {
        out.push(n as u8);
        proof {
            assert(out@ =~= old(out)@ + enc_varint(n));
        }
    } else {
        out.push(((n % 128) + 128) as u8);
        encode_varint(n / 128, out);
        proof {
            assert(out@ =~= old(out)@ + enc_varint(n));
        }
    }
}

/// Appends a length-delimited chunk.
pub fn encode_ld(body: &[u8], out: &mut Vec<u8>)
    ensures
        final(out)@ == old(out)@ + enc_ld(body@),
{
    encode_varint(body.len() as u64, out);
    out.extend_from_slice(body);
    proof {
        assert(out@ =~= old(out)@ + enc_ld(body@));
    }
}

/// Appends the body of a version message.
pub fn encode_version_body(v: i32, out: &mut Vec<u8>)
    requires
        v >= 0,
    ensures
        final(out)@ == old(out)@ + enc_version_body(v),
{
    if v != 0 {
        out.push(8u8);
        encode_varint(v as u64, out);
        proof {
            assert(out@ =~= old(out)@ + enc_version_body(v));
        }
    } else {
        proof {
            assert(out@ =~= old(out)@ + enc_version_body(v));
        }
    }
}

/// Appends the body of an identifier message.
pub fn encode_ident_body(s: &String, out: &mut Vec<u8>)
    ensures
        final(out)@ == old(out)@ + enc_ident_body(vstd::utf8::encode_utf8(s@)),
{
    let bytes = s.as_str().as_bytes();
    if bytes.len() == 0 {
        proof {
            assert(out@ =~= old(out)@ + enc_ident_body(bytes@));
        }
    } else {
        out.push(10u8);
        encode_ld(bytes, out);
        proof {
            assert(out@ =~= old(out)@ + enc_ident_body(bytes@));
        }
    }
}

/// Serializes a stored record into its persisted byte form.
pub fn encode_stored_record(r: &StoredRecord) -> (out: Vec<u8>)
    requires
        wf_stored_view(r@),
    ensures
        out@ == enc_stored(r@),
{
    let ghost e1 = enc_opt_field(
        10u8,
        match r@.version {
            Some(v) => Some(enc_version_body(v)),
            None => None,
        },
    );
    let ghost e2 = enc_opt_field(18u8, r@.payload);
    let mut out: Vec<u8> = Vec::new();
    match &r.version {
        Some(v) => {
            let mut body: Vec<u8> = Vec::new();
            encode_version_body(v.value, &mut body);
            out.push(10u8);
            encode_ld(body.as_slice(), &mut out);
            proof {
                assert(out@ =~= e1);
            }
        },
        None => {
            proof {
                assert(out@ =~= e1);
            }
        },
    }
    match &r.payload {
        Some(p) => {
            out.push(18u8);
            encode_ld(p.bytes.as_slice(), &mut out);
            proof {
                assert(out@ =~= e1 + e2);
            }
        },
        None => {
            proof {
                assert(out@ =~= e1 + e2);
            }
        },
    }
    proof {
        assert(out@ =~= enc_stored(r@));
    }
    out
}

/// Serializes a change entry into its persisted byte form.
pub fn encode_change(c: &Change) -> (out: Vec<u8>)
    requires
        wf_change_view(c@),
    ensures
        out@ == enc_change(c@),
{
    let ghost e1 = enc_opt_field(
        10u8,
        match c@.owner_id {
            Some(o) => Some(enc_ident_body(o)),
            None => None,
        },
    );
    let ghost e2 = enc_opt_field(
        18u8,
        match c@.record_id {
            Some(r) => Some(enc_ident_body(r)),
            None => None,
        },
    );
    let ghost e3 = enc_opt_field(
        26u8,
        match c@.version {
            Some(v) => Some(enc_version_body(v)),
            None => None,
        },
    );
    let ghost e4 = enc_opt_field(34u8, c@.payload);
    let mut out: Vec<u8> = Vec::new();
    match &c.owner_id {
        Some(o) => {
            let mut body: Vec<u8> = Vec::new();
            encode_ident_body(&o.value, &mut body);
            out.push(10u8);
            encode_ld(body.as_slice(), &mut out);
            proof {
                assert(out@ =~= e1);
            }
        },
        None => {
            proof {
                assert(out@ =~= e1);
            }
        },
    }
    match &c.record_id {
        Some(r) => {
            let mut body: Vec<u8> = Vec::new();
            encode_ident_body(&r.value, &mut body);
            out.push(18u8);
            encode_ld(body.as_slice(), &mut out);
            proof {
                assert(out@ =~= e1 + e2);
            }
        },
        None => {
            proof {
                assert(out@ =~= e1 + e2);
            }
        },
    }
    match &c.version {
        Some(v) => {
            let mut body: Vec<u8> = Vec::new();
            encode_version_body(v.value, &mut body);
            out.push(26u8);
            encode_ld(body.as_slice(), &mut out);
            proof {
                assert(out@ =~= e1 + e2 + e3);
            }
        },
        None => {
            proof {
                assert(out@ =~= e1 + e2 + e3);
            }
        },
    }
    match &c.payload {
        Some(p) => {
            out.push(34u8);
            encode_ld(p.bytes.as_slice(), &mut out);
            proof {
                assert(out@ =~= e1 + e2 + e3 + e4);
            }
        },
        None => {
            proof {
                assert(out@ =~= e1 + e2 + e3 + e4);
            }
        },
    }
    proof {
        assert(out@ =~= enc_change(c@));
    }
    out
}

/// Reads one varint starting at byte `i`; mirrors `dec_varint` on the
/// remaining suffix.
fn read_varint(b: &Vec<u8>, i: usize) -> (r: Option<(u64, usize)>)
    requires
        i <= b@.len(),
    ensures
        match r {
            Some((n, j)) => i < j <= b@.len() && dec_varint(b@.skip(i as int)) == Some(
                (n, b@.skip(j as int)),
            ),
            None => dec_varint(b@.skip(i as int)) is None,
        },
    decreases b@.len() - i,
{
    if i >= b.len() {
        proof {
            assert(b@.skip(i as int) =~= Seq::<u8>::empty());
        }
        return None;
    }
    let x: u8 = b[i];
    proof {
        assert(b@.skip(i as int)[0] == b@[i as int]);
        assert(b@.skip(i as int).skip(1) =~= b@.skip(i as int + 1));
    }
    if x < 128 {
        Some((x as u64, i + 1))
    } else {
        match read_varint(b, i + 1) {
            None => None,
            Some((hi, j)) => {
                if hi == 0 {
                    return None;
                }
                let lo: u64 = (x - 128) as u64;
                if hi <= (u64::MAX - lo) / 128 {
                    proof {
                        assert(lo + 128 * hi <= u64::MAX) by (nonlinear_arith)
                            requires
                                hi <= (u64::MAX - lo) / 128,
                                lo <= 127,
                        ;
                    }
                    let val: u64 = lo + 128 * hi;
                    Some((val, j))
                } else {
                    proof {
                        assert((lo as int) + 128 * (hi as int) > u64::MAX) by (nonlinear_arith)
                            requires
                                hi > (u64::MAX - lo) / 128,
                                lo <= 127,
                        ;
                    }
                    None
                }
            },
        }
    }
}

/// Reads one optional field with the given tag starting at byte `i`;
/// mirrors `dec_opt_field` on the remaining suffix.
fn read_opt_field(b: &Vec<u8>, i: usize, tag: u8) -> (r: Option<(Option<Vec<u8>>, usize)>)
    requires
        i <= b@.len(),
    ensures
        match r {
            Some((body, j)) => i <= j <= b@.len() && dec_opt_field(tag, b@.skip(i as int)) == Some(
                (
                    match body {
                        Some(v) => Some(v@),
                        None => None,
                    },
                    b@.skip(j as int),
                ),
            ),
            None => dec_opt_field(tag, b@.skip(i as int)) is None,
        },
{
    proof {
        assert(i < b@.len() ==> b@.skip(i as int)[0] == b@[i as int]);
    }
    if i < b.len() && b[i] == tag {
        proof {
            assert(b@.skip(i as int).skip(1) =~= b@.skip(i as int + 1));
        }
        match read_varint(b, i + 1) {
            None => None,
            Some((n, j)) => {
                if n <= (b.len() - j) as u64 {
                    let k: usize = j + (n as usize);
                    let body: Vec<u8> = vstd::slice::slice_to_vec(
                        vstd::slice::slice_subrange(b.as_slice(), j, k),
                    );
                    proof {
                        assert(b@.skip(j as int).take(n as int) =~= b@.subrange(j as int, k as int));
                        assert(b@.skip(j as int).skip(n as int) =~= b@.skip(k as int));
                    }
                    Some((Some(body), k))
                } else {
                    None
                }
            },
        }
    } else {
        Some((None, i))
    }
}

/// Decodes the body of a version message; mirrors `dec_version_body`.
fn read_version_body(vb: &Vec<u8>) -> (r: Option<i32>)
    ensures
        r == dec_version_body(vb@),
{
    if vb.len() == 0 {
        return Some(0);
    }
    if vb[0] != 8 {
        return None;
    }
    match read_varint(vb, 1) {
        None => None,
        Some((n, j)) => {
            proof {
                assert(b_skip_len(vb@, j as int));
            }
            if j == vb.len() && 0 < n && n <= (i32::MAX as u64) {
                Some(n as i32)
            } else {
                None
            }
        },
    }
}

/// The suffix at `j` is empty exactly when `j` is the length; a helper
/// fact the decoders share.
spec fn b_skip_len(b: Seq<u8>, j: int) -> bool {
    (b.skip(j).len() == 0) == (j == b.len())
}

proof fn lemma_b_skip_len(b: Seq<u8>, j: int)
    requires
        0 <= j <= b.len(),
    ensures
        b_skip_len(b, j),
{
    if j == b.len() {
        assert(b.skip(j) =~= Seq::<u8>::empty());
    }
}

/// Decodes the body of an identifier message into the identifier string;
/// mirrors `dec_ident_body`.
fn read_ident_body(ib: &Vec<u8>) -> (r: Option<String>)
    ensures
        match r {
            Some(s) => dec_ident_body(ib@) == Some(vstd::utf8::encode_utf8(s@)),
            None => dec_ident_body(ib@) is None,
        },
{
    if ib.len() == 0 {
        proof {
            assert(vstd::utf8::encode_utf8(Seq::<char>::empty()) =~= Seq::<u8>::empty());
        }
        return Some(String::new());
    }
    if ib[0] != 10 {
        return None;
    }
    match read_varint(ib, 1) {
        None => None,
        Some((n, j)) => {
            if n <= (ib.len() - j) as u64 {
                let k: usize = j + (n as usize);
                proof {
                    lemma_b_skip_len(ib@, k as int);
                    assert(ib@.skip(j as int).take(n as int) =~= ib@.subrange(j as int, k as int));
                    assert(ib@.skip(j as int).skip(n as int) =~= ib@.skip(k as int));
                }
                if k == ib.len() && n > 0 {
                    let body: Vec<u8> = vstd::slice::slice_to_vec(
                        vstd::slice::slice_subrange(ib.as_slice(), j, k),
                    );
                    string_from_bytes(body)
                } else {
                    None
                }
            } else {
                None
            }
        },
    }
}

/// Deserializes a stored record from its persisted byte form; returns
/// nothing when the bytes are not a canonical encoding.
pub fn decode_stored_record(b: &Vec<u8>) -> (r: Option<StoredRecord>)
    ensures
        match r {
            Some(rec) => dec_stored(b@) == Some(rec@),
            None => dec_stored(b@) is None,
        },
{
    proof {
        assert(b@.skip(0) =~= b@);
    }
    match read_opt_field(b, 0, 10u8) {
        None => None,
        Some((f1, i1)) => match read_opt_field(b, i1, 18u8) {
            None => None,
            Some((f2, i2)) => {
                proof {
                    lemma_b_skip_len(b@, i2 as int);
                }
                if i2 != b.len() {
                    return None;
                }
                let version: Option<Version> = match f1 {
                    Some(vb) => match read_version_body(&vb) {
                        Some(v) => Some(Version { value: v }),
                        None => {
                            return None;
                        },
                    },
                    None => None,
                };
                let payload: Option<Payload> = match f2 {
                    Some(pv) => Some(Payload { bytes: pv }),
                    None => None,
                };
                Some(StoredRecord { version, payload })
            },
        },
    }
}

/// Deserializes a change entry from its persisted byte form; returns
/// nothing when the bytes are not a canonical encoding.
pub fn decode_change(b: &Vec<u8>) -> (r: Option<Change>)
    ensures
        match r {
            Some(c) => dec_change(b@) == Some(c@),
            None => dec_change(b@) is None,
        },
{
    proof {
        assert(b@.skip(0) =~= b@);
    }
    match read_opt_field(b, 0, 10u8) {
        None => None,
        Some((f1, i1)) => match read_opt_field(b, i1, 18u8) {
            None => None,
            Some((f2, i2)) => match read_opt_field(b, i2, 26u8) {
                None => None,
                Some((f3, i3)) => match read_opt_field(b, i3, 34u8) {
                    None => None,
                    Some((f4, i4)) => {
                        proof {
                            lemma_b_skip_len(b@, i4 as int);
                        }
                        if i4 != b.len() {
                            return None;
                        }
                        let owner_id: Option<crate::protos::OwnerId> = match f1 {
                            Some(ob) => match read_ident_body(&ob) {
                                Some(o) => Some(crate::protos::OwnerId { value: o }),
                                None => {
                                    return None;
                                },
                            },
                            None => None,
                        };
                        let record_id: Option<crate::protos::RecordId> = match f2 {
                            Some(rb) => match read_ident_body(&rb) {
                                Some(rv) => Some(crate::protos::RecordId { value: rv }),
                                None => {
                                    return None;
                                },
                            },
                            None => None,
                        };
                        let version: Option<Version> = match f3 {
                            Some(vb) => match read_version_body(&vb) {
                                Some(v) => Some(Version { value: v }),
                                None => {
                                    return None;
                                },
                            },
                            None => None,
                        };
                        let payload: Option<Payload> = match f4 {
                            Some(pv) => Some(Payload { bytes: pv }),
                            None => None,
                        };
                        Some(Change { owner_id, record_id, version, payload })
                    },
                },
            },
        },
    }
}

/// Relies on `String::from_utf8`: it succeeds exactly on valid UTF-8, and
/// the resulting string's bytes are the input bytes.
#[verifier::external_body]
fn string_from_bytes(bytes: Vec<u8>) -> (r: Option<String>)
    ensures
        r matches Some(s) ==> vstd::utf8::valid_utf8(bytes@) && vstd::utf8::encode_utf8(s@)
            == bytes@,
        r is None ==> !vstd::utf8::valid_utf8(bytes@),
{
    String::from_utf8(bytes).ok()
}

} // verus!
