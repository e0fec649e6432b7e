//! The canonical byte encoding of a capability's signed fields.  This
//! layout is the actual protocol between issuer and verifier: both sides
//! must produce bit-identical bytes for the same logical tuple, and no two
//! distinct tuples may share an encoding.  The order is frozen: target,
//! accessor, protections, revocation, gate count, gate entries, algorithm
//! tag; every integer is little-endian and fixed width.

use vstd::prelude::*;
use crate::abi::ObjectId;
use crate::abi::Protections;
use crate::token::HashingAlgo;
use crate::token::Revoc;
use crate::token::Gates;
use crate::token::spec_algo_tag;
use crate::token::algo_tag;
use crate::token::lemma_algo_tag_injective;

verus! {

broadcast use vstd::seq::group_seq_axioms;

/// The eight little-endian bytes of a 64-bit value.
pub open spec fn le_bytes_64(x: u64) -> Seq<u8> {
    seq![
        (x & 0xff) as u8,
        ((x >> 8) & 0xff) as u8,
        ((x >> 16) & 0xff) as u8,
        ((x >> 24) & 0xff) as u8,
        ((x >> 32) & 0xff) as u8,
        ((x >> 40) & 0xff) as u8,
        ((x >> 48) & 0xff) as u8,
        ((x >> 56) & 0xff) as u8,
    ]
}

/// The sixteen little-endian bytes of a 128-bit value.
pub open spec fn le_bytes_128(x: u128) -> Seq<u8> {
    seq![
        (x & 0xff) as u8,
        ((x >> 8) & 0xff) as u8,
        ((x >> 16) & 0xff) as u8,
        ((x >> 24) & 0xff) as u8,
        ((x >> 32) & 0xff) as u8,
        ((x >> 40) & 0xff) as u8,
        ((x >> 48) & 0xff) as u8,
        ((x >> 56) & 0xff) as u8,
        ((x >> 64) & 0xff) as u8,
        ((x >> 72) & 0xff) as u8,
        ((x >> 80) & 0xff) as u8,
        ((x >> 88) & 0xff) as u8,
        ((x >> 96) & 0xff) as u8,
        ((x >> 104) & 0xff) as u8,
        ((x >> 112) & 0xff) as u8,
        ((x >> 120) & 0xff) as u8,
    ]
}

/// A 64-bit value is recoverable from its little-endian bytes.
pub proof fn lemma_le_bytes_64_injective(x: u64, y: u64)
    requires
        le_bytes_64(x) == le_bytes_64(y),
    ensures
        x == y,
{
    assert(le_bytes_64(x)[0] == le_bytes_64(y)[0]);
    assert(le_bytes_64(x)[1] == le_bytes_64(y)[1]);
    assert(le_bytes_64(x)[2] == le_bytes_64(y)[2]);
    assert(le_bytes_64(x)[3] == le_bytes_64(y)[3]);
    assert(le_bytes_64(x)[4] == le_bytes_64(y)[4]);
    assert(le_bytes_64(x)[5] == le_bytes_64(y)[5]);
    assert(le_bytes_64(x)[6] == le_bytes_64(y)[6]);
    assert(le_bytes_64(x)[7] == le_bytes_64(y)[7]);
    assert(x == y) by (bit_vector)
        requires
            (x & 0xff) as u8 == (y & 0xff) as u8,
            ((x >> 8) & 0xff) as u8 == ((y >> 8) & 0xff) as u8,
            ((x >> 16) & 0xff) as u8 == ((y >> 16) & 0xff) as u8,
            ((x >> 24) & 0xff) as u8 == ((y >> 24) & 0xff) as u8,
            ((x >> 32) & 0xff) as u8 == ((y >> 32) & 0xff) as u8,
            ((x >> 40) & 0xff) as u8 == ((y >> 40) & 0xff) as u8,
            ((x >> 48) & 0xff) as u8 == ((y >> 48) & 0xff) as u8,
            ((x >> 56) & 0xff) as u8 == ((y >> 56) & 0xff) as u8,
    ;
}

/// A 128-bit value is recoverable from its little-endian bytes.
pub proof fn lemma_le_bytes_128_injective(x: u128, y: u128)
    requires
        le_bytes_128(x) == le_bytes_128(y),
    ensures
        x == y,
{
    assert(le_bytes_128(x)[0] == le_bytes_128(y)[0]);
    assert(le_bytes_128(x)[1] == le_bytes_128(y)[1]);
    assert(le_bytes_128(x)[2] == le_bytes_128(y)[2]);
    assert(le_bytes_128(x)[3] == le_bytes_128(y)[3]);
    assert(le_bytes_128(x)[4] == le_bytes_128(y)[4]);
    assert(le_bytes_128(x)[5] == le_bytes_128(y)[5]);
    assert(le_bytes_128(x)[6] == le_bytes_128(y)[6]);
    assert(le_bytes_128(x)[7] == le_bytes_128(y)[7]);
    assert(le_bytes_128(x)[8] == le_bytes_128(y)[8]);
    assert(le_bytes_128(x)[9] == le_bytes_128(y)[9]);
    assert(le_bytes_128(x)[10] == le_bytes_128(y)[10]);
    assert(le_bytes_128(x)[11] == le_bytes_128(y)[11]);
    assert(le_bytes_128(x)[12] == le_bytes_128(y)[12]);
    assert(le_bytes_128(x)[13] == le_bytes_128(y)[13]);
    assert(le_bytes_128(x)[14] == le_bytes_128(y)[14]);
    assert(le_bytes_128(x)[15] == le_bytes_128(y)[15]);
    assert(x == y) by (bit_vector)
        requires
            (x & 0xff) as u8 == (y & 0xff) as u8,
            ((x >> 8) & 0xff) as u8 == ((y >> 8) & 0xff) as u8,
            ((x >> 16) & 0xff) as u8 == ((y >> 16) & 0xff) as u8,
            ((x >> 24) & 0xff) as u8 == ((y >> 24) & 0xff) as u8,
            ((x >> 32) & 0xff) as u8 == ((y >> 32) & 0xff) as u8,
            ((x >> 40) & 0xff) as u8 == ((y >> 40) & 0xff) as u8,
            ((x >> 48) & 0xff) as u8 == ((y >> 48) & 0xff) as u8,
            ((x >> 56) & 0xff) as u8 == ((y >> 56) & 0xff) as u8,
            ((x >> 64) & 0xff) as u8 == ((y >> 64) & 0xff) as u8,
            ((x >> 72) & 0xff) as u8 == ((y >> 72) & 0xff) as u8,
            ((x >> 80) & 0xff) as u8 == ((y >> 80) & 0xff) as u8,
            ((x >> 88) & 0xff) as u8 == ((y >> 88) & 0xff) as u8,
            ((x >> 96) & 0xff) as u8 == ((y >> 96) & 0xff) as u8,
            ((x >> 104) & 0xff) as u8 == ((y >> 104) & 0xff) as u8,
            ((x >> 112) & 0xff) as u8 == ((y >> 112) & 0xff) as u8,
            ((x >> 120) & 0xff) as u8 == ((y >> 120) & 0xff) as u8,
    ;
}

/// Append the eight little-endian bytes of `x`.
pub fn push_le_64(out: &mut Vec<u8>, x: u64)
    ensures
        final(out)@ == old(out)@ + le_bytes_64(x),
{
    proof {
        assert(x & 0xff < 256 && (x >> 8) & 0xff < 256 && (x >> 16) & 0xff < 256 && (x >> 24)
            & 0xff < 256 && (x >> 32) & 0xff < 256 && (x >> 40) & 0xff < 256 && (x >> 48) & 0xff
            < 256 && (x >> 56) & 0xff < 256) by (bit_vector);
    }
    out.push((x & 0xff) as u8);
    out.push(((x >> 8) & 0xff) as u8);
    out.push(((x >> 16) & 0xff) as u8);
    out.push(((x >> 24) & 0xff) as u8);
    out.push(((x >> 32) & 0xff) as u8);
    out.push(((x >> 40) & 0xff) as u8);
    out.push(((x >> 48) & 0xff) as u8);
    out.push(((x >> 56) & 0xff) as u8);
    proof {
        assert(out@ =~= old(out)@ + le_bytes_64(x));
    }
}

/// Append the sixteen little-endian bytes of `x`.
pub fn push_le_128(out: &mut Vec<u8>, x: u128)
    ensures
        final(out)@ == old(out)@ + le_bytes_128(x),
{
    proof {
        assert(x & 0xff < 256 && (x >> 8) & 0xff < 256 && (x >> 16) & 0xff < 256 && (x >> 24)
            & 0xff < 256 && (x >> 32) & 0xff < 256 && (x >> 40) & 0xff < 256 && (x >> 48) & 0xff
            < 256 && (x >> 56) & 0xff < 256 && (x >> 64) & 0xff < 256 && (x >> 72) & 0xff < 256
            && (x >> 80) & 0xff < 256 && (x >> 88) & 0xff < 256 && (x >> 96) & 0xff < 256 && (x
            >> 104) & 0xff < 256 && (x >> 112) & 0xff < 256 && (x >> 120) & 0xff < 256)
            by (bit_vector);
    }
    out.push((x & 0xff) as u8);
    out.push(((x >> 8) & 0xff) as u8);
    out.push(((x >> 16) & 0xff) as u8);
    out.push(((x >> 24) & 0xff) as u8);
    out.push(((x >> 32) & 0xff) as u8);
    out.push(((x >> 40) & 0xff) as u8);
    out.push(((x >> 48) & 0xff) as u8);
    out.push(((x >> 56) & 0xff) as u8);
    out.push(((x >> 64) & 0xff) as u8);
    out.push(((x >> 72) & 0xff) as u8);
    out.push(((x >> 80) & 0xff) as u8);
    out.push(((x >> 88) & 0xff) as u8);
    out.push(((x >> 96) & 0xff) as u8);
    out.push(((x >> 104) & 0xff) as u8);
    out.push(((x >> 112) & 0xff) as u8);
    out.push(((x >> 120) & 0xff) as u8);
    proof {
        assert(out@ =~= old(out)@ + le_bytes_128(x));
    }
}

/// Read back the 64-bit value whose little-endian bytes sit at `off`.
pub fn read_le_64(bytes: &Vec<u8>, off: usize) -> (r: u64)
    requires
        off + 8 <= bytes@.len(),
    ensures
        le_bytes_64(r) == bytes@.subrange(off as int, off as int + 8),
{
    let n = bytes.len();
    let b0 = bytes[off] as u64;
    let b1 = bytes[off + 1] as u64;
    let b2 = bytes[off + 2] as u64;
    let b3 = bytes[off + 3] as u64;
    let b4 = bytes[off + 4] as u64;
    let b5 = bytes[off + 5] as u64;
    let b6 = bytes[off + 6] as u64;
    let b7 = bytes[off + 7] as u64;
    let r = b0 | b1 << 8 | b2 << 16 | b3 << 24 | b4 << 32 | b5 << 40 | b6 << 48 | b7 << 56;
    proof {
        assert((r & 0xff) as u8 == b0 as u8 && ((r >> 8) & 0xff) as u8 == b1 as u8 && ((r >> 16)
            & 0xff) as u8 == b2 as u8 && ((r >> 24) & 0xff) as u8 == b3 as u8 && ((r >> 32)
            & 0xff) as u8 == b4 as u8 && ((r >> 40) & 0xff) as u8 == b5 as u8 && ((r >> 48)
            & 0xff) as u8 == b6 as u8 && ((r >> 56) & 0xff) as u8 == b7 as u8) by (bit_vector)
            requires
                r == b0 | b1 << 8 | b2 << 16 | b3 << 24 | b4 << 32 | b5 << 40 | b6 << 48 | b7
                    << 56,
                b0 < 256 && b1 < 256 && b2 < 256 && b3 < 256 && b4 < 256 && b5 < 256 && b6 < 256
                    && b7 < 256,
        ;
        assert(le_bytes_64(r) =~= bytes@.subrange(off as int, off as int + 8));
    }
    r
}

/// Read back the 128-bit value whose little-endian bytes sit at `off`.
pub fn read_le_128(bytes: &Vec<u8>, off: usize) -> (r: u128)
    requires
        off + 16 <= bytes@.len(),
    ensures
        le_bytes_128(r) == bytes@.subrange(off as int, off as int + 16),
{
    let n = bytes.len();
    let b0 = bytes[off] as u128;
    let b1 = bytes[off + 1] as u128;
    let b2 = bytes[off + 2] as u128;
    let b3 = bytes[off + 3] as u128;
    let b4 = bytes[off + 4] as u128;
    let b5 = bytes[off + 5] as u128;
    let b6 = bytes[off + 6] as u128;
    let b7 = bytes[off + 7] as u128;
    let b8 = bytes[off + 8] as u128;
    let b9 = bytes[off + 9] as u128;
    let b10 = bytes[off + 10] as u128;
    let b11 = bytes[off + 11] as u128;
    let b12 = bytes[off + 12] as u128;
    let b13 = bytes[off + 13] as u128;
    let b14 = bytes[off + 14] as u128;
    let b15 = bytes[off + 15] as u128;
    let r = b0 | b1 << 8 | b2 << 16 | b3 << 24 | b4 << 32 | b5 << 40 | b6 << 48 | b7 << 56 | b8
        << 64 | b9 << 72 | b10 << 80 | b11 << 88 | b12 << 96 | b13 << 104 | b14 << 112 | b15
        << 120;
    proof {
        assert((r & 0xff) as u8 == b0 as u8 && ((r >> 8) & 0xff) as u8 == b1 as u8 && ((r >> 16)
            & 0xff) as u8 == b2 as u8 && ((r >> 24) & 0xff) as u8 == b3 as u8 && ((r >> 32)
            & 0xff) as u8 == b4 as u8 && ((r >> 40) & 0xff) as u8 == b5 as u8 && ((r >> 48)
            & 0xff) as u8 == b6 as u8 && ((r >> 56) & 0xff) as u8 == b7 as u8 && ((r >> 64)
            & 0xff) as u8 == b8 as u8 && ((r >> 72) & 0xff) as u8 == b9 as u8 && ((r >> 80)
            & 0xff) as u8 == b10 as u8 && ((r >> 88) & 0xff) as u8 == b11 as u8 && ((r >> 96)
            & 0xff) as u8 == b12 as u8 && ((r >> 104) & 0xff) as u8 == b13 as u8 && ((r >> 112)
            & 0xff) as u8 == b14 as u8 && ((r >> 120) & 0xff) as u8 == b15 as u8) by (bit_vector)
            requires
                r == b0 | b1 << 8 | b2 << 16 | b3 << 24 | b4 << 32 | b5 << 40 | b6 << 48 | b7
                    << 56 | b8 << 64 | b9 << 72 | b10 << 80 | b11 << 88 | b12 << 96 | b13 << 104
                    | b14 << 112 | b15 << 120,
                b0 < 256 && b1 < 256 && b2 < 256 && b3 < 256 && b4 < 256 && b5 < 256 && b6 < 256
                    && b7 < 256 && b8 < 256 && b9 < 256 && b10 < 256 && b11 < 256 && b12 < 256
                    && b13 < 256 && b14 < 256 && b15 < 256,
        ;
        assert(le_bytes_128(r) =~= bytes@.subrange(off as int, off as int + 16));
    }
    r
}

/// The concatenated little-endian encodings of all gate entries, in table
/// order.
pub open spec fn gate_list_bytes(g: Seq<u64>) -> Seq<u8>
    decreases g.len(),
{
    if g.len() == 0 {
        Seq::empty()
    } else {
        le_bytes_64(g[0]) + gate_list_bytes(g.skip(1))
    }
}

pub proof fn lemma_gate_list_bytes_len(g: Seq<u64>)
    ensures
        gate_list_bytes(g).len() == 8 * g.len(),
    decreases g.len(),
{
    if g.len() > 0 {
        lemma_gate_list_bytes_len(g.skip(1));
    }
}

/// Appending one entry appends its eight bytes.
pub proof fn lemma_gate_list_bytes_push(g: Seq<u64>, x: u64)
    ensures
        gate_list_bytes(g.push(x)) == gate_list_bytes(g) + le_bytes_64(x),
    decreases g.len(),
{
    if g.len() == 0 {
        assert(g.push(x)[0] == x);
        assert(g.push(x).skip(1) =~= Seq::<u64>::empty());
        assert(g =~= Seq::<u64>::empty());
        assert(gate_list_bytes(Seq::<u64>::empty()) == Seq::<u8>::empty());
        assert(gate_list_bytes(g.push(x)) == le_bytes_64(x) + Seq::<u8>::empty());
        assert(le_bytes_64(x) + Seq::<u8>::empty() =~= Seq::<u8>::empty() + le_bytes_64(x));
    } else {
        assert(g.push(x)[0] == g[0]);
        assert(g.push(x).skip(1) =~= g.skip(1).push(x));
        lemma_gate_list_bytes_push(g.skip(1), x);
        assert(gate_list_bytes(g.push(x)) == le_bytes_64(g[0]) + (gate_list_bytes(g.skip(1))
            + le_bytes_64(x)));
        assert(le_bytes_64(g[0]) + (gate_list_bytes(g.skip(1)) + le_bytes_64(x)) =~= (le_bytes_64(
            g[0],
        ) + gate_list_bytes(g.skip(1))) + le_bytes_64(x));
    }
}

/// Two halves of equal concatenations are equal when the front halves have
/// one length.
pub proof fn lemma_concat_split(a: Seq<u8>, b: Seq<u8>, c: Seq<u8>, d: Seq<u8>)
    requires
        a.len() == c.len(),
        a + b == c + d,
    ensures
        a == c,
        b == d,
{
    assert(a.add(b).len() == a.len() + b.len());
    assert(c.add(d).len() == c.len() + d.len());
    assert((a + b).len() == (c + d).len());
    assert(b.len() == d.len());
    assert forall|i: int| 0 <= i < a.len() implies a[i] == c[i] by {
        assert((a + b)[i] == a[i]);
        assert((c + d)[i] == c[i]);
    }
    assert(a =~= c);
    assert forall|i: int| 0 <= i < b.len() implies b[i] == d[i] by {
        assert((a + b)[a.len() + i] == b[i]);
        assert((c + d)[c.len() + i] == d[i]);
    }
    assert(b =~= d);
}

/// Gate tables of one length with one byte encoding are one table.
pub proof fn lemma_gate_list_bytes_injective(g1: Seq<u64>, g2: Seq<u64>)
    requires
        g1.len() == g2.len(),
        gate_list_bytes(g1) == gate_list_bytes(g2),
    ensures
        g1 =~= g2,
    decreases g1.len(),
{
    if g1.len() > 0 {
        lemma_concat_split(
            le_bytes_64(g1[0]),
            gate_list_bytes(g1.skip(1)),
            le_bytes_64(g2[0]),
            gate_list_bytes(g2.skip(1)),
        );
        lemma_le_bytes_64_injective(g1[0], g2[0]);
        lemma_gate_list_bytes_injective(g1.skip(1), g2.skip(1));
        assert forall|i: int| 0 <= i < g1.len() implies g1[i] == g2[i] by {
            if i > 0 {
                assert(g1.skip(1)[i - 1] == g1[i]);
                assert(g2.skip(1)[i - 1] == g2[i]);
            }
        }
        assert(g1 =~= g2);
    }
}

/// The frozen canonical encoding of a capability's signed fields: target,
/// accessor, protections, revocation, gate count, gate entries, then the
/// one-byte algorithm tag.
pub open spec fn spec_canonical_bytes(
    target: ObjectId,
    accessor: ObjectId,
    protections: Protections,
    revocation: Revoc,
    gates: Seq<u64>,
    algo: HashingAlgo,
) -> Seq<u8> {
    le_bytes_128(target.raw) + le_bytes_128(accessor.raw) + le_bytes_64(protections.mask)
        + le_bytes_64(revocation.value) + le_bytes_64(gates.len() as u64) + gate_list_bytes(gates)
        + seq![spec_algo_tag(algo)]
}

/// Produce the canonical encoding of the given field tuple.  Encoding is a
/// pure function of the tuple, so two calls on one logical tuple return
/// byte-identical vectors.
pub fn canonical_encode(
    target: ObjectId,
    accessor: ObjectId,
    protections: Protections,
    revocation: Revoc,
    gates: &Gates,
    algo: HashingAlgo,
) -> (r: Vec<u8>)
    ensures
        r@ == spec_canonical_bytes(target, accessor, protections, revocation, gates@, algo),
{
    let mut out: Vec<u8> = Vec::new();
    push_le_128(&mut out, target.raw);
    push_le_128(&mut out, accessor.raw);
    push_le_64(&mut out, protections.mask);
    push_le_64(&mut out, revocation.value);
    push_le_64(&mut out, gates.entries.len() as u64);
    let ghost prefix = out@;
    let mut i: usize = 0;
    while i < gates.entries.len()
        invariant
            i <= gates.entries.len(),
            out@ == prefix + gate_list_bytes(gates.entries@.take(i as int)),
        decreases gates.entries.len() - i,
    {
        let ghost done = gates.entries@.take(i as int);
        push_le_64(&mut out, gates.entries[i]);
        proof {
            lemma_gate_list_bytes_push(done, gates.entries@[i as int]);
            assert(gates.entries@.take(i + 1 as int) =~= done.push(gates.entries@[i as int]));
        }
        i = i + 1;
    }
    proof {
        assert(gates.entries@.take(gates.entries@.len() as int) =~= gates.entries@);
    }
    out.push(algo_tag(algo));
    proof {
        assert(out@ =~= spec_canonical_bytes(target, accessor, protections, revocation, gates@,
            algo));
    }
    out
}

/// Adjacent subranges concatenate to the enclosing subrange.
pub proof fn lemma_subrange_concat(s: Seq<u8>, a: int, b: int, c: int)
    requires
        0 <= a <= b <= c <= s.len(),
    ensures
        s.subrange(a, b) + s.subrange(b, c) == s.subrange(a, c),
{
    assert(s.subrange(a, b) + s.subrange(b, c) =~= s.subrange(a, c));
}

/// Where each field of a canonical encoding sits: the encoding determines
/// its own length, and every field is recoverable from its fixed range.
pub proof fn lemma_canonical_parts(
    target: ObjectId,
    accessor: ObjectId,
    protections: Protections,
    revocation: Revoc,
    gates: Seq<u64>,
    algo: HashingAlgo,
    s: Seq<u8>,
)
    requires
        s == spec_canonical_bytes(target, accessor, protections, revocation, gates, algo),
    ensures
        s.len() == 57 + 8 * gates.len(),
        s.subrange(0, 16) == le_bytes_128(target.raw),
        s.subrange(16, 32) == le_bytes_128(accessor.raw),
        s.subrange(32, 40) == le_bytes_64(protections.mask),
        s.subrange(40, 48) == le_bytes_64(revocation.value),
        s.subrange(48, 56) == le_bytes_64(gates.len() as u64),
        s.subrange(56, 56 + 8 * gates.len() as int) == gate_list_bytes(gates),
        s[s.len() - 1] == spec_algo_tag(algo),
{
    lemma_gate_list_bytes_len(gates);
    assert(s.subrange(0, 16) =~= le_bytes_128(target.raw));
    assert(s.subrange(16, 32) =~= le_bytes_128(accessor.raw));
    assert(s.subrange(32, 40) =~= le_bytes_64(protections.mask));
    assert(s.subrange(40, 48) =~= le_bytes_64(revocation.value));
    assert(s.subrange(48, 56) =~= le_bytes_64(gates.len() as u64));
    assert(s.subrange(56, 56 + 8 * gates.len() as int) =~= gate_list_bytes(gates));
}

/// Canonical encoding is deterministic: it depends on the logical tuple
/// alone, so any two encodings of one tuple — whatever vectors carry the
/// gate entries — are byte-identical.
pub proof fn lemma_canonical_deterministic(
    target: ObjectId,
    accessor: ObjectId,
    protections: Protections,
    revocation: Revoc,
    gates1: Seq<u64>,
    gates2: Seq<u64>,
    algo: HashingAlgo,
)
    requires
        gates1 =~= gates2,
    ensures
        spec_canonical_bytes(target, accessor, protections, revocation, gates1, algo)
            == spec_canonical_bytes(target, accessor, protections, revocation, gates2, algo),
{
}

/// Canonical encoding is injective: two field tuples with one encoding are
/// one tuple, so flipping any bit of any signed field changes the bytes
/// that the signature covers.
pub proof fn lemma_canonical_injective(
    t1: ObjectId,
    a1: ObjectId,
    p1: Protections,
    r1: Revoc,
    g1: Seq<u64>,
    al1: HashingAlgo,
    t2: ObjectId,
    a2: ObjectId,
    p2: Protections,
    r2: Revoc,
    g2: Seq<u64>,
    al2: HashingAlgo,
)
    requires
        spec_canonical_bytes(t1, a1, p1, r1, g1, al1) == spec_canonical_bytes(
            t2,
            a2,
            p2,
            r2,
            g2,
            al2,
        ),
        g1.len() <= u64::MAX,
        g2.len() <= u64::MAX,
    ensures
        t1 == t2,
        a1 == a2,
        p1 == p2,
        r1 == r2,
        g1 =~= g2,
        al1 == al2,
{
    lemma_gate_list_bytes_len(g1);
    lemma_gate_list_bytes_len(g2);
    let s1 = spec_canonical_bytes(t1, a1, p1, r1, g1, al1);
    let s2 = spec_canonical_bytes(t2, a2, p2, r2, g2, al2);
    // The encoding's length is 57 + 8 * gates.len(), so equal encodings
    // already force equal gate counts.
    assert(s1.len() == 57 + 8 * g1.len());
    assert(s2.len() == 57 + 8 * g2.len());
    assert(g1.len() == g2.len());

    // Peel the concatenation from the outside in; each step compares two
    // front parts of one length.
    let u1 = le_bytes_128(t1.raw) + le_bytes_128(a1.raw) + le_bytes_64(p1.mask) + le_bytes_64(
        r1.value,
    ) + le_bytes_64(g1.len() as u64) + gate_list_bytes(g1);
    let u2 = le_bytes_128(t2.raw) + le_bytes_128(a2.raw) + le_bytes_64(p2.mask) + le_bytes_64(
        r2.value,
    ) + le_bytes_64(g2.len() as u64) + gate_list_bytes(g2);
    lemma_concat_split(u1, seq![spec_algo_tag(al1)], u2, seq![spec_algo_tag(al2)]);
    assert(seq![spec_algo_tag(al1)][0] == seq![spec_algo_tag(al2)][0]);
    lemma_algo_tag_injective(al1, al2);

    let v1 = le_bytes_128(t1.raw) + le_bytes_128(a1.raw) + le_bytes_64(p1.mask) + le_bytes_64(
        r1.value,
    ) + le_bytes_64(g1.len() as u64);
    let v2 = le_bytes_128(t2.raw) + le_bytes_128(a2.raw) + le_bytes_64(p2.mask) + le_bytes_64(
        r2.value,
    ) + le_bytes_64(g2.len() as u64);
    lemma_concat_split(v1, gate_list_bytes(g1), v2, gate_list_bytes(g2));
    lemma_gate_list_bytes_injective(g1, g2);

    let w1 = le_bytes_128(t1.raw) + le_bytes_128(a1.raw) + le_bytes_64(p1.mask) + le_bytes_64(
        r1.value,
    );
    let w2 = le_bytes_128(t2.raw) + le_bytes_128(a2.raw) + le_bytes_64(p2.mask) + le_bytes_64(
        r2.value,
    );
    lemma_concat_split(w1, le_bytes_64(g1.len() as u64), w2, le_bytes_64(g2.len() as u64));

    let x1 = le_bytes_128(t1.raw) + le_bytes_128(a1.raw) + le_bytes_64(p1.mask);
    let x2 = le_bytes_128(t2.raw) + le_bytes_128(a2.raw) + le_bytes_64(p2.mask);
    lemma_concat_split(x1, le_bytes_64(r1.value), x2, le_bytes_64(r2.value));
    lemma_le_bytes_64_injective(r1.value, r2.value);

    let y1 = le_bytes_128(t1.raw) + le_bytes_128(a1.raw);
    let y2 = le_bytes_128(t2.raw) + le_bytes_128(a2.raw);
    lemma_concat_split(y1, le_bytes_64(p1.mask), y2, le_bytes_64(p2.mask));
    lemma_le_bytes_64_injective(p1.mask, p2.mask);

    lemma_concat_split(le_bytes_128(t1.raw), le_bytes_128(a1.raw), le_bytes_128(t2.raw),
        le_bytes_128(a2.raw));
    lemma_le_bytes_128_injective(t1.raw, t2.raw);
    lemma_le_bytes_128_injective(a1.raw, a2.raw);
}

} // verus!
