//! The contract ABI layout of the vectors.
//!
//! Every integer is one 32-byte big-endian word. A record is its words in
//! field order, a tuple of records is the records one after the other, and a
//! tuple that holds arrays has a head with an offset word for each array and
//! the arrays, each led by its length, behind it.

use crate::bytes::{
    be_bytes_of, be_value, lemma_be_bytes_of_value, lemma_be_value_of_bytes, lemma_pow256_of_32,
};
use crate::point::{G1Point, G1Wire, G2Point, G2Wire};
use crate::uint::{lemma_u256_below_bound, u256_from_be_slice, u256_to_be_bytes, U256};
use vstd::prelude::*;
use vstd::slice::slice_subrange;

verus! {

/// One ABI word: the 32 big-endian bytes of `v`.
pub open spec fn abi_word(v: nat) -> Seq<u8> {
    be_bytes_of(v, 32)
}

/// A `bool` as a word: one for true, zero for false.
pub open spec fn abi_bool(b: bool) -> Seq<u8> {
    abi_word(if b { 1nat } else { 0nat })
}

/// A record of the first group: `x`, then `y`.
pub open spec fn abi_g1(w: G1Wire) -> Seq<u8> {
    abi_word(w.x) + abi_word(w.y)
}

/// A record of the second group: `x0`, `x1`, `y0`, `y1`.
pub open spec fn abi_g2(w: G2Wire) -> Seq<u8> {
    abi_word(w.x0) + abi_word(w.x1) + abi_word(w.y0) + abi_word(w.y1)
}

/// The records of a sequence one after the other.
pub open spec fn abi_g1_items(ws: Seq<G1Wire>) -> Seq<u8>
    decreases ws.len(),
{
    if ws.len() == 0 {
        Seq::empty()
    } else {
        abi_g1_items(ws.drop_last()) + abi_g1(ws.last())
    }
}

/// The integers of a sequence, a word each, one after the other.
pub open spec fn abi_word_items(vs: Seq<nat>) -> Seq<u8>
    decreases vs.len(),
{
    if vs.len() == 0 {
        Seq::empty()
    } else {
        abi_word_items(vs.drop_last()) + abi_word(vs.last())
    }
}

/// The tuple `(G1Point[], uint256[], G1Point)`: a head of two offsets and
/// the record, then the array of records and the array of integers, each
/// behind its length. The offsets count from the start of the head.
pub open spec fn abi_msm(bases: Seq<G1Wire>, scalars: Seq<nat>, product: G1Wire) -> Seq<u8> {
    abi_word(128) + abi_word(160 + 64 * bases.len()) + abi_g1(product) + abi_word(bases.len())
        + abi_g1_items(bases) + abi_word(scalars.len()) + abi_word_items(scalars)
}

/// The wire view of each record of a sequence.
pub open spec fn wires_of(points: Seq<G1Point>) -> Seq<G1Wire> {
    Seq::new(points.len(), |i: int| points[i]@)
}

/// The value of each integer of a sequence.
pub open spec fn uints_of(xs: Seq<U256>) -> Seq<nat> {
    Seq::new(xs.len(), |i: int| xs[i]@)
}

/// What a record of the first group is read from: exactly 64 bytes, `x` in
/// the first word and `y` in the second.
pub open spec fn abi_decoded_g1(bytes: Seq<u8>) -> Option<G1Wire> {
    if bytes.len() == 64 {
        Some(G1Wire { x: be_value(bytes.subrange(0, 32)), y: be_value(bytes.subrange(32, 64)) })
    } else {
        None
    }
}

/// A record of the first group that is written is read back as itself.
pub proof fn lemma_g1_record_round_trip(p: G1Point)
    ensures
        abi_decoded_g1(abi_g1(p@)) == Some(p@),
{
    lemma_pow256_of_32();
    lemma_u256_below_bound(p.x);
    lemma_u256_below_bound(p.y);
    lemma_be_value_of_bytes(p.x@, 32);
    lemma_be_value_of_bytes(p.y@, 32);
    let bytes = abi_g1(p@);
    assert(bytes.subrange(0, 32) =~= abi_word(p.x@));
    assert(bytes.subrange(32, 64) =~= abi_word(p.y@));
}

fn push_bytes(out: &mut Vec<u8>, bytes: &[u8])
    ensures
        final(out)@ == old(out)@ + bytes@,
{
    let n = bytes.len();
    let mut i: usize = 0;
    while i < n
        invariant
            i <= n,
            n == bytes@.len(),
            out@ == old(out)@ + bytes@.subrange(0, i as int),
        decreases n - i,
    {
        out.push(bytes[i]);
        assert(bytes@.subrange(0, i + 1) =~= bytes@.subrange(0, i as int).push(bytes@[i as int]));
        i += 1;
    }
    assert(bytes@.subrange(0, n as int) =~= bytes@);
}

fn push_word(out: &mut Vec<u8>, x: &U256)
    ensures
        final(out)@ == old(out)@ + abi_word(x@),
{
    let word = u256_to_be_bytes(x);
    proof {
        lemma_be_bytes_of_value(word@);
    }
    push_bytes(out, word.as_slice());
}

fn push_g1(out: &mut Vec<u8>, p: &G1Point)
    ensures
        final(out)@ == old(out)@ + abi_g1(p@),
{
    push_word(out, &p.x);
    push_word(out, &p.y);
    assert(out@ =~= old(out)@ + abi_g1(p@));
}

fn push_g2(out: &mut Vec<u8>, p: &G2Point)
    ensures
        final(out)@ == old(out)@ + abi_g2(p@),
{
    push_word(out, &p.x0);
    push_word(out, &p.x1);
    push_word(out, &p.y0);
    push_word(out, &p.y1);
    assert(out@ =~= old(out)@ + abi_g2(p@));
}

/// The encoding of one integer.
pub fn encode_uint(x: &U256) -> (out: Vec<u8>)
    ensures
        out@ == abi_word(x@),
{
    let mut out: Vec<u8> = Vec::new();
    push_word(&mut out, x);
    assert(out@ =~= abi_word(x@));
    out
}

/// The encoding of one `bool`.
pub fn encode_bool(b: bool) -> (out: Vec<u8>)
    ensures
        out@ == abi_bool(b),
{
    let word = if b {
        U256::from_u64(1)
    } else {
        U256::from_u64(0)
    };
    encode_uint(&word)
}

/// The encoding of one record of the first group.
pub fn encode_g1(p: &G1Point) -> (out: Vec<u8>)
    ensures
        out@ == abi_g1(p@),
{
    let mut out: Vec<u8> = Vec::new();
    push_g1(&mut out, p);
    assert(out@ =~= abi_g1(p@));
    out
}

/// The encoding of one record of the second group.
pub fn encode_g2(p: &G2Point) -> (out: Vec<u8>)
    ensures
        out@ == abi_g2(p@),
{
    let mut out: Vec<u8> = Vec::new();
    push_g2(&mut out, p);
    assert(out@ =~= abi_g2(p@));
    out
}

/// The encoding of the tuple `(G1Point, G1Point)`.
pub fn encode_g1_pair(a: &G1Point, b: &G1Point) -> (out: Vec<u8>)
    ensures
        out@ == abi_g1(a@) + abi_g1(b@),
{
    let mut out: Vec<u8> = Vec::new();
    push_g1(&mut out, a);
    push_g1(&mut out, b);
    assert(out@ =~= abi_g1(a@) + abi_g1(b@));
    out
}

/// The encoding of the tuple `(G1Point, G1Point, G1Point)`.
pub fn encode_g1_triple(a: &G1Point, b: &G1Point, c: &G1Point) -> (out: Vec<u8>)
    ensures
        out@ == abi_g1(a@) + abi_g1(b@) + abi_g1(c@),
{
    let mut out: Vec<u8> = Vec::new();
    push_g1(&mut out, a);
    push_g1(&mut out, b);
    push_g1(&mut out, c);
    assert(out@ =~= abi_g1(a@) + abi_g1(b@) + abi_g1(c@));
    out
}

/// The encoding of the tuple `(G1Point, G2Point, G1Point, G2Point)`.
pub fn encode_pairing_vector(a1: &G1Point, a2: &G2Point, b1: &G1Point, b2: &G2Point) -> (out: Vec<
    u8,
>)
    ensures
        out@ == abi_g1(a1@) + abi_g2(a2@) + abi_g1(b1@) + abi_g2(b2@),
{
    let mut out: Vec<u8> = Vec::new();
    push_g1(&mut out, a1);
    push_g2(&mut out, a2);
    push_g1(&mut out, b1);
    push_g2(&mut out, b2);
    assert(out@ =~= abi_g1(a1@) + abi_g2(a2@) + abi_g1(b1@) + abi_g2(b2@));
    out
}

/// The encoding of the tuple `(uint256, uint256, bool)`.
pub fn encode_uint_uint_bool(x: &U256, y: &U256, b: bool) -> (out: Vec<u8>)
    ensures
        out@ == abi_word(x@) + abi_word(y@) + abi_bool(b),
{
    let mut out: Vec<u8> = Vec::new();
    push_word(&mut out, x);
    push_word(&mut out, y);
    let flag = if b {
        U256::from_u64(1)
    } else {
        U256::from_u64(0)
    };
    push_word(&mut out, &flag);
    assert(out@ =~= abi_word(x@) + abi_word(y@) + abi_bool(b));
    out
}

/// The encoding of the tuple `(G1Point[], uint256[], G1Point)`. The offset
/// of the second array has to fit a machine word.
pub fn encode_msm(bases: &Vec<G1Point>, scalars: &Vec<U256>, product: &G1Point) -> (out: Vec<u8>)
    requires
        160 + 64 * bases@.len() <= u64::MAX,
    ensures
        out@ == abi_msm(wires_of(bases@), uints_of(scalars@), product@),
{
    let mut out: Vec<u8> = Vec::new();
    let n = bases.len();
    let m = scalars.len();
    push_word(&mut out, &U256::from_u64(128));
    push_word(&mut out, &U256::from_u64(160 + 64 * (n as u64)));
    push_g1(&mut out, product);
    push_word(&mut out, &U256::from_u64(n as u64));
    let ghost head = out@;
    let mut i: usize = 0;
    while i < n
        invariant
            i <= n,
            n == bases@.len(),
            out@ == head + abi_g1_items(wires_of(bases@).subrange(0, i as int)),
        decreases n - i,
    {
        push_g1(&mut out, &bases[i]);
        proof {
            let ws = wires_of(bases@);
            let next = ws.subrange(0, i + 1);
            assert(next.drop_last() =~= ws.subrange(0, i as int));
            assert(next.last() == bases@[i as int]@);
            assert(out@ =~= head + abi_g1_items(next));
        }
        i += 1;
    }
    assert(wires_of(bases@).subrange(0, n as int) =~= wires_of(bases@));
    push_word(&mut out, &U256::from_u64(m as u64));
    let ghost middle = out@;
    let mut j: usize = 0;
    while j < m
        invariant
            j <= m,
            m == scalars@.len(),
            out@ == middle + abi_word_items(uints_of(scalars@).subrange(0, j as int)),
        decreases m - j,
    {
        push_word(&mut out, &scalars[j]);
        proof {
            let vs = uints_of(scalars@);
            let next = vs.subrange(0, j + 1);
            assert(next.drop_last() =~= vs.subrange(0, j as int));
            assert(next.last() == scalars@[j as int]@);
            assert(out@ =~= middle + abi_word_items(next));
        }
        j += 1;
    }
    assert(uints_of(scalars@).subrange(0, m as int) =~= uints_of(scalars@));
    assert(out@ =~= abi_msm(wires_of(bases@), uints_of(scalars@), product@));
    out
}

/// The record of the first group that 64 bytes hold; `None` for any other
/// length.
pub fn decode_g1(bytes: &[u8]) -> (r: Option<G1Point>)
    ensures
        r matches Some(p) ==> abi_decoded_g1(bytes@) == Some(p@),
        r is None ==> abi_decoded_g1(bytes@) is None,
{
    if bytes.len() != 64 {
        return None;
    }
    let x = u256_from_be_slice(slice_subrange(bytes, 0, 32));
    let y = u256_from_be_slice(slice_subrange(bytes, 32, 64));
    Some(G1Point { x, y })
}

} // verus!
