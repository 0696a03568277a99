//! The wire form of arguments and results: bincode's fixed-width,
//! little-endian encoding, in which a tuple (or a struct) is its fields'
//! encodings one after another, with no names, lengths or tags.
use vstd::prelude::*;

verus! {

/// The four bytes of `x`, least significant first.
pub open spec fn le_i32(x: i32) -> Seq<u8> {
    let u = x as u32;
    seq![(u & 0xff) as u8, ((u >> 8u32) & 0xff) as u8, ((u >> 16u32) & 0xff) as u8, (u >> 24u32) as u8]
}

/// The `i32` whose little-endian bytes begin `b`.
pub open spec fn i32_from_le(b: Seq<u8>) -> i32
    recommends
        b.len() >= 4,
{
    ((b[0] as u32) | ((b[1] as u32) << 8u32) | ((b[2] as u32) << 16u32) | ((b[3] as u32) << 24u32)) as i32
}

/// The wire form of the pair `(a, b)`.
pub open spec fn pair_bytes(a: i32, b: i32) -> Seq<u8> {
    le_i32(a) + le_i32(b)
}

/// The wire form of the triple `(a, b, c)`.
pub open spec fn triple_bytes(a: i32, b: i32, c: i32) -> Seq<u8> {
    le_i32(a) + le_i32(b) + le_i32(c)
}

/// What decoding an `i32` from `b` gives.
pub open spec fn decoded_i32(b: Seq<u8>) -> Option<i32> {
    if b.len() >= 4 {
        Some(i32_from_le(b))
    } else {
        None
    }
}

/// What decoding an `(i32, i32)` from `b` gives.
pub open spec fn decoded_pair(b: Seq<u8>) -> Option<(i32, i32)> {
    if b.len() >= 8 {
        Some((i32_from_le(b), i32_from_le(b.subrange(4, b.len() as int))))
    } else {
        None
    }
}

/// What decoding an `(i32, i32, i32)` from `b` gives.
pub open spec fn decoded_triple(b: Seq<u8>) -> Option<(i32, i32, i32)> {
    if b.len() >= 12 {
        Some(
            (
                i32_from_le(b),
                i32_from_le(b.subrange(4, b.len() as int)),
                i32_from_le(b.subrange(8, b.len() as int)),
            ),
        )
    } else {
        None
    }
}

/// Relies on bincode::serialize, which writes an `i32` as its four
/// little-endian bytes and cannot fail on one.
#[verifier::external_body]
pub(crate) fn encode_i32(x: i32) -> (r: Vec<u8>)
    ensures
        r@ == le_i32(x),
{
    bincode::serialize(&x).unwrap()
}

/// Relies on bincode::deserialize, which reads an `i32` from the first four
/// bytes, little-endian, fails where fewer are given and ignores the rest.
#[verifier::external_body]
pub(crate) fn decode_i32(b: &[u8]) -> (r: Option<i32>)
    ensures
        r == decoded_i32(b@),
{
    bincode::deserialize::<i32>(b).ok()
}

/// Relies on bincode::serialize, which writes a tuple as its fields one
/// after another and cannot fail on `i32` fields.
#[verifier::external_body]
pub(crate) fn encode_pair(a: i32, b: i32) -> (r: Vec<u8>)
    ensures
        r@ == pair_bytes(a, b),
{
    bincode::serialize(&(a, b)).unwrap()
}

/// Relies on bincode::deserialize, which reads a tuple's fields one after
/// another, fails where the bytes run out and ignores what follows.
#[verifier::external_body]
pub(crate) fn decode_pair(b: &[u8]) -> (r: Option<(i32, i32)>)
    ensures
        r == decoded_pair(b@),
{
    bincode::deserialize::<(i32, i32)>(b).ok()
}

/// Relies on bincode::serialize, which writes a tuple as its fields one
/// after another and cannot fail on `i32` fields.
#[verifier::external_body]
pub(crate) fn encode_triple(a: i32, b: i32, c: i32) -> (r: Vec<u8>)
    ensures
        r@ == triple_bytes(a, b, c),
{
    bincode::serialize(&(a, b, c)).unwrap()
}

/// Relies on bincode::deserialize, which reads a tuple's fields one after
/// another, fails where the bytes run out and ignores what follows.
#[verifier::external_body]
pub(crate) fn decode_triple(b: &[u8]) -> (r: Option<(i32, i32, i32)>)
    ensures
        r == decoded_triple(b@),
{
    bincode::deserialize::<(i32, i32, i32)>(b).ok()
}

/// Relies on bincode::serialize, which writes the empty tuple as no bytes.
#[verifier::external_body]
pub(crate) fn encode_unit() -> (r: Vec<u8>)
    ensures
        r@.len() == 0,
{
    bincode::serialize(&()).unwrap()
}

/// Reading an `i32` back from its own bytes, whatever follows them, gives it.
pub proof fn lemma_i32_round_trip(x: i32, rest: Seq<u8>)
    ensures
        i32_from_le(le_i32(x) + rest) == x,
{
    let b = le_i32(x) + rest;
    let u = x as u32;
    assert(b[0] == (u & 0xff) as u8);
    assert(b[1] == ((u >> 8u32) & 0xff) as u8);
    assert(b[2] == ((u >> 16u32) & 0xff) as u8);
    assert(b[3] == (u >> 24u32) as u8);
    assert(((((u & 0xff) as u8) as u32) | ((((u >> 8u32) & 0xff) as u8 as u32) << 8u32) | ((((u
        >> 16u32) & 0xff) as u8 as u32) << 16u32) | ((((u >> 24u32) as u8) as u32) << 24u32)) == u)
        by (bit_vector);
    assert((x as u32) as i32 == x) by (bit_vector);
}

/// Decoding a pair from its own wire form gives it back.
pub proof fn lemma_pair_round_trip(a: i32, b: i32)
    ensures
        decoded_pair(pair_bytes(a, b)) == Some((a, b)),
{
    let w = pair_bytes(a, b);
    lemma_i32_round_trip(a, le_i32(b));
    lemma_i32_round_trip(b, Seq::empty());
    assert(w.subrange(4, w.len() as int) =~= le_i32(b) + Seq::empty());
}

/// Decoding a triple from its own wire form gives it back.
pub proof fn lemma_triple_round_trip(a: i32, b: i32, c: i32)
    ensures
        decoded_triple(triple_bytes(a, b, c)) == Some((a, b, c)),
{
    let w = triple_bytes(a, b, c);
    assert(w =~= le_i32(a) + (le_i32(b) + le_i32(c)));
    lemma_i32_round_trip(a, le_i32(b) + le_i32(c));
    lemma_i32_round_trip(b, le_i32(c));
    lemma_i32_round_trip(c, Seq::empty());
    assert(w.subrange(4, w.len() as int) =~= le_i32(b) + le_i32(c));
    assert(w.subrange(8, w.len() as int) =~= le_i32(c) + Seq::empty());
}

/// Decoding an `i32` from its own wire form gives it back.
pub proof fn lemma_i32_decodes(x: i32)
    ensures
        decoded_i32(le_i32(x)) == Some(x),
{
    lemma_i32_round_trip(x, Seq::empty());
    assert(le_i32(x) + Seq::empty() =~= le_i32(x));
}

} // verus!
