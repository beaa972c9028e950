//! The shared register codec: every control-table field, whatever its
//! semantic type, travels as up to 4 little-endian bytes, zero-extended.
//! Booleans occupy one byte whose low bit is the value.
//!
//! The round-trip laws at the bottom state the register invariant: for
//! every representable value, decoding the encoded bytes gives the value
//! back.

use vstd::prelude::*;

verus! {

/// A `u8` value as 4 zero-extended wire bytes.
pub open spec fn u8_le(v: u8) -> Seq<u8> {
    seq![v, 0u8, 0u8, 0u8]
}

/// A `bool` value as 4 zero-extended wire bytes.
pub open spec fn bool_le(v: bool) -> Seq<u8> {
    seq![if v { 1u8 } else { 0u8 }, 0u8, 0u8, 0u8]
}

/// A `u16` value as 4 zero-extended little-endian wire bytes.
pub open spec fn u16_le(v: u16) -> Seq<u8> {
    seq![(v & 0xff) as u8, ((v >> 8) & 0xff) as u8, 0u8, 0u8]
}

/// An `i16` value as 4 zero-extended little-endian two's-complement wire
/// bytes.
pub open spec fn i16_le(v: i16) -> Seq<u8> {
    seq![(v & 0xff) as u8, ((v >> 8) & 0xff) as u8, 0u8, 0u8]
}

/// An `i32` value as 4 little-endian two's-complement wire bytes.
pub open spec fn i32_le(v: i32) -> Seq<u8> {
    seq![
        (v & 0xff) as u8,
        ((v >> 8) & 0xff) as u8,
        ((v >> 16) & 0xff) as u8,
        ((v >> 24) & 0xff) as u8,
    ]
}

/// The `u8` carried by 1 wire byte.
pub open spec fn u8_of_le(d: Seq<u8>) -> u8 {
    d[0]
}

/// The `bool` carried by 1 wire byte: its low bit.
pub open spec fn bool_of_le(d: Seq<u8>) -> bool {
    d[0] & 1 == 1
}

/// The `u16` carried by 2 little-endian wire bytes.
pub open spec fn u16_of_le(d: Seq<u8>) -> u16 {
    (d[0] as u16) | ((d[1] as u16) << 8)
}

/// The `i16` carried by 2 little-endian two's-complement wire bytes.
pub open spec fn i16_of_le(d: Seq<u8>) -> i16 {
    ((d[0] as u16) | ((d[1] as u16) << 8)) as i16
}

/// The `i32` carried by 4 little-endian two's-complement wire bytes.
pub open spec fn i32_of_le(d: Seq<u8>) -> i32 {
    ((d[0] as u32) | ((d[1] as u32) << 8) | ((d[2] as u32) << 16) | ((d[3] as u32) << 24)) as i32
}

/// Encode a `u16` little-endian, zero-extended to 4 bytes.
pub fn encode_u16(v: u16) -> (r: Vec<u8>)
    ensures
        r@ == u16_le(v),
        r@.len() == 4,
{
    let mut r: Vec<u8> = Vec::new();
    r.push((v & 0xff) as u8);
    r.push(((v >> 8) & 0xff) as u8);
    r.push(0);
    r.push(0);
    proof {
        assert(r@ =~= u16_le(v));
    }
    r
}

/// Encode an `i16` little-endian, zero-extended to 4 bytes.
pub fn encode_i16(v: i16) -> (r: Vec<u8>)
    ensures
        r@ == i16_le(v),
        r@.len() == 4,
{
    let mut r: Vec<u8> = Vec::new();
    r.push((v & 0xff) as u8);
    r.push(((v >> 8) & 0xff) as u8);
    r.push(0);
    r.push(0);
    proof {
        assert(r@ =~= i16_le(v));
    }
    r
}

/// Encode an `i32` little-endian as 4 bytes.
pub fn encode_i32(v: i32) -> (r: Vec<u8>)
    ensures
        r@ == i32_le(v),
        r@.len() == 4,
{
    let mut r: Vec<u8> = Vec::new();
    r.push((v & 0xff) as u8);
    r.push(((v >> 8) & 0xff) as u8);
    r.push(((v >> 16) & 0xff) as u8);
    r.push(((v >> 24) & 0xff) as u8);
    proof {
        assert(r@ =~= i32_le(v));
    }
    r
}

/// Encode a `u8` zero-extended to 4 bytes.
pub fn encode_u8(v: u8) -> (r: Vec<u8>)
    ensures
        r@ == u8_le(v),
        r@.len() == 4,
{
    let mut r: Vec<u8> = Vec::new();
    r.push(v);
    r.push(0);
    r.push(0);
    r.push(0);
    proof {
        assert(r@ =~= u8_le(v));
    }
    r
}

/// Encode a `bool` as one byte (1 or 0), zero-extended to 4 bytes.
pub fn encode_bool(v: bool) -> (r: Vec<u8>)
    ensures
        r@ == bool_le(v),
        r@.len() == 4,
{
    let mut r: Vec<u8> = Vec::new();
    r.push(if v { 1 } else { 0 });
    r.push(0);
    r.push(0);
    r.push(0);
    proof {
        assert(r@ =~= bool_le(v));
    }
    r
}

/// Decode a `u16` from 2 little-endian wire bytes.
pub fn decode_u16(d: &[u8]) -> (r: u16)
    requires
        d@.len() >= 2,
    ensures
        r == u16_of_le(d@),
{
    (d[0] as u16) | ((d[1] as u16) << 8u16)
}

/// Decode an `i16` from 2 little-endian wire bytes.
pub fn decode_i16(d: &[u8]) -> (r: i16)
    requires
        d@.len() >= 2,
    ensures
        r == i16_of_le(d@),
{
    ((d[0] as u16) | ((d[1] as u16) << 8u16)) as i16
}

/// Decode an `i32` from 4 little-endian wire bytes.
pub fn decode_i32(d: &[u8]) -> (r: i32)
    requires
        d@.len() >= 4,
    ensures
        r == i32_of_le(d@),
{
    ((d[0] as u32) | ((d[1] as u32) << 8u32) | ((d[2] as u32) << 16u32) | ((d[3] as u32)
        << 24u32)) as i32
}

/// Decode a `bool` from 1 wire byte: its low bit.
pub fn decode_bool(d: &[u8]) -> (r: bool)
    requires
        d@.len() >= 1,
    ensures
        r == bool_of_le(d@),
{
    d[0] & 1 == 1
}

/// Decode a `u8` from 1 wire byte.
pub fn decode_u8(d: &[u8]) -> (r: u8)
    requires
        d@.len() >= 1,
    ensures
        r == u8_of_le(d@),
{
    d[0]
}

/// Register round trip for 1-byte unsigned registers: decoding the encoded
/// bytes gives the value back.
pub proof fn lemma_u8_round_trip(v: u8)
    ensures
        u8_of_le(u8_le(v).take(1)) == v,
{
}

/// Register round trip for boolean registers.
pub proof fn lemma_bool_round_trip(v: bool)
    ensures
        bool_of_le(bool_le(v).take(1)) == v,
{
    assert(1u8 & 1 == 1 && 0u8 & 1 == 0) by (bit_vector);
}

/// Register round trip for 2-byte unsigned registers.
pub proof fn lemma_u16_round_trip(v: u16)
    ensures
        u16_of_le(u16_le(v).take(2)) == v,
{
    assert(((v & 0xff) as u8 as u16) | ((((v >> 8) & 0xff) as u8 as u16) << 8) == v)
        by (bit_vector);
}

/// Register round trip for 2-byte signed registers.
pub proof fn lemma_i16_round_trip(v: i16)
    ensures
        i16_of_le(i16_le(v).take(2)) == v,
{
    assert((((v & 0xff) as u8 as u16) | ((((v >> 8) & 0xff) as u8 as u16) << 8)) as i16 == v)
        by (bit_vector);
}

/// Register round trip for 4-byte signed registers.
pub proof fn lemma_i32_round_trip(v: i32)
    ensures
        i32_of_le(i32_le(v)) == v,
{
    assert((((v & 0xff) as u8 as u32) | ((((v >> 8) & 0xff) as u8 as u32) << 8) | ((((v >> 16)
        & 0xff) as u8 as u32) << 16) | ((((v >> 24) & 0xff) as u8 as u32) << 24)) as i32 == v)
        by (bit_vector);
}

} // verus!
