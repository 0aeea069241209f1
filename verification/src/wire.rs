//! Fixed-width integers as they lie in a SEG-Y file.
//!
//! The spec functions say what a run of bytes means as an integer in either
//! byte order; the readers return exactly that value for a field at a given
//! offset.

use crate::binary_header::ByteOrder;
use vstd::prelude::*;
use vstd::slice::slice_subrange;

verus! {

/// The two-byte unsigned integer whose most significant byte comes first.
pub open spec fn be_u16(bytes: Seq<u8>) -> int {
    bytes[0] as int * 0x100 + bytes[1] as int
}

/// The two-byte unsigned integer whose least significant byte comes first.
pub open spec fn le_u16(bytes: Seq<u8>) -> int {
    bytes[1] as int * 0x100 + bytes[0] as int
}

/// The four-byte unsigned integer whose most significant byte comes first.
pub open spec fn be_u32(bytes: Seq<u8>) -> int {
    bytes[0] as int * 0x100_0000 + bytes[1] as int * 0x1_0000 + bytes[2] as int * 0x100
        + bytes[3] as int
}

/// The four-byte unsigned integer whose least significant byte comes first.
pub open spec fn le_u32(bytes: Seq<u8>) -> int {
    bytes[3] as int * 0x100_0000 + bytes[2] as int * 0x1_0000 + bytes[1] as int * 0x100
        + bytes[0] as int
}

/// The eight-byte unsigned integer whose most significant byte comes first.
pub open spec fn be_u64(bytes: Seq<u8>) -> int {
    be_u32(bytes.subrange(0, 4)) * 0x1_0000_0000 + be_u32(bytes.subrange(4, 8))
}

/// The eight-byte unsigned integer whose least significant byte comes first.
pub open spec fn le_u64(bytes: Seq<u8>) -> int {
    le_u32(bytes.subrange(4, 8)) * 0x1_0000_0000 + le_u32(bytes.subrange(0, 4))
}

/// A 16-bit pattern read as a two's complement number.
pub open spec fn signed16(raw: int) -> int {
    if raw >= 0x8000 {
        raw - 0x1_0000
    } else {
        raw
    }
}

/// A 32-bit pattern read as a two's complement number.
pub open spec fn signed32(raw: int) -> int {
    if raw >= 0x8000_0000 {
        raw - 0x1_0000_0000
    } else {
        raw
    }
}

/// An 8-bit pattern read as a two's complement number.
pub open spec fn signed8(raw: int) -> int {
    if raw >= 0x80 {
        raw - 0x100
    } else {
        raw
    }
}

/// The unsigned 16-bit field that starts at `at`.
pub open spec fn u16_at(data: Seq<u8>, at: int, order: ByteOrder) -> int {
    match order {
        ByteOrder::BigEndian => be_u16(data.subrange(at, at + 2)),
        ByteOrder::LittleEndian => le_u16(data.subrange(at, at + 2)),
    }
}

/// The signed 16-bit field that starts at `at`.
pub open spec fn i16_at(data: Seq<u8>, at: int, order: ByteOrder) -> int {
    signed16(u16_at(data, at, order))
}

/// The unsigned 32-bit field that starts at `at`.
pub open spec fn u32_at(data: Seq<u8>, at: int, order: ByteOrder) -> int {
    match order {
        ByteOrder::BigEndian => be_u32(data.subrange(at, at + 4)),
        ByteOrder::LittleEndian => le_u32(data.subrange(at, at + 4)),
    }
}

/// The signed 32-bit field that starts at `at`.
pub open spec fn i32_at(data: Seq<u8>, at: int, order: ByteOrder) -> int {
    signed32(u32_at(data, at, order))
}

/// The unsigned 64-bit field that starts at `at`.
pub open spec fn u64_at(data: Seq<u8>, at: int, order: ByteOrder) -> int {
    match order {
        ByteOrder::BigEndian => be_u64(data.subrange(at, at + 8)),
        ByteOrder::LittleEndian => le_u64(data.subrange(at, at + 8)),
    }
}

/// `byteorder::BigEndian::read_u16`: the first two bytes of `buf` as an
/// unsigned integer, most significant byte first. It panics on a shorter
/// buffer, which `requires` leaves out.
#[verifier::external_body]
fn big_endian_u16(buf: &[u8]) -> (value: u16)
    requires
        buf@.len() >= 2,
    ensures
        value == be_u16(buf@),
{
    <byteorder::BigEndian as byteorder::ByteOrder>::read_u16(buf)
}

/// `byteorder::LittleEndian::read_u16`: the first two bytes of `buf` as an
/// unsigned integer, least significant byte first. It panics on a shorter
/// buffer, which `requires` leaves out.
#[verifier::external_body]
fn little_endian_u16(buf: &[u8]) -> (value: u16)
    requires
        buf@.len() >= 2,
    ensures
        value == le_u16(buf@),
{
    <byteorder::LittleEndian as byteorder::ByteOrder>::read_u16(buf)
}

/// `byteorder::BigEndian::read_i16`: the big-endian 16-bit pattern at the
/// start of `buf`, read as two's complement. It panics on a shorter buffer.
#[verifier::external_body]
fn big_endian_i16(buf: &[u8]) -> (value: i16)
    requires
        buf@.len() >= 2,
    ensures
        value == signed16(be_u16(buf@)),
{
    <byteorder::BigEndian as byteorder::ByteOrder>::read_i16(buf)
}

/// `byteorder::LittleEndian::read_i16`: the little-endian 16-bit pattern at
/// the start of `buf`, read as two's complement. It panics on a shorter
/// buffer.
#[verifier::external_body]
fn little_endian_i16(buf: &[u8]) -> (value: i16)
    requires
        buf@.len() >= 2,
    ensures
        value == signed16(le_u16(buf@)),
{
    <byteorder::LittleEndian as byteorder::ByteOrder>::read_i16(buf)
}

/// `byteorder::BigEndian::read_u32`: the first four bytes of `buf` as an
/// unsigned integer, most significant byte first. It panics on a shorter
/// buffer.
#[verifier::external_body]
fn big_endian_u32(buf: &[u8]) -> (value: u32)
    requires
        buf@.len() >= 4,
    ensures
        value == be_u32(buf@),
{
    <byteorder::BigEndian as byteorder::ByteOrder>::read_u32(buf)
}

/// `byteorder::LittleEndian::read_u32`: the first four bytes of `buf` as an
/// unsigned integer, least significant byte first. It panics on a shorter
/// buffer.
#[verifier::external_body]
fn little_endian_u32(buf: &[u8]) -> (value: u32)
    requires
        buf@.len() >= 4,
    ensures
        value == le_u32(buf@),
{
    <byteorder::LittleEndian as byteorder::ByteOrder>::read_u32(buf)
}

/// `byteorder::BigEndian::read_u64`: the first eight bytes of `buf` as an
/// unsigned integer, most significant byte first. It panics on a shorter
/// buffer.
#[verifier::external_body]
fn big_endian_u64(buf: &[u8]) -> (value: u64)
    requires
        buf@.len() >= 8,
    ensures
        value == be_u64(buf@),
{
    <byteorder::BigEndian as byteorder::ByteOrder>::read_u64(buf)
}

/// `byteorder::LittleEndian::read_u64`: the first eight bytes of `buf` as
/// an unsigned integer, least significant byte first. It panics on a
/// shorter buffer.
#[verifier::external_body]
fn little_endian_u64(buf: &[u8]) -> (value: u64)
    requires
        buf@.len() >= 8,
    ensures
        value == le_u64(buf@),
{
    <byteorder::LittleEndian as byteorder::ByteOrder>::read_u64(buf)
}

/// `byteorder::BigEndian::read_i32`: the big-endian 32-bit pattern at the
/// start of `buf`, read as two's complement. It panics on a shorter buffer.
#[verifier::external_body]
fn big_endian_i32(buf: &[u8]) -> (value: i32)
    requires
        buf@.len() >= 4,
    ensures
        value == signed32(be_u32(buf@)),
{
    <byteorder::BigEndian as byteorder::ByteOrder>::read_i32(buf)
}

/// `byteorder::LittleEndian::read_i32`: the little-endian 32-bit pattern at
/// the start of `buf`, read as two's complement. It panics on a shorter
/// buffer.
#[verifier::external_body]
fn little_endian_i32(buf: &[u8]) -> (value: i32)
    requires
        buf@.len() >= 4,
    ensures
        value == signed32(le_u32(buf@)),
{
    <byteorder::LittleEndian as byteorder::ByteOrder>::read_i32(buf)
}

/// Reads the unsigned 16-bit field at `at`.
pub fn read_u16(data: &[u8], at: usize, order: ByteOrder) -> (value: u16)
    requires
        at + 2 <= data@.len(),
    ensures
        value == u16_at(data@, at as int, order),
{
    assert(data@.len() == data.len());
    let field = slice_subrange(data, at, at + 2);
    match order {
        ByteOrder::BigEndian => big_endian_u16(field),
        ByteOrder::LittleEndian => little_endian_u16(field),
    }
}

/// Reads the signed 16-bit field at `at`.
pub fn read_i16(data: &[u8], at: usize, order: ByteOrder) -> (value: i16)
    requires
        at + 2 <= data@.len(),
    ensures
        value == i16_at(data@, at as int, order),
{
    assert(data@.len() == data.len());
    let field = slice_subrange(data, at, at + 2);
    match order {
        ByteOrder::BigEndian => big_endian_i16(field),
        ByteOrder::LittleEndian => little_endian_i16(field),
    }
}

/// Reads the signed 32-bit field at `at`.
pub fn read_i32(data: &[u8], at: usize, order: ByteOrder) -> (value: i32)
    requires
        at + 4 <= data@.len(),
    ensures
        value == i32_at(data@, at as int, order),
{
    assert(data@.len() == data.len());
    let field = slice_subrange(data, at, at + 4);
    match order {
        ByteOrder::BigEndian => big_endian_i32(field),
        ByteOrder::LittleEndian => little_endian_i32(field),
    }
}

/// Reads the unsigned 32-bit field at `at`.
pub fn read_u32(data: &[u8], at: usize, order: ByteOrder) -> (value: u32)
    requires
        at + 4 <= data@.len(),
    ensures
        value == u32_at(data@, at as int, order),
{
    assert(data@.len() == data.len());
    let field = slice_subrange(data, at, at + 4);
    match order {
        ByteOrder::BigEndian => big_endian_u32(field),
        ByteOrder::LittleEndian => little_endian_u32(field),
    }
}

/// Reads the unsigned 64-bit field at `at`.
pub fn read_u64(data: &[u8], at: usize, order: ByteOrder) -> (value: u64)
    requires
        at + 8 <= data@.len(),
    ensures
        value == u64_at(data@, at as int, order),
{
    assert(data@.len() == data.len());
    let field = slice_subrange(data, at, at + 8);
    match order {
        ByteOrder::BigEndian => big_endian_u64(field),
        ByteOrder::LittleEndian => little_endian_u64(field),
    }
}

} // verus!
