//! Reading integers from bytes in either byte order.

use vstd::prelude::*;

verus! {

/// The byte order of the records of a capture.
#[derive(Debug, Clone, Copy, PartialEq, Eq, Structural)]
pub enum Endianness {
    LittleEndian,
    BigEndian,
}

/// The number that the first two bytes of `b` hold, least significant byte
/// first.
pub open spec fn le_u16(b: Seq<u8>) -> u16 {
    (b[0] as int + b[1] as int * 0x100) as u16
}

/// The number that the first four bytes of `b` hold, least significant byte
/// first.
pub open spec fn le_u32(b: Seq<u8>) -> u32 {
    (b[0] as int + b[1] as int * 0x100 + b[2] as int * 0x1_0000 + b[3] as int * 0x100_0000) as u32
}

/// The number that the first eight bytes of `b` hold, least significant byte
/// first.
pub open spec fn le_u64(b: Seq<u8>) -> u64 {
    (b[0] as int + b[1] as int * 0x100 + b[2] as int * 0x1_0000 + b[3] as int * 0x100_0000
        + b[4] as int * 0x1_0000_0000 + b[5] as int * 0x100_0000_0000 + b[6] as int
        * 0x1_0000_0000_0000 + b[7] as int * 0x100_0000_0000_0000) as u64
}

/// The number that the first two bytes of `b` hold, most significant byte
/// first.
pub open spec fn be_u16(b: Seq<u8>) -> u16 {
    (b[1] as int + b[0] as int * 0x100) as u16
}

/// The number that the first four bytes of `b` hold, most significant byte
/// first.
pub open spec fn be_u32(b: Seq<u8>) -> u32 {
    (b[3] as int + b[2] as int * 0x100 + b[1] as int * 0x1_0000 + b[0] as int * 0x100_0000) as u32
}

/// The number that the first eight bytes of `b` hold, most significant byte
/// first.
pub open spec fn be_u64(b: Seq<u8>) -> u64 {
    (b[7] as int + b[6] as int * 0x100 + b[5] as int * 0x1_0000 + b[4] as int * 0x100_0000
        + b[3] as int * 0x1_0000_0000 + b[2] as int * 0x100_0000_0000 + b[1] as int
        * 0x1_0000_0000_0000 + b[0] as int * 0x100_0000_0000_0000) as u64
}

/// The number that the first two bytes of `b` hold in the given byte order.
pub open spec fn u16_in(order: Endianness, b: Seq<u8>) -> u16 {
    match order {
        Endianness::LittleEndian => le_u16(b),
        Endianness::BigEndian => be_u16(b),
    }
}

/// The number that the first four bytes of `b` hold in the given byte order.
pub open spec fn u32_in(order: Endianness, b: Seq<u8>) -> u32 {
    match order {
        Endianness::LittleEndian => le_u32(b),
        Endianness::BigEndian => be_u32(b),
    }
}

/// The number that the first eight bytes of `b` hold in the given byte
/// order.
pub open spec fn u64_in(order: Endianness, b: Seq<u8>) -> u64 {
    match order {
        Endianness::LittleEndian => le_u64(b),
        Endianness::BigEndian => be_u64(b),
    }
}

/// The signed 16-bit number with the same bits as `v`.
pub open spec fn i16_of(v: u16) -> i16 {
    if v < 0x8000 {
        v as i16
    } else {
        (v - 0x1_0000) as i16
    }
}

/// The signed 32-bit number with the same bits as `v`.
pub open spec fn i32_of(v: u32) -> i32 {
    if v < 0x8000_0000 {
        v as i32
    } else {
        (v - 0x1_0000_0000) as i32
    }
}

/// The signed 64-bit number with the same bits as `v`.
pub open spec fn i64_of(v: u64) -> i64 {
    if v < 0x8000_0000_0000_0000 {
        v as i64
    } else {
        (v - 0x1_0000_0000_0000_0000) as i64
    }
}

/// `byteorder`'s `LittleEndian::read_u16`: the first two bytes of `buf` as a
/// number, least significant byte first. It panics on a shorter `buf`.
#[verifier::external_body]
fn le_read_u16(buf: &[u8]) -> (v: u16)
    requires
        buf@.len() >= 2,
    ensures
        v == le_u16(buf@),
{
    <byteorder::LittleEndian as byteorder::ByteOrder>::read_u16(buf)
}

/// `byteorder`'s `LittleEndian::read_u32`: the first four bytes of `buf` as
/// a number, least significant byte first. It panics on a shorter `buf`.
#[verifier::external_body]
fn le_read_u32(buf: &[u8]) -> (v: u32)
    requires
        buf@.len() >= 4,
    ensures
        v == le_u32(buf@),
{
    <byteorder::LittleEndian as byteorder::ByteOrder>::read_u32(buf)
}

/// `byteorder`'s `LittleEndian::read_u64`: the first eight bytes of `buf` as
/// a number, least significant byte first. It panics on a shorter `buf`.
#[verifier::external_body]
fn le_read_u64(buf: &[u8]) -> (v: u64)
    requires
        buf@.len() >= 8,
    ensures
        v == le_u64(buf@),
{
    <byteorder::LittleEndian as byteorder::ByteOrder>::read_u64(buf)
}

/// `byteorder`'s `BigEndian::read_u16`: the first two bytes of `buf` as a
/// number, most significant byte first. It panics on a shorter `buf`.
#[verifier::external_body]
fn be_read_u16(buf: &[u8]) -> (v: u16)
    requires
        buf@.len() >= 2,
    ensures
        v == be_u16(buf@),
{
    <byteorder::BigEndian as byteorder::ByteOrder>::read_u16(buf)
}

/// `byteorder`'s `BigEndian::read_u32`: the first four bytes of `buf` as a
/// number, most significant byte first. It panics on a shorter `buf`.
#[verifier::external_body]
fn be_read_u32(buf: &[u8]) -> (v: u32)
    requires
        buf@.len() >= 4,
    ensures
        v == be_u32(buf@),
{
    <byteorder::BigEndian as byteorder::ByteOrder>::read_u32(buf)
}

/// `byteorder`'s `BigEndian::read_u64`: the first eight bytes of `buf` as a
/// number, most significant byte first. It panics on a shorter `buf`.
#[verifier::external_body]
fn be_read_u64(buf: &[u8]) -> (v: u64)
    requires
        buf@.len() >= 8,
    ensures
        v == be_u64(buf@),
{
    <byteorder::BigEndian as byteorder::ByteOrder>::read_u64(buf)
}

/// A byte order, chosen at compile time.
pub trait ByteOrder {
    /// The byte order that the type stands for.
    spec fn endianness() -> Endianness;

    /// The byte order that the type stands for.
    fn order() -> (e: Endianness)
        ensures
            e == Self::endianness(),
    ;

    /// Reads an unsigned 16-bit number from the start of `buf`.
    fn read_u16(buf: &[u8]) -> (v: u16)
        requires
            buf@.len() >= 2,
        ensures
            v == u16_in(Self::endianness(), buf@),
    ;

    /// Reads an unsigned 32-bit number from the start of `buf`.
    fn read_u32(buf: &[u8]) -> (v: u32)
        requires
            buf@.len() >= 4,
        ensures
            v == u32_in(Self::endianness(), buf@),
    ;

    /// Reads an unsigned 64-bit number from the start of `buf`.
    fn read_u64(buf: &[u8]) -> (v: u64)
        requires
            buf@.len() >= 8,
        ensures
            v == u64_in(Self::endianness(), buf@),
    ;
}

/// Least significant byte first.
#[derive(Debug, Clone, Copy)]
pub struct LittleEndian;

/// Most significant byte first.
#[derive(Debug, Clone, Copy)]
pub struct BigEndian;

impl ByteOrder for LittleEndian {
    open spec fn endianness() -> Endianness {
        Endianness::LittleEndian
    }

    fn order() -> Endianness {
        Endianness::LittleEndian
    }

    fn read_u16(buf: &[u8]) -> u16 {
        le_read_u16(buf)
    }

    fn read_u32(buf: &[u8]) -> u32 {
        le_read_u32(buf)
    }

    fn read_u64(buf: &[u8]) -> u64 {
        le_read_u64(buf)
    }
}

impl ByteOrder for BigEndian {
    open spec fn endianness() -> Endianness {
        Endianness::BigEndian
    }

    fn order() -> Endianness {
        Endianness::BigEndian
    }

    fn read_u16(buf: &[u8]) -> u16 {
        be_read_u16(buf)
    }

    fn read_u32(buf: &[u8]) -> u32 {
        be_read_u32(buf)
    }

    fn read_u64(buf: &[u8]) -> u64 {
        be_read_u64(buf)
    }
}

/// The signed 16-bit number with the same bits as `v`.
pub fn signed_16(v: u16) -> (r: i16)
    ensures
        r == i16_of(v),
{
    if v < 0x8000 {
        v as i16
    } else {
        ((v - 0x8000) as i16) - 0x4000 - 0x4000
    }
}

/// The signed 32-bit number with the same bits as `v`.
pub fn signed_32(v: u32) -> (r: i32)
    ensures
        r == i32_of(v),
{
    if v < 0x8000_0000 {
        v as i32
    } else {
        ((v - 0x8000_0000) as i32) - 0x4000_0000 - 0x4000_0000
    }
}

/// The signed 64-bit number with the same bits as `v`.
pub fn signed_64(v: u64) -> (r: i64)
    ensures
        r == i64_of(v),
{
    if v < 0x8000_0000_0000_0000 {
        v as i64
    } else {
        ((v - 0x8000_0000_0000_0000) as i64) - 0x4000_0000_0000_0000 - 0x4000_0000_0000_0000
    }
}

} // verus!
