//! Little-endian encoding of fixed-width integers, read from and written to
//! a byte buffer through `byteorder`.
use vstd::prelude::*;
use byteorder::{ByteOrder, LittleEndian};

verus! {

/// The two bytes of `v`, least significant first.
pub open spec fn le_bytes_u16(v: u16) -> Seq<u8> {
    seq![v as u8, (v >> 8u16) as u8]
}

/// The four bytes of `v`, least significant first.
pub open spec fn le_bytes_u32(v: u32) -> Seq<u8> {
    seq![v as u8, (v >> 8u32) as u8, (v >> 16u32) as u8, (v >> 24u32) as u8]
}

/// The eight bytes of `v`, least significant first.
pub open spec fn le_bytes_u64(v: u64) -> Seq<u8> {
    seq![
        v as u8,
        (v >> 8u64) as u8,
        (v >> 16u64) as u8,
        (v >> 24u64) as u8,
        (v >> 32u64) as u8,
        (v >> 40u64) as u8,
        (v >> 48u64) as u8,
        (v >> 56u64) as u8,
    ]
}

/// The integer whose little-endian encoding starts `s`.
pub open spec fn le_u16(s: Seq<u8>) -> u16 {
    (s[0] as u16) | ((s[1] as u16) << 8u16)
}

/// The integer whose little-endian encoding starts `s`.
pub open spec fn le_u32(s: Seq<u8>) -> u32 {
    (s[0] as u32) | ((s[1] as u32) << 8u32) | ((s[2] as u32) << 16u32) | ((s[3] as u32) << 24u32)
}

/// The integer whose little-endian encoding starts `s`.
pub open spec fn le_u64(s: Seq<u8>) -> u64 {
    (s[0] as u64) | ((s[1] as u64) << 8u64) | ((s[2] as u64) << 16u64) | ((s[3] as u64) << 24u64)
        | ((s[4] as u64) << 32u64) | ((s[5] as u64) << 40u64) | ((s[6] as u64) << 48u64) | ((
    s[7] as u64) << 56u64)
}

/// `s` with the bytes from `at` on replaced by `b`; the length is kept.
pub open spec fn overwrite(s: Seq<u8>, at: int, b: Seq<u8>) -> Seq<u8> {
    Seq::new(s.len(), |i: int| if at <= i < at + b.len() { b[i - at] } else { s[i] })
}

/// Decoding the little-endian encoding of a 16-bit value gives it back.
pub proof fn lemma_le_u16_round_trip(v: u16)
    ensures
        le_u16(le_bytes_u16(v)) == v,
{
    let b = le_bytes_u16(v);
    let (b0, b1) = (b[0], b[1]);
    assert(b0 == v as u8 && b1 == (v >> 8u16) as u8);
    assert(((v as u8) as u16) | ((((v >> 8u16) as u8) as u16) << 8u16) == v) by (bit_vector);
}

/// Decoding the little-endian encoding of a 32-bit value gives it back.
pub proof fn lemma_le_u32_round_trip(v: u32)
    ensures
        le_u32(le_bytes_u32(v)) == v,
{
    let b = le_bytes_u32(v);
    assert(b[0] == v as u8 && b[1] == (v >> 8u32) as u8 && b[2] == (v >> 16u32) as u8 && b[3]
        == (v >> 24u32) as u8);
    assert(((v as u8) as u32) | ((((v >> 8u32) as u8) as u32) << 8u32) | ((((v >> 16u32) as u8)
        as u32) << 16u32) | ((((v >> 24u32) as u8) as u32) << 24u32) == v) by (bit_vector);
}

/// Decoding the little-endian encoding of a 64-bit value gives it back.
pub proof fn lemma_le_u64_round_trip(v: u64)
    ensures
        le_u64(le_bytes_u64(v)) == v,
{
    let b = le_bytes_u64(v);
    assert(b[0] == v as u8 && b[1] == (v >> 8u64) as u8 && b[2] == (v >> 16u64) as u8 && b[3]
        == (v >> 24u64) as u8 && b[4] == (v >> 32u64) as u8 && b[5] == (v >> 40u64) as u8 && b[6]
        == (v >> 48u64) as u8 && b[7] == (v >> 56u64) as u8);
    assert(((v as u8) as u64) | ((((v >> 8u64) as u8) as u64) << 8u64) | ((((v >> 16u64) as u8)
        as u64) << 16u64) | ((((v >> 24u64) as u8) as u64) << 24u64) | ((((v >> 32u64) as u8)
        as u64) << 32u64) | ((((v >> 40u64) as u8) as u64) << 40u64) | ((((v >> 48u64) as u8)
        as u64) << 48u64) | ((((v >> 56u64) as u8) as u64) << 56u64) == v) by (bit_vector);
}

/// Relies on `LittleEndian::read_u16`: decodes the first two bytes of the
/// slice, least significant first; panics on a shorter slice.
#[verifier::external_body]
pub(crate) fn read_u16_at(data: &Vec<u8>, at: usize) -> (r: u16)
    requires
        at + 2 <= data@.len(),
    ensures
        r == le_u16(data@.subrange(at as int, at + 2)),
{
    LittleEndian::read_u16(&data[at..])
}

/// Relies on `LittleEndian::read_u32`: decodes the first four bytes of the
/// slice, least significant first; panics on a shorter slice.
#[verifier::external_body]
pub(crate) fn read_u32_at(data: &Vec<u8>, at: usize) -> (r: u32)
    requires
        at + 4 <= data@.len(),
    ensures
        r == le_u32(data@.subrange(at as int, at + 4)),
{
    LittleEndian::read_u32(&data[at..])
}

/// Relies on `LittleEndian::read_u64`: decodes the first eight bytes of the
/// slice, least significant first; panics on a shorter slice.
#[verifier::external_body]
pub(crate) fn read_u64_at(data: &Vec<u8>, at: usize) -> (r: u64)
    requires
        at + 8 <= data@.len(),
    ensures
        r == le_u64(data@.subrange(at as int, at + 8)),
{
    LittleEndian::read_u64(&data[at..])
}

/// Relies on `LittleEndian::write_u16`: writes the two bytes of `v`, least
/// significant first, to the start of the slice and nothing else; panics on a
/// shorter slice.
#[verifier::external_body]
pub(crate) fn write_u16_at(data: &mut Vec<u8>, at: usize, v: u16)
    requires
        at + 2 <= old(data)@.len(),
    ensures
        final(data)@ == overwrite(old(data)@, at as int, le_bytes_u16(v)),
{
    LittleEndian::write_u16(&mut data[at..], v)
}

/// Relies on `LittleEndian::write_u32`: writes the four bytes of `v`, least
/// significant first, to the start of the slice and nothing else; panics on a
/// shorter slice.
#[verifier::external_body]
pub(crate) fn write_u32_at(data: &mut Vec<u8>, at: usize, v: u32)
    requires
        at + 4 <= old(data)@.len(),
    ensures
        final(data)@ == overwrite(old(data)@, at as int, le_bytes_u32(v)),
{
    LittleEndian::write_u32(&mut data[at..], v)
}

/// Relies on `LittleEndian::write_u64`: writes the eight bytes of `v`, least
/// significant first, to the start of the slice and nothing else; panics on a
/// shorter slice.
#[verifier::external_body]
pub(crate) fn write_u64_at(data: &mut Vec<u8>, at: usize, v: u64)
    requires
        at + 8 <= old(data)@.len(),
    ensures
        final(data)@ == overwrite(old(data)@, at as int, le_bytes_u64(v)),
{
    LittleEndian::write_u64(&mut data[at..], v)
}

} // verus!
