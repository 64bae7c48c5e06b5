use vstd::prelude::*;

verus! {

/// A machine register value: an unsigned integer of the machine's width,
/// modelled by the `u64` it zero-extends to.
pub trait Register: Copy + Sized {
    /// The register's value, zero-extended to 64 bits.
    spec fn value(&self) -> u64;

    /// What a 64-bit value becomes once it is held in a register of this width.
    spec fn truncate(v: u64) -> u64;

    /// Every register value is already of the register's width.
    proof fn lemma_value_fits(&self)
        ensures
            Self::truncate(self.value()) == self.value(),
    ;

    fn from_u8(v: u8) -> (r: Self)
        ensures
            r.value() == v as u64,
    ;

    fn from_u16(v: u16) -> (r: Self)
        ensures
            r.value() == v as u64,
    ;

    fn from_u32(v: u32) -> (r: Self)
        ensures
            r.value() == v as u64,
    ;

    fn from_u64(v: u64) -> (r: Self)
        ensures
            r.value() == Self::truncate(v),
    ;

    fn to_u8(&self) -> (r: u8)
        ensures
            r == self.value() as u8,
    ;

    fn to_u16(&self) -> (r: u16)
        ensures
            r == self.value() as u16,
    ;

    fn to_u32(&self) -> (r: u32)
        ensures
            r == self.value() as u32,
    ;

    fn to_u64(&self) -> (r: u64)
        ensures
            r == self.value(),
    ;
}

impl Register for u32 {
    open spec fn value(&self) -> u64 {
        *self as u64
    }

    open spec fn truncate(v: u64) -> u64 {
        v as u32 as u64
    }

    proof fn lemma_value_fits(&self) {
    }

    fn from_u8(v: u8) -> (r: u32) {
        v as u32
    }

    fn from_u16(v: u16) -> (r: u32) {
        v as u32
    }

    fn from_u32(v: u32) -> (r: u32) {
        v
    }

    fn from_u64(v: u64) -> (r: u32) {
        v as u32
    }

    fn to_u8(&self) -> (r: u8) {
        *self as u8
    }

    fn to_u16(&self) -> (r: u16) {
        *self as u16
    }

    fn to_u32(&self) -> (r: u32) {
        *self
    }

    fn to_u64(&self) -> (r: u64) {
        *self as u64
    }
}

impl Register for u64 {
    open spec fn value(&self) -> u64 {
        *self
    }

    open spec fn truncate(v: u64) -> u64 {
        v
    }

    proof fn lemma_value_fits(&self) {
    }

    fn from_u8(v: u8) -> (r: u64) {
        v as u64
    }

    fn from_u16(v: u16) -> (r: u64) {
        v as u64
    }

    fn from_u32(v: u32) -> (r: u64) {
        v as u64
    }

    fn from_u64(v: u64) -> (r: u64) {
        v
    }

    fn to_u8(&self) -> (r: u8) {
        *self as u8
    }

    fn to_u16(&self) -> (r: u16) {
        *self as u16
    }

    fn to_u32(&self) -> (r: u32) {
        *self as u32
    }

    fn to_u64(&self) -> (r: u64) {
        *self
    }
}

} // verus!
