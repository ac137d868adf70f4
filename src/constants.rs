use vstd::prelude::*;

verus! {

pub const MTYPE_STRING: u32 = 1 << 0;

pub const MTYPE_U8: u32 = 1 << 1;

pub const MTYPE_U16: u32 = 1 << 2;

pub const MTYPE_U32: u32 = 1 << 3;

pub const MTYPE_U64: u32 = 1 << 4;

pub const MTYPE_VECTOR: u32 = 1 << 5;

pub const MTYPE_COMPRESSED: u32 = 1 << 6;

// Bit 12 is left unassigned on purpose.
pub const MTYPE_USER_DEFINED_1: u32 = 1 << 10;

pub const MTYPE_USER_DEFINED_2: u32 = 1 << 11;

pub const MTYPE_USER_DEFINED_3: u32 = 1 << 13;

pub const MTYPE_USER_DEFINED_4: u32 = 1 << 14;

pub const MTYPE_USER_DEFINED_5: u32 = 1 << 15;

pub const MTYPE_USER_DEFINED_6: u32 = 1 << 16;

pub const MTYPE_USER_DEFINED_7: u32 = 1 << 17;

pub const MTYPE_USER_DEFINED_8: u32 = 1 << 18;

pub const MTYPE_USER_DEFINED_9: u32 = 1 << 19;

pub const MTYPE_USER_DEFINED_10: u32 = 1 << 20;

pub const MTYPE_USER_DEFINED_11: u32 = 1 << 21;

pub const MTYPE_USER_DEFINED_12: u32 = 1 << 22;

pub const MTYPE_USER_DEFINED_13: u32 = 1 << 23;

pub const MTYPE_USER_DEFINED_14: u32 = 1 << 24;

pub const MTYPE_USER_DEFINED_15: u32 = 1 << 25;

pub const MTYPE_USER_DEFINED_16: u32 = 1 << 26;

pub const MTYPE_USER_DEFINED_17: u32 = 1 << 27;

pub const MTYPE_USER_DEFINED_18: u32 = 1 << 28;

pub const MTYPE_USER_DEFINED_19: u32 = 1 << 29;

pub const MTYPE_USER_DEFINED_20: u32 = 1 << 30;

/// The 32-bit "stored type" bitset carried in the extras of store and fetch
/// frames. It says how the value bytes are to be read back. A value may carry
/// several bits at once (a `U32` that is also `COMPRESSED`), so a reader asks
/// whether the flags meet the bit it expects, never whether they equal it.
#[derive(Clone, Copy, Debug, PartialEq, Eq, Structural)]
pub struct StoredType {
    pub bits: u32,
}

impl StoredType {
    /// Takes every bit as it is, known or not: flags come back from the server
    /// exactly as a producer wrote them.
    pub fn from_bits(bits: u32) -> (t: StoredType)
        ensures
            t.bits == bits,
    {
        StoredType { bits }
    }

    pub fn empty() -> (t: StoredType)
        ensures
            t.bits == 0,
    {
        StoredType { bits: 0 }
    }

    pub fn bits(&self) -> (b: u32)
        ensures
            b == self.bits,
    {
        self.bits
    }

    pub open spec fn meets(self, bits: u32) -> bool {
        self.bits & bits != 0
    }

    /// Whether the two bitsets have a bit in common.
    pub fn intersects(&self, bits: u32) -> (b: bool)
        ensures
            b == self.meets(bits),
    {
        self.bits & bits != 0
    }
}

} // verus!
