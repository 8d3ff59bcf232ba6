//! Sentinel-null classification for the fixed set of primitive column types.
//!
//! The source storage has no validity bitmap: "no value" is a reserved
//! in-band sentinel, fixed per type. Narrow integers and booleans reserve
//! no sentinel and are never null; 32/64-bit signed integers use the
//! minimum representable value; floating-point columns use NaN, which the
//! library sees through its IEEE 754 bit pattern.

use vstd::prelude::*;

verus! {

/// A primitive value that may stand for "no value" through a reserved
/// in-band sentinel.
pub trait Nullable {
    /// Whether this value is the type's null sentinel.
    spec fn spec_is_null(&self) -> bool;

    /// Runtime check that this value is the type's null sentinel.
    fn is_null(&self) -> (r: bool)
        ensures
            r == self.spec_is_null(),
    ;
}

impl Nullable for i8 {
    open spec fn spec_is_null(&self) -> bool {
        false
    }

    fn is_null(&self) -> bool {
        false
    }
}

impl Nullable for i16 {
    open spec fn spec_is_null(&self) -> bool {
        false
    }

    fn is_null(&self) -> bool {
        false
    }
}

impl Nullable for bool {
    open spec fn spec_is_null(&self) -> bool {
        false
    }

    fn is_null(&self) -> bool {
        false
    }
}

impl Nullable for i32 {
    open spec fn spec_is_null(&self) -> bool {
        *self == i32::MIN
    }

    fn is_null(&self) -> bool {
        *self == i32::MIN
    }
}

impl Nullable for i64 {
    open spec fn spec_is_null(&self) -> bool {
        *self == i64::MIN
    }

    fn is_null(&self) -> bool {
        *self == i64::MIN
    }
}

/// The bit pattern of an IEEE 754 single-precision value.
///
/// The library's logic never holds a float directly: callers convert with
/// `f32::to_bits` / `f32::from_bits` at the boundary. A value is the null
/// sentinel exactly when the bits encode a NaN: all exponent bits set and
/// a non-zero mantissa.
#[derive(Clone, Copy, PartialEq, Eq, Structural, Debug)]
pub struct F32Bits {
    pub bits: u32,
}

impl Nullable for F32Bits {
    open spec fn spec_is_null(&self) -> bool {
        self.bits % 0x8000_0000 / 0x80_0000 == 0xff && self.bits % 0x80_0000 != 0
    }

    fn is_null(&self) -> bool {
        self.bits % 0x8000_0000 / 0x80_0000 == 0xff && self.bits % 0x80_0000 != 0
    }
}

/// The bit pattern of an IEEE 754 double-precision value, in the same role
/// as [`F32Bits`]: NaN bits are the null sentinel.
#[derive(Clone, Copy, PartialEq, Eq, Structural, Debug)]
pub struct F64Bits {
    pub bits: u64,
}

impl Nullable for F64Bits {
    open spec fn spec_is_null(&self) -> bool {
        self.bits % 0x8000_0000_0000_0000 / 0x10_0000_0000_0000 == 0x7ff
            && self.bits % 0x10_0000_0000_0000 != 0
    }

    fn is_null(&self) -> bool {
        self.bits % 0x8000_0000_0000_0000 / 0x10_0000_0000_0000 == 0x7ff
            && self.bits % 0x10_0000_0000_0000 != 0
    }
}

/// Null sentinel test for a 32-bit integer value, as a plain predicate
/// usable inside sequence specifications.
pub open spec fn is_null_i32(v: i32) -> bool {
    v == i32::MIN
}

} // verus!
