//! The element-type tag carried by a header specification: which fixed-width
//! integer type the samples have. It decides the hexadecimal padding width
//! and the two's-complement representation emitted in hex mode.

use vstd::prelude::*;

use crate::numfmt::hex_fixed;
use crate::numfmt::hex_value;
use crate::numfmt::lemma_hex_fixed_round_trip;
use crate::numfmt::pow16;

verus! {

/// The fixed-width integer type of one sample.
#[derive(Clone, Copy, PartialEq, Eq, Structural, Debug)]
pub enum ElemType {
    Int8,
    UInt8,
    Int16,
    UInt16,
    Int32,
    UInt32,
}

impl ElemType {
    /// How many hexadecimal digits an element of this type is padded to.
    pub open spec fn spec_hex_digits(self) -> nat {
        match self {
            ElemType::Int8 => 2,
            ElemType::UInt8 => 2,
            ElemType::Int16 => 4,
            ElemType::UInt16 => 4,
            ElemType::Int32 => 8,
            ElemType::UInt32 => 8,
        }
    }

    /// One more than the largest unsigned representation: 2 to the bit width.
    pub open spec fn modulus(self) -> int {
        match self {
            ElemType::Int8 => 0x100,
            ElemType::UInt8 => 0x100,
            ElemType::Int16 => 0x10000,
            ElemType::UInt16 => 0x10000,
            ElemType::Int32 => 0x100000000,
            ElemType::UInt32 => 0x100000000,
        }
    }

    pub open spec fn is_signed(self) -> bool {
        match self {
            ElemType::Int8 => true,
            ElemType::Int16 => true,
            ElemType::Int32 => true,
            _ => false,
        }
    }

    /// Whether `v` is a value of this fixed-width integer type.
    pub open spec fn in_range(self, v: int) -> bool {
        if self.is_signed() {
            -(self.modulus() / 2) <= v < self.modulus() / 2
        } else {
            0 <= v < self.modulus()
        }
    }

    /// The unsigned (two's-complement) representation of an in-range value,
    /// the number whose hex digits are emitted in hex mode.
    pub open spec fn unsigned_rep(self, v: int) -> int {
        if v < 0 {
            v + self.modulus()
        } else {
            v
        }
    }

    /// The value a reader of the header recovers from an unsigned
    /// representation of this type.
    pub open spec fn value_of_rep(self, u: int) -> int {
        if self.is_signed() && u >= self.modulus() / 2 {
            u - self.modulus()
        } else {
            u
        }
    }

    pub fn hex_digits(self) -> (r: u32)
        ensures
            r as nat == self.spec_hex_digits(),
    {
        match self {
            ElemType::Int8 => 2,
            ElemType::UInt8 => 2,
            ElemType::Int16 => 4,
            ElemType::UInt16 => 4,
            ElemType::Int32 => 8,
            ElemType::UInt32 => 8,
        }
    }

    /// The unsigned representation of an in-range value, computed exactly.
    pub fn rep_of(self, value: i64) -> (r: u64)
        requires
            self.in_range(value as int),
        ensures
            r as int == self.unsigned_rep(value as int),
    {
        if value < 0 {
            match self {
                ElemType::Int8 => (value + 0x100) as u64,
                ElemType::Int16 => (value + 0x10000) as u64,
                ElemType::Int32 => (value + 0x100000000) as u64,
                ElemType::UInt8 => {
                    proof {
                        assert(false);
                    }
                    0
                },
                ElemType::UInt16 => {
                    proof {
                        assert(false);
                    }
                    0
                },
                ElemType::UInt32 => {
                    proof {
                        assert(false);
                    }
                    0
                },
            }
        } else {
            value as u64
        }
    }
}

/// The modulus of each element type is sixteen to its hex-digit count, so a
/// full-width hex rendering carries the whole unsigned representation.
pub proof fn lemma_modulus_pow16(e: ElemType)
    ensures
        e.modulus() == pow16(e.spec_hex_digits()),
{
    assert(pow16(0) == 1);
    assert(pow16(1) == 16);
    assert(pow16(2) == 0x100);
    assert(pow16(3) == 0x1000);
    assert(pow16(4) == 0x10000);
    assert(pow16(5) == 0x100000);
    assert(pow16(6) == 0x1000000);
    assert(pow16(7) == 0x10000000);
    assert(pow16(8) == 0x100000000);
}

/// Law: hex-mode output is lossless. Parsing the padded hexadecimal digits
/// emitted for an in-range element back to a number, and reading that number
/// as a value of the element's type, yields the original value, for every
/// supported bit width.
pub proof fn lemma_hex_element_round_trip(e: ElemType, v: int)
    requires
        e.in_range(v),
    ensures
        e.value_of_rep(hex_value(hex_fixed(e.unsigned_rep(v) as nat, e.spec_hex_digits()))) == v,
{
    let u = e.unsigned_rep(v);
    lemma_modulus_pow16(e);
    assert(0 <= u < e.modulus());
    lemma_hex_fixed_round_trip(u as nat, e.spec_hex_digits());
    assert(e.value_of_rep(u) == v);
}

} // verus!
