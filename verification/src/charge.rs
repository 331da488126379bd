//! Request charges, held by the bit patterns of their numbers.

use vstd::prelude::*;

verus! {

/// A request charge in request units. The number itself is a double; this type carries what the
/// capture designs store of it.
#[derive(Debug)]
pub struct Charge {
    /// The IEEE 754 bit pattern of the charge in double precision.
    pub bits: u64,
    /// The IEEE 754 bit pattern of the charge in single precision.
    pub single: u32,
    /// The charge in decimal.
    pub text: String,
    /// The charge as JSON has it.
    pub json: String,
}

/// What a [`Charge`] holds.
#[verifier::ext_equal]
pub struct ChargeModel {
    pub bits: u64,
    pub single: u32,
    pub text: Seq<char>,
    pub json: Seq<char>,
}

impl View for Charge {
    type V = ChargeModel;

    open spec fn view(&self) -> ChargeModel {
        ChargeModel {
            bits: self.bits,
            single: self.single,
            text: self.text@,
            json: self.json@,
        }
    }
}

impl Clone for Charge {
    fn clone(&self) -> (c: Self)
        ensures
            c@ == self@,
    {
        Charge {
            bits: self.bits,
            single: self.single,
            text: self.text.clone(),
            json: self.json.clone(),
        }
    }
}

/// The sign bit of a double.
pub const SIGN_BIT: u64 = 0x8000_0000_0000_0000;

/// The bit pattern of positive infinity in double precision.
pub const INFINITY_BITS: u64 = 0x7FF0_0000_0000_0000;

/// Whether a bit pattern is that of a double that is not a number.
pub open spec fn is_nan(bits: u64) -> bool {
    (if bits >= SIGN_BIT {
        bits - SIGN_BIT
    } else {
        bits as int
    }) > INFINITY_BITS
}

/// An integer for each double that is a number, ordered as the doubles are. The two zeros have
/// the same integer.
pub open spec fn rank(bits: u64) -> int {
    if bits >= SIGN_BIT {
        -(bits - SIGN_BIT)
    } else {
        bits as int
    }
}

/// Whether the double with pattern `a` is greater than the one with pattern `b`. Nothing is
/// greater or less than what is not a number.
pub open spec fn exceeds(a: u64, b: u64) -> bool {
    &&& !is_nan(a)
    &&& !is_nan(b)
    &&& rank(a) > rank(b)
}

/// Whether a bit pattern is that of a finite double.
pub open spec fn is_finite(bits: u64) -> bool {
    (if bits >= SIGN_BIT {
        bits - SIGN_BIT
    } else {
        bits as int
    }) < INFINITY_BITS
}

/// Whether a bit pattern is that of a finite double.
pub fn charge_is_finite(bits: u64) -> (r: bool)
    ensures
        r == is_finite(bits),
{
    let size: u64 = if bits >= SIGN_BIT {
        bits - SIGN_BIT
    } else {
        bits
    };
    size < INFINITY_BITS
}

/// Whether the double with pattern `a` is greater than the one with pattern `b`.
pub fn charge_exceeds(a: u64, b: u64) -> (r: bool)
    ensures
        r == exceeds(a, b),
{
    let a_size: u64 = if a >= SIGN_BIT {
        a - SIGN_BIT
    } else {
        a
    };
    let b_size: u64 = if b >= SIGN_BIT {
        b - SIGN_BIT
    } else {
        b
    };
    if a_size > INFINITY_BITS || b_size > INFINITY_BITS {
        return false;
    }
    if a >= SIGN_BIT {
        b >= SIGN_BIT && b_size > a_size
    } else if b >= SIGN_BIT {
        a_size > 0 || b_size > 0
    } else {
        a_size > b_size
    }
}

} // verus!
