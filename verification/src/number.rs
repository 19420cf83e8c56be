//! Numbers as JSON has them.

use crate::float_bits::{doubles_equal, is_finite, is_finite_bits, same_double};
use vstd::prelude::*;
use vstd::std_specs::cmp::PartialEqSpecImpl;

verus! {

/// A JSON number. It keeps apart the three ways a number is stored: a
/// non-negative integer, a negative integer, and a double, which is held by
/// its IEEE 754 bit pattern. An integer and a double of the same value are
/// different numbers.
#[derive(Clone, Copy, Debug)]
pub enum Number {
    /// A non-negative integer.
    PosInt(u64),
    /// A negative integer.
    NegInt(i64),
    /// A finite double, as its bit pattern.
    Float(u64),
}

impl Number {
    /// A number is well formed when a `NegInt` is below zero and a `Float`
    /// is finite. Every constructor gives a well-formed number.
    pub open spec fn wf(self) -> bool {
        match self {
            Number::PosInt(_) => true,
            Number::NegInt(v) => v < 0,
            Number::Float(bits) => is_finite(bits),
        }
    }

    /// The integer a number stands for, where it is an integer.
    pub open spec fn int_value(self) -> Option<int> {
        match self {
            Number::PosInt(v) => Some(v as int),
            Number::NegInt(v) => Some(v as int),
            Number::Float(_) => None,
        }
    }

    /// Whether two numbers are equal: they are stored in the same way, and
    /// are the same integer or doubles that are equal as numbers.
    pub open spec fn same_as(self, other: Number) -> bool {
        match (self, other) {
            (Number::PosInt(a), Number::PosInt(b)) => a == b,
            (Number::NegInt(a), Number::NegInt(b)) => a == b,
            (Number::Float(a), Number::Float(b)) => same_double(a, b),
            _ => false,
        }
    }

    /// The number that stands for a signed integer.
    pub open spec fn of_i64(v: i64) -> Number {
        if v < 0 {
            Number::NegInt(v)
        } else {
            Number::PosInt(v as u64)
        }
    }

    pub open spec fn spec_is_f64(&self) -> bool {
        self is Float
    }

    pub open spec fn spec_is_i64(&self) -> bool {
        match *self {
            Number::PosInt(v) => v <= i64::MAX,
            Number::NegInt(_) => true,
            Number::Float(_) => false,
        }
    }

    pub open spec fn spec_is_u64(&self) -> bool {
        self is PosInt
    }

    /// The number that stands for a signed integer.
    pub fn from_i64(v: i64) -> (n: Number)
        ensures
            n == Number::of_i64(v),
            n.wf(),
            n.int_value() == Some(v as int),
    {
        if v < 0 {
            Number::NegInt(v)
        } else {
            Number::PosInt(v as u64)
        }
    }

    /// The number that stands for an unsigned integer.
    pub fn from_u64(v: u64) -> (n: Number)
        ensures
            n == Number::PosInt(v),
            n.wf(),
    {
        Number::PosInt(v)
    }

    /// The number that stands for the double with the given bit pattern, or
    /// `None` where that double is infinite or not a number.
    pub fn from_f64_bits(bits: u64) -> (n: Option<Number>)
        ensures
            n == (if is_finite(bits) {
                Some(Number::Float(bits))
            } else {
                None
            }),
    {
        if is_finite_bits(bits) {
            Some(Number::Float(bits))
        } else {
            None
        }
    }

    /// Whether the number is stored as a double.
    #[verifier::when_used_as_spec(spec_is_f64)]
    pub fn is_f64(&self) -> (b: bool)
        ensures
            b == self.spec_is_f64(),
    {
        match self {
            Number::Float(_) => true,
            _ => false,
        }
    }

    /// Whether the number is an integer that fits a signed 64-bit integer.
    #[verifier::when_used_as_spec(spec_is_i64)]
    pub fn is_i64(&self) -> (b: bool)
        ensures
            b == self.spec_is_i64(),
    {
        match self {
            Number::PosInt(v) => *v <= 0x7fff_ffff_ffff_ffff,
            Number::NegInt(_) => true,
            Number::Float(_) => false,
        }
    }

    /// Whether the number is an integer that fits an unsigned 64-bit integer.
    #[verifier::when_used_as_spec(spec_is_u64)]
    pub fn is_u64(&self) -> (b: bool)
        ensures
            b == self.spec_is_u64(),
    {
        match self {
            Number::PosInt(_) => true,
            _ => false,
        }
    }

    /// The number as a signed 64-bit integer, where it is an integer that
    /// fits one.
    pub fn as_i64(&self) -> (v: Option<i64>)
        ensures
            v == (match *self {
                Number::PosInt(p) => if p <= i64::MAX {
                    Some(p as i64)
                } else {
                    None
                },
                Number::NegInt(n) => Some(n),
                Number::Float(_) => None,
            }),
            v is Some <==> self.is_i64(),
    {
        match self {
            Number::PosInt(p) => if *p <= 0x7fff_ffff_ffff_ffff {
                Some(*p as i64)
            } else {
                None
            },
            Number::NegInt(n) => Some(*n),
            Number::Float(_) => None,
        }
    }

    /// The number as an unsigned 64-bit integer, where it is a non-negative
    /// integer.
    pub fn as_u64(&self) -> (v: Option<u64>)
        ensures
            v == (match *self {
                Number::PosInt(p) => Some(p),
                _ => None,
            }),
    {
        match self {
            Number::PosInt(p) => Some(*p),
            _ => None,
        }
    }

    /// The bit pattern of the number, where it is stored as a double.
    pub fn as_f64_bits(&self) -> (v: Option<u64>)
        ensures
            v == (match *self {
                Number::Float(bits) => Some(bits),
                _ => None,
            }),
    {
        match self {
            Number::Float(bits) => Some(*bits),
            _ => None,
        }
    }
}

impl PartialEq for Number {
    fn eq(&self, other: &Number) -> (equal: bool) {
        match *self {
            Number::PosInt(a) => match *other {
                Number::PosInt(b) => a == b,
                _ => false,
            },
            Number::NegInt(a) => match *other {
                Number::NegInt(b) => a == b,
                _ => false,
            },
            Number::Float(a) => match *other {
                Number::Float(b) => doubles_equal(a, b),
                _ => false,
            },
        }
    }
}

impl PartialEqSpecImpl for Number {
    open spec fn obeys_eq_spec() -> bool {
        true
    }

    open spec fn eq_spec(&self, other: &Number) -> bool {
        self.same_as(*other)
    }
}

impl Eq for Number {

}

impl From<i64> for Number {
    fn from(v: i64) -> (n: Number) {
        Number::from_i64(v)
    }
}

impl vstd::std_specs::convert::FromSpecImpl<i64> for Number {
    open spec fn obeys_from_spec() -> bool {
        true
    }

    open spec fn from_spec(v: i64) -> Number {
        Number::of_i64(v)
    }
}

impl From<i32> for Number {
    fn from(v: i32) -> (n: Number) {
        Number::from_i64(v as i64)
    }
}

impl vstd::std_specs::convert::FromSpecImpl<i32> for Number {
    open spec fn obeys_from_spec() -> bool {
        true
    }

    open spec fn from_spec(v: i32) -> Number {
        Number::of_i64(v as i64)
    }
}

impl From<u64> for Number {
    fn from(v: u64) -> (n: Number) {
        Number::PosInt(v)
    }
}

impl vstd::std_specs::convert::FromSpecImpl<u64> for Number {
    open spec fn obeys_from_spec() -> bool {
        true
    }

    open spec fn from_spec(v: u64) -> Number {
        Number::PosInt(v)
    }
}

} // verus!
