//! Ordering of IEEE 754 binary64 numbers, given as bit patterns.
//!
//! Loudness and clip priorities are measured as real numbers. The library never computes with
//! them, it only compares them; for that the bit pattern of the number is enough.

use vstd::prelude::*;

verus! {

/// A binary64 number, held as its bit pattern.
#[derive(Debug, Clone, Copy, PartialEq, Eq, Structural)]
pub struct Binary64 {
    /// Sign (1 bit), exponent (11 bits) and fraction (52 bits), from the top down.
    pub bits: u64,
}

/// The weight of the sign bit.
pub const SIGN: u64 = 0x8000_0000_0000_0000;

/// The pattern of positive infinity. Everything above it, sign bit aside, is not a number.
pub const INFINITY: u64 = 0x7ff0_0000_0000_0000;

impl Binary64 {
    /// Whether the sign bit is set.
    pub open spec fn negative(self) -> bool {
        self.bits >= SIGN
    }

    /// The pattern without its sign bit. Among numbers of one sign it grows with the absolute
    /// value.
    pub open spec fn magnitude(self) -> int {
        if self.bits >= SIGN {
            self.bits - SIGN
        } else {
            self.bits as int
        }
    }

    /// Whether the pattern stands for no number at all.
    pub open spec fn nan(self) -> bool {
        self.magnitude() > INFINITY
    }

    /// The position of a number on the real line: two numbers compare as their ranks do, and
    /// both zeros have rank zero.
    pub open spec fn rank(self) -> int {
        if self.negative() {
            -self.magnitude()
        } else {
            self.magnitude()
        }
    }

    /// The IEEE 754 relation "less than": false as soon as one side is not a number.
    pub open spec fn less(self, other: Binary64) -> bool {
        !self.nan() && !other.nan() && self.rank() < other.rank()
    }

    /// Wraps a bit pattern.
    pub fn from_bits(bits: u64) -> (r: Binary64)
        ensures
            r.bits == bits,
    {
        Binary64 { bits }
    }

    /// Positive zero.
    pub fn zero() -> (r: Binary64)
        ensures
            r.bits == 0,
            !r.nan(),
            r.rank() == 0,
    {
        Binary64 { bits: 0 }
    }

    /// Whether this is not a number.
    pub fn is_nan(&self) -> (r: bool)
        ensures
            r == self.nan(),
    {
        if self.bits >= SIGN {
            self.bits - SIGN > INFINITY
        } else {
            self.bits > INFINITY
        }
    }

    /// Whether this number is less than `other`.
    pub fn less_than(&self, other: &Binary64) -> (r: bool)
        ensures
            r == self.less(*other),
    {
        if self.is_nan() || other.is_nan() {
            return false;
        }
        if self.bits >= SIGN {
            if other.bits >= SIGN {
                other.bits < self.bits
            } else {
                self.bits > SIGN || other.bits > 0
            }
        } else {
            other.bits < SIGN && self.bits < other.bits
        }
    }
}

/// "Less than" is a strict weak order: nothing is below itself, and it is transitive.
pub proof fn less_is_strict_order(a: Binary64, b: Binary64, c: Binary64)
    ensures
        !a.less(a),
        a.less(b) && b.less(c) ==> a.less(c),
{
}

/// Of two numbers that are not below one another, both have the same place on the real line.
pub proof fn less_is_total_on_numbers(a: Binary64, b: Binary64)
    requires
        !a.nan(),
        !b.nan(),
    ensures
        a.less(b) || b.less(a) || a.rank() == b.rank(),
{
}

/// How the order shows in the bit patterns. Numbers without a sign bit are ordered as their
/// patterns are, numbers with one the other way round, and those with one lie below those without,
/// but for the two zeros, which are equal. A pattern beyond that of infinity is neither below nor
/// above anything.
pub proof fn order_shows_in_the_bits(a: Binary64, b: Binary64)
    ensures
        a.bits <= 0x7ff0_0000_0000_0000 && b.bits <= 0x7ff0_0000_0000_0000 ==> (a.less(b)
            <==> a.bits < b.bits),
        0x8000_0000_0000_0000 <= a.bits <= 0xfff0_0000_0000_0000 && 0x8000_0000_0000_0000 <= b.bits
            <= 0xfff0_0000_0000_0000 ==> (a.less(b) <==> a.bits > b.bits),
        0x8000_0000_0000_0000 <= a.bits <= 0xfff0_0000_0000_0000 && b.bits <= 0x7ff0_0000_0000_0000
            ==> !b.less(a) && (a.less(b) <==> a.bits != 0x8000_0000_0000_0000 || b.bits != 0),
        0x7ff0_0000_0000_0000 < a.bits < 0x8000_0000_0000_0000 || a.bits > 0xfff0_0000_0000_0000
            ==> a.nan() && !a.less(b) && !b.less(a),
        a.nan() ==> 0x7ff0_0000_0000_0000 < a.bits < 0x8000_0000_0000_0000 || a.bits
            > 0xfff0_0000_0000_0000,
{
}

} // verus!
