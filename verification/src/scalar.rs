//! Single-precision numbers as bit patterns, with their order.

use vstd::prelude::*;
use crate::value::lemma_rank_orders_as_value;

verus! {

/// The sign bit of a binary32 pattern.
pub const SIGN_BIT: u32 = 0x8000_0000;

/// The magnitude of an infinity: every larger magnitude is a NaN.
pub const INFINITY_MAGNITUDE: u32 = 0x7f80_0000;

/// A single-precision (binary32) number, held as its 32-bit pattern.
///
/// `==` on two scalars compares the patterns. The numeric comparisons are
/// [`Scalar::same`], [`Scalar::le`] and [`Scalar::lt`]; the number that a
/// pattern holds is [`Scalar::units`].
#[derive(Clone, Copy, Debug, PartialEq, Eq, Structural)]
pub struct Scalar {
    pub bits: u32,
}

impl Scalar {
    /// The pattern without its sign bit.
    pub open spec fn magnitude(self) -> int {
        (self.bits % SIGN_BIT) as int
    }

    /// Whether the sign bit is set.
    pub open spec fn negative(self) -> bool {
        self.bits >= SIGN_BIT
    }

    /// Whether the pattern is not a number.
    pub open spec fn nan(self) -> bool {
        self.magnitude() > INFINITY_MAGNITUDE
    }

    /// The signed magnitude. It grows with the number held, and both zeros
    /// have rank 0: two ranks compare as the two numbers do.
    pub open spec fn rank(self) -> int {
        if self.negative() {
            -self.magnitude()
        } else {
            self.magnitude()
        }
    }

    /// `self <= other` as numbers: false as soon as one of them is a NaN.
    pub open spec fn le_spec(self, other: Scalar) -> bool {
        !self.nan() && !other.nan() && self.rank() <= other.rank()
    }

    /// `self < other` as numbers: false as soon as one of them is a NaN.
    pub open spec fn lt_spec(self, other: Scalar) -> bool {
        !self.nan() && !other.nan() && self.rank() < other.rank()
    }

    /// `self == other` as numbers: the zeros are equal, a NaN equals nothing.
    pub open spec fn same_spec(self, other: Scalar) -> bool {
        !self.nan() && !other.nan() && self.rank() == other.rank()
    }

    /// The pattern with the sign bit flipped.
    pub open spec fn neg_spec(self) -> Scalar {
        if self.bits >= SIGN_BIT {
            Scalar { bits: (self.bits - SIGN_BIT) as u32 }
        } else {
            Scalar { bits: (self.bits + SIGN_BIT) as u32 }
        }
    }

    /// The pattern with the sign bit cleared.
    pub open spec fn abs_spec(self) -> Scalar {
        Scalar { bits: (self.bits % SIGN_BIT) as u32 }
    }

    /// The smaller of two numbers. A NaN gives way to the other argument, and
    /// of two equal numbers the first is taken.
    pub open spec fn min_spec(self, other: Scalar) -> Scalar {
        if self.nan() {
            other
        } else if other.nan() || self.rank() <= other.rank() {
            self
        } else {
            other
        }
    }

    /// The larger of two numbers. A NaN gives way to the other argument, and
    /// of two equal numbers the first is taken.
    pub open spec fn max_spec(self, other: Scalar) -> Scalar {
        if self.nan() {
            other
        } else if other.nan() || self.rank() >= other.rank() {
            self
        } else {
            other
        }
    }

    /// The number kept between `-limit` and `limit`: first lowered to
    /// `limit`, then raised to `-limit`.
    pub open spec fn limit_spec(self, limit: Scalar) -> Scalar {
        self.min_spec(limit).max_spec(limit.neg_spec())
    }

    /// The scalar with the given pattern.
    pub fn from_bits(bits: u32) -> (r: Scalar)
        ensures
            r.bits == bits,
    {
        Scalar { bits }
    }

    /// The pattern.
    pub fn to_bits(self) -> (r: u32)
        ensures
            r == self.bits,
    {
        self.bits
    }

    /// Positive zero.
    pub fn zero() -> (r: Scalar)
        ensures
            r.bits == 0,
    {
        Scalar { bits: 0 }
    }

    /// Whether the pattern is not a number.
    pub fn is_nan(self) -> (r: bool)
        ensures
            r == self.nan(),
    {
        self.bits % SIGN_BIT > INFINITY_MAGNITUDE
    }

    fn key(self) -> (r: i64)
        ensures
            r == self.rank(),
    {
        let m: i64 = (self.bits % SIGN_BIT) as i64;
        if self.bits >= SIGN_BIT {
            -m
        } else {
            m
        }
    }

    /// `self <= other` as numbers.
    pub fn le(self, other: Scalar) -> (r: bool)
        ensures
            r == self.le_spec(other),
            r == (!self.nan() && !other.nan() && self.units() <= other.units()),
    {
        proof {
            lemma_rank_orders_as_value(self, other);
        }
        !self.is_nan() && !other.is_nan() && self.key() <= other.key()
    }

    /// `self < other` as numbers.
    pub fn lt(self, other: Scalar) -> (r: bool)
        ensures
            r == self.lt_spec(other),
            r == (!self.nan() && !other.nan() && self.units() < other.units()),
    {
        proof {
            lemma_rank_orders_as_value(self, other);
        }
        !self.is_nan() && !other.is_nan() && self.key() < other.key()
    }

    /// `self == other` as numbers.
    pub fn same(self, other: Scalar) -> (r: bool)
        ensures
            r == self.same_spec(other),
            r == (!self.nan() && !other.nan() && self.units() == other.units()),
    {
        proof {
            lemma_rank_orders_as_value(self, other);
        }
        !self.is_nan() && !other.is_nan() && self.key() == other.key()
    }

    /// The number with the opposite sign.
    pub fn neg(self) -> (r: Scalar)
        ensures
            r == self.neg_spec(),
            r.magnitude() == self.magnitude(),
            r.negative() == !self.negative(),
            r.rank() == -self.rank(),
            r.nan() == self.nan(),
    {
        if self.bits >= SIGN_BIT {
            Scalar { bits: self.bits - SIGN_BIT }
        } else {
            Scalar { bits: self.bits + SIGN_BIT }
        }
    }

    /// The number without its sign.
    pub fn abs(self) -> (r: Scalar)
        ensures
            r == self.abs_spec(),
            r.magnitude() == self.magnitude(),
            !r.negative(),
            r.nan() == self.nan(),
    {
        Scalar { bits: self.bits % SIGN_BIT }
    }

    /// The smaller of two numbers.
    pub fn min(self, other: Scalar) -> (r: Scalar)
        ensures
            r == self.min_spec(other),
    {
        if self.is_nan() {
            other
        } else if other.is_nan() || self.key() <= other.key() {
            self
        } else {
            other
        }
    }

    /// The larger of two numbers.
    pub fn max(self, other: Scalar) -> (r: Scalar)
        ensures
            r == self.max_spec(other),
    {
        if self.is_nan() {
            other
        } else if other.is_nan() || self.key() >= other.key() {
            self
        } else {
            other
        }
    }

    /// The number kept between `-limit` and `limit`.
    pub fn limit(self, limit: Scalar) -> (r: Scalar)
        ensures
            r == self.limit_spec(limit),
    {
        self.min(limit).max(limit.neg())
    }

    /// Among numbers `<=` is a total order up to the equality of numbers: any
    /// two compare, each is below itself, and two that are below one another
    /// are equal.
    pub proof fn lemma_le_is_total(self, other: Scalar)
        requires
            !self.nan(),
            !other.nan(),
        ensures
            self.le_spec(self),
            self.le_spec(other) || other.le_spec(self),
            self.le_spec(other) && other.le_spec(self) <==> self.same_spec(other),
            self.lt_spec(other) <==> !other.le_spec(self),
    {
    }

    /// `<=` carries over: what is below a number is below all that the number
    /// is below.
    pub proof fn lemma_le_is_transitive(self, middle: Scalar, other: Scalar)
        requires
            self.le_spec(middle),
            middle.le_spec(other),
        ensures
            self.le_spec(other),
    {
    }

    /// Changing the signs of two numbers turns their order round.
    pub proof fn lemma_neg_turns_round(self, other: Scalar)
        ensures
            self.le_spec(other) <==> other.neg_spec().le_spec(self.neg_spec()),
            self.neg_spec().neg_spec() == self,
    {
    }

    /// Of two numbers the smaller is one of them and below both, and the
    /// larger is one of them and above both.
    pub proof fn lemma_min_max(self, other: Scalar)
        requires
            !self.nan(),
            !other.nan(),
        ensures
            self.min_spec(other) == self || self.min_spec(other) == other,
            self.min_spec(other).le_spec(self) && self.min_spec(other).le_spec(other),
            self.max_spec(other) == self || self.max_spec(other) == other,
            self.le_spec(self.max_spec(other)) && other.le_spec(self.max_spec(other)),
    {
    }

    /// A limit that is a number and not below zero bounds what it limits:
    /// the result is a number between `-limit` and `limit`, and it is the
    /// argument itself wherever that already lies between them.
    pub proof fn lemma_limit_bounds(self, limit: Scalar)
        requires
            !limit.nan(),
            limit.rank() >= 0,
        ensures
            !self.limit_spec(limit).nan(),
            limit.neg_spec().le_spec(self.limit_spec(limit)),
            self.limit_spec(limit).le_spec(limit),
            limit.neg_spec().le_spec(self) && self.le_spec(limit) ==> self.limit_spec(limit) == self,
    {
    }
}

} // verus!
