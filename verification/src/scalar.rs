//! Single-precision numbers carried as their IEEE 754 bit patterns.
//!
//! The library compares, selects and negates such numbers exactly. It never
//! rounds: sums, products and transcendental functions reach it ready-made.

use vstd::prelude::*;

verus! {

/// A single-precision number, held as its bit pattern.
#[derive(Clone, Copy, PartialEq, Eq, Structural, Debug)]
pub struct Scalar {
    pub bits: u32,
}

/// Bit pattern of 0.
pub const ZERO: u32 = 0;

/// Bit pattern of 1.
pub const ONE: u32 = 0x3f80_0000;

/// The number with the bit pattern `bits`.
#[verifier::allow_in_spec]
pub fn scalar(bits: u32) -> Scalar
    returns
        (Scalar { bits }),
{
    Scalar { bits }
}

impl Scalar {
    /// "Not a number": an exponent of all ones and a mantissa that is not 0.
    pub open spec fn nan(self) -> bool {
        self.bits % 0x8000_0000 > 0x7f80_0000
    }

    /// The place of the number on the real line, on a scale that keeps the
    /// order of the numbers and takes both zeros to 0.
    pub open spec fn rank(self) -> int {
        if self.bits >= 0x8000_0000 {
            0x8000_0000 - self.bits
        } else {
            self.bits as int
        }
    }

    /// `self < other`; false where either is NaN.
    pub open spec fn less(self, other: Scalar) -> bool {
        !self.nan() && !other.nan() && self.rank() < other.rank()
    }

    /// `self <= other`; false where either is NaN.
    pub open spec fn at_most(self, other: Scalar) -> bool {
        !self.nan() && !other.nan() && self.rank() <= other.rank()
    }

    /// `self == other` as numbers: the zeros are equal, NaN equals nothing.
    pub open spec fn equals(self, other: Scalar) -> bool {
        !self.nan() && !other.nan() && self.rank() == other.rank()
    }

    /// The larger of two numbers; the other one where one is NaN.
    pub open spec fn larger(self, other: Scalar) -> Scalar {
        if self.nan() || self.less(other) {
            other
        } else {
            self
        }
    }

    /// The smaller of two numbers; the other one where one is NaN.
    pub open spec fn smaller(self, other: Scalar) -> Scalar {
        if self.nan() || other.less(self) {
            other
        } else {
            self
        }
    }

    /// The number, or the bound that it passes; NaN stays.
    pub open spec fn bounded(self, low: Scalar, high: Scalar) -> Scalar {
        if self.less(low) {
            low
        } else if high.less(self) {
            high
        } else {
            self
        }
    }

    /// The number without its sign.
    pub open spec fn magnitude(self) -> Scalar {
        Scalar { bits: self.bits % 0x8000_0000 }
    }

    /// Neither infinite nor NaN.
    pub open spec fn finite(self) -> bool {
        self.bits % 0x8000_0000 < 0x7f80_0000
    }

    fn signed_rank(self) -> (r: i64)
        ensures
            r == self.rank(),
    {
        if self.bits >= 0x8000_0000 {
            0x8000_0000i64 - self.bits as i64
        } else {
            self.bits as i64
        }
    }

    pub fn is_nan(self) -> (r: bool)
        ensures
            r == self.nan(),
    {
        self.bits % 0x8000_0000 > 0x7f80_0000
    }

    pub fn is_finite(self) -> (r: bool)
        ensures
            r == self.finite(),
    {
        self.bits % 0x8000_0000 < 0x7f80_0000
    }

    pub fn lt(self, other: Scalar) -> (r: bool)
        ensures
            r == self.less(other),
    {
        !self.is_nan() && !other.is_nan() && self.signed_rank() < other.signed_rank()
    }

    pub fn le(self, other: Scalar) -> (r: bool)
        ensures
            r == self.at_most(other),
    {
        !self.is_nan() && !other.is_nan() && self.signed_rank() <= other.signed_rank()
    }

    pub fn same_number(self, other: Scalar) -> (r: bool)
        ensures
            r == self.equals(other),
    {
        !self.is_nan() && !other.is_nan() && self.signed_rank() == other.signed_rank()
    }

    pub fn max(self, other: Scalar) -> (r: Scalar)
        ensures
            r == self.larger(other),
    {
        if self.is_nan() || self.lt(other) {
            other
        } else {
            self
        }
    }

    pub fn min(self, other: Scalar) -> (r: Scalar)
        ensures
            r == self.smaller(other),
    {
        if self.is_nan() || other.lt(self) {
            other
        } else {
            self
        }
    }

    pub fn clamp(self, low: Scalar, high: Scalar) -> (r: Scalar)
        ensures
            r == self.bounded(low, high),
    {
        if self.lt(low) {
            low
        } else if high.lt(self) {
            high
        } else {
            self
        }
    }

    pub fn abs(self) -> (r: Scalar)
        ensures
            r == self.magnitude(),
    {
        Scalar { bits: self.bits % 0x8000_0000 }
    }
}

/// A double-precision number, held as its bit pattern.
#[derive(Clone, Copy, PartialEq, Eq, Structural, Debug)]
pub struct Wide {
    pub bits: u64,
}

impl Wide {
    /// "Not a number".
    pub open spec fn nan(self) -> bool {
        self.bits % 0x8000_0000_0000_0000 > 0x7ff0_0000_0000_0000
    }

    /// The place of the number on the real line, on a scale that keeps order.
    pub open spec fn rank(self) -> int {
        if self.bits >= 0x8000_0000_0000_0000 {
            0x8000_0000_0000_0000 - self.bits
        } else {
            self.bits as int
        }
    }

    /// `self <= other`; false where either is NaN.
    pub open spec fn at_most(self, other: Wide) -> bool {
        !self.nan() && !other.nan() && self.rank() <= other.rank()
    }

    pub fn is_nan(self) -> (r: bool)
        ensures
            r == self.nan(),
    {
        self.bits % 0x8000_0000_0000_0000 > 0x7ff0_0000_0000_0000
    }

    fn signed_rank(self) -> (r: i128)
        ensures
            r == self.rank(),
    {
        if self.bits >= 0x8000_0000_0000_0000 {
            0x8000_0000_0000_0000i128 - self.bits as i128
        } else {
            self.bits as i128
        }
    }

    pub fn le(self, other: Wide) -> (r: bool)
        ensures
            r == self.at_most(other),
    {
        !self.is_nan() && !other.is_nan() && self.signed_rank() <= other.signed_rank()
    }
}

/// The double-precision number with the bit pattern `bits`.
#[verifier::allow_in_spec]
pub fn wide(bits: u64) -> Wide
    returns
        (Wide { bits }),
{
    Wide { bits }
}

/// A color: red, green, blue and opacity.
#[derive(Clone, Copy, PartialEq, Eq, Structural, Debug)]
pub struct Rgba {
    pub r: Scalar,
    pub g: Scalar,
    pub b: Scalar,
    pub a: Scalar,
}

impl Rgba {
    /// The color with every part between zero and one.
    pub open spec fn in_unit(self) -> Rgba {
        Rgba {
            r: self.r.bounded(scalar(ZERO), scalar(ONE)),
            g: self.g.bounded(scalar(ZERO), scalar(ONE)),
            b: self.b.bounded(scalar(ZERO), scalar(ONE)),
            a: self.a.bounded(scalar(ZERO), scalar(ONE)),
        }
    }

    pub fn clamp_unit(self) -> (r: Rgba)
        ensures
            r == self.in_unit(),
    {
        Rgba {
            r: self.r.clamp(scalar(ZERO), scalar(ONE)),
            g: self.g.clamp(scalar(ZERO), scalar(ONE)),
            b: self.b.clamp(scalar(ZERO), scalar(ONE)),
            a: self.a.clamp(scalar(ZERO), scalar(ONE)),
        }
    }
}

/// Of two numbers that are not NaN exactly one of `<`, `==` and `>` holds.
pub proof fn law_trichotomy(a: Scalar, b: Scalar)
    requires
        !a.nan(),
        !b.nan(),
    ensures
        a.less(b) || a.equals(b) || b.less(a),
        !(a.less(b) && b.less(a)),
        !(a.less(b) && a.equals(b)),
        a.at_most(b) <==> !b.less(a),
{
}

/// A clamped number that is not NaN stands between its bounds.
pub proof fn law_bounded_within(x: Scalar, low: Scalar, high: Scalar)
    requires
        !x.nan(),
        low.at_most(high),
    ensures
        low.at_most(x.bounded(low, high)),
        x.bounded(low, high).at_most(high),
        x.bounded(low, high).bounded(low, high) == x.bounded(low, high),
{
}

/// The larger of a number and a bound is never below the bound, NaN or not.
pub proof fn law_larger_at_least(x: Scalar, bound: Scalar)
    requires
        !bound.nan(),
    ensures
        bound.at_most(x.larger(bound)),
{
}

/// `got` is `x`, raised to `least` where `x` is below it or no number.
pub open spec fn lifted(x: Scalar, least: Scalar, got: Scalar) -> bool {
    &&& least.at_most(x) ==> got == x
    &&& !least.at_most(x) ==> got == least
}

/// `got` is `x` between two bounds, and the bound that `x` passes; what is no
/// number stays.
pub open spec fn kept_within(x: Scalar, low: Scalar, high: Scalar, got: Scalar) -> bool {
    &&& low.at_most(x) && x.at_most(high) ==> got == x
    &&& x.less(low) ==> got == low
    &&& high.less(x) ==> got == high
    &&& x.nan() ==> got == x
}

/// The order of numbers by their bit patterns: of two without a sign the larger
/// pattern is the larger number, of two with one the smaller pattern, and one
/// with a sign is below one without, but for the two zeros. Nothing is below or
/// above what is no number.
pub proof fn law_number_order(a: Scalar, b: Scalar, lt: bool, le: bool, same: bool, no_number: bool)
    requires
        call_ensures(Scalar::lt, (a, b), lt),
        call_ensures(Scalar::le, (a, b), le),
        call_ensures(Scalar::same_number, (a, b), same),
        call_ensures(Scalar::is_nan, (a,), no_number),
    ensures
        no_number <==> 0x7f80_0000 < a.bits < 0x8000_0000 || 0xff80_0000 < a.bits,
        no_number ==> !lt && !le && !same,
        a.bits <= 0x7f80_0000 && b.bits <= 0x7f80_0000 ==> lt == (a.bits < b.bits) && le == (a.bits
            <= b.bits) && same == (a.bits == b.bits),
        0x8000_0000 <= a.bits <= 0xff80_0000 && 0x8000_0000 <= b.bits <= 0xff80_0000 ==> lt == (
        b.bits < a.bits) && le == (b.bits <= a.bits) && same == (a.bits == b.bits),
        0x8000_0000 < a.bits <= 0xff80_0000 && b.bits <= 0x7f80_0000 ==> lt && le && !same,
        a.bits <= 0x7f80_0000 && 0x8000_0000 < b.bits <= 0xff80_0000 ==> !lt && !le && !same,
        a.bits == 0x8000_0000 && b.bits == 0 ==> !lt && le && same,
        a.bits == 0 && b.bits == 0x8000_0000 ==> !lt && le && same,
        0x7f80_0000 < b.bits < 0x8000_0000 || 0xff80_0000 < b.bits ==> !lt && !le && !same,
{
}

/// The larger and the smaller of two numbers are one of the two each, the one
/// above and the one below; beside what is no number the other one stands.
pub proof fn law_larger_and_smaller(a: Scalar, b: Scalar, high: Scalar, low: Scalar)
    requires
        call_ensures(Scalar::max, (a, b), high),
        call_ensures(Scalar::min, (a, b), low),
    ensures
        a.less(b) ==> high == b && low == a,
        b.less(a) ==> high == a && low == b,
        a.nan() ==> high == b && low == b,
        b.nan() && !a.nan() ==> high == a && low == a,
        high == a || high == b,
        low == a || low == b,
        lifted(a, b, high) || b.nan(),
{
}

/// A clamped number keeps within its bounds, a magnitude has no sign and is the
/// number or its negative, and a number is finite below the pattern of infinity.
pub proof fn law_clamp_and_magnitude(
    x: Scalar,
    low: Scalar,
    high: Scalar,
    got: Scalar,
    size: Scalar,
    finite: bool,
)
    requires
        call_ensures(Scalar::clamp, (x, low, high), got),
        call_ensures(Scalar::abs, (x,), size),
        call_ensures(Scalar::is_finite, (x,), finite),
        low.at_most(high),
    ensures
        kept_within(x, low, high, got),
        size.bits < 0x8000_0000,
        size.bits == x.bits || size.bits + 0x8000_0000 == x.bits,
        finite <==> size.bits < 0x7f80_0000,
{
}

/// A double-precision number is ordered by its bit pattern in the same way.
pub proof fn law_wide_order(a: Wide, b: Wide, le: bool, no_number: bool)
    requires
        call_ensures(Wide::le, (a, b), le),
        call_ensures(Wide::is_nan, (a,), no_number),
    ensures
        no_number <==> 0x7ff0_0000_0000_0000 < a.bits < 0x8000_0000_0000_0000
            || 0xfff0_0000_0000_0000 < a.bits,
        no_number ==> !le,
        a.bits <= 0x7ff0_0000_0000_0000 && b.bits <= 0x7ff0_0000_0000_0000 ==> le == (a.bits
            <= b.bits),
        0x8000_0000_0000_0000 <= a.bits <= 0xfff0_0000_0000_0000 && 0x8000_0000_0000_0000 <= b.bits
            <= 0xfff0_0000_0000_0000 ==> le == (b.bits <= a.bits),
        0x8000_0000_0000_0000 <= a.bits <= 0xfff0_0000_0000_0000 && b.bits <= 0x7ff0_0000_0000_0000
            ==> le,
{
}

/// A color within the unit keeps every part between zero and one where it is.
pub proof fn law_color_in_unit(c: Rgba, r: Rgba)
    requires
        call_ensures(Rgba::clamp_unit, (c,), r),
    ensures
        unit_color(c, r),
{
}

/// `got` is the color `c` with every part kept between zero and one.
pub open spec fn unit_color(c: Rgba, got: Rgba) -> bool {
    &&& kept_within(c.r, scalar(0), scalar(0x3f80_0000), got.r)
    &&& kept_within(c.g, scalar(0), scalar(0x3f80_0000), got.g)
    &&& kept_within(c.b, scalar(0), scalar(0x3f80_0000), got.b)
    &&& kept_within(c.a, scalar(0), scalar(0x3f80_0000), got.a)
}

} // verus!
