//! Exact fixed-point numbers: a [`Scalar`] whose every operation is an
//! integer computation.

use crate::scalar::Scalar;
use vstd::prelude::*;

verus! {

/// The raw value that stands for the number one: 32 fractional bits.
pub const SCALE: i64 = 0x1_0000_0000;

/// A signed number with 31 integer and 32 fractional bits.
///
/// `raw` is the number times [`SCALE`]. Results that leave the range of `i64`
/// stick at its ends; products and quotients round toward zero.
#[derive(Clone, Copy, Debug, PartialEq, Eq, Structural)]
pub struct Fixed {
    pub raw: i64,
}

/// The nearest raw value to `v`.
pub open spec fn clamp(v: int) -> i64 {
    if v > i64::MAX {
        i64::MAX
    } else if v < i64::MIN {
        i64::MIN
    } else {
        v as i64
    }
}

/// The distance of `v` from zero.
pub open spec fn abs(v: int) -> int {
    if v < 0 {
        -v
    } else {
        v
    }
}

/// `m` with the sign that `negative` asks for.
pub open spec fn signed(negative: bool, m: int) -> int {
    if negative {
        -m
    } else {
        m
    }
}

/// The raw product of two raw values, before clamping.
pub open spec fn raw_product(a: int, b: int) -> int {
    signed((a < 0) != (b < 0), (abs(a) * abs(b)) / (SCALE as int))
}

/// The raw quotient of two raw values, before clamping. A zero divisor gives
/// the end of the range on the dividend's side, and zero for zero.
pub open spec fn raw_quotient(a: int, b: int) -> int {
    if b == 0 {
        if a > 0 {
            i64::MAX as int
        } else if a < 0 {
            i64::MIN as int
        } else {
            0
        }
    } else {
        signed((a < 0) != (b < 0), (abs(a) * (SCALE as int)) / abs(b))
    }
}

fn distance_from_zero(v: i64) -> (m: u128)
    ensures
        m == abs(v as int),
        m <= 0x8000_0000_0000_0000,
{
    if v >= 0 {
        v as u128
    } else {
        (-(v as i128)) as u128
    }
}

fn with_sign(negative: bool, m: u128) -> (r: i64)
    ensures
        r == clamp(signed(negative, m as int)),
{
    if negative {
        if m >= 0x8000_0000_0000_0000 {
            i64::MIN
        } else {
            -(m as i64)
        }
    } else {
        if m > 0x7fff_ffff_ffff_ffff {
            i64::MAX
        } else {
            m as i64
        }
    }
}

impl Fixed {
    /// The number whose raw value is `raw`.
    pub fn from_raw(raw: i64) -> (r: Fixed)
        ensures
            r.raw == raw,
    {
        Fixed { raw }
    }

    /// The whole number `n`.
    pub fn from_int(n: i32) -> (r: Fixed)
        ensures
            r.raw == n * SCALE,
    {
        Fixed { raw: (n as i64) * SCALE }
    }
}

impl Scalar for Fixed {
    open spec fn spec_zero() -> Self {
        Fixed { raw: 0 }
    }

    open spec fn spec_one() -> Self {
        Fixed { raw: SCALE }
    }

    open spec fn spec_epsilon() -> Self {
        Fixed { raw: 1 }
    }

    open spec fn spec_from_count(n: usize) -> Self {
        Fixed { raw: clamp(n * SCALE) }
    }

    open spec fn spec_plus(self, rhs: Self) -> Self {
        Fixed { raw: clamp(self.raw + rhs.raw) }
    }

    open spec fn spec_minus(self, rhs: Self) -> Self {
        Fixed { raw: clamp(self.raw - rhs.raw) }
    }

    open spec fn spec_times(self, rhs: Self) -> Self {
        Fixed { raw: clamp(raw_product(self.raw as int, rhs.raw as int)) }
    }

    open spec fn spec_over(self, rhs: Self) -> Self {
        Fixed { raw: clamp(raw_quotient(self.raw as int, rhs.raw as int)) }
    }

    open spec fn spec_magnitude(self) -> Self {
        Fixed { raw: clamp(abs(self.raw as int)) }
    }

    open spec fn spec_less(self, rhs: Self) -> bool {
        self.raw < rhs.raw
    }

    fn zero() -> (r: Self) {
        Fixed { raw: 0 }
    }

    fn one() -> (r: Self) {
        Fixed { raw: SCALE }
    }

    fn epsilon() -> (r: Self) {
        Fixed { raw: 1 }
    }

    fn from_count(n: usize) -> (r: Self) {
        if n > 0x7fff_ffff {
            Fixed { raw: i64::MAX }
        } else {
            Fixed { raw: (n as i64) * SCALE }
        }
    }

    fn plus(self, rhs: Self) -> (r: Self) {
        let wide: i128 = self.raw as i128 + rhs.raw as i128;
        if wide >= 0 {
            Fixed { raw: with_sign(false, wide as u128) }
        } else {
            Fixed { raw: with_sign(true, (-wide) as u128) }
        }
    }

    fn minus(self, rhs: Self) -> (r: Self) {
        let wide: i128 = self.raw as i128 - rhs.raw as i128;
        if wide >= 0 {
            Fixed { raw: with_sign(false, wide as u128) }
        } else {
            Fixed { raw: with_sign(true, (-wide) as u128) }
        }
    }

    fn times(self, rhs: Self) -> (r: Self) {
        let a: u128 = distance_from_zero(self.raw);
        let b: u128 = distance_from_zero(rhs.raw);
        assert(a * b <= 0x8000_0000_0000_0000 * 0x8000_0000_0000_0000) by (nonlinear_arith)
            requires
                a <= 0x8000_0000_0000_0000,
                b <= 0x8000_0000_0000_0000,
        ;
        let m: u128 = (a * b) / (SCALE as u128);
        Fixed { raw: with_sign((self.raw < 0) != (rhs.raw < 0), m) }
    }

    fn over(self, rhs: Self) -> (r: Self) {
        if rhs.raw == 0 {
            if self.raw > 0 {
                Fixed { raw: i64::MAX }
            } else if self.raw < 0 {
                Fixed { raw: i64::MIN }
            } else {
                Fixed { raw: 0 }
            }
        } else {
            let a: u128 = distance_from_zero(self.raw);
            let b: u128 = distance_from_zero(rhs.raw);
            assert(a * (SCALE as u128) <= 0x8000_0000_0000_0000 * 0x1_0000_0000) by (nonlinear_arith)
                requires
                    a <= 0x8000_0000_0000_0000,
                    SCALE == 0x1_0000_0000,
            ;
            let m: u128 = (a * (SCALE as u128)) / b;
            Fixed { raw: with_sign((self.raw < 0) != (rhs.raw < 0), m) }
        }
    }

    fn magnitude(self) -> (r: Self) {
        Fixed { raw: with_sign(false, distance_from_zero(self.raw)) }
    }

    fn less(self, rhs: Self) -> (r: bool) {
        self.raw < rhs.raw
    }
}

} // verus!
