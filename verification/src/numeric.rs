//! Numeric utilities: explicit ceiling and floor division, and the conversion
//! from a polling rate to a tick interval.

use vstd::prelude::*;

verus! {

/// Integer division rounding up instead of toward zero.
pub trait DivCeil: Sized {
    /// The value as a mathematical integer.
    spec fn as_int(&self) -> int;

    /// The quotient of `self` by `rhs`, rounded up: one more than the
    /// truncated quotient whenever the division leaves a remainder.
    fn div_ceil_placeholder(&self, rhs: Self) -> (r: Self)
        requires
            rhs.as_int() > 0,
        ensures
            self.as_int() % rhs.as_int() == 0 ==> r.as_int() == self.as_int() / rhs.as_int(),
            self.as_int() % rhs.as_int() != 0 ==> r.as_int() == self.as_int() / rhs.as_int() + 1,
    ;
}

/// Integer division rounding toward negative infinity instead of toward zero.
pub trait DivFloor: Sized {
    /// The value as a mathematical integer.
    spec fn as_int(&self) -> int;

    /// The quotient of `self` by `rhs`, rounded toward negative infinity:
    /// the unique `r` with `r <= self/rhs < r + 1`.
    fn div_floor_placeholder(&self, rhs: Self) -> (r: Self)
        requires
            rhs.as_int() != 0,
            !(self.as_int() == i32::MIN && rhs.as_int() == -1),
        ensures
            rhs.as_int() > 0 ==> rhs.as_int() * r.as_int() <= self.as_int() < rhs.as_int() * (
            r.as_int() + 1),
            rhs.as_int() < 0 ==> rhs.as_int() * (r.as_int() + 1) < self.as_int() <= rhs.as_int()
                * r.as_int(),
    ;
}

impl DivCeil for usize {
    open spec fn as_int(&self) -> int {
        *self as int
    }

    fn div_ceil_placeholder(&self, rhs: usize) -> (r: usize) {
        let quotient = self / rhs;
        let remainder = self % rhs;
        if remainder > 0 {
            proof {
                vstd::arithmetic::div_mod::lemma_fundamental_div_mod(*self as int, rhs as int);
                assert(quotient as int <= (rhs as int) * (quotient as int)) by (nonlinear_arith)
                    requires
                        rhs as int >= 1,
                        quotient as int >= 0,
                ;
            }
            quotient + 1
        } else {
            quotient
        }
    }
}

impl DivCeil for u32 {
    open spec fn as_int(&self) -> int {
        *self as int
    }

    fn div_ceil_placeholder(&self, rhs: u32) -> (r: u32) {
        let quotient = self / rhs;
        let remainder = self % rhs;
        if remainder > 0 {
            proof {
                vstd::arithmetic::div_mod::lemma_fundamental_div_mod(*self as int, rhs as int);
                assert(quotient as int <= (rhs as int) * (quotient as int)) by (nonlinear_arith)
                    requires
                        rhs as int >= 1,
                        quotient as int >= 0,
                ;
            }
            quotient + 1
        } else {
            quotient
        }
    }
}

impl DivCeil for u64 {
    open spec fn as_int(&self) -> int {
        *self as int
    }

    fn div_ceil_placeholder(&self, rhs: u64) -> (r: u64) {
        let quotient = self / rhs;
        let remainder = self % rhs;
        if remainder > 0 {
            proof {
                vstd::arithmetic::div_mod::lemma_fundamental_div_mod(*self as int, rhs as int);
                assert(quotient as int <= (rhs as int) * (quotient as int)) by (nonlinear_arith)
                    requires
                        rhs as int >= 1,
                        quotient as int >= 0,
                ;
            }
            quotient + 1
        } else {
            quotient
        }
    }
}

impl DivFloor for i32 {
    open spec fn as_int(&self) -> int {
        *self as int
    }

    fn div_floor_placeholder(&self, rhs: i32) -> (r: i32) {
        let d = self / rhs;
        let m = self % rhs;
        proof {
            let a = *self as int;
            let b = rhs as int;
            if a >= 0 && b > 0 {
                vstd::arithmetic::div_mod::lemma_fundamental_div_mod(a, b);
                vstd::arithmetic::div_mod::lemma_mod_division_less_than_divisor(a, b);
                assert(b * (d + 1) == b * d + b) by (nonlinear_arith);
            } else if a < 0 && b > 0 {
                let p = -a;
                assert(d == -(p / b));
                assert(m == -(p % b));
                vstd::arithmetic::div_mod::lemma_fundamental_div_mod(p, b);
                vstd::arithmetic::div_mod::lemma_mod_division_less_than_divisor(p, b);
                vstd::arithmetic::div_mod::lemma_div_pos_is_pos(p, b);
                assert(b * d == -(b * (p / b))) by (nonlinear_arith)
                    requires
                        d == -(p / b),
                ;
                assert(b * (d - 1) == b * d - b) by (nonlinear_arith);
                assert(b * (d + 1) == b * d + b) by (nonlinear_arith);
                if m < 0 {
                    // the divisor cannot be 1 here, so the quotient is small
                    // enough that the floor adjustment cannot underflow
                    assert(b >= 2);
                    assert(2 * (p / b) <= b * (p / b)) by (nonlinear_arith)
                        requires
                            b >= 2,
                            p / b >= 0,
                    ;
                }
            } else if a >= 0 && b < 0 {
                let c = -b;
                vstd::arithmetic::div_mod::lemma_fundamental_div_mod(a, b);
                vstd::arithmetic::div_mod::lemma_fundamental_div_mod(a, c);
                vstd::arithmetic::div_mod::lemma_mod_division_less_than_divisor(a, c);
                vstd::arithmetic::div_mod::lemma_div_pos_is_pos(a, c);
                vstd::arithmetic::div_mod::lemma_div_nonincreasing(a, c);
                assert(0 <= a % b < c) by (nonlinear_arith)
                    requires
                        b < 0,
                        c == -b,
                ;
                assert(a / b == -(a / c) && a % b == a % c) by (nonlinear_arith)
                    requires
                        c > 0,
                        b == -c,
                        a == b * (a / b) + (a % b),
                        0 <= a % b < c,
                        a == c * (a / c) + (a % c),
                        0 <= a % c < c,
                ;
                assert(d == -(a / c));
                assert(m == a % c);
                assert(b * d == c * (a / c)) by (nonlinear_arith)
                    requires
                        b == -c,
                        d == -(a / c),
                ;
                assert(b * (d - 1) == b * d - b) by (nonlinear_arith);
                assert(b * (d + 1) == b * d + b) by (nonlinear_arith);
                if m > 0 {
                    assert(c >= 2);
                    assert(2 * (a / c) <= c * (a / c)) by (nonlinear_arith)
                        requires
                            c >= 2,
                            a / c >= 0,
                    ;
                }
            } else {
                let p = -a;
                let c = -b;
                vstd::arithmetic::div_mod::lemma_fundamental_div_mod(p, b);
                vstd::arithmetic::div_mod::lemma_fundamental_div_mod(p, c);
                vstd::arithmetic::div_mod::lemma_mod_division_less_than_divisor(p, c);
                vstd::arithmetic::div_mod::lemma_div_pos_is_pos(p, c);
                assert(0 <= p % b < c) by (nonlinear_arith)
                    requires
                        b < 0,
                        c == -b,
                ;
                assert(p / b == -(p / c) && p % b == p % c) by (nonlinear_arith)
                    requires
                        c > 0,
                        b == -c,
                        p == b * (p / b) + (p % b),
                        0 <= p % b < c,
                        p == c * (p / c) + (p % c),
                        0 <= p % c < c,
                ;
                assert(p / c <= i32::MAX) by (nonlinear_arith)
                    requires
                        p == c * (p / c) + (p % c),
                        0 <= p % c < c,
                        c >= 1,
                        p <= 0x8000_0000,
                        !(c == 1 && p == 0x8000_0000),
                        p / c >= 0,
                ;
                assert(d == p / c);
                assert(m == -(p % c));
                assert(b * d == -(c * (p / c))) by (nonlinear_arith)
                    requires
                        b == -c,
                        d == p / c,
                ;
                assert(b * (d + 1) == b * d + b) by (nonlinear_arith);
            }
        }
        if (m > 0 && rhs < 0) || (m < 0 && rhs > 0) {
            d - 1
        } else {
            d
        }
    }
}

/// Tick interval, in milliseconds, for a polling rate in frames per second:
/// the ceiling of `1000 / fps`, so ticks never come faster than the
/// configured rate.
pub fn fps_to_tick_interval(fps: u32) -> (millis: u64)
    requires
        fps >= 1,
    ensures
        1000int % (fps as int) == 0 ==> millis == 1000int / (fps as int),
        1000int % (fps as int) != 0 ==> millis == 1000int / (fps as int) + 1,
{
    let millis = 1000u32.div_ceil_placeholder(fps);
    millis as u64
}

} // verus!
