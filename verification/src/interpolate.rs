//! Linear blending of values at an exact fractional progress.

use vstd::arithmetic::div_mod::lemma_fundamental_div_mod_converse;
use vstd::arithmetic::mul::lemma_mul_upper_bound;
use vstd::prelude::*;

verus! {

/// A progress `num / den` between zero and one, both ends included.
#[derive(Clone, Copy, Debug, PartialEq, Eq, Structural)]
pub struct Fraction {
    pub num: u64,
    pub den: u64,
}

impl Fraction {
    /// The ratio is defined and does not exceed one.
    pub open spec fn wf(self) -> bool {
        0 < self.den && self.num <= self.den
    }

    /// The ratio `num / den`, or nothing where it is undefined or exceeds one.
    pub fn new(num: u64, den: u64) -> (r: Option<Fraction>)
        ensures
            r == (if 0 < den && num <= den {
                Some(Fraction { num, den })
            } else {
                None
            }),
    {
        if 0 < den && num <= den {
            Some(Fraction { num, den })
        } else {
            None
        }
    }
}

impl Fraction {
    /// How far `time` has come in the cycle of length `period` that it lies
    /// in: the remainder of `time` by `period`, over `period`. The cycles
    /// tile all of time, so the remainder of a negative time is not negative.
    pub open spec fn cycled(time: i64, period: i64) -> Fraction {
        Fraction { num: (time as int % period as int) as u64, den: period as u64 }
    }

    /// How far `time` has come in the cycle of length `period` that it lies
    /// in; always less than one.
    pub fn cycle(time: i64, period: i64) -> (r: Fraction)
        requires
            0 < period,
        ensures
            r == Self::cycled(time, period),
            r.num < r.den,
    {
        let p = period as i128;
        let shifted = time as i128 + 0x8000_0000_0000_0000;
        let base = (0x8000_0000_0000_0000 as i128) % p;
        let sum = (shifted % p) + (p - base);
        let num = sum % p;
        proof {
            lemma_cycle(time as int, period as int);
        }
        Fraction { num: num as u64, den: period as u64 }
    }
}

/// The remainder of a time by a period, found with no negative dividend:
/// two to the power of 63 is added to the time and taken out of the
/// remainder again.
proof fn lemma_cycle(time: int, period: int)
    requires
        0 < period,
    ensures
        0 <= time % period < period,
        ((time + 0x8000_0000_0000_0000) % period + (period - 0x8000_0000_0000_0000int % period))
            % period == time % period,
{
    let k = 0x8000_0000_0000_0000int;
    vstd::arithmetic::div_mod::lemma_mod_bound(time, period);
    vstd::arithmetic::div_mod::lemma_mod_bound(k, period);
    vstd::arithmetic::div_mod::lemma_mod_bound(time + k, period);
    vstd::arithmetic::div_mod::lemma_add_mod_noop(time, k, period);
    let a = time % period;
    let b = k % period;
    // (time + k) % period is a + b, less one period where that is too much.
    assert((time + k) % period == (a + b) % period);
    if a + b < period {
        vstd::arithmetic::div_mod::lemma_small_mod((a + b) as nat, period as nat);
        lemma_fundamental_div_mod_converse(a + period, period, 1, a);
    } else {
        lemma_fundamental_div_mod_converse(a + b, period, 1, a + b - period);
        vstd::arithmetic::div_mod::lemma_small_mod(a as nat, period as nat);
    }
}

/// The integer nearest to `n / d` for a positive `d`; a half rounds up.
pub open spec fn nearest(n: int, d: int) -> int {
    (2 * n + d) / (2 * d)
}

/// The linear blend `a * (1 - num/den) + b * (num/den)`, rounded to the
/// nearest integer.
pub open spec fn lerp(a: int, b: int, num: int, den: int) -> int {
    nearest(a * (den - num) + b * num, den)
}

/// A blend stays between its two ends.
pub proof fn lemma_lerp_bounds(a: int, b: int, num: int, den: int)
    requires
        0 < den,
        0 <= num <= den,
    ensures
        a <= b ==> a <= lerp(a, b, num, den) <= b,
        b <= a ==> b <= lerp(a, b, num, den) <= a,
{
    let n = a * (den - num) + b * num;
    if a <= b {
        assert(a * den <= n <= b * den) by (nonlinear_arith)
            requires
                n == a * (den - num) + b * num,
                a <= b,
                0 <= num <= den,
        ;
        lemma_nearest_monotone(a * den, n, den);
        lemma_nearest_monotone(n, b * den, den);
    } else {
        assert(b * den <= n <= a * den) by (nonlinear_arith)
            requires
                n == a * (den - num) + b * num,
                b <= a,
                0 <= num <= den,
        ;
        lemma_nearest_monotone(b * den, n, den);
        lemma_nearest_monotone(n, a * den, den);
    }
    lemma_nearest_whole(a, den);
    lemma_nearest_whole(b, den);
}

/// Rounding keeps the order of its arguments.
pub proof fn lemma_nearest_monotone(n1: int, n2: int, d: int)
    requires
        0 < d,
        n1 <= n2,
    ensures
        nearest(n1, d) <= nearest(n2, d),
{
    vstd::arithmetic::div_mod::lemma_div_is_ordered(2 * n1 + d, 2 * n2 + d, 2 * d);
}

/// A whole number of units rounds to itself.
pub proof fn lemma_nearest_whole(k: int, d: int)
    requires
        0 < d,
    ensures
        nearest(k * d, d) == k,
{
    assert(2 * (k * d) + d == k * (2 * d) + d) by (nonlinear_arith);
    lemma_fundamental_div_mod_converse(2 * (k * d) + d, 2 * d, k, d);
}

/// At progress zero a blend is its first end, at progress one its second.
pub proof fn lemma_lerp_ends(a: int, b: int, den: int)
    requires
        0 < den,
    ensures
        lerp(a, b, 0, den) == a,
        lerp(a, b, den, den) == b,
{
    assert(a * (den - 0) + b * 0 == a * den) by (nonlinear_arith);
    assert(a * (den - den) + b * den == b * den) by (nonlinear_arith);
    lemma_nearest_whole(a, den);
    lemma_nearest_whole(b, den);
}

/// Between rising ends a blend does not fall as the progress grows.
pub proof fn lemma_lerp_monotone(a: int, b: int, num1: int, num2: int, den: int)
    requires
        0 < den,
        a <= b,
        num1 <= num2,
    ensures
        lerp(a, b, num1, den) <= lerp(a, b, num2, den),
{
    assert(a * (den - num1) + b * num1 <= a * (den - num2) + b * num2) by (nonlinear_arith)
        requires
            a <= b,
            num1 <= num2,
    ;
    lemma_nearest_monotone(a * (den - num1) + b * num1, a * (den - num2) + b * num2, den);
}

/// A value that can be blended linearly towards another of its kind.
pub trait Interpolate: Sized {
    /// What the blend from `self` towards `other` is at progress `t`.
    spec fn blend(self, other: Self, t: Fraction) -> Self;

    /// At progress zero a blend is the value it starts from.
    proof fn lemma_blend_start(self, other: Self, t: Fraction)
        requires
            t.wf(),
            t.num == 0,
        ensures
            self.blend(other, t) == self,
    ;

    /// Blends `self` towards `other` at progress `t`.
    fn interpolate(&self, other: &Self, t: Fraction) -> (r: Self)
        requires
            t.wf(),
        ensures
            r == self.blend(*other, t),
    ;
}

/// A fixed-point scalar blends to the nearest representable value.
impl Interpolate for i64 {
    open spec fn blend(self, other: Self, t: Fraction) -> Self {
        lerp(self as int, other as int, t.num as int, t.den as int) as i64
    }

    proof fn lemma_blend_start(self, other: Self, t: Fraction) {
        lemma_lerp_ends(self as int, other as int, t.den as int);
    }

    fn interpolate(&self, other: &Self, t: Fraction) -> (r: Self) {
        lerp_wide(*self as i128, *other as i128, t) as i64
    }
}

/// An index blends as a number and snaps to the nearest whole index.
impl Interpolate for usize {
    open spec fn blend(self, other: Self, t: Fraction) -> Self {
        lerp(self as int, other as int, t.num as int, t.den as int) as usize
    }

    proof fn lemma_blend_start(self, other: Self, t: Fraction) {
        lemma_lerp_ends(self as int, other as int, t.den as int);
    }

    fn interpolate(&self, other: &Self, t: Fraction) -> (r: Self) {
        lerp_wide(*self as i128, *other as i128, t) as usize
    }
}

/// The blend of two wide integers whose distance fits in 64 bits.
pub fn lerp_wide(a: i128, b: i128, t: Fraction) -> (r: i128)
    requires
        t.wf(),
        -0x1_0000_0000_0000_0000 < a < 0x1_0000_0000_0000_0000,
        -0x1_0000_0000_0000_0000 < b < 0x1_0000_0000_0000_0000,
        -0x1_0000_0000_0000_0000 < b - a < 0x1_0000_0000_0000_0000,
    ensures
        r == lerp(a as int, b as int, t.num as int, t.den as int),
        a <= b ==> a <= r <= b,
        b <= a ==> b <= r <= a,
{
    let num: u128 = t.num as u128;
    let den: u128 = t.den as u128;
    proof {
        lemma_lerp_bounds(a as int, b as int, t.num as int, t.den as int);
    }
    if a <= b {
        let d: u128 = (b - a) as u128;
        proof {
            lemma_mul_upper_bound(d as int, 0xffff_ffff_ffff_ffff, num as int, 0xffff_ffff_ffff_ffff);
            assert(0xffff_ffff_ffff_ffff * 0xffff_ffff_ffff_ffff < 0x1_0000_0000_0000_0000_0000_0000_0000_0000)
                by (nonlinear_arith);
        }
        let p: u128 = d * num;
        let q: u128 = p / den;
        let rem: u128 = p % den;
        let up: u128 = if rem >= den - rem { 1 } else { 0 };
        proof {
            lemma_blend_up(a as int, b as int, num as int, den as int, q as int, rem as int);
        }
        a + (q as i128) + (up as i128)
    } else {
        let d: u128 = (a - b) as u128;
        proof {
            lemma_mul_upper_bound(d as int, 0xffff_ffff_ffff_ffff, num as int, 0xffff_ffff_ffff_ffff);
            assert(0xffff_ffff_ffff_ffff * 0xffff_ffff_ffff_ffff < 0x1_0000_0000_0000_0000_0000_0000_0000_0000)
                by (nonlinear_arith);
        }
        let p: u128 = d * num;
        let q: u128 = p / den;
        let rem: u128 = p % den;
        let down: u128 = if rem > den - rem { 1 } else { 0 };
        proof {
            lemma_blend_down(a as int, b as int, num as int, den as int, q as int, rem as int);
        }
        a - (q as i128) - (down as i128)
    }
}

proof fn lemma_blend_up(a: int, b: int, num: int, den: int, q: int, rem: int)
    requires
        0 < den,
        0 <= num <= den,
        a <= b,
        q == ((b - a) * num) / den,
        rem == ((b - a) * num) % den,
    ensures
        0 <= q <= b - a,
        lerp(a, b, num, den) == a + q + (if rem >= den - rem { 1int } else { 0int }),
{
    let p = (b - a) * num;
    vstd::arithmetic::div_mod::lemma_fundamental_div_mod(p, den);
    vstd::arithmetic::div_mod::lemma_mod_bound(p, den);
    assert(0 <= p <= (b - a) * den) by (nonlinear_arith)
        requires
            p == (b - a) * num,
            a <= b,
            0 <= num <= den,
    ;
    assert(p == den * q + rem);
    assert(0 <= q <= b - a) by (nonlinear_arith)
        requires
            p == den * q + rem,
            0 <= rem < den,
            0 <= p <= (b - a) * den,
    ;
    let up = if rem >= den - rem { 1int } else { 0int };
    let n = a * (den - num) + b * num;
    let r2 = 2 * rem + den - up * (2 * den);
    assert(2 * n + den == (a + q + up) * (2 * den) + r2) by (nonlinear_arith)
        requires
            n == a * (den - num) + b * num,
            p == (b - a) * num,
            p == den * q + rem,
            r2 == 2 * rem + den - up * (2 * den),
    ;
    lemma_fundamental_div_mod_converse(2 * n + den, 2 * den, a + q + up, r2);
}

proof fn lemma_blend_down(a: int, b: int, num: int, den: int, q: int, rem: int)
    requires
        0 < den,
        0 <= num <= den,
        b <= a,
        q == ((a - b) * num) / den,
        rem == ((a - b) * num) % den,
    ensures
        0 <= q <= a - b,
        lerp(a, b, num, den) == a - q - (if rem > den - rem { 1int } else { 0int }),
{
    let p = (a - b) * num;
    vstd::arithmetic::div_mod::lemma_fundamental_div_mod(p, den);
    vstd::arithmetic::div_mod::lemma_mod_bound(p, den);
    assert(0 <= p <= (a - b) * den) by (nonlinear_arith)
        requires
            p == (a - b) * num,
            b <= a,
            0 <= num <= den,
    ;
    assert(p == den * q + rem);
    assert(0 <= q <= a - b) by (nonlinear_arith)
        requires
            p == den * q + rem,
            0 <= rem < den,
            0 <= p <= (a - b) * den,
    ;
    let down = if rem > den - rem { 1int } else { 0int };
    let n = a * (den - num) + b * num;
    let r2 = den - 2 * rem + down * (2 * den);
    assert(2 * n + den == (a - q - down) * (2 * den) + r2) by (nonlinear_arith)
        requires
            n == a * (den - num) + b * num,
            p == (a - b) * num,
            p == den * q + rem,
            r2 == den - 2 * rem + down * (2 * den),
    ;
    lemma_fundamental_div_mod_converse(2 * n + den, 2 * den, a - q - down, r2);
}

} // verus!
