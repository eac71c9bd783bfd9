//! Fixed-point scalars.
//!
//! An [`Fx`] holds an `i64` count of grid units; the number it stands for is
//! `raw / SCALE`. Sums and differences of grid numbers are exact; products
//! and quotients are rounded toward zero onto the grid, which [`tdiv`] makes
//! precise. Intermediate products are carried in 128-bit integers, so the
//! only way an operation can fail is when its final result leaves the `i64`
//! grid; every operation's `requires` states exactly that.

use vstd::prelude::*;

verus! {

use vstd::math::abs;

/// Grid units per 1: a raw count of `n` stands for the number `n / SCALE`.
pub const SCALE: i64 = 1_000_000_000_000;

/// Raw units per micro-unit (one millionth).
pub const MICRO: i64 = 1_000_000;

/// A fixed-point scalar worth `raw / SCALE`.
#[derive(Clone, Copy, PartialEq, Eq, Structural, Debug)]
pub struct Fx {
    pub raw: i64,
}

impl View for Fx {
    type V = int;

    open spec fn view(&self) -> int {
        self.raw as int
    }
}

/// Whether a raw count lies on the `i64` grid.
pub open spec fn fits(x: int) -> bool {
    i64::MIN <= x <= i64::MAX
}

/// Integer division rounded toward zero (unspecified for `b == 0`).
pub open spec fn tdiv(a: int, b: int) -> int {
    let q = (abs(a) / abs(b)) as int;
    if (a < 0) == (b < 0) {
        q
    } else {
        -q
    }
}

/// The raw count of the product of two grid numbers, rounded toward zero.
pub open spec fn fmul_v(a: int, b: int) -> int {
    tdiv(a * b, SCALE as int)
}

/// The raw count of the quotient of two grid numbers, rounded toward zero.
pub open spec fn fdiv_v(a: int, b: int) -> int {
    tdiv(a * (SCALE as int), b)
}

/// The integer square root: the greatest `r` with `r * r <= n` (0 for `n <= 0`).
pub open spec fn sqrt_floor(n: int) -> int
    decreases n,
{
    if n <= 0 {
        0
    } else {
        let r = sqrt_floor(n - 1);
        if (r + 1) * (r + 1) <= n {
            r + 1
        } else {
            r
        }
    }
}

/// For a nonnegative dividend and positive divisor, rounding toward zero is
/// plain euclidean division, and the quotient is nonnegative.
pub proof fn lemma_tdiv_nonneg(a: int, b: int)
    requires
        a >= 0,
        b > 0,
    ensures
        tdiv(a, b) == a / b,
        tdiv(a, b) >= 0,
{
    assert(a / b >= 0) by (nonlinear_arith)
        requires
            a >= 0,
            b > 0,
    ;
}

/// Rounding toward zero is odd in its dividend.
pub proof fn lemma_tdiv_neg_left(a: int, b: int)
    requires
        b != 0,
    ensures
        tdiv(-a, b) == -tdiv(a, b),
{
    assert(abs(-a) == abs(a));
    if a == 0 {
    }
}

/// Rounding toward zero moves a dividend by less than the divisor: the
/// remainder `x - d * tdiv(x, d)` is strictly between `-d` and `d`.
pub proof fn lemma_tdiv_rem(x: int, d: int)
    requires
        d > 0,
    ensures
        -d < x - d * tdiv(x, d) < d,
{
    if x >= 0 {
        assert(tdiv(x, d) == x / d);
        vstd::arithmetic::div_mod::lemma_fundamental_div_mod(x, d);
        vstd::arithmetic::div_mod::lemma_mod_division_less_than_divisor(x, d);
    } else {
        let y = -x;
        assert(tdiv(x, d) == -(y / d));
        vstd::arithmetic::div_mod::lemma_fundamental_div_mod(y, d);
        vstd::arithmetic::div_mod::lemma_mod_division_less_than_divisor(y, d);
        assert(d * (-(y / d)) == -(d * (y / d))) by (nonlinear_arith);
    }
}

/// A whole multiple of a positive divisor divides out exactly under
/// rounding toward zero.
pub proof fn lemma_tdiv_mul_cancel(x: int, d: int)
    requires
        d > 0,
    ensures
        tdiv(x * d, d) == x,
{
    assert(abs(d) == d);
    if x >= 0 {
        assert(x * d >= 0) by (nonlinear_arith)
            requires
                x >= 0,
                d > 0,
        ;
        assert(abs(x * d) == x * d);
        vstd::arithmetic::div_mod::lemma_div_multiples_vanish(x, d);
        assert(x * d == d * x) by (nonlinear_arith);
    } else {
        assert(x * d < 0 && (-x) * d == -(x * d)) by (nonlinear_arith)
            requires
                x < 0,
                d > 0,
        ;
        assert(abs(x * d) == (-x) * d);
        vstd::arithmetic::div_mod::lemma_div_multiples_vanish(-x, d);
        assert((-x) * d == d * (-x)) by (nonlinear_arith);
    }
}

/// Grid multiplication is odd in its right factor: negating one factor
/// negates the rounded product exactly.
pub proof fn lemma_fmul_neg_right(a: int, b: int)
    ensures
        fmul_v(a, -b) == -fmul_v(a, b),
{
    assert(a * (-b) == -(a * b)) by (nonlinear_arith);
    lemma_tdiv_neg_left(a * b, SCALE as int);
}

/// `sqrt_floor(n)` squares to at most `n`, and is the last integer to do so.
pub proof fn lemma_sqrt_floor(n: int)
    requires
        n >= 0,
    ensures
        sqrt_floor(n) >= 0,
        sqrt_floor(n) * sqrt_floor(n) <= n,
        n < (sqrt_floor(n) + 1) * (sqrt_floor(n) + 1),
    decreases n,
{
    if n > 0 {
        lemma_sqrt_floor(n - 1);
        let r0 = sqrt_floor(n - 1);
        if (r0 + 1) * (r0 + 1) <= n {
            assert((r0 + 2) * (r0 + 2) > (r0 + 1) * (r0 + 1)) by (nonlinear_arith)
                requires
                    r0 >= 0,
            ;
        }
    }
}

/// No two integers satisfy the square-root bracketing for the same `n`.
pub proof fn lemma_sqrt_floor_unique(n: int, r: int)
    requires
        n >= 0,
        r >= 0,
        r * r <= n,
        n < (r + 1) * (r + 1),
    ensures
        r == sqrt_floor(n),
{
    lemma_sqrt_floor(n);
    let s = sqrt_floor(n);
    assert(r < s ==> (r + 1) * (r + 1) <= s * s) by (nonlinear_arith)
        requires
            r >= 0,
            s >= 0,
    ;
    assert(s < r ==> (s + 1) * (s + 1) <= r * r) by (nonlinear_arith)
        requires
            r >= 0,
            s >= 0,
    ;
}

/// The product of two `i64`-range integers stays well inside the `i128` range.
pub proof fn lemma_mul_i64_range(a: int, b: int)
    by (nonlinear_arith)
    requires
        i64::MIN <= a <= i64::MAX,
        i64::MIN <= b <= i64::MAX,
    ensures
        -0x40000000000000000000000000000000 <= a * b
            <= 0x40000000000000000000000000000000,
{
}

/// Truncating division on `i128`, by way of `u128` magnitudes.
pub(crate) fn tdiv128(a: i128, b: i128) -> (r: i128)
    requires
        b != 0,
        a != i128::MIN,
        b != i128::MIN,
    ensures
        r as int == tdiv(a as int, b as int),
{
    let ma: u128 = if a >= 0 {
        a as u128
    } else {
        (-a) as u128
    };
    let mb: u128 = if b >= 0 {
        b as u128
    } else {
        (-b) as u128
    };
    assert(ma as int == abs(a as int));
    assert(mb as int == abs(b as int));
    let q: u128 = ma / mb;
    assert(q <= ma);
    if (a < 0) == (b < 0) {
        q as i128
    } else {
        -(q as i128)
    }
}

impl Fx {
    /// The scalar worth `raw / SCALE`.
    pub fn from_raw(raw: i64) -> (r: Fx)
        ensures
            r@ == raw as int,
    {
        Fx { raw }
    }

    /// The scalar worth exactly the integer `n`.
    pub fn from_int(n: i64) -> (r: Fx)
        requires
            fits(n * (SCALE as int)),
        ensures
            r@ == n * (SCALE as int),
    {
        let p: i128 = (n as i128) * (SCALE as i128);
        proof {
            lemma_mul_i64_range(n as int, SCALE as int);
        }
        Fx { raw: p as i64 }
    }

    /// The scalar worth `n` millionths.
    pub fn from_millionths(n: i64) -> (r: Fx)
        requires
            fits(n * (MICRO as int)),
        ensures
            r@ == n * (MICRO as int),
    {
        let p: i128 = (n as i128) * (MICRO as i128);
        proof {
            lemma_mul_i64_range(n as int, MICRO as int);
        }
        Fx { raw: p as i64 }
    }

    /// The scalar zero.
    pub fn zero() -> (r: Fx)
        ensures
            r@ == 0,
    {
        Fx { raw: 0 }
    }

    /// Exact sum.
    pub fn add(self, rhs: Fx) -> (r: Fx)
        requires
            fits(self@ + rhs@),
        ensures
            r@ == self@ + rhs@,
    {
        let s: i128 = (self.raw as i128) + (rhs.raw as i128);
        Fx { raw: s as i64 }
    }

    /// Exact difference.
    pub fn sub(self, rhs: Fx) -> (r: Fx)
        requires
            fits(self@ - rhs@),
        ensures
            r@ == self@ - rhs@,
    {
        let s: i128 = (self.raw as i128) - (rhs.raw as i128);
        Fx { raw: s as i64 }
    }

    /// Exact negation.
    pub fn neg(self) -> (r: Fx)
        requires
            fits(-self@),
        ensures
            r@ == -self@,
    {
        Fx { raw: -self.raw }
    }

    /// Product, rounded toward zero onto the grid.
    pub fn mul(self, rhs: Fx) -> (r: Fx)
        requires
            fits(fmul_v(self@, rhs@)),
        ensures
            r@ == fmul_v(self@, rhs@),
    {
        proof {
            lemma_mul_i64_range(self.raw as int, rhs.raw as int);
        }
        let p: i128 = (self.raw as i128) * (rhs.raw as i128);
        let q: i128 = tdiv128(p, SCALE as i128);
        Fx { raw: q as i64 }
    }

    /// Quotient, rounded toward zero onto the grid. Division by zero is
    /// excluded by precondition.
    pub fn div(self, rhs: Fx) -> (r: Fx)
        requires
            rhs@ != 0,
            fits(fdiv_v(self@, rhs@)),
        ensures
            r@ == fdiv_v(self@, rhs@),
    {
        proof {
            lemma_mul_i64_range(self.raw as int, SCALE as int);
        }
        let p: i128 = (self.raw as i128) * (SCALE as i128);
        let q: i128 = tdiv128(p, rhs.raw as i128);
        Fx { raw: q as i64 }
    }

    /// The square root, rounded down onto the grid.
    pub fn sqrt(self) -> (r: Fx)
        requires
            self@ >= 0,
        ensures
            r@ == sqrt_floor(self@ * (SCALE as int)),
            r@ >= 0,
    {
        let n: u128 = (self.raw as u128) * (SCALE as u128);
        let s: u128 = isqrt_u128(n);
        proof {
            lemma_sqrt_floor_unique(n as int, s as int);
            assert(s < 0x8000000000000000) by (nonlinear_arith)
                requires
                    (s as int) * (s as int) <= n as int,
                    n as int <= (i64::MAX as int) * (SCALE as int),
                    s >= 0,
            ;
        }
        Fx { raw: s as i64 }
    }
}

/// The integer square root of a `u128`, by bisection.
fn isqrt_u128(n: u128) -> (r: u128)
    ensures
        (r as int) * (r as int) <= n as int,
        (n as int) < ((r as int) + 1) * ((r as int) + 1),
{
    let mut lo: u128 = 0;
    let mut hi: u128 = 0x10000000000000000;
    proof {
        assert((n as int) < (hi as int) * (hi as int)) by (nonlinear_arith)
            requires
                n as int <= 0xffffffffffffffffffffffffffffffff,
                hi as int == 0x10000000000000000,
        ;
    }
    while lo + 1 < hi
        invariant
            lo < hi <= 0x10000000000000000,
            (lo as int) * (lo as int) <= n as int,
            (n as int) < (hi as int) * (hi as int),
        decreases hi - lo,
    {
        let mid: u128 = lo + (hi - lo) / 2;
        proof {
            assert((mid as int) * (mid as int) < 0xffffffffffffffffffffffffffffffff)
                by (nonlinear_arith)
                requires
                    0 <= mid as int <= 0xffffffffffffffff,
            ;
        }
        if mid * mid <= n {
            lo = mid;
        } else {
            hi = mid;
        }
    }
    proof {
        assert((hi as int) * (hi as int) <= ((lo as int) + 1) * ((lo as int) + 1))
            by (nonlinear_arith)
            requires
                0 <= hi as int <= (lo as int) + 1,
        ;
    }
    lo
}

} // verus!
