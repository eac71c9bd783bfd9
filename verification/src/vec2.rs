//! 2D vector algebra over fixed-point scalars.
//!
//! A [`Vec2`] is an ordered pair of [`Fx`] components. All operations are
//! componentwise value transformations; none mutates its operands. The
//! partial order is strict dominance: two vectors compare only when both
//! components differ in the same direction, so equal vectors, and vectors
//! whose components disagree, are incomparable.

use vstd::prelude::*;

verus! {

use crate::fx::{fdiv_v, fits, fmul_v, lemma_sqrt_floor, lemma_tdiv_nonneg, sqrt_floor, tdiv, Fx,
    SCALE};

/// A pair of fixed-point components.
#[derive(Clone, Copy, PartialEq, Eq, Structural, Debug)]
pub struct Vec2 {
    pub x: Fx,
    pub y: Fx,
}

/// The mathematical value of a [`Vec2`]: its raw counts as unbounded integers.
pub struct Vec2View {
    pub x: int,
    pub y: int,
}

impl View for Vec2 {
    type V = Vec2View;

    open spec fn view(&self) -> Vec2View {
        Vec2View { x: self.x@, y: self.y@ }
    }
}

/// How one vector dominates another under the strict partial order.
#[derive(Clone, Copy, PartialEq, Eq, Structural, Debug)]
pub enum Dominance {
    Less,
    Greater,
}

/// The zero vector.
pub open spec fn v_zero() -> Vec2View {
    Vec2View { x: 0, y: 0 }
}

/// Componentwise sum.
pub open spec fn v_add(a: Vec2View, b: Vec2View) -> Vec2View {
    Vec2View { x: a.x + b.x, y: a.y + b.y }
}

/// Componentwise difference.
pub open spec fn v_sub(a: Vec2View, b: Vec2View) -> Vec2View {
    Vec2View { x: a.x - b.x, y: a.y - b.y }
}

/// Componentwise negation.
pub open spec fn v_neg(a: Vec2View) -> Vec2View {
    Vec2View { x: -a.x, y: -a.y }
}

/// Componentwise (Hadamard) product, each component rounded onto the grid.
pub open spec fn v_mul(a: Vec2View, b: Vec2View) -> Vec2View {
    Vec2View { x: fmul_v(a.x, b.x), y: fmul_v(a.y, b.y) }
}

/// Product with a scalar, each component rounded onto the grid.
pub open spec fn v_scale(a: Vec2View, s: int) -> Vec2View {
    Vec2View { x: fmul_v(a.x, s), y: fmul_v(a.y, s) }
}

/// Quotient by a scalar, each component rounded onto the grid.
pub open spec fn v_div(a: Vec2View, s: int) -> Vec2View {
    Vec2View { x: fdiv_v(a.x, s), y: fdiv_v(a.y, s) }
}

/// The squared length, rounded onto the grid (exact squares live at raw
/// resolution, so the sum of squares is divided once by `SCALE`).
pub open spec fn len2_v(a: Vec2View) -> int {
    tdiv(a.x * a.x + a.y * a.y, SCALE as int)
}

/// The strict dominance order: `Greater` iff both components are greater,
/// `Less` iff both are less, incomparable (`None`) otherwise.
pub open spec fn partial_order_v(a: Vec2View, b: Vec2View) -> Option<Dominance> {
    if a.x > b.x && a.y > b.y {
        Some(Dominance::Greater)
    } else if a.x < b.x && a.y < b.y {
        Some(Dominance::Less)
    } else {
        None
    }
}

/// Whether the sum of two vectors stays on the grid.
pub open spec fn add_fits(a: Vec2View, b: Vec2View) -> bool {
    fits(a.x + b.x) && fits(a.y + b.y)
}

/// Whether the difference of two vectors stays on the grid.
pub open spec fn sub_fits(a: Vec2View, b: Vec2View) -> bool {
    fits(a.x - b.x) && fits(a.y - b.y)
}

/// Whether the negation of a vector stays on the grid.
pub open spec fn neg_fits(a: Vec2View) -> bool {
    fits(-a.x) && fits(-a.y)
}

/// Whether the componentwise product of two vectors stays on the grid.
pub open spec fn mul_fits(a: Vec2View, b: Vec2View) -> bool {
    fits(fmul_v(a.x, b.x)) && fits(fmul_v(a.y, b.y))
}

/// Whether scaling a vector stays on the grid.
pub open spec fn scale_fits(a: Vec2View, s: int) -> bool {
    fits(fmul_v(a.x, s)) && fits(fmul_v(a.y, s))
}

/// Whether dividing a vector by a scalar stays on the grid.
pub open spec fn div_fits(a: Vec2View, s: int) -> bool {
    fits(fdiv_v(a.x, s)) && fits(fdiv_v(a.y, s))
}

impl Vec2 {
    /// The vector with the given components.
    pub fn new(x: Fx, y: Fx) -> (r: Vec2)
        ensures
            r@ == (Vec2View { x: x@, y: y@ }),
    {
        Vec2 { x, y }
    }

    /// The zero vector.
    pub fn zero() -> (r: Vec2)
        ensures
            r@ == v_zero(),
    {
        Vec2 { x: Fx::zero(), y: Fx::zero() }
    }

    /// Componentwise sum.
    pub fn add(self, rhs: Vec2) -> (r: Vec2)
        requires
            add_fits(self@, rhs@),
        ensures
            r@ == v_add(self@, rhs@),
    {
        Vec2 { x: self.x.add(rhs.x), y: self.y.add(rhs.y) }
    }

    /// Componentwise difference.
    pub fn sub(self, rhs: Vec2) -> (r: Vec2)
        requires
            sub_fits(self@, rhs@),
        ensures
            r@ == v_sub(self@, rhs@),
    {
        Vec2 { x: self.x.sub(rhs.x), y: self.y.sub(rhs.y) }
    }

    /// Componentwise negation.
    pub fn neg(self) -> (r: Vec2)
        requires
            neg_fits(self@),
        ensures
            r@ == v_neg(self@),
    {
        Vec2 { x: self.x.neg(), y: self.y.neg() }
    }

    /// Componentwise (Hadamard) product. This is not the scalar product:
    /// see [`Vec2::scale`].
    pub fn mul(self, rhs: Vec2) -> (r: Vec2)
        requires
            mul_fits(self@, rhs@),
        ensures
            r@ == v_mul(self@, rhs@),
    {
        Vec2 { x: self.x.mul(rhs.x), y: self.y.mul(rhs.y) }
    }

    /// Product with a scalar. This is not the componentwise product:
    /// see [`Vec2::mul`].
    pub fn scale(self, s: Fx) -> (r: Vec2)
        requires
            scale_fits(self@, s@),
        ensures
            r@ == v_scale(self@, s@),
    {
        Vec2 { x: self.x.mul(s), y: self.y.mul(s) }
    }

    /// Quotient by a scalar; division by zero is excluded by precondition.
    pub fn div(self, s: Fx) -> (r: Vec2)
        requires
            s@ != 0,
            div_fits(self@, s@),
        ensures
            r@ == v_div(self@, s@),
    {
        Vec2 { x: self.x.div(s), y: self.y.div(s) }
    }

    /// The squared length `x*x + y*y`, rounded onto the grid; never negative.
    pub fn length2(&self) -> (r: Fx)
        requires
            fits(len2_v(self@)),
        ensures
            r@ == len2_v(self@),
            r@ >= 0,
    {
        let mx: u128 = mag_u128(self.x.raw);
        let my: u128 = mag_u128(self.y.raw);
        proof {
            assert(mx as int * (mx as int) == self@.x * self@.x) by (nonlinear_arith)
                requires
                    mx as int == vstd::math::abs(self@.x),
            ;
            assert(my as int * (my as int) == self@.y * self@.y) by (nonlinear_arith)
                requires
                    my as int == vstd::math::abs(self@.y),
            ;
            assert(mx as int * (mx as int) + my as int * (my as int)
                <= 0xffffffffffffffffffffffffffffffff) by (nonlinear_arith)
                requires
                    0 <= mx as int <= 0x8000000000000000,
                    0 <= my as int <= 0x8000000000000000,
            ;
        }
        let s: u128 = mx * mx + my * my;
        let q: u128 = s / (SCALE as u128);
        proof {
            lemma_tdiv_nonneg(s as int, SCALE as int);
        }
        Fx { raw: q as i64 }
    }

    /// The length: the square root of [`Vec2::length2`], rounded down onto
    /// the grid.
    pub fn length(&self) -> (r: Fx)
        requires
            fits(len2_v(self@)),
        ensures
            r@ == sqrt_floor(len2_v(self@) * (SCALE as int)),
            r@ >= 0,
    {
        let l2 = self.length2();
        l2.sqrt()
    }

    /// Exact componentwise equality, with no tolerance.
    pub fn equals(&self, rhs: &Vec2) -> (r: bool)
        ensures
            r == (self@ == rhs@),
    {
        self.x.raw == rhs.x.raw && self.y.raw == rhs.y.raw
    }

    /// The strict dominance order; equal vectors are incomparable.
    pub fn partial_order(&self, rhs: &Vec2) -> (r: Option<Dominance>)
        ensures
            r == partial_order_v(self@, rhs@),
    {
        if self.x.raw > rhs.x.raw && self.y.raw > rhs.y.raw {
            Some(Dominance::Greater)
        } else if self.x.raw < rhs.x.raw && self.y.raw < rhs.y.raw {
            Some(Dominance::Less)
        } else {
            None
        }
    }
}

/// The magnitude of an `i64`, widened so that `i64::MIN` needs no special
/// case.
pub(crate) fn mag_u128(a: i64) -> (r: u128)
    ensures
        r as int == vstd::math::abs(a as int),
{
    let w: i128 = a as i128;
    if w >= 0 {
        w as u128
    } else {
        (-w) as u128
    }
}

/// Adding the difference of zero and `b`, subtracting `b`, and adding the
/// negation of `b` all agree, and negation is an involution: the value-level
/// sum, difference and negation are mutually consistent.
pub proof fn lemma_add_sub_neg_consistent(a: Vec2View, b: Vec2View)
    ensures
        v_add(a, v_sub(v_zero(), b)) == v_sub(a, b),
        v_add(a, v_neg(b)) == v_sub(a, b),
        v_neg(v_neg(a)) == a,
{
}

/// The squared length of any vector is nonnegative.
pub proof fn lemma_length2_nonneg(a: Vec2View)
    ensures
        len2_v(a) >= 0,
{
    assert(a.x * a.x + a.y * a.y >= 0) by (nonlinear_arith);
    lemma_tdiv_nonneg(a.x * a.x + a.y * a.y, SCALE as int);
}

/// The length is the integer square root of the squared length, at raw
/// resolution: it is the greatest grid value whose square does not exceed
/// `length2`.
pub proof fn lemma_length_is_sqrt_of_length2(a: Vec2View)
    ensures
        sqrt_floor(len2_v(a) * (SCALE as int)) * sqrt_floor(len2_v(a) * (SCALE as int))
            <= len2_v(a) * (SCALE as int),
        len2_v(a) * (SCALE as int)
            < (sqrt_floor(len2_v(a) * (SCALE as int)) + 1)
                * (sqrt_floor(len2_v(a) * (SCALE as int)) + 1),
{
    lemma_length2_nonneg(a);
    lemma_sqrt_floor(len2_v(a) * (SCALE as int));
}

/// No vector dominates itself: the partial order is irreflexive, so
/// `partial_order(a, a)` is incomparable rather than equal.
pub proof fn lemma_partial_order_irreflexive(a: Vec2View)
    ensures
        partial_order_v(a, a) is None,
{
}

} // verus!
