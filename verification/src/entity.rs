//! Point-mass dynamics.
//!
//! An [`Entity`] is a point mass with a position, a velocity, a constant
//! per-step acceleration, an accumulated force, a mass and a radius. One
//! simulation step integrates its motion semi-implicitly (position first,
//! from the pre-step velocity), clears the per-step accumulators, reflects
//! it off the walls of the unit square, and resolves pairwise elastic
//! collisions and pairwise gravity against the rest of the population.
//!
//! Degenerate closeness policy: when the grid-rounded squared distance
//! between two gravitating entities is zero — they coincide, or sit closer
//! than the grid resolves — the pair is skipped and no force is applied.

use vstd::prelude::*;

verus! {

use vstd::math::abs;

use crate::fx::{fits, fmul_v, lemma_sqrt_floor, sqrt_floor, tdiv, Fx, SCALE};
use crate::vec2::{add_fits, div_fits, len2_v, lemma_length2_nonneg, scale_fits, sub_fits, v_add,
    v_div, v_neg, v_scale, v_sub, v_zero, Vec2, Vec2View};

/// Numerator of the gravitational constant: `G == G_NUM / (G_DEN * SCALE)`,
/// that is 6.67384e-11.
pub const G_NUM: i64 = 667_384;

/// Extra denominator of the gravitational constant beyond `SCALE`.
pub const G_DEN: i64 = 10_000;

/// A point mass.
#[derive(Clone, Copy, PartialEq, Eq, Structural, Debug)]
pub struct Entity {
    pub position: Vec2,
    pub velocity: Vec2,
    pub acceleration: Vec2,
    pub force: Vec2,
    pub mass: Fx,
    pub radius: Fx,
}

/// The mathematical value of an [`Entity`]: its fields as unbounded integers.
pub struct EntityView {
    pub position: Vec2View,
    pub velocity: Vec2View,
    pub acceleration: Vec2View,
    pub force: Vec2View,
    pub mass: int,
    pub radius: int,
}

impl View for Entity {
    type V = EntityView;

    open spec fn view(&self) -> EntityView {
        EntityView {
            position: self.position@,
            velocity: self.velocity@,
            acceleration: self.acceleration@,
            force: self.force@,
            mass: self.mass@,
            radius: self.radius@,
        }
    }
}

/// The momentum `velocity * mass`.
pub open spec fn momentum_v(e: EntityView) -> Vec2View {
    v_scale(e.velocity, e.mass)
}

/// Position after integrating over `dt`: the pre-step velocity is used.
pub open spec fn integrate_pos_v(e: EntityView, dt: int) -> EntityView {
    EntityView { position: v_add(e.position, v_scale(e.velocity, dt)), ..e }
}

/// Whether integrating the position over `dt` stays on the grid.
pub open spec fn integrate_pos_fits(e: EntityView, dt: int) -> bool {
    scale_fits(e.velocity, dt) && add_fits(e.position, v_scale(e.velocity, dt))
}

/// Velocity after integrating over `dt`: the acceleration plus the mass-
/// normalized force, scaled by `dt`.
pub open spec fn integrate_vel_v(e: EntityView, dt: int) -> EntityView {
    EntityView {
        velocity: v_add(
            e.velocity,
            v_scale(v_add(e.acceleration, v_div(e.force, e.mass)), dt),
        ),
        ..e
    }
}

/// Whether integrating the velocity over `dt` stays on the grid. A zero mass
/// is a construction-time invariant violation and is excluded here.
pub open spec fn integrate_vel_fits(e: EntityView, dt: int) -> bool {
    &&& e.mass != 0
    &&& div_fits(e.force, e.mass)
    &&& add_fits(e.acceleration, v_div(e.force, e.mass))
    &&& scale_fits(v_add(e.acceleration, v_div(e.force, e.mass)), dt)
    &&& add_fits(e.velocity, v_scale(v_add(e.acceleration, v_div(e.force, e.mass)), dt))
}

/// One whole integration step: position from the pre-step velocity, then
/// velocity, then both per-step accumulators reset to zero.
pub open spec fn integrate_v(e: EntityView, dt: int) -> EntityView {
    EntityView { acceleration: v_zero(), force: v_zero(), ..integrate_vel_v(
        integrate_pos_v(e, dt),
        dt,
    ) }
}

/// Whether a whole integration step stays on the grid.
pub open spec fn integrate_fits(e: EntityView, dt: int) -> bool {
    integrate_pos_fits(e, dt) && integrate_vel_fits(integrate_pos_v(e, dt), dt)
}

/// One axis of wall handling: reflect the velocity and clamp the position
/// when the bounding interval crosses 0 or `SCALE` (the unit domain).
pub open spec fn wall_axis_v(p: int, v: int, radius: int) -> (int, int) {
    if p - radius < 0 {
        (radius, -v)
    } else if p + radius > SCALE as int {
        ((SCALE as int) - radius, -v)
    } else {
        (p, v)
    }
}

/// Wall handling on both axes independently; a corner reflects both.
pub open spec fn wall_v(e: EntityView) -> EntityView {
    let ax = wall_axis_v(e.position.x, e.velocity.x, e.radius);
    let ay = wall_axis_v(e.position.y, e.velocity.y, e.radius);
    EntityView {
        position: Vec2View { x: ax.0, y: ay.0 },
        velocity: Vec2View { x: ax.1, y: ay.1 },
        ..e
    }
}

/// Whether wall handling stays on the grid (only a reflected axis writes).
pub open spec fn wall_fits(e: EntityView) -> bool {
    &&& (e.position.x - e.radius < 0 ==> fits(-e.velocity.x) && fits(e.radius))
    &&& (!(e.position.x - e.radius < 0) && e.position.x + e.radius > SCALE as int ==> fits(
        -e.velocity.x,
    ) && fits((SCALE as int) - e.radius))
    &&& (e.position.y - e.radius < 0 ==> fits(-e.velocity.y) && fits(e.radius))
    &&& (!(e.position.y - e.radius < 0) && e.position.y + e.radius > SCALE as int ==> fits(
        -e.velocity.y,
    ) && fits((SCALE as int) - e.radius))
}

/// Whether two entities overlap: the exact squared center distance is
/// strictly below the exact squared radius sum, so exact tangency is not a
/// collision. Both squares are exact raw-resolution products, not rounded.
pub open spec fn collides_v(a: EntityView, b: EntityView) -> bool {
    let dx = a.position.x - b.position.x;
    let dy = a.position.y - b.position.y;
    let rs = a.radius + b.radius;
    dx * dx + dy * dy < rs * rs
}

/// Whether the collision test's differences and radius sum stay on the grid.
pub open spec fn collides_fits(a: EntityView, b: EntityView) -> bool {
    sub_fits(a.position, b.position) && fits(a.radius + b.radius)
}

/// The state of `a` after an elastic collision with `b`: the two-body
/// elastic-collision formula applied componentwise to the whole velocity
/// vector, `(v_a * (m_a - m_b) + v_b * 2 * m_b) / (m_a + m_b)`.
pub open spec fn post_collision_v(a: EntityView, b: EntityView) -> EntityView {
    EntityView { velocity: v_div(collision_num_v(a, b), a.mass + b.mass), ..a }
}

/// The numerator of the elastic-collision velocity update.
pub open spec fn collision_num_v(a: EntityView, b: EntityView) -> Vec2View {
    v_add(
        v_scale(a.velocity, a.mass - b.mass),
        v_scale(v_scale(b.velocity, 2 * (SCALE as int)), b.mass),
    )
}

/// Whether the elastic-collision update for `a` against `b` stays on the
/// grid. Masses are strictly positive by construction, which keeps the
/// denominator nonzero.
pub open spec fn post_collision_fits(a: EntityView, b: EntityView) -> bool {
    &&& a.mass > 0
    &&& b.mass > 0
    &&& fits(a.mass - b.mass)
    &&& fits(a.mass + b.mass)
    &&& scale_fits(a.velocity, a.mass - b.mass)
    &&& scale_fits(b.velocity, 2 * (SCALE as int))
    &&& scale_fits(v_scale(b.velocity, 2 * (SCALE as int)), b.mass)
    &&& add_fits(
        v_scale(a.velocity, a.mass - b.mass),
        v_scale(v_scale(b.velocity, 2 * (SCALE as int)), b.mass),
    )
    &&& div_fits(collision_num_v(a, b), a.mass + b.mass)
}

/// Both entities after collision handling: both updates read the pre-
/// collision pair, and nothing changes when they do not overlap.
pub open spec fn collide_pair_v(a: EntityView, b: EntityView) -> (EntityView, EntityView) {
    if collides_v(a, b) {
        (post_collision_v(a, b), post_collision_v(b, a))
    } else {
        (a, b)
    }
}

/// Whether collision handling of the pair stays on the grid.
pub open spec fn collide_pair_fits(a: EntityView, b: EntityView) -> bool {
    collides_fits(a, b) && (collides_v(a, b) ==> post_collision_fits(a, b)
        && post_collision_fits(b, a))
}

/// The grid-rounded squared center distance used by gravity.
pub open spec fn gravity_r2_v(a: EntityView, b: EntityView) -> int {
    len2_v(v_sub(a.position, b.position))
}

/// The unit direction from `b` toward `a`, at grid resolution: the center
/// difference divided by the rounded square root of the squared distance.
pub open spec fn gravity_dir_v(a: EntityView, b: EntityView) -> Vec2View {
    v_div(v_sub(a.position, b.position), sqrt_floor(gravity_r2_v(a, b) * (SCALE as int)))
}

/// The magnitude of the attraction, `G * m_a * m_b / r2`, with the exact
/// rational `G == G_NUM / (G_DEN * SCALE)` folded into a single rounded
/// division.
pub open spec fn gravity_mag_v(a: EntityView, b: EntityView) -> int {
    tdiv((G_NUM as int) * fmul_v(a.mass, b.mass), (G_DEN as int) * gravity_r2_v(a, b))
}

/// Both entities after mutual gravity: equal and opposite forces accumulate
/// on the pair, and a pair at (or below) grid-zero distance is skipped.
pub open spec fn gravity_pair_v(a: EntityView, b: EntityView) -> (EntityView, EntityView) {
    if gravity_r2_v(a, b) == 0 {
        (a, b)
    } else {
        let dir = gravity_dir_v(a, b);
        let f = gravity_mag_v(a, b);
        (
            EntityView { force: v_add(a.force, v_scale(dir, -f)), ..a },
            EntityView { force: v_add(b.force, v_scale(dir, f)), ..b },
        )
    }
}

/// Whether mutual gravity on the pair stays on the grid.
pub open spec fn gravity_fits(a: EntityView, b: EntityView) -> bool {
    &&& sub_fits(a.position, b.position)
    &&& fits(gravity_r2_v(a, b))
    &&& (gravity_r2_v(a, b) != 0 ==> {
        let dir = gravity_dir_v(a, b);
        let f = gravity_mag_v(a, b);
        &&& div_fits(v_sub(a.position, b.position), sqrt_floor(gravity_r2_v(a, b) * (SCALE as int)))
        &&& fits(fmul_v(a.mass, b.mass))
        &&& fits(f)
        &&& fits(-f)
        &&& scale_fits(dir, f)
        &&& scale_fits(dir, -f)
        &&& add_fits(a.force, v_scale(dir, -f))
        &&& add_fits(b.force, v_scale(dir, f))
    })
}

/// The mass that a planet's radius determines: `(radius * 1000)^2`, so that
/// radii in the thousandths give masses of order one to one hundred.
pub open spec fn mass_of_radius_v(radius: int) -> int {
    fmul_v(fmul_v(radius, 1000 * (SCALE as int)), fmul_v(radius, 1000 * (SCALE as int)))
}

impl Entity {
    /// A planet at rest: the given position and radius, zero velocity,
    /// acceleration and force, and the mass its radius determines,
    /// `(radius * 1000)^2`.
    pub fn from_radius(position: Vec2, radius: Fx) -> (r: Entity)
        requires
            fits(fmul_v(radius@, 1000 * (SCALE as int))),
            fits(mass_of_radius_v(radius@)),
        ensures
            r@.position == position@,
            r@.velocity == v_zero(),
            r@.acceleration == v_zero(),
            r@.force == v_zero(),
            r@.mass == mass_of_radius_v(radius@),
            r@.radius == radius@,
    {
        let rm = radius.mul(Fx::from_int(1000));
        Entity {
            position,
            velocity: Vec2::zero(),
            acceleration: Vec2::zero(),
            force: Vec2::zero(),
            mass: rm.mul(rm),
            radius,
        }
    }

    /// The momentum `velocity * mass`, a read-only diagnostic.
    pub fn get_momentum(&self) -> (r: Vec2)
        requires
            scale_fits(self@.velocity, self@.mass),
        ensures
            r@ == momentum_v(self@),
    {
        self.velocity.scale(self.mass)
    }

    /// Overwrites the acceleration (used to reset the accumulator).
    pub fn set_acceleration(&mut self, acceleration: Vec2)
        ensures
            final(self)@ == (EntityView { acceleration: acceleration@, ..old(self)@ }),
    {
        self.acceleration = acceleration;
    }

    /// Adds a force into the per-step accumulator.
    pub fn apply_force(&mut self, force: Vec2)
        requires
            add_fits(old(self)@.force, force@),
        ensures
            final(self)@ == (EntityView { force: v_add(old(self)@.force, force@), ..old(self)@ }),
    {
        self.force = self.force.add(force);
    }

    /// Overwrites the force accumulator.
    pub fn set_force(&mut self, force: Vec2)
        ensures
            final(self)@ == (EntityView { force: force@, ..old(self)@ }),
    {
        self.force = force;
    }

    /// Moves the position by `velocity * dt`.
    pub fn integrate_position(&mut self, deltatime: Fx)
        requires
            integrate_pos_fits(old(self)@, deltatime@),
        ensures
            final(self)@ == integrate_pos_v(old(self)@, deltatime@),
    {
        self.position = self.position.add(self.velocity.scale(deltatime));
    }

    /// Moves the velocity by `(acceleration + force / mass) * dt`. A zero
    /// mass is a construction-time invariant violation, excluded by
    /// precondition rather than checked here.
    pub fn integrate_velocity(&mut self, deltatime: Fx)
        requires
            integrate_vel_fits(old(self)@, deltatime@),
        ensures
            final(self)@ == integrate_vel_v(old(self)@, deltatime@),
    {
        self.velocity = self.velocity.add(
            self.acceleration.add(self.force.div(self.mass)).scale(deltatime),
        );
    }

    /// One whole integration step: position (from the pre-step velocity),
    /// then velocity, then both accumulators reset to zero.
    pub fn integrate(&mut self, deltatime: Fx)
        requires
            integrate_fits(old(self)@, deltatime@),
        ensures
            final(self)@ == integrate_v(old(self)@, deltatime@),
    {
        self.integrate_position(deltatime);
        self.integrate_velocity(deltatime);
        self.set_acceleration(Vec2::zero());
        self.set_force(Vec2::zero());
    }

    /// Reflects the entity off the walls of the unit square, each axis
    /// independently: the touching axis's velocity flips sign and its
    /// position is clamped so the bounding circle rests on the wall.
    pub fn handle_wall_collisions(&mut self)
        requires
            wall_fits(old(self)@),
        ensures
            final(self)@ == wall_v(old(self)@),
    {
        let px: i128 = self.position.x.raw as i128;
        let py: i128 = self.position.y.raw as i128;
        let r: i128 = self.radius.raw as i128;
        if px - r < 0 {
            self.velocity.x = self.velocity.x.neg();
            self.position.x = self.radius;
        } else if px + r > SCALE as i128 {
            self.velocity.x = self.velocity.x.neg();
            self.position.x = Fx::from_raw(((SCALE as i128) - r) as i64);
        }
        if py - r < 0 {
            self.velocity.y = self.velocity.y.neg();
            self.position.y = self.radius;
        } else if py + r > SCALE as i128 {
            self.velocity.y = self.velocity.y.neg();
            self.position.y = Fx::from_raw(((SCALE as i128) - r) as i64);
        }
    }

    /// Whether this entity overlaps the other: strictly closer than the sum
    /// of the radii (exact tangency does not collide).
    pub fn collides(&self, other: &Entity) -> (r: bool)
        requires
            collides_fits(self@, other@),
        ensures
            r == collides_v(self@, other@),
    {
        let dx = self.position.x.sub(other.position.x);
        let dy = self.position.y.sub(other.position.y);
        let rs = self.radius.add(other.radius);
        let mdx = crate::vec2::mag_u128(dx.raw);
        let mdy = crate::vec2::mag_u128(dy.raw);
        let mrs = crate::vec2::mag_u128(rs.raw);
        proof {
            lemma_abs_square(dx.raw as int, mdx as int);
            lemma_abs_square(dy.raw as int, mdy as int);
            lemma_abs_square(rs.raw as int, mrs as int);
            lemma_square_bound(mdx as int);
            lemma_square_bound(mdy as int);
            lemma_square_bound(mrs as int);
        }
        mdx * mdx + mdy * mdy < mrs * mrs
    }

    /// This entity with its velocity replaced by the elastic-collision
    /// update against `other`; everything else is kept.
    pub fn get_state_after_collision(self, other: Entity) -> (r: Entity)
        requires
            post_collision_fits(self@, other@),
        ensures
            r@ == post_collision_v(self@, other@),
    {
        let two = Fx::from_raw(2 * SCALE);
        let numerator = self.velocity.scale(self.mass.sub(other.mass)).add(
            other.velocity.scale(two).scale(other.mass),
        );
        let denominator = self.mass.add(other.mass);
        let mut r = self;
        r.velocity = numerator.div(denominator);
        r
    }

    /// Resolves a collision between the pair, if any: both new velocities
    /// are computed from the pre-collision pair before either is written.
    pub fn handle_collision(&mut self, other: &mut Entity)
        requires
            collide_pair_fits(old(self)@, old(other)@),
        ensures
            final(self)@ == collide_pair_v(old(self)@, old(other)@).0,
            final(other)@ == collide_pair_v(old(self)@, old(other)@).1,
    {
        if self.collides(other) {
            let new_self = (*self).get_state_after_collision(*other);
            let new_other = (*other).get_state_after_collision(*self);
            *self = new_self;
            *other = new_other;
        }
    }

    /// Applies mutual gravity with the other entity: equal and opposite
    /// forces `G * m_a * m_b / r2` along the center line accumulate on the
    /// pair. A pair at (or below) grid-zero distance is skipped.
    pub fn apply_gravity(&mut self, other: &mut Entity)
        requires
            gravity_fits(old(self)@, old(other)@),
        ensures
            final(self)@ == gravity_pair_v(old(self)@, old(other)@).0,
            final(other)@ == gravity_pair_v(old(self)@, old(other)@).1,
    {
        let delta = self.position.sub(other.position);
        let r2 = delta.length2();
        if r2.raw == 0 {
            return ;
        }
        let root = r2.sqrt();
        proof {
            lemma_length2_nonneg(delta@);
            lemma_sqrt_floor(r2@ * (SCALE as int));
            if root@ == 0 {
                assert((root@ + 1) * (root@ + 1) == 1) by (nonlinear_arith)
                    requires
                        root@ == 0,
                ;
                assert(r2@ >= 1);
                assert(r2@ * (SCALE as int) >= SCALE as int) by (nonlinear_arith)
                    requires
                        r2@ >= 1,
                ;
                assert(false);
            }
        }
        let dir = delta.div(root);
        let f = gravity_magnitude(self.mass, other.mass, r2);
        let fv_self = dir.scale(f.neg());
        let fv_other = dir.scale(f);
        self.apply_force(fv_self);
        other.apply_force(fv_other);
    }
}

/// The attraction magnitude `G * m1 * m2 / r2`, with the exact rational
/// `G == G_NUM / (G_DEN * SCALE)` folded into one rounded division.
fn gravity_magnitude(m1: Fx, m2: Fx, r2: Fx) -> (r: Fx)
    requires
        r2@ != 0,
        fits(fmul_v(m1@, m2@)),
        fits(tdiv((G_NUM as int) * fmul_v(m1@, m2@), (G_DEN as int) * r2@)),
    ensures
        r@ == tdiv((G_NUM as int) * fmul_v(m1@, m2@), (G_DEN as int) * r2@),
{
    let mm = m1.mul(m2);
    proof {
        crate::fx::lemma_mul_i64_range(G_NUM as int, mm@);
        crate::fx::lemma_mul_i64_range(G_DEN as int, r2@);
    }
    let num: i128 = (G_NUM as i128) * (mm.raw as i128);
    let den: i128 = (G_DEN as i128) * (r2.raw as i128);
    let q = crate::fx::tdiv128(num, den);
    Fx { raw: q as i64 }
}

/// The population as mathematical values.
pub open spec fn entity_views(s: Seq<Entity>) -> Seq<EntityView> {
    s.map_values(|e: Entity| e@)
}

/// One entity carried through collision handling against a population, in
/// order: the pair result threads through, and each other entity keeps its
/// own update.
pub open spec fn collisions_fold(a: EntityView, others: Seq<EntityView>) -> (
    EntityView,
    Seq<EntityView>,
)
    decreases others.len(),
{
    if others.len() == 0 {
        (a, others)
    } else {
        let p = collide_pair_v(a, others[0]);
        let rest = collisions_fold(p.0, others.drop_first());
        (rest.0, seq![p.1] + rest.1)
    }
}

/// Whether every collision along the fold stays on the grid.
pub open spec fn collisions_fold_fits(a: EntityView, others: Seq<EntityView>) -> bool
    decreases others.len(),
{
    others.len() == 0 || {
        &&& collide_pair_fits(a, others[0])
        &&& collisions_fold_fits(collide_pair_v(a, others[0]).0, others.drop_first())
    }
}

/// Collision handling leaves the population size unchanged.
pub proof fn lemma_collisions_fold_len(a: EntityView, others: Seq<EntityView>)
    ensures
        collisions_fold(a, others).1.len() == others.len(),
    decreases others.len(),
{
    if others.len() > 0 {
        lemma_collisions_fold_len(collide_pair_v(a, others[0]).0, others.drop_first());
    }
}

/// One entity carried through mutual gravity against a population, in order.
pub open spec fn gravity_fold(a: EntityView, others: Seq<EntityView>) -> (
    EntityView,
    Seq<EntityView>,
)
    decreases others.len(),
{
    if others.len() == 0 {
        (a, others)
    } else {
        let p = gravity_pair_v(a, others[0]);
        let rest = gravity_fold(p.0, others.drop_first());
        (rest.0, seq![p.1] + rest.1)
    }
}

/// Whether every gravity pair along the fold stays on the grid.
pub open spec fn gravity_fold_fits(a: EntityView, others: Seq<EntityView>) -> bool
    decreases others.len(),
{
    others.len() == 0 || {
        &&& gravity_fits(a, others[0])
        &&& gravity_fold_fits(gravity_pair_v(a, others[0]).0, others.drop_first())
    }
}

/// Gravity handling leaves the population size unchanged.
pub proof fn lemma_gravity_fold_len(a: EntityView, others: Seq<EntityView>)
    ensures
        gravity_fold(a, others).1.len() == others.len(),
    decreases others.len(),
{
    if others.len() > 0 {
        lemma_gravity_fold_len(gravity_pair_v(a, others[0]).0, others.drop_first());
    }
}

impl Entity {
    /// Resolves collisions against every entity of the slice, in order, as
    /// repeated independent pairwise resolutions.
    pub fn handle_collisions(&mut self, others: &mut Vec<Entity>)
        requires
            collisions_fold_fits(old(self)@, entity_views(old(others)@)),
        ensures
            final(self)@ == collisions_fold(old(self)@, entity_views(old(others)@)).0,
            entity_views(final(others)@) == collisions_fold(
                old(self)@,
                entity_views(old(others)@),
            ).1,
            final(others)@.len() == old(others)@.len(),
    {
        let ghost a0 = self@;
        let ghost base = entity_views(others@);
        let ghost fin = collisions_fold(a0, base);
        let n = others.len();
        proof {
            lemma_collisions_fold_len(a0, base);
            assert(base.subrange(0, n as int) =~= base);
            assert(fin.1.subrange(0, n as int) =~= fin.1);
        }
        let mut j: usize = 0;
        while j < n
            invariant
                j <= n,
                others@.len() == n,
                base.len() == n,
                fin == collisions_fold(a0, base),
                fin.1.len() == n,
                entity_views(others@).subrange(0, j as int) == fin.1.subrange(0, j as int),
                entity_views(others@).subrange(j as int, n as int) == base.subrange(
                    j as int,
                    n as int,
                ),
                collisions_fold(self@, base.subrange(j as int, n as int)).0 == fin.0,
                collisions_fold(self@, base.subrange(j as int, n as int)).1 == fin.1.subrange(
                    j as int,
                    n as int,
                ),
                collisions_fold_fits(self@, base.subrange(j as int, n as int)),
            decreases n - j,
        {
            proof {
                assert(entity_views(others@).subrange(j as int, n as int)[0] == entity_views(
                    others@,
                )[j as int]);
                assert(base.subrange(j as int, n as int)[0] == base[j as int]);
            }
            let mut o = others[j];
            let ghost pre = self@;
            let ghost before = others@;
            self.handle_collision(&mut o);
            others.set(j, o);
            proof {
                let sj = base.subrange(j as int, n as int);
                let sj1 = base.subrange(j as int + 1, n as int);
                assert(sj.drop_first() =~= sj1);
                let p = collide_pair_v(pre, base[j as int]);
                let rest = collisions_fold(p.0, sj1);
                assert(collisions_fold(pre, sj).0 == rest.0);
                assert(collisions_fold(pre, sj).1 == seq![p.1] + rest.1);
                assert((seq![p.1] + rest.1)[0] == p.1);
                assert((seq![p.1] + rest.1).drop_first() =~= rest.1);
                assert(fin.1.subrange(j as int, n as int).drop_first() =~= fin.1.subrange(
                    j as int + 1,
                    n as int,
                ));
                assert(rest.1 =~= fin.1.subrange(j as int + 1, n as int));
                assert(fin.1[j as int] == p.1);
                assert(others@ =~= before.update(j as int, o));
                assert(entity_views(others@) =~= entity_views(before).update(j as int, o@));
                assert(entity_views(others@).subrange(0, j as int + 1) =~= fin.1.subrange(
                    0,
                    j as int + 1,
                ));
                assert(entity_views(others@).subrange(j as int + 1, n as int) =~= base.subrange(
                    j as int + 1,
                    n as int,
                ));
            }
            j = j + 1;
        }
        proof {
            assert(base.subrange(n as int, n as int).len() == 0);
            assert(entity_views(others@).subrange(0, n as int) =~= entity_views(others@));
            assert(fin.1.subrange(0, n as int) =~= fin.1);
        }
    }

    /// Applies mutual gravity against every entity of the slice, in order.
    pub fn apply_gravity_multi(&mut self, others: &mut Vec<Entity>)
        requires
            gravity_fold_fits(old(self)@, entity_views(old(others)@)),
        ensures
            final(self)@ == gravity_fold(old(self)@, entity_views(old(others)@)).0,
            entity_views(final(others)@) == gravity_fold(old(self)@, entity_views(old(others)@)).1,
            final(others)@.len() == old(others)@.len(),
    {
        let ghost a0 = self@;
        let ghost base = entity_views(others@);
        let ghost fin = gravity_fold(a0, base);
        let n = others.len();
        proof {
            lemma_gravity_fold_len(a0, base);
            assert(base.subrange(0, n as int) =~= base);
            assert(fin.1.subrange(0, n as int) =~= fin.1);
        }
        let mut j: usize = 0;
        while j < n
            invariant
                j <= n,
                others@.len() == n,
                base.len() == n,
                fin == gravity_fold(a0, base),
                fin.1.len() == n,
                entity_views(others@).subrange(0, j as int) == fin.1.subrange(0, j as int),
                entity_views(others@).subrange(j as int, n as int) == base.subrange(
                    j as int,
                    n as int,
                ),
                gravity_fold(self@, base.subrange(j as int, n as int)).0 == fin.0,
                gravity_fold(self@, base.subrange(j as int, n as int)).1 == fin.1.subrange(
                    j as int,
                    n as int,
                ),
                gravity_fold_fits(self@, base.subrange(j as int, n as int)),
            decreases n - j,
        {
            proof {
                assert(entity_views(others@).subrange(j as int, n as int)[0] == entity_views(
                    others@,
                )[j as int]);
                assert(base.subrange(j as int, n as int)[0] == base[j as int]);
            }
            let mut o = others[j];
            let ghost pre = self@;
            let ghost before = others@;
            self.apply_gravity(&mut o);
            others.set(j, o);
            proof {
                let sj = base.subrange(j as int, n as int);
                let sj1 = base.subrange(j as int + 1, n as int);
                assert(sj.drop_first() =~= sj1);
                let p = gravity_pair_v(pre, base[j as int]);
                let rest = gravity_fold(p.0, sj1);
                assert(gravity_fold(pre, sj).0 == rest.0);
                assert(gravity_fold(pre, sj).1 == seq![p.1] + rest.1);
                assert((seq![p.1] + rest.1)[0] == p.1);
                assert((seq![p.1] + rest.1).drop_first() =~= rest.1);
                assert(fin.1.subrange(j as int, n as int).drop_first() =~= fin.1.subrange(
                    j as int + 1,
                    n as int,
                ));
                assert(rest.1 =~= fin.1.subrange(j as int + 1, n as int));
                assert(fin.1[j as int] == p.1);
                assert(others@ =~= before.update(j as int, o));
                assert(entity_views(others@) =~= entity_views(before).update(j as int, o@));
                assert(entity_views(others@).subrange(0, j as int + 1) =~= fin.1.subrange(
                    0,
                    j as int + 1,
                ));
                assert(entity_views(others@).subrange(j as int + 1, n as int) =~= base.subrange(
                    j as int + 1,
                    n as int,
                ));
            }
            j = j + 1;
        }
        proof {
            assert(base.subrange(n as int, n as int).len() == 0);
            assert(entity_views(others@).subrange(0, n as int) =~= entity_views(others@));
            assert(fin.1.subrange(0, n as int) =~= fin.1);
        }
    }
}

/// Newton's third law at grid resolution: mutual gravity changes the two
/// force accumulators by exactly opposite vectors, whether or not the pair
/// was skipped as degenerate.
pub proof fn lemma_gravity_reciprocal(a: EntityView, b: EntityView)
    ensures
        v_sub(gravity_pair_v(a, b).0.force, a.force) == v_neg(
            v_sub(gravity_pair_v(a, b).1.force, b.force),
        ),
{
    if gravity_r2_v(a, b) != 0 {
        let dir = gravity_dir_v(a, b);
        let f = gravity_mag_v(a, b);
        crate::fx::lemma_fmul_neg_right(dir.x, f);
        crate::fx::lemma_fmul_neg_right(dir.y, f);
    }
}

/// For a pair whose force accumulators start empty, mutual gravity leaves
/// the one force the exact negation of the other.
pub proof fn lemma_gravity_forces_opposite(a: EntityView, b: EntityView)
    requires
        a.force == v_zero(),
        b.force == v_zero(),
    ensures
        gravity_pair_v(a, b).0.force == v_neg(gravity_pair_v(a, b).1.force),
{
    lemma_gravity_reciprocal(a, b);
}

/// The elastic-collision velocity update conserves momentum exactly at the
/// value level: each post-collision velocity is its numerator
/// `v * (m - m') + 2 * m' * v'` over the common denominator `m + m'`, and
/// the mass-weighted numerators sum to the pre-collision momentum times
/// that denominator, componentwise. The executable update rounds each
/// component of the quotient toward zero onto the grid, so the executable
/// momentum matches the pre-collision momentum to within one grid unit per
/// component scaled by the total mass.
pub proof fn lemma_collision_conserves_momentum(m1: int, m2: int, v1: int, v2: int)
    ensures
        m1 * (v1 * (m1 - m2) + 2 * m2 * v2) + m2 * (v2 * (m2 - m1) + 2 * m1 * v1) == (m1 + m2) * (
        m1 * v1 + m2 * v2),
{
    assert(m1 * (v1 * (m1 - m2)) + m2 * (2 * m1 * v1) == (m1 + m2) * (m1 * v1))
        by (nonlinear_arith);
    assert(m1 * (2 * m2 * v2) + m2 * (v2 * (m2 - m1)) == (m1 + m2) * (m2 * v2))
        by (nonlinear_arith);
    assert(m1 * (v1 * (m1 - m2) + 2 * m2 * v2) == m1 * (v1 * (m1 - m2)) + m1 * (2 * m2 * v2))
        by (nonlinear_arith);
    assert(m2 * (v2 * (m2 - m1) + 2 * m1 * v1) == m2 * (v2 * (m2 - m1)) + m2 * (2 * m1 * v1))
        by (nonlinear_arith);
    assert((m1 + m2) * (m1 * v1) + (m1 + m2) * (m2 * v2) == (m1 + m2) * (m1 * v1 + m2 * v2))
        by (nonlinear_arith);
}

/// One component of the executable elastic-collision update: the grid value
/// the velocity component is set to,
/// `(v1 * (m1 - m2) + v2 * 2 * m2) / (m1 + m2)` with each product and the
/// quotient rounded toward zero onto the grid.
pub open spec fn post_vel_s(v1: int, v2: int, m1: int, m2: int) -> int {
    tdiv(
        (fmul_v(v1, m1 - m2) + fmul_v(fmul_v(v2, 2 * (SCALE as int)), m2)) * (SCALE as int),
        m1 + m2,
    )
}

/// The executable collision update sets each velocity component to
/// `post_vel_s` of the pre-collision pair.
pub proof fn lemma_post_collision_components(a: EntityView, b: EntityView)
    ensures
        post_collision_v(a, b).velocity.x == post_vel_s(
            a.velocity.x,
            b.velocity.x,
            a.mass,
            b.mass,
        ),
        post_collision_v(a, b).velocity.y == post_vel_s(
            a.velocity.y,
            b.velocity.y,
            a.mass,
            b.mass,
        ),
{
}

/// The executable elastic-collision update conserves momentum to within its
/// grid rounding, componentwise: the mass-weighted sum of the two rounded
/// post-collision velocity components differs from the pre-collision
/// momentum component by less than two grid units plus one raw unit per
/// unit of total mass — for unit-scale masses, a relative error on the
/// order of the grid resolution.
pub proof fn lemma_collision_momentum_error(m1: int, m2: int, v1: int, v2: int)
    requires
        m1 > 0,
        m2 > 0,
    ensures
        m1 * post_vel_s(v1, v2, m1, m2) + m2 * post_vel_s(v2, v1, m2, m1) - (m1 * v1 + m2 * v2)
            < 2 * (SCALE as int) + (m1 + m2),
        -(2 * (SCALE as int) + (m1 + m2)) < m1 * post_vel_s(v1, v2, m1, m2) + m2 * post_vel_s(
            v2,
            v1,
            m2,
            m1,
        ) - (m1 * v1 + m2 * v2),
{
    let s = SCALE as int;
    let d = m1 + m2;
    let bound = 2 * s + d;

    // doubling is exact on the grid
    assert(v1 * (2 * s) == (2 * v1) * s) by (nonlinear_arith);
    assert(v2 * (2 * s) == (2 * v2) * s) by (nonlinear_arith);
    crate::fx::lemma_tdiv_mul_cancel(2 * v1, s);
    crate::fx::lemma_tdiv_mul_cancel(2 * v2, s);
    assert(fmul_v(v1, 2 * s) == 2 * v1);
    assert(fmul_v(v2, 2 * s) == 2 * v2);

    // the two rounded numerators, with their rounding remainders
    let t1 = fmul_v(v1, m1 - m2);
    let u1 = fmul_v(2 * v2, m2);
    let w1 = post_vel_s(v1, v2, m1, m2);
    crate::fx::lemma_tdiv_rem(v1 * (m1 - m2), s);
    crate::fx::lemma_tdiv_rem((2 * v2) * m2, s);
    crate::fx::lemma_tdiv_rem((t1 + u1) * s, d);
    let e1 = v1 * (m1 - m2) - s * t1;
    let g1 = (2 * v2) * m2 - s * u1;
    let f1 = (t1 + u1) * s - d * w1;
    assert((t1 + u1) * s == s * t1 + s * u1) by (nonlinear_arith);
    let err1 = e1 + g1 + f1;
    assert(d * w1 == v1 * (m1 - m2) + (2 * v2) * m2 - err1);
    assert(-bound < err1 < bound);

    let t2 = fmul_v(v2, m2 - m1);
    let u2 = fmul_v(2 * v1, m1);
    let w2 = post_vel_s(v2, v1, m2, m1);
    crate::fx::lemma_tdiv_rem(v2 * (m2 - m1), s);
    crate::fx::lemma_tdiv_rem((2 * v1) * m1, s);
    crate::fx::lemma_tdiv_rem((t2 + u2) * s, d);
    let e2 = v2 * (m2 - m1) - s * t2;
    let g2 = (2 * v1) * m1 - s * u2;
    let f2 = (t2 + u2) * s - d * w2;
    assert((t2 + u2) * s == s * t2 + s * u2) by (nonlinear_arith);
    let err2 = e2 + g2 + f2;
    assert(d * w2 == v2 * (m2 - m1) + (2 * v1) * m1 - err2);
    assert(-bound < err2 < bound);

    // weight each side by its mass
    let n1 = v1 * (m1 - m2) + 2 * m2 * v2;
    let n2 = v2 * (m2 - m1) + 2 * m1 * v1;
    assert((2 * v2) * m2 == 2 * m2 * v2) by (nonlinear_arith);
    assert((2 * v1) * m1 == 2 * m1 * v1) by (nonlinear_arith);
    assert(m1 * (d * w1) == m1 * n1 - m1 * err1) by (nonlinear_arith)
        requires
            d * w1 == n1 - err1,
    ;
    assert(m2 * (d * w2) == m2 * n2 - m2 * err2) by (nonlinear_arith)
        requires
            d * w2 == n2 - err2,
    ;

    // exact conservation of the unrounded update
    lemma_collision_conserves_momentum(m1, m2, v1, v2);
    assert(m1 * n1 + m2 * n2 == d * (m1 * v1 + m2 * v2));

    // collect: d * delta == -(m1 * err1 + m2 * err2)
    let delta = m1 * w1 + m2 * w2 - (m1 * v1 + m2 * v2);
    assert(d * delta == m1 * (d * w1) + m2 * (d * w2) - d * (m1 * v1 + m2 * v2))
        by (nonlinear_arith)
        requires
            delta == m1 * w1 + m2 * w2 - (m1 * v1 + m2 * v2),
    ;
    assert(d * delta == -(m1 * err1 + m2 * err2));

    // bound the collected error and divide out the positive total mass
    assert(-(m1 * bound) < m1 * err1 < m1 * bound) by (nonlinear_arith)
        requires
            m1 > 0,
            -bound < err1 < bound,
    ;
    assert(-(m2 * bound) < m2 * err2 < m2 * bound) by (nonlinear_arith)
        requires
            m2 > 0,
            -bound < err2 < bound,
    ;
    assert(m1 * bound + m2 * bound == d * bound) by (nonlinear_arith)
        requires
            d == m1 + m2,
    ;
    assert(-(d * bound) < d * delta < d * bound);
    assert(-bound < delta < bound) by (nonlinear_arith)
        requires
            d > 0,
            -(d * bound) < d * delta < d * bound,
    ;
}

/// Momentum conservation of collision handling as executed: whether or not
/// the pair collides, each component of the total momentum
/// `m_a * v_a + m_b * v_b` moves by less than two grid units plus one raw
/// unit per unit of total mass.
pub proof fn lemma_collision_pair_momentum(a: EntityView, b: EntityView)
    requires
        a.mass > 0,
        b.mass > 0,
    ensures
        abs(
            a.mass * collide_pair_v(a, b).0.velocity.x + b.mass * collide_pair_v(
                a,
                b,
            ).1.velocity.x - (a.mass * a.velocity.x + b.mass * b.velocity.x),
        ) < 2 * (SCALE as int) + a.mass + b.mass,
        abs(
            a.mass * collide_pair_v(a, b).0.velocity.y + b.mass * collide_pair_v(
                a,
                b,
            ).1.velocity.y - (a.mass * a.velocity.y + b.mass * b.velocity.y),
        ) < 2 * (SCALE as int) + a.mass + b.mass,
{
    if collides_v(a, b) {
        lemma_post_collision_components(a, b);
        lemma_post_collision_components(b, a);
        lemma_collision_momentum_error(a.mass, b.mass, a.velocity.x, b.velocity.x);
        lemma_collision_momentum_error(a.mass, b.mass, a.velocity.y, b.velocity.y);
    }
}

/// With equal masses, the exact elastic-collision update swaps the two
/// velocities: each numerator collapses to the other velocity times the
/// common denominator, componentwise.
pub proof fn lemma_equal_mass_collision_swaps(m: int, v1: int, v2: int)
    by (nonlinear_arith)
    ensures
        v1 * (m - m) + 2 * m * v2 == (m + m) * v2,
        v2 * (m - m) + 2 * m * v1 == (m + m) * v1,
{
}

/// With equal masses worth a whole number `k` of units, the rounding
/// vanishes and the executable update swaps the velocities exactly,
/// componentwise.
pub proof fn lemma_equal_mass_exec_swap(k: int, v1: int, v2: int)
    requires
        k >= 1,
    ensures
        post_vel_s(v1, v2, k * (SCALE as int), k * (SCALE as int)) == v2,
        post_vel_s(v2, v1, k * (SCALE as int), k * (SCALE as int)) == v1,
{
    let s = SCALE as int;
    let m = k * s;
    assert(m >= s) by (nonlinear_arith)
        requires
            k >= 1,
            s > 0,
            m == k * s,
    ;
    // doubling is exact on the grid
    assert(v1 * (2 * s) == (2 * v1) * s) by (nonlinear_arith);
    assert(v2 * (2 * s) == (2 * v2) * s) by (nonlinear_arith);
    crate::fx::lemma_tdiv_mul_cancel(2 * v1, s);
    crate::fx::lemma_tdiv_mul_cancel(2 * v2, s);
    assert(fmul_v(v1, 2 * s) == 2 * v1);
    assert(fmul_v(v2, 2 * s) == 2 * v2);
    // the own-velocity term vanishes with the mass difference
    assert(fmul_v(v1, m - m) == tdiv(0, s));
    assert(fmul_v(v2, m - m) == tdiv(0, s));
    assert(tdiv(0, s) == 0);
    // the cross term is a whole multiple of the grid
    assert((2 * v2) * m == (2 * v2 * k) * s) by (nonlinear_arith)
        requires
            m == k * s,
    ;
    assert((2 * v1) * m == (2 * v1 * k) * s) by (nonlinear_arith)
        requires
            m == k * s,
    ;
    crate::fx::lemma_tdiv_mul_cancel(2 * v2 * k, s);
    crate::fx::lemma_tdiv_mul_cancel(2 * v1 * k, s);
    assert(fmul_v(2 * v2, m) == 2 * v2 * k);
    assert(fmul_v(2 * v1, m) == 2 * v1 * k);
    // and the division by the doubled mass cancels exactly
    assert((0 + 2 * v2 * k) * s == v2 * (m + m)) by (nonlinear_arith)
        requires
            m == k * s,
    ;
    assert((0 + 2 * v1 * k) * s == v1 * (m + m)) by (nonlinear_arith)
        requires
            m == k * s,
    ;
    crate::fx::lemma_tdiv_mul_cancel(v2, m + m);
    crate::fx::lemma_tdiv_mul_cancel(v1, m + m);
}

/// The square of a magnitude equals the square of the signed value.
proof fn lemma_abs_square(a: int, m: int)
    by (nonlinear_arith)
    requires
        m == vstd::math::abs(a),
    ensures
        m * m == a * a,
{
}

/// The square of an `i64` magnitude stays within half the `u128` range.
proof fn lemma_square_bound(m: int)
    by (nonlinear_arith)
    requires
        0 <= m <= 0x8000000000000000,
    ensures
        0 <= m * m <= 0x40000000000000000000000000000000,
{
}

} // verus!
