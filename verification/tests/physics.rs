//! Behavioral tests for the fixed-point physics kernel: exact expected
//! values for the vector algebra, integration, wall reflection, collision
//! detection and response, gravity, and a whole simulation step.

use planets::entity::Entity;
use planets::fx::{Fx, SCALE};
use planets::sim::step;
use planets::vec2::{Dominance, Vec2};

/// The scalar worth `micros` millionths.
fn fx(micros: i64) -> Fx {
    Fx::from_millionths(micros)
}

/// A vector from millionths.
fn v(x_micros: i64, y_micros: i64) -> Vec2 {
    Vec2::new(fx(x_micros), fx(y_micros))
}

/// An entity with zero acceleration and force.
fn entity(position: Vec2, velocity: Vec2, mass_micros: i64, radius_micros: i64) -> Entity {
    Entity {
        position,
        velocity,
        acceleration: Vec2::zero(),
        force: Vec2::zero(),
        mass: fx(mass_micros),
        radius: fx(radius_micros),
    }
}

#[test]
fn fx_constructors_agree() {
    assert_eq!(Fx::from_int(1).raw, SCALE);
    assert_eq!(fx(1_000_000), Fx::from_int(1));
    assert_eq!(fx(-2_500_000), Fx::from_int(-5).div(Fx::from_int(2)));
    assert_eq!(Fx::zero().raw, 0);
}

#[test]
fn fx_mul_and_div_exact_values() {
    // 1.5 * 2 == 3
    assert_eq!(fx(1_500_000).mul(Fx::from_int(2)), Fx::from_int(3));
    // 1 / 3 rounds toward zero onto the grid
    assert_eq!(Fx::from_int(1).div(Fx::from_int(3)).raw, 333_333_333_333);
    // (-1) / 3 rounds toward zero, not down
    assert_eq!(Fx::from_int(-1).div(Fx::from_int(3)).raw, -333_333_333_333);
}

#[test]
fn fx_sqrt_exact_and_rounded() {
    assert_eq!(Fx::from_int(4).sqrt(), Fx::from_int(2));
    assert_eq!(Fx::from_int(0).sqrt(), Fx::zero());
    // sqrt(2) rounded down onto the grid
    assert_eq!(Fx::from_int(2).sqrt().raw, 1_414_213_562_373);
}

#[test]
fn vec_add_sub_neg_are_consistent() {
    let a = v(2_500_000, -1_000_000);
    let b = v(750_000, 3_000_000);
    assert_eq!(Vec2::zero().sub(b), b.neg());
    assert_eq!(a.add(Vec2::zero().sub(b)), a.sub(b));
    assert_eq!(a.add(b.neg()), a.sub(b));
    assert_eq!(a.neg().neg(), a);
    assert!(a.sub(b).add(b).equals(&a));
}

#[test]
fn vec_length2_and_length() {
    let a = v(3_000_000, 4_000_000);
    let l2 = a.length2();
    assert_eq!(l2, Fx::from_int(25));
    assert!(l2.raw >= 0);
    assert_eq!(a.length(), Fx::from_int(5));
    // length is the square root of length2
    assert_eq!(a.length(), a.length2().sqrt());
    // the zero vector has zero length
    assert_eq!(Vec2::zero().length(), Fx::zero());
}

#[test]
fn vec_mul_is_hadamard_and_scale_is_scalar() {
    let a = v(2_000_000, 3_000_000);
    let b = v(4_000_000, 5_000_000);
    assert_eq!(a.mul(b), v(8_000_000, 15_000_000));
    assert_eq!(a.scale(Fx::from_int(2)), v(4_000_000, 6_000_000));
    assert_eq!(a.div(Fx::from_int(2)), v(1_000_000, 1_500_000));
}

#[test]
fn partial_order_greater_when_both_components_greater() {
    let r = v(2_000_000, 2_000_000).partial_order(&v(1_000_000, 1_000_000));
    assert_eq!(r, Some(Dominance::Greater));
    let r = v(1_000_000, 1_000_000).partial_order(&v(2_000_000, 2_000_000));
    assert_eq!(r, Some(Dominance::Less));
}

#[test]
fn partial_order_mixed_components_incomparable() {
    let r = v(1_000_000, 2_000_000).partial_order(&v(2_000_000, 1_000_000));
    assert_eq!(r, None);
}

#[test]
fn partial_order_equal_vectors_incomparable() {
    // equal vectors are incomparable, not Equal
    let a = v(1_250_000, -7_000_000);
    assert_eq!(a.partial_order(&a), None);
    assert!(a.equals(&a));
}

#[test]
fn integrate_moves_position_and_resets_accumulators() {
    let mut e = entity(v(0, 0), v(1_000_000, 0), 1_000_000, 100_000);
    e.integrate(Fx::from_int(1));
    assert_eq!(e.position, v(1_000_000, 0));
    assert_eq!(e.velocity, v(1_000_000, 0));
    assert_eq!(e.acceleration, Vec2::zero());
    assert_eq!(e.force, Vec2::zero());
}

#[test]
fn integrate_uses_pre_step_velocity_for_position() {
    // an accelerated entity moves by the old velocity, then speeds up
    let mut e = entity(v(0, 0), v(1_000_000, 0), 1_000_000, 100_000);
    e.set_acceleration(v(1_000_000, 0));
    e.integrate(Fx::from_int(1));
    assert_eq!(e.position, v(1_000_000, 0));
    assert_eq!(e.velocity, v(2_000_000, 0));
    assert_eq!(e.acceleration, Vec2::zero());
}

#[test]
fn integrate_velocity_divides_force_by_mass() {
    let mut e = entity(v(0, 0), v(0, 0), 2_000_000, 100_000);
    e.apply_force(v(0, 4_000_000));
    e.integrate(Fx::from_int(1));
    assert_eq!(e.velocity, v(0, 2_000_000));
    assert_eq!(e.force, Vec2::zero());
}

#[test]
fn apply_force_accumulates() {
    let mut e = entity(v(0, 0), v(0, 0), 1_000_000, 100_000);
    e.apply_force(v(1_000_000, 0));
    e.apply_force(v(500_000, -250_000));
    assert_eq!(e.force, v(1_500_000, -250_000));
    e.set_force(Vec2::zero());
    assert_eq!(e.force, Vec2::zero());
}

#[test]
fn wall_reflection_clamps_and_flips() {
    let mut e = entity(v(20_000, 500_000), v(-1_000_000, 0), 1_000_000, 50_000);
    e.handle_wall_collisions();
    assert_eq!(e.position.x, fx(50_000));
    assert_eq!(e.velocity.x, fx(1_000_000));
    assert_eq!(e.position.y, fx(500_000));
    assert_eq!(e.velocity.y, Fx::zero());
}

#[test]
fn wall_reflection_high_side() {
    let mut e = entity(v(990_000, 500_000), v(1_000_000, 0), 1_000_000, 50_000);
    e.handle_wall_collisions();
    assert_eq!(e.position.x, fx(950_000));
    assert_eq!(e.velocity.x, fx(-1_000_000));
}

#[test]
fn wall_corner_reflects_both_axes() {
    let mut e = entity(v(10_000, 990_000), v(-1_000_000, 1_000_000), 1_000_000, 50_000);
    e.handle_wall_collisions();
    assert_eq!(e.position, v(50_000, 950_000));
    assert_eq!(e.velocity, v(1_000_000, -1_000_000));
}

#[test]
fn wall_interior_untouched() {
    let mut e = entity(v(500_000, 500_000), v(-1_000_000, 1_000_000), 1_000_000, 50_000);
    e.handle_wall_collisions();
    assert_eq!(e.position, v(500_000, 500_000));
    assert_eq!(e.velocity, v(-1_000_000, 1_000_000));
}

#[test]
fn collides_is_strict_at_tangency() {
    // radii sum to exactly the center distance: no collision
    let a = entity(v(300_000, 500_000), v(0, 0), 1_000_000, 100_000);
    let b = entity(v(500_000, 500_000), v(0, 0), 1_000_000, 100_000);
    assert!(!a.collides(&b));
    // one raw grid unit closer: collision
    let mut c = b;
    c.position.x = Fx::from_raw(b.position.x.raw - 1);
    assert!(a.collides(&c));
}

#[test]
fn collision_momentum_is_conserved() {
    // masses 2 and 3, velocities (1,0) and (-1,0), overlapping
    let mut a = entity(v(300_000, 500_000), v(1_000_000, 0), 2_000_000, 100_000);
    let mut b = entity(v(350_000, 500_000), v(-1_000_000, 0), 3_000_000, 100_000);
    a.handle_collision(&mut b);
    // v_a' = (1*(2-3) + 2*3*(-1)) / 5 == -1.4; v_b' = (-1*(3-2) + 2*2*1) / 5 == 0.6
    assert_eq!(a.velocity, v(-1_400_000, 0));
    assert_eq!(b.velocity, v(600_000, 0));
    // momentum before: 2*1 + 3*(-1) == -1; after: 2*(-1.4) + 3*0.6 == -1
    let total = a.get_momentum().add(b.get_momentum());
    assert_eq!(total, v(-1_000_000, 0));
}

#[test]
fn collision_equal_masses_swap_velocities() {
    let mut a = entity(v(300_000, 500_000), v(1_000_000, 250_000), 1_000_000, 100_000);
    let mut b = entity(v(350_000, 500_000), v(-1_000_000, 0), 1_000_000, 100_000);
    a.handle_collision(&mut b);
    assert_eq!(a.velocity, v(-1_000_000, 0));
    assert_eq!(b.velocity, v(1_000_000, 250_000));
}

#[test]
fn collision_reads_both_sides_before_writing() {
    // b's update must use a's pre-collision velocity, not the updated one
    let mut a = entity(v(300_000, 500_000), v(1_000_000, 0), 1_000_000, 100_000);
    let mut b = entity(v(350_000, 500_000), v(3_000_000, 0), 1_000_000, 100_000);
    a.handle_collision(&mut b);
    assert_eq!(a.velocity, v(3_000_000, 0));
    assert_eq!(b.velocity, v(1_000_000, 0));
}

#[test]
fn no_collision_no_change() {
    let a0 = entity(v(100_000, 500_000), v(1_000_000, 0), 1_000_000, 50_000);
    let b0 = entity(v(900_000, 500_000), v(-1_000_000, 0), 1_000_000, 50_000);
    let mut a = a0;
    let mut b = b0;
    a.handle_collision(&mut b);
    assert_eq!(a, a0);
    assert_eq!(b, b0);
}

#[test]
fn gravity_forces_are_equal_and_opposite() {
    let mut a = entity(v(250_000, 500_000), v(0, 0), 10_000_000, 50_000);
    let mut b = entity(v(750_000, 500_000), v(0, 0), 10_000_000, 50_000);
    a.apply_gravity(&mut b);
    // r2 == 0.25, dir == (-1, 0), f == G * 100 / 0.25 rounded onto the grid
    assert_eq!(a.force.x.raw, 26_695);
    assert_eq!(b.force.x.raw, -26_695);
    assert_eq!(a.force.y.raw, 0);
    assert_eq!(b.force.y.raw, 0);
    assert_eq!(a.force.x.raw, -b.force.x.raw);
    // the forces attract: a sits left of b, so a is pulled right
    assert!(a.force.x.raw > 0);
}

#[test]
fn gravity_coincident_pair_skipped() {
    let a0 = entity(v(500_000, 500_000), v(0, 0), 10_000_000, 50_000);
    let b0 = entity(v(500_000, 500_000), v(0, 0), 10_000_000, 50_000);
    let mut a = a0;
    let mut b = b0;
    a.apply_gravity(&mut b);
    assert_eq!(a, a0);
    assert_eq!(b, b0);
}

#[test]
fn gravity_on_slice_accumulates_on_all() {
    let mut a = entity(v(250_000, 500_000), v(0, 0), 10_000_000, 50_000);
    let mut rest = vec![
        entity(v(750_000, 500_000), v(0, 0), 10_000_000, 50_000),
        entity(v(250_000, 500_000), v(0, 0), 10_000_000, 50_000),
    ];
    a.apply_gravity_multi(&mut rest);
    // first pair as in the two-body test; second pair coincides and is skipped
    assert_eq!(a.force.x.raw, 26_695);
    assert_eq!(rest[0].force.x.raw, -26_695);
    assert_eq!(rest[1].force, Vec2::zero());
}

#[test]
fn handle_collisions_resolves_in_slice_order() {
    let mut a = entity(v(300_000, 500_000), v(1_000_000, 0), 1_000_000, 100_000);
    let mut rest = vec![
        entity(v(350_000, 500_000), v(-1_000_000, 0), 1_000_000, 100_000),
        entity(v(900_000, 500_000), v(0, 0), 1_000_000, 10_000),
    ];
    a.handle_collisions(&mut rest);
    // a swaps with the overlapping first entity; the distant one is untouched
    assert_eq!(a.velocity, v(-1_000_000, 0));
    assert_eq!(rest[0].velocity, v(1_000_000, 0));
    assert_eq!(rest[1].velocity, Vec2::zero());
}

#[test]
fn step_with_zero_dt_swaps_overlapping_equal_masses() {
    // two overlapping unit masses moving at each other: a pure collision
    // step leaves their velocities exactly swapped
    let mut planets = vec![
        entity(v(300_000, 500_000), v(1_000_000, 0), 1_000_000, 100_000),
        entity(v(350_000, 500_000), v(-1_000_000, 0), 1_000_000, 100_000),
    ];
    step(&mut planets, Fx::zero());
    assert_eq!(planets[0].velocity, v(-1_000_000, 0));
    assert_eq!(planets[1].velocity, v(1_000_000, 0));
    assert_eq!(planets[0].position, v(300_000, 500_000));
    assert_eq!(planets[1].position, v(350_000, 500_000));
}

#[test]
fn step_keeps_the_population_size() {
    let mut none: Vec<Entity> = vec![];
    step(&mut none, Fx::from_int(1));
    assert_eq!(none.len(), 0);
    let mut one = vec![entity(v(500_000, 500_000), v(100_000, 0), 1_000_000, 10_000)];
    step(&mut one, Fx::from_int(1));
    assert_eq!(one.len(), 1);
    assert_eq!(one[0].position, v(600_000, 500_000));
}

#[test]
fn step_integrates_every_entity() {
    let mut planets = vec![
        entity(v(200_000, 200_000), v(100_000, 0), 1_000_000, 10_000),
        entity(v(800_000, 800_000), v(0, -100_000), 1_000_000, 10_000),
    ];
    step(&mut planets, Fx::from_int(1));
    assert_eq!(planets[0].position, v(300_000, 200_000));
    assert_eq!(planets[1].position, v(800_000, 700_000));
}

#[test]
fn from_radius_squares_the_scaled_radius_into_the_mass() {
    // radius 0.002 gives mass (0.002 * 1000)^2 == 4
    let e = Entity::from_radius(v(500_000, 250_000), fx(2_000));
    assert_eq!(e.mass, Fx::from_int(4));
    assert_eq!(e.radius, fx(2_000));
    assert_eq!(e.position, v(500_000, 250_000));
    assert_eq!(e.velocity, Vec2::zero());
    assert_eq!(e.force, Vec2::zero());
    assert_eq!(e.acceleration, Vec2::zero());
}

#[test]
fn get_momentum_scales_velocity_by_mass() {
    let e = entity(v(500_000, 500_000), v(2_000_000, -500_000), 3_000_000, 10_000);
    assert_eq!(e.get_momentum(), v(6_000_000, -1_500_000));
}
