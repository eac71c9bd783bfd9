//! Per-frame orchestration.
//!
//! One [`step`] updates the whole population in index order: entity `i`
//! integrates its motion and clears its accumulators, reflects off the
//! walls, then resolves collisions and applies mutual gravity against every
//! entity with a higher index. Looking only forward processes each unordered
//! pair exactly once per step.

use vstd::prelude::*;

verus! {

use crate::entity::{collisions_fold, collisions_fold_fits, entity_views, gravity_fold,
    gravity_fold_fits, integrate_fits, integrate_v, lemma_collisions_fold_len,
    lemma_gravity_fold_len, wall_fits, wall_v, Entity, EntityView};
use crate::fx::Fx;

/// The population after entity `i` has taken its turn: integrate, walls,
/// then collisions and gravity against everything after `i`.
pub open spec fn entity_turn_v(s: Seq<EntityView>, i: int, dt: int) -> Seq<EntityView> {
    let e1 = wall_v(integrate_v(s[i], dt));
    let c = collisions_fold(e1, s.skip(i + 1));
    let g = gravity_fold(c.0, c.1);
    s.take(i) + seq![g.0] + g.1
}

/// Whether every operation of entity `i`'s turn stays on the grid.
pub open spec fn entity_turn_fits(s: Seq<EntityView>, i: int, dt: int) -> bool {
    let e1 = wall_v(integrate_v(s[i], dt));
    let c = collisions_fold(e1, s.skip(i + 1));
    &&& integrate_fits(s[i], dt)
    &&& wall_fits(integrate_v(s[i], dt))
    &&& collisions_fold_fits(e1, s.skip(i + 1))
    &&& gravity_fold_fits(c.0, c.1)
}

/// The population after the first `k` entities have taken their turns.
pub open spec fn step_prefix_v(s: Seq<EntityView>, k: int, dt: int) -> Seq<EntityView>
    decreases k,
{
    if k <= 0 {
        s
    } else {
        entity_turn_v(step_prefix_v(s, k - 1, dt), k - 1, dt)
    }
}

/// The population after one whole step.
pub open spec fn step_v(s: Seq<EntityView>, dt: int) -> Seq<EntityView> {
    step_prefix_v(s, s.len() as int, dt)
}

/// Whether every operation of a whole step stays on the grid.
pub open spec fn step_fits(s: Seq<EntityView>, dt: int) -> bool {
    forall|k: int|
        0 <= k < s.len() ==> entity_turn_fits(#[trigger] step_prefix_v(s, k, dt), k, dt)
}

/// One turn leaves the population size unchanged.
pub proof fn lemma_entity_turn_len(s: Seq<EntityView>, i: int, dt: int)
    requires
        0 <= i < s.len(),
    ensures
        entity_turn_v(s, i, dt).len() == s.len(),
{
    let e1 = wall_v(integrate_v(s[i], dt));
    let c = collisions_fold(e1, s.skip(i + 1));
    lemma_collisions_fold_len(e1, s.skip(i + 1));
    lemma_gravity_fold_len(c.0, c.1);
}

/// Any prefix of turns leaves the population size unchanged.
pub proof fn lemma_step_prefix_len(s: Seq<EntityView>, k: int, dt: int)
    requires
        k <= s.len(),
    ensures
        step_prefix_v(s, k, dt).len() == s.len(),
    decreases k,
{
    if k > 0 {
        lemma_step_prefix_len(s, k - 1, dt);
        lemma_entity_turn_len(step_prefix_v(s, k - 1, dt), k - 1, dt);
    }
}

/// A population of at most one entity has no pair interactions: its step
/// fits as soon as the entity's own integration and wall handling fit.
pub proof fn lemma_step_fits_alone(s: Seq<EntityView>, dt: int)
    requires
        s.len() <= 1,
        s.len() == 1 ==> integrate_fits(s[0], dt) && wall_fits(integrate_v(s[0], dt)),
    ensures
        step_fits(s, dt),
{
    assert forall|k: int|
        0 <= k < s.len() implies entity_turn_fits(
        #[trigger] step_prefix_v(s, k, dt),
        k,
        dt,
    ) by {
        assert(step_prefix_v(s, 0, dt) == s);
        let e1 = wall_v(integrate_v(s[0], dt));
        assert(s.skip(1).len() == 0);
        assert(collisions_fold(e1, s.skip(1)).1.len() == 0);
    }
}

/// A copy of the suffix of the population that starts at `start`.
fn copy_tail(planets: &Vec<Entity>, start: usize) -> (r: Vec<Entity>)
    requires
        start <= planets.len(),
    ensures
        r@ == planets@.subrange(start as int, planets@.len() as int),
{
    let mut r: Vec<Entity> = Vec::new();
    proof {
        assert(r@ =~= planets@.subrange(start as int, start as int));
    }
    let mut j: usize = start;
    while j < planets.len()
        invariant
            start <= j <= planets.len(),
            r@ == planets@.subrange(start as int, j as int),
        decreases planets.len() - j,
    {
        r.push(planets[j]);
        proof {
            assert(r@ =~= planets@.subrange(start as int, j as int + 1));
        }
        j = j + 1;
    }
    r
}

/// Writes `tail` back over the suffix of the population that starts at
/// `start`.
fn write_tail(planets: &mut Vec<Entity>, start: usize, tail: &Vec<Entity>)
    requires
        start + tail@.len() == old(planets)@.len(),
    ensures
        final(planets)@ == old(planets)@.subrange(0, start as int) + tail@,
{
    let ghost orig = planets@;
    let n = tail.len();
    let pn = planets.len();
    let mut j: usize = 0;
    while j < n
        invariant
            j <= n,
            n == tail@.len(),
            pn == orig.len(),
            start + n == pn,
            planets@.len() == orig.len(),
            forall|k: int| 0 <= k < start ==> planets@[k] == orig[k],
            forall|k: int| 0 <= k < j ==> planets@[start + k] == tail@[k],
            forall|k: int| start + j <= k < orig.len() ==> planets@[k] == orig[k],
        decreases n - j,
    {
        let ghost before = planets@;
        planets.set(start + j, tail[j]);
        proof {
            assert(planets@ =~= before.update(start as int + j as int, tail@[j as int]));
        }
        j = j + 1;
    }
    proof {
        assert(planets@ =~= orig.subrange(0, start as int) + tail@);
    }
}

/// Advances the whole population by one step of length `dt`, in place: for
/// each entity in index order, integrate and clear accumulators, reflect off
/// the walls, then resolve collisions and apply mutual gravity against every
/// later entity.
pub fn step(planets: &mut Vec<Entity>, dt: Fx)
    requires
        step_fits(entity_views(old(planets)@), dt@),
    ensures
        final(planets)@.len() == old(planets)@.len(),
        entity_views(final(planets)@) == step_v(entity_views(old(planets)@), dt@),
{
    let ghost base = entity_views(planets@);
    let n = planets.len();
    let mut i: usize = 0;
    while i < n
        invariant
            i <= n,
            planets@.len() == n,
            base.len() == n,
            step_fits(base, dt@),
            entity_views(planets@) == step_prefix_v(base, i as int, dt@),
        decreases n - i,
    {
        let ghost cur = entity_views(planets@);
        proof {
            assert(entity_turn_fits(step_prefix_v(base, i as int, dt@), i as int, dt@));
        }
        let mut e = planets[i];
        proof {
            assert(e@ == cur[i as int]);
        }
        e.integrate(dt);
        e.handle_wall_collisions();
        let mut tail = copy_tail(planets, i + 1);
        proof {
            assert(entity_views(tail@) =~= cur.skip(i as int + 1));
        }
        e.handle_collisions(&mut tail);
        e.apply_gravity_multi(&mut tail);
        let ghost mid = planets@;
        planets.set(i, e);
        write_tail(planets, i + 1, &tail);
        proof {
            assert(planets@ =~= mid.update(i as int, e).subrange(0, i as int + 1) + tail@);
            let turn = entity_turn_v(cur, i as int, dt@);
            assert(entity_views(planets@) =~= turn) by {
                let e1 = wall_v(integrate_v(cur[i as int], dt@));
                let c = collisions_fold(e1, cur.skip(i as int + 1));
                let g = gravity_fold(c.0, c.1);
                assert(e@ == g.0);
                assert(entity_views(tail@) == g.1);
                lemma_collisions_fold_len(e1, cur.skip(i as int + 1));
                lemma_gravity_fold_len(c.0, c.1);
                assert forall|k: int| 0 <= k < turn.len() implies entity_views(planets@)[k]
                    == turn[k] by {
                    if k < i as int {
                        assert(planets@[k] == mid[k]);
                        assert(turn[k] == cur.take(i as int)[k]);
                    } else if k == i as int {
                        assert(planets@[k] == e);
                    } else {
                        assert(planets@[k] == tail@[k - i - 1]);
                        assert(turn[k] == g.1[k - i - 1]);
                    }
                }
            }
        }
        i = i + 1;
    }
    proof {
        assert(step_prefix_v(base, n as int, dt@) == step_v(base, dt@));
    }
}

} // verus!
