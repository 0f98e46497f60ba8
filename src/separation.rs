//! Separation: steer away from the perceived flockmates, the closer the
//! harder.
use crate::boids::{all_valid, Behaviour, Boid};
use crate::configuration::PARAM_LIMIT;
use crate::perception::{all_within, collect_tagged, ids_valid, tagged_values};
use crate::vector::{Vec2, COORD_LIMIT, SCALE};
use vstd::arithmetic::div_mod::lemma_div_is_ordered_by_denominator;
use vstd::prelude::*;

verus! {

/// The separation behaviour, and the tag of the agents that take part in it.
pub struct Separation;

/// The smallest distance a repulsion is computed for, so that coincident
/// agents do not divide by zero.
pub const MIN_SEPARATION: i64 = 1;

/// The length of the push away from a neighbour at distance `dist`: one
/// world unit divided by the distance in world units, in fixed point.
pub open spec fn repulsion_weight(dist: int) -> int {
    (SCALE * SCALE) / if dist < MIN_SEPARATION {
        MIN_SEPARATION as int
    } else {
        dist
    }
}

/// The push on an agent from a neighbour at offset `d` (agent minus
/// neighbour): along `d`, of length `repulsion_weight(|d|)`.
pub open spec fn repulsion(d: Vec2) -> Vec2 {
    d.scaled_to(repulsion_weight(d.len()))
}

/// The pushes on an agent at `pos` from neighbours at `others`, summed with
/// saturation.
pub open spec fn repulsion_sum(pos: Vec2, others: Seq<Vec2>) -> Vec2
    decreases others.len(),
{
    if others.len() == 0 {
        Vec2 { x: 0, y: 0 }
    } else {
        repulsion_sum(pos, others.drop_last()).saturating_plus(repulsion(pos.minus(others.last())))
    }
}

/// Closer neighbours push harder: the repulsion weight does not increase
/// with the distance.
pub proof fn lemma_repulsion_monotone(d1: int, d2: int)
    requires
        0 <= d1 <= d2,
    ensures
        repulsion_weight(d1) >= repulsion_weight(d2),
        0 <= repulsion_weight(d2),
        repulsion_weight(d1) <= SCALE * SCALE,
{
    let a = if d1 < MIN_SEPARATION {
        MIN_SEPARATION as int
    } else {
        d1
    };
    let b = if d2 < MIN_SEPARATION {
        MIN_SEPARATION as int
    } else {
        d2
    };
    lemma_div_is_ordered_by_denominator(SCALE * SCALE, a, b);
    lemma_div_is_ordered_by_denominator(SCALE * SCALE, 1, a);
    assert(0 <= (SCALE * SCALE) / b) by (nonlinear_arith)
        requires
            b >= 1,
    ;
}

/// The push from a neighbour at offset `d`; it is never longer than its
/// weight.
pub fn push_from(d: Vec2) -> (r: Vec2)
    requires
        d.within(2 * COORD_LIMIT),
    ensures
        r == repulsion(d),
        r.len_sq() <= repulsion_weight(d.len()) * repulsion_weight(d.len()),
        r.within(SCALE * SCALE),
{
    let dist = d.length();
    let w: i64 = SCALE * SCALE / if dist < MIN_SEPARATION {
        MIN_SEPARATION
    } else {
        dist
    };
    proof {
        lemma_repulsion_monotone(dist as int, dist as int);
    }
    d.scale_to(w)
}

impl Separation {
    /// The force on agent `i`, which perceives the agents `ids`: the summed
    /// repulsion from those tagged for separation, lengthened to at least
    /// one world unit, times `strength`. None when `i` is not tagged or
    /// perceives no tagged agent.
    pub open spec fn steer_of(boids: Seq<Boid>, ids: Seq<usize>, i: int, strength: int) -> Option<
        Vec2,
    > {
        let ns = tagged_values(boids, ids, Behaviour::Separation, false);
        if !boids[i].tags.has(Behaviour::Separation) || ns.len() == 0 {
            None
        } else {
            Some(repulsion_sum(boids[i].pos, ns).clamped_min(SCALE as int).times(strength))
        }
    }

    /// Computes `steer_of`. Unless the pushes cancel out, the force is at
    /// least one world unit long before the strength is applied, and at
    /// least `strength` long after.
    pub fn steer(boids: &Vec<Boid>, ids: &Vec<usize>, i: usize, strength: i64) -> (r: Option<Vec2>)
        requires
            i < boids@.len(),
            ids_valid(ids@, boids@.len() as int),
            all_valid(boids@),
            0 <= strength <= PARAM_LIMIT,
        ensures
            r == Self::steer_of(boids@, ids@, i as int, strength as int),
            r is Some ==> r->0.within(COORD_LIMIT as int),
            r is Some ==> ({
                let sum = repulsion_sum(
                    boids@[i as int].pos,
                    tagged_values(boids@, ids@, Behaviour::Separation, false),
                );
                sum.len_sq() > 0 ==> sum.clamped_min(SCALE as int).len_sq() >= SCALE * SCALE
                    && r->0.len_sq() >= strength * strength
            }),
    {
        let b = boids[i];
        if !b.tags.has(Behaviour::Separation) {
            return None;
        }
        let ns = collect_tagged(boids, ids, Behaviour::Separation, false);
        if ns.len() == 0 {
            return None;
        }
        assert(boids@[i as int].valid());
        let sum = Self::repulsion_total(b.pos, &ns);
        Some(sum.clamp_length_min(SCALE).mul_fixed(strength))
    }

    /// `repulsion_sum(pos, others)`.
    fn repulsion_total(pos: Vec2, others: &Vec<Vec2>) -> (r: Vec2)
        requires
            pos.within(COORD_LIMIT as int),
            all_within(others@),
        ensures
            r == repulsion_sum(pos, others@),
            r.within(COORD_LIMIT as int),
    {
        let mut sum = Vec2::zero();
        let mut k: usize = 0;
        while k < others.len()
            invariant
                0 <= k <= others@.len(),
                pos.within(COORD_LIMIT as int),
                all_within(others@),
                sum == repulsion_sum(pos, others@.take(k as int)),
                sum.within(COORD_LIMIT as int),
            decreases others@.len() - k,
        {
            let o = others[k];
            assert(others@[k as int].within(COORD_LIMIT as int));
            assert(others@.take(k as int + 1).drop_last() =~= others@.take(k as int));
            let push = push_from(pos.sub(o));
            sum = sum.saturating_add(push);
            k += 1;
        }
        assert(others@.take(others@.len() as int) =~= others@);
        sum
    }
}

} // verus!
