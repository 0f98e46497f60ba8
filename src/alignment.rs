//! Alignment: steer toward the mean velocity of the perceived flockmates.
use crate::boids::{all_valid, Behaviour, Boid};
use crate::configuration::PARAM_LIMIT;
use crate::perception::{collect_tagged, ids_valid, mean, mean_of, tagged_values};
use crate::vector::{abs, Vec2, COORD_LIMIT};
use vstd::prelude::*;

verus! {

/// The alignment behaviour, and the tag of the agents that take part in it.
pub struct Alignment;

/// Moving `vel` by a step `r` that has the sign of each component of
/// `target - vel` and is at most twice as long in each component never moves
/// it farther from `target`.
proof fn lemma_step_toward(vel: Vec2, target: Vec2, r: Vec2)
    requires
        vel.within(COORD_LIMIT as int),
        target.within(COORD_LIMIT as int),
        r.within(COORD_LIMIT as int),
        r.x * (target.x - vel.x) >= 0,
        r.y * (target.y - vel.y) >= 0,
        abs(r.x as int) <= 2 * abs(target.x - vel.x),
        abs(r.y as int) <= 2 * abs(target.y - vel.y),
    ensures
        vel.plus(r).minus(target).len_sq() <= vel.minus(target).len_sq(),
{
    let (dx, dy) = (target.x - vel.x, target.y - vel.y);
    assert((r.x - dx) * (r.x - dx) <= dx * dx) by (nonlinear_arith)
        requires
            r.x * dx >= 0,
            abs(r.x as int) <= 2 * abs(dx),
    ;
    assert((r.y - dy) * (r.y - dy) <= dy * dy) by (nonlinear_arith)
        requires
            r.y * dy >= 0,
            abs(r.y as int) <= 2 * abs(dy),
    ;
    assert((-dx) * (-dx) == dx * dx) by (nonlinear_arith);
    assert((-dy) * (-dy) == dy * dy) by (nonlinear_arith);
}

impl Alignment {
    /// The force on agent `i`, which perceives the agents `ids`: toward the
    /// mean velocity of those tagged for alignment, from the agent's own
    /// velocity, of length `strength`. None when `i` is not tagged or
    /// perceives no tagged agent.
    pub open spec fn steer_of(boids: Seq<Boid>, ids: Seq<usize>, i: int, strength: int) -> Option<
        Vec2,
    > {
        let ns = tagged_values(boids, ids, Behaviour::Alignment, true);
        if !boids[i].tags.has(Behaviour::Alignment) || ns.len() == 0 {
            None
        } else {
            Some(mean_of(ns).minus(boids[i].vel).scaled_to(strength))
        }
    }

    /// Computes `steer_of`. The force points toward the mean velocity, and
    /// unless it is over twice as long as the gap, adding it to the velocity
    /// leaves the velocity no farther from the mean.
    pub fn steer(boids: &Vec<Boid>, ids: &Vec<usize>, i: usize, strength: i64) -> (r: Option<Vec2>)
        requires
            i < boids@.len(),
            ids_valid(ids@, boids@.len() as int),
            all_valid(boids@),
            0 <= strength <= PARAM_LIMIT,
        ensures
            r == Self::steer_of(boids@, ids@, i as int, strength as int),
            r is Some ==> r->0.within(strength as int),
            r is Some ==> ({
                let target = mean_of(tagged_values(boids@, ids@, Behaviour::Alignment, true));
                let vel = boids@[i as int].vel;
                &&& r->0.dot(target.minus(vel)) >= 0
                &&& strength <= 2 * target.minus(vel).len() ==> vel.plus(r->0).minus(
                    target,
                ).len_sq() <= vel.minus(target).len_sq()
            }),
    {
        let b = boids[i];
        if !b.tags.has(Behaviour::Alignment) {
            return None;
        }
        let ns = collect_tagged(boids, ids, Behaviour::Alignment, true);
        if ns.len() == 0 {
            return None;
        }
        assert(boids@[i as int].valid());
        let target = mean(&ns);
        let gap = target.sub(b.vel);
        let f = gap.scale_to(strength);
        proof {
            if strength <= 2 * gap.len() {
                lemma_step_toward(b.vel, target, f);
            }
        }
        Some(f)
    }
}

} // verus!
