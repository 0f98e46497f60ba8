//! Cohesion: steer toward the centroid of the perceived flockmates.
use crate::boids::{all_valid, Behaviour, Boid};
use crate::configuration::PARAM_LIMIT;
use crate::perception::{collect_tagged, ids_valid, mean, mean_of, tagged_values};
use crate::vector::Vec2;
use vstd::prelude::*;

verus! {

/// The cohesion behaviour, and the tag of the agents that take part in it.
pub struct Cohesion;

impl Cohesion {
    /// The force on agent `i`, which perceives the agents `ids`: toward the
    /// mean position of those tagged for cohesion, of length `strength`.
    /// None when `i` is not tagged or perceives no tagged agent.
    pub open spec fn steer_of(boids: Seq<Boid>, ids: Seq<usize>, i: int, strength: int) -> Option<
        Vec2,
    > {
        let ns = tagged_values(boids, ids, Behaviour::Cohesion, false);
        if !boids[i].tags.has(Behaviour::Cohesion) || ns.len() == 0 {
            None
        } else {
            Some(mean_of(ns).minus(boids[i].pos).scaled_to(strength))
        }
    }

    /// Computes `steer_of`. The force never points away from the centroid.
    pub fn steer(boids: &Vec<Boid>, ids: &Vec<usize>, i: usize, strength: i64) -> (r: Option<Vec2>)
        requires
            i < boids@.len(),
            ids_valid(ids@, boids@.len() as int),
            all_valid(boids@),
            0 <= strength <= PARAM_LIMIT,
        ensures
            r == Self::steer_of(boids@, ids@, i as int, strength as int),
            r is Some ==> r->0.within(strength as int),
            r is Some ==> r->0.dot(
                mean_of(tagged_values(boids@, ids@, Behaviour::Cohesion, false)).minus(
                    boids@[i as int].pos,
                ),
            ) >= 0,
    {
        let b = boids[i];
        if !b.tags.has(Behaviour::Cohesion) {
            return None;
        }
        let ns = collect_tagged(boids, ids, Behaviour::Cohesion, false);
        if ns.len() == 0 {
            return None;
        }
        assert(boids@[i as int].valid());
        let centroid = mean(&ns);
        Some(centroid.sub(b.pos).scale_to(strength))
    }
}

} // verus!
