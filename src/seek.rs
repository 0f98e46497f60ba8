//! Seek: steer toward the nearest target.
use crate::boids::{Behaviour, Boid};
use crate::configuration::PARAM_LIMIT;
use crate::perception::all_within;
use crate::vector::{Vec2, COORD_LIMIT};
use vstd::prelude::*;

verus! {

/// The seek behaviour, and the tag of the agents that take part in it.
pub struct Seek;

/// Marks an agent that has a target to chase.
#[derive(Clone, Copy, Debug, PartialEq, Eq, Structural)]
pub struct Chasing;

/// Distance from `pos` to `t`, squared.
pub open spec fn dist_sq(pos: Vec2, t: Vec2) -> int {
    t.minus(pos).len_sq()
}

/// The index of the target nearest to `pos`; the first of equally near ones.
pub open spec fn nearest_index(pos: Vec2, ts: Seq<Vec2>) -> int
    decreases ts.len(),
{
    if ts.len() <= 1 {
        0
    } else {
        let best = nearest_index(pos, ts.drop_last());
        let k = ts.len() - 1;
        if dist_sq(pos, ts[k]) < dist_sq(pos, ts[best]) {
            k
        } else {
            best
        }
    }
}

/// The index of the target nearest to `pos`: no target is nearer, and none
/// before it is as near.
pub fn nearest(pos: Vec2, ts: &Vec<Vec2>) -> (r: usize)
    requires
        ts@.len() > 0,
        pos.within(COORD_LIMIT as int),
        all_within(ts@),
    ensures
        r == nearest_index(pos, ts@),
        r < ts@.len(),
        forall|k: int| 0 <= k < ts@.len() ==> dist_sq(pos, ts@[r as int]) <= dist_sq(pos, #[trigger] ts@[k]),
        forall|k: int| 0 <= k < r ==> dist_sq(pos, ts@[r as int]) < dist_sq(pos, #[trigger] ts@[k]),
{
    let mut best: usize = 0;
    let mut best_d: u64 = ts[0].sub(pos).length_squared();
    let mut k: usize = 1;
    assert(ts@.take(1).len() == 1);
    while k < ts.len()
        invariant
            1 <= k <= ts@.len(),
            pos.within(COORD_LIMIT as int),
            all_within(ts@),
            best < k,
            best == nearest_index(pos, ts@.take(k as int)),
            best_d == dist_sq(pos, ts@[best as int]),
            forall|j: int| 0 <= j < k ==> dist_sq(pos, ts@[best as int]) <= dist_sq(pos, #[trigger] ts@[j]),
            forall|j: int| 0 <= j < best ==> dist_sq(pos, ts@[best as int]) < dist_sq(pos, #[trigger] ts@[j]),
        decreases ts@.len() - k,
    {
        assert(ts@[k as int].within(COORD_LIMIT as int));
        let d = ts[k].sub(pos).length_squared();
        assert(ts@.take(k as int + 1).drop_last() =~= ts@.take(k as int));
        assert(ts@.take(k as int + 1)[best as int] == ts@[best as int]);
        assert(ts@.take(k as int + 1)[k as int] == ts@[k as int]);
        if d < best_d {
            best = k;
            best_d = d;
        }
        k += 1;
    }
    assert(ts@.take(ts@.len() as int) =~= ts@);
    best
}

impl Seek {
    /// The force on `b` given the seek targets: the desired velocity points
    /// at the nearest target with length `max_speed`, and the force points
    /// from the current velocity to it with length `strength`. None when
    /// there is no target.
    pub open spec fn steer_of(b: Boid, targets: Seq<Vec2>, max_speed: int, strength: int) -> Option<
        Vec2,
    > {
        if targets.len() == 0 {
            None
        } else {
            let t = targets[nearest_index(b.pos, targets)];
            let desired = t.minus(b.pos).scaled_to(max_speed);
            Some(desired.minus(b.vel).scaled_to(strength))
        }
    }

    /// The seek step on `b`: a tagged agent takes the force and records
    /// whether it is chasing a target; others are left as they are.
    pub open spec fn sought(b: Boid, targets: Seq<Vec2>, max_speed: int, strength: int) -> Boid {
        if !b.tags.has(Behaviour::Seek) {
            b
        } else {
            Boid {
                chasing: if targets.len() > 0 {
                    Some(Chasing)
                } else {
                    None
                },
                ..b.pushed_opt(Self::steer_of(b, targets, max_speed, strength))
            }
        }
    }

    /// Computes `steer_of`.
    pub fn steer(b: &Boid, targets: &Vec<Vec2>, max_speed: i64, strength: i64) -> (r: Option<Vec2>)
        requires
            b.valid(),
            all_within(targets@),
            0 <= max_speed <= PARAM_LIMIT,
            0 <= strength <= PARAM_LIMIT,
        ensures
            r == Self::steer_of(*b, targets@, max_speed as int, strength as int),
            r is Some ==> r->0.within(strength as int),
    {
        if targets.len() == 0 {
            return None;
        }
        let k = nearest(b.pos, targets);
        assert(targets@[k as int].within(COORD_LIMIT as int));
        let desired = targets[k].sub(b.pos).scale_to(max_speed);
        Some(desired.sub(b.vel).scale_to(strength))
    }
}

} // verus!
