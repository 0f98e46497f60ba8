//! Obstacle avoidance: a detection state machine driven by a forward ray,
//! and a fan of rays that looks for a free direction while avoiding.
use crate::boids::{Behaviour, Boid};
use crate::configuration::{MAX_DETECTION_DENSITY, PARAM_LIMIT};
use crate::vector::{abs, lemma_abs_square, div_toward_zero, vec2, Vec2, COORD_LIMIT, SCALE};
use vstd::prelude::*;

verus! {

/// The obstacle-avoidance behaviour, and the tag of the agents that take
/// part in it.
pub struct ObstacleAvoidance;

/// Marks an agent in the avoiding state of obstacle detection; its absence
/// is the clear state.
#[derive(Clone, Copy, Debug, PartialEq, Eq, Structural)]
pub struct AvoidObstacle;

/// The smallest hit distance used as a divisor, so that a ray that starts
/// inside an obstacle does not divide by zero.
pub const MIN_HIT_DISTANCE: i64 = 1;

/// `v` turned clockwise by the angle whose sine and cosine (times `SCALE`)
/// are `step.x` and `step.y`, rounded toward zero. With `step` a facing
/// direction and `v` a direction in the agent's frame (forward is +y), this
/// is `v` in world coordinates.
pub open spec fn rotated_cw(v: Vec2, step: Vec2) -> Vec2 {
    vec2(
        div_toward_zero(v.x * step.y + v.y * step.x, SCALE as int),
        div_toward_zero(v.y * step.y - v.x * step.x, SCALE as int),
    )
}

/// `v` mirrored across the forward axis.
pub open spec fn mirrored(v: Vec2) -> Vec2 {
    vec2(-v.x, v.y as int)
}

/// Forward, turned `k` steps clockwise.
pub open spec fn fan_right(step: Vec2, k: nat) -> Vec2
    decreases k,
{
    if k == 0 {
        Vec2::unit_y()
    } else {
        rotated_cw(fan_right(step, (k - 1) as nat), step)
    }
}

/// Ray `k` of a fan: rays alternate right and left of forward, moving
/// outward one step per pair.
pub open spec fn fan_dir(step: Vec2, k: int) -> Vec2 {
    let r = fan_right(step, (k / 2 + 1) as nat);
    if k % 2 == 0 {
        r
    } else {
        mirrored(r)
    }
}

proof fn lemma_square_of_sum(p: int, q: int)
    ensures
        (p + q) * (p + q) == p * p + 2 * (p * q) + q * q,
        (p - q) * (p - q) == p * p - 2 * (p * q) + q * q,
{
    assert((p + q) * (p + q) == p * p + 2 * (p * q) + q * q) by (nonlinear_arith);
    assert((p - q) * (p - q) == p * p - 2 * (p * q) + q * q) by (nonlinear_arith);
}

proof fn lemma_product_of_products(a: int, b: int, c: int, d: int)
    ensures
        (a * b) * (c * d) == (a * c) * (b * d),
{
    assert((a * b) * (c * d) == (a * c) * (b * d)) by (nonlinear_arith);
}

proof fn lemma_lagrange(a: int, b: int, c: int, d: int)
    ensures
        (a * d + b * c) * (a * d + b * c) + (b * d - a * c) * (b * d - a * c) == (a * a + b * b) * (
        c * c + d * d),
{
    lemma_square_of_sum(a * d, b * c);
    lemma_square_of_sum(b * d, a * c);
    lemma_product_of_products(a, d, b, c);
    lemma_product_of_products(b, d, a, c);
    lemma_product_of_products(a, d, a, d);
    lemma_product_of_products(b, c, b, c);
    lemma_product_of_products(b, d, b, d);
    lemma_product_of_products(a, c, a, c);
    let (aa, bb, cc, dd) = (a * a, b * b, c * c, d * d);
    assert((aa + bb) * (cc + dd) == aa * cc + aa * dd + bb * cc + bb * dd) by (nonlinear_arith);
    assert((a * b) * (d * c) == (a * b) * (c * d)) by (nonlinear_arith);
}

proof fn lemma_rotation_shortens(v: Vec2, step: Vec2, e: int, f: int, rx: int, ry: int)
    requires
        e == v.x * step.y + v.y * step.x,
        f == v.y * step.y - v.x * step.x,
        SCALE * abs(rx) <= abs(e),
        SCALE * abs(ry) <= abs(f),
        step.len_sq() <= SCALE * SCALE,
    ensures
        rx * rx + ry * ry <= v.len_sq(),
{
    lemma_lagrange(v.x as int, v.y as int, step.x as int, step.y as int);
    lemma_abs_square(rx);
    lemma_abs_square(ry);
    assert((SCALE * abs(rx)) * (SCALE * abs(rx)) <= e * e) by (nonlinear_arith)
        requires
            0 <= SCALE * abs(rx) <= abs(e),
    ;
    assert((SCALE * abs(ry)) * (SCALE * abs(ry)) <= f * f) by (nonlinear_arith)
        requires
            0 <= SCALE * abs(ry) <= abs(f),
    ;
    assert(v.len_sq() * step.len_sq() <= v.len_sq() * (SCALE * SCALE)) by (nonlinear_arith)
        requires
            step.len_sq() <= SCALE * SCALE,
            v.len_sq() == v.x * v.x + v.y * v.y,
    ;
    assert(rx * rx + ry * ry <= v.len_sq()) by (nonlinear_arith)
        requires
            (SCALE * abs(rx)) * (SCALE * abs(rx)) + (SCALE * abs(ry)) * (SCALE * abs(ry)) <= v.len_sq()
                * (SCALE * SCALE),
            abs(rx) * abs(rx) == rx * rx,
            abs(ry) * abs(ry) == ry * ry,
    ;
}

fn div_scale_toward_zero(e: i64) -> (r: i64)
    requires
        abs(e as int) <= 8 * SCALE * SCALE,
    ensures
        r == div_toward_zero(e as int, SCALE as int),
        SCALE * abs(r as int) <= abs(e as int),
        abs(r as int) <= 8 * SCALE,
{
    if e < 0 {
        -((-e) / SCALE)
    } else {
        e / SCALE
    }
}

/// `rotated_cw(v, step)`.
pub fn rotate_cw(v: Vec2, step: Vec2) -> (r: Vec2)
    requires
        v.within(2 * SCALE),
        step.within(2 * SCALE),
    ensures
        r == rotated_cw(v, step),
        v.within(SCALE as int) && step.within(SCALE as int) ==> r.within(2 * SCALE),
        step.len_sq() <= SCALE * SCALE ==> r.len_sq() <= v.len_sq(),
{
    proof {
        assert(abs(v.x * step.y) <= 4 * SCALE * SCALE && abs(v.y * step.x) <= 4 * SCALE * SCALE
            && abs(v.y * step.y) <= 4 * SCALE * SCALE && abs(v.x * step.x) <= 4 * SCALE * SCALE)
            by (nonlinear_arith)
            requires
                v.within(2 * SCALE),
                step.within(2 * SCALE),
        ;
        assert(abs(v.x * step.y + v.y * step.x) <= 8 * SCALE * SCALE) by (nonlinear_arith)
            requires
                v.within(2 * SCALE),
                step.within(2 * SCALE),
        ;
        assert(abs(v.y * step.y - v.x * step.x) <= 8 * SCALE * SCALE) by (nonlinear_arith)
            requires
                v.within(2 * SCALE),
                step.within(2 * SCALE),
        ;
        assert(v.within(SCALE as int) && step.within(SCALE as int) ==> abs(v.x * step.y + v.y
            * step.x) <= 2 * SCALE * SCALE && abs(v.y * step.y - v.x * step.x) <= 2 * SCALE
            * SCALE) by (nonlinear_arith);
    }
    let e = v.x * step.y + v.y * step.x;
    let f = v.y * step.y - v.x * step.x;
    let rx = div_scale_toward_zero(e);
    let ry = div_scale_toward_zero(f);
    proof {
        if step.len_sq() <= SCALE * SCALE {
            lemma_rotation_shortens(v, step, e as int, f as int, rx as int, ry as int);
        }
    }
    Vec2 { x: rx, y: ry }
}

/// The directions, in the agent's frame, of the rays cast while avoiding:
/// `2 * density` rays, right and left of forward in turn, one angular step
/// further out per pair.
#[derive(Debug)]
pub struct RayFan {
    pub density: i64,
    pub directions: Vec<Vec2>,
}

impl RayFan {
    pub open spec fn wf(self) -> bool {
        &&& self.directions@.len() == 2 * self.density
        &&& forall|k: int|
            0 <= k < self.directions@.len() ==> (#[trigger] self.directions@[k]).within(
                SCALE as int,
            )
    }

    /// The fan for `density` rays per side. `step` holds the sine and the
    /// cosine (times `SCALE`) of the angle between neighbouring rays, which
    /// is half a turn divided by `density + 1`.
    pub fn new(density: i64, step: Vec2) -> (r: RayFan)
        requires
            0 <= density <= MAX_DETECTION_DENSITY,
            step.within(SCALE as int),
            step.len_sq() <= SCALE * SCALE,
        ensures
            r.wf(),
            r.density == density,
            r.directions@.len() == 2 * density,
            forall|k: int| 0 <= k < 2 * density ==> r.directions@[k] == fan_dir(step, k),
    {
        let mut directions: Vec<Vec2> = Vec::new();
        let mut cur = Vec2 { x: 0, y: SCALE };
        let mut i: i64 = 0;
        while i < density
            invariant
                0 <= i <= density <= MAX_DETECTION_DENSITY,
                step.within(SCALE as int),
                step.len_sq() <= SCALE * SCALE,
                cur == fan_right(step, i as nat),
                cur.len_sq() <= SCALE * SCALE,
                cur.within(SCALE as int),
                directions@.len() == 2 * i,
                forall|k: int| 0 <= k < 2 * i ==> directions@[k] == fan_dir(step, k),
                forall|k: int|
                    0 <= k < directions@.len() ==> (#[trigger] directions@[k]).within(SCALE as int),
            decreases density - i,
        {
            cur = rotate_cw(cur, step);
            proof {
                crate::vector::lemma_within_length(cur, SCALE as int);
            }
            directions.push(cur);
            directions.push(Vec2 { x: -cur.x, y: cur.y });
            i += 1;
        }
        RayFan { density, directions }
    }

    /// The fan turned to `facing`: the directions to cast in world
    /// coordinates.
    pub fn world_directions(&self, facing: Vec2) -> (r: Vec<Vec2>)
        requires
            self.wf(),
            facing.within(SCALE as int),
        ensures
            r@ == self.directions@.map_values(|d: Vec2| rotated_cw(facing, d)),
            forall|k: int| 0 <= k < r@.len() ==> (#[trigger] r@[k]).within(2 * SCALE),
    {
        let mut r: Vec<Vec2> = Vec::new();
        let mut k: usize = 0;
        while k < self.directions.len()
            invariant
                0 <= k <= self.directions@.len(),
                self.wf(),
                facing.within(SCALE as int),
                r@ == self.directions@.take(k as int).map_values(|d: Vec2| rotated_cw(facing, d)),
                forall|j: int| 0 <= j < r@.len() ==> (#[trigger] r@[j]).within(2 * SCALE),
            decreases self.directions@.len() - k,
        {
            assert(self.directions@[k as int].within(SCALE as int));
            let d = rotate_cw(facing, self.directions[k]);
            r.push(d);
            assert(self.directions@.take(k as int + 1).map_values(|d: Vec2| rotated_cw(facing, d))
                =~= r@);
            k += 1;
        }
        assert(self.directions@.take(self.directions@.len() as int) =~= self.directions@);
        r
    }
}

/// The force toward a free ray direction `dir`: from the agent's heading
/// to the ray, of length `strength` divided by `dist` in world units.
pub open spec fn escape_steer(dir: Vec2, vel: Vec2, strength: int, dist: int) -> Vec2 {
    dir.scaled_to(SCALE as int).minus(vel.scaled_to(SCALE as int)).scaled_to(
        strength * SCALE / dist,
    )
}

/// Scans the rays from `k` on: the first without a hit gives the escape
/// force, with `dist` the nearest hit so far (at most one world unit).
/// Rays past the end of `hits` are not scanned.
pub open spec fn escape_from(
    dirs: Seq<Vec2>,
    hits: Seq<Option<i64>>,
    vel: Vec2,
    strength: int,
    k: int,
    dist: int,
) -> Option<Vec2>
    decreases dirs.len() - k,
{
    if k < 0 || k >= dirs.len() || k >= hits.len() {
        None
    } else {
        match hits[k] {
            None => Some(escape_steer(dirs[k], vel, strength, dist)),
            Some(h) => {
                let h = if h < MIN_HIT_DISTANCE {
                    MIN_HIT_DISTANCE as int
                } else {
                    h as int
                };
                escape_from(
                    dirs,
                    hits,
                    vel,
                    strength,
                    k + 1,
                    if h < dist {
                        h
                    } else {
                        dist
                    },
                )
            },
        }
    }
}

impl ObstacleAvoidance {
    /// The detection step: a tagged agent is avoiding exactly when its
    /// perception region sees an obstacle and its forward ray hits one. (The
    /// ray is half the vision radius long, so it lies inside the region: a
    /// region that sees no obstacle means a miss.) Untagged agents keep
    /// their state.
    pub open spec fn detected(b: Boid, sees_obstacle: bool, forward_hit: bool) -> Boid {
        if b.tags.has(Behaviour::ObstacleAvoidance) {
            Boid {
                avoiding: if sees_obstacle && forward_hit {
                    Some(AvoidObstacle)
                } else {
                    None
                },
                ..b
            }
        } else {
            b
        }
    }

    /// The avoidance step: an avoiding agent takes the escape force of the
    /// first free ray of the fan turned to its facing, if any, and always a
    /// braking force against its velocity of length `strength`.
    pub open spec fn avoided(b: Boid, fan: Seq<Vec2>, hits: Seq<Option<i64>>, strength: int) -> Boid {
        if b.avoiding is None {
            b
        } else {
            let dirs = fan.map_values(|d: Vec2| rotated_cw(b.facing, d));
            b.pushed_opt(escape_from(dirs, hits, b.vel, strength, 0, SCALE as int)).pushed(
                b.vel.scaled_to(strength).negated(),
            )
        }
    }

    /// The forward ray of the detection step: along the velocity (at unit
    /// length), as far as half the vision radius. None for an agent at rest,
    /// which has no forward direction.
    pub fn forward_ray(b: &Boid, vision_radius: i64) -> (r: Option<(Vec2, i64)>)
        requires
            b.valid(),
            0 <= vision_radius,
        ensures
            r is None <==> b.vel.len_sq() == 0,
            b.vel.len_sq() != 0 ==> r == Some((b.vel.scaled_to(SCALE as int), (vision_radius / 2) as i64)),
    {
        if b.vel.length_squared() == 0 {
            None
        } else {
            Some((b.vel.scale_to(SCALE), vision_radius / 2))
        }
    }

    /// Computes `detected`.
    pub fn detect(b: Boid, sees_obstacle: bool, forward_hit: bool) -> (r: Boid)
        ensures
            r == Self::detected(b, sees_obstacle, forward_hit),
    {
        if b.tags.has(Behaviour::ObstacleAvoidance) {
            Boid {
                avoiding: if sees_obstacle && forward_hit {
                    Some(AvoidObstacle)
                } else {
                    None
                },
                ..b
            }
        } else {
            b
        }
    }

    /// The first free ray's escape force; see `escape_from`.
    fn escape(dirs: &Vec<Vec2>, hits: &Vec<Option<i64>>, vel: Vec2, strength: i64) -> (r: Option<
        Vec2,
    >)
        requires
            forall|k: int| 0 <= k < dirs@.len() ==> (#[trigger] dirs@[k]).within(2 * SCALE),
            vel.within(COORD_LIMIT as int),
            0 <= strength <= PARAM_LIMIT,
        ensures
            r == escape_from(dirs@, hits@, vel, strength as int, 0, SCALE as int),
            r is Some ==> r->0.within(COORD_LIMIT as int),
    {
        let mut dist: i64 = SCALE;
        let mut k: usize = 0;
        while k < dirs.len() && k < hits.len()
            invariant
                0 <= k <= dirs@.len(),
                MIN_HIT_DISTANCE <= dist <= SCALE,
                forall|j: int| 0 <= j < dirs@.len() ==> (#[trigger] dirs@[j]).within(2 * SCALE),
                vel.within(COORD_LIMIT as int),
                0 <= strength <= PARAM_LIMIT,
                escape_from(dirs@, hits@, vel, strength as int, 0, SCALE as int) == escape_from(
                    dirs@,
                    hits@,
                    vel,
                    strength as int,
                    k as int,
                    dist as int,
                ),
            decreases dirs@.len() - k,
        {
            match hits[k] {
                None => {
                    assert(dirs@[k as int].within(2 * SCALE));
                    assert((strength * SCALE) as int / (dist as int) <= PARAM_LIMIT * SCALE) by (nonlinear_arith)
                        requires
                            0 <= strength <= PARAM_LIMIT,
                            1 <= dist,
                    ;
                    assert((strength * SCALE) as int / (dist as int) >= 0) by (nonlinear_arith)
                        requires
                            0 <= strength,
                            1 <= dist,
                    ;
                    let heading = dirs[k].scale_to(SCALE);
                    let current = vel.scale_to(SCALE);
                    let f = heading.sub(current).scale_to(strength * SCALE / dist);
                    return Some(f);
                },
                Some(h) => {
                    let h = if h < MIN_HIT_DISTANCE {
                        MIN_HIT_DISTANCE
                    } else {
                        h
                    };
                    if h < dist {
                        dist = h;
                    }
                },
            }
            k += 1;
        }
        None
    }

    /// Computes `avoided`.
    pub fn avoid(b: Boid, fan: &RayFan, hits: &Vec<Option<i64>>, strength: i64) -> (r: Boid)
        requires
            b.valid(),
            fan.wf(),
            0 <= strength <= PARAM_LIMIT,
        ensures
            r == Self::avoided(b, fan.directions@, hits@, strength as int),
            r.valid(),
    {
        if b.avoiding.is_none() {
            return b;
        }
        let dirs = fan.world_directions(b.facing);
        let mut dir = b.dir.0;
        if let Some(f) = Self::escape(&dirs, hits, b.vel, strength) {
            dir = dir.saturating_add(f);
        }
        let brake = b.vel.scale_to(strength).neg();
        Boid { dir: crate::boids::SteeringDirection(dir.saturating_add(brake)), ..b }
    }
}

/// The detection state machine: a forward hit on an obstacle in view puts
/// a tagged agent in the avoiding state; a miss, or the obstacle leaving its
/// view, takes it back to the clear state in one step, whatever state it
/// was in.
pub proof fn lemma_detection_transitions(b: Boid, sees_obstacle: bool, forward_hit: bool)
    requires
        b.tags.has(Behaviour::ObstacleAvoidance),
    ensures
        ObstacleAvoidance::detected(b, sees_obstacle, forward_hit).avoiding is Some <==> (
        sees_obstacle && forward_hit),
        ObstacleAvoidance::detected(b, true, true).avoiding is Some,
        ObstacleAvoidance::detected(
            ObstacleAvoidance::detected(b, true, true),
            true,
            false,
        ).avoiding is None,
        ObstacleAvoidance::detected(
            ObstacleAvoidance::detected(b, true, true),
            false,
            false,
        ).avoiding is None,
{
}

} // verus!
