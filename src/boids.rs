//! Agents, their perception regions, and the integration step that turns
//! the steering accumulator into a velocity.
use crate::configuration::{MaxForce, MaxSpeed};
use crate::obstacle_avoidance::AvoidObstacle;
use crate::seek::Chasing;
use crate::vector::{Vec2, COORD_LIMIT, SCALE};
use vstd::prelude::*;

verus! {

/// The behaviours an agent can be tagged with.
#[derive(Clone, Copy, Debug, PartialEq, Eq, Structural)]
pub enum Behaviour {
    Seek,
    Separation,
    Cohesion,
    Alignment,
    ObstacleAvoidance,
}

/// The set of behaviours an agent takes part in.
#[derive(Clone, Copy, Debug, PartialEq, Eq, Structural)]
pub struct Capabilities {
    pub seek: bool,
    pub separation: bool,
    pub cohesion: bool,
    pub alignment: bool,
    pub obstacle_avoidance: bool,
}

impl Capabilities {
    pub open spec fn spec_has(self, b: Behaviour) -> bool {
        match b {
            Behaviour::Seek => self.seek,
            Behaviour::Separation => self.separation,
            Behaviour::Cohesion => self.cohesion,
            Behaviour::Alignment => self.alignment,
            Behaviour::ObstacleAvoidance => self.obstacle_avoidance,
        }
    }

    #[verifier::when_used_as_spec(spec_has)]
    pub fn has(self, b: Behaviour) -> (r: bool)
        ensures
            r == self.spec_has(b),
    {
        match b {
            Behaviour::Seek => self.seek,
            Behaviour::Separation => self.separation,
            Behaviour::Cohesion => self.cohesion,
            Behaviour::Alignment => self.alignment,
            Behaviour::ObstacleAvoidance => self.obstacle_avoidance,
        }
    }

    /// Every behaviour.
    pub fn all() -> (r: Capabilities)
        ensures
            forall|b: Behaviour| r.has(b),
            r == (Capabilities {
                seek: true,
                separation: true,
                cohesion: true,
                alignment: true,
                obstacle_avoidance: true,
            }),
    {
        Capabilities {
            seek: true,
            separation: true,
            cohesion: true,
            alignment: true,
            obstacle_avoidance: true,
        }
    }

    /// No behaviour.
    pub fn none() -> (r: Capabilities)
        ensures
            forall|b: Behaviour| !r.has(b),
            r == (Capabilities {
                seek: false,
                separation: false,
                cohesion: false,
                alignment: false,
                obstacle_avoidance: false,
            }),
    {
        Capabilities {
            seek: false,
            separation: false,
            cohesion: false,
            alignment: false,
            obstacle_avoidance: false,
        }
    }

    /// `self` with behaviour `b` added.
    pub fn with(self, b: Behaviour) -> (r: Capabilities)
        ensures
            r.has(b),
            forall|c: Behaviour| c != b ==> r.has(c) == self.has(c),
    {
        match b {
            Behaviour::Seek => Capabilities { seek: true, ..self },
            Behaviour::Separation => Capabilities { separation: true, ..self },
            Behaviour::Cohesion => Capabilities { cohesion: true, ..self },
            Behaviour::Alignment => Capabilities { alignment: true, ..self },
            Behaviour::ObstacleAvoidance => Capabilities { obstacle_avoidance: true, ..self },
        }
    }
}

/// The steering accumulator of an agent: the sum of the forces its
/// behaviours applied. It is read, not cleared, by the integration step.
#[derive(Clone, Copy, Debug, PartialEq, Eq, Structural)]
pub struct SteeringDirection(pub Vec2);

impl Default for SteeringDirection {
    fn default() -> (r: SteeringDirection)
        ensures
            r.0 == Vec2::unit_x(),
    {
        SteeringDirection(Vec2 { x: SCALE, y: 0 })
    }
}

/// An agent.
#[derive(Clone, Copy, Debug, PartialEq, Eq, Structural)]
pub struct Boid {
    pub pos: Vec2,
    pub vel: Vec2,
    /// The unit direction the agent faces; it follows the velocity one tick
    /// late.
    pub facing: Vec2,
    pub dir: SteeringDirection,
    pub tags: Capabilities,
    /// Present on the debug agent, which is drawn apart from the others.
    pub special: Option<SpecialBoid>,
    /// Present when some seek target existed at the agent's last seek step.
    pub chasing: Option<Chasing>,
    /// Present while the agent is avoiding an obstacle.
    pub avoiding: Option<AvoidObstacle>,
}

/// Marks the debug agent.
#[derive(Clone, Copy, Debug, PartialEq, Eq, Structural)]
pub struct SpecialBoid;

impl Boid {
    pub open spec fn valid(self) -> bool {
        &&& self.pos.within(COORD_LIMIT as int)
        &&& self.vel.within(COORD_LIMIT as int)
        &&& self.dir.0.within(COORD_LIMIT as int)
        &&& self.facing.within(SCALE as int)
    }

    /// `self` with `f` added to its steering accumulator.
    pub open spec fn pushed(self, f: Vec2) -> Boid {
        Boid { dir: SteeringDirection(self.dir.0.saturating_plus(f)), ..self }
    }

    /// `self` with `f`, if any, added to its steering accumulator.
    pub open spec fn pushed_opt(self, f: Option<Vec2>) -> Boid {
        match f {
            Some(f) => self.pushed(f),
            None => self,
        }
    }

    /// The orientation step: the facing becomes the direction of the current
    /// velocity; a zero velocity leaves it as it was.
    pub open spec fn rotated(self) -> Boid {
        if self.vel.len_sq() == 0 {
            self
        } else {
            Boid { facing: self.vel.scaled_to(SCALE as int), ..self }
        }
    }

    /// The steering step: the accumulator, clamped to `max_force`, is added
    /// to the velocity, which is then clamped to `max_speed`.
    pub open spec fn steered(self, max_force: int, max_speed: int) -> Boid {
        Boid {
            vel: self.vel.plus(self.dir.0.clamped_max(max_force)).clamped_max(max_speed),
            ..self
        }
    }
}

/// Every agent of `s` is valid.
pub open spec fn all_valid(s: Seq<Boid>) -> bool {
    forall|j: int| 0 <= j < s.len() ==> #[trigger] s[j].valid()
}

/// Adds each force to the accumulator of the agent at the same index.
pub fn apply_forces(boids: &mut Vec<Boid>, forces: &Vec<Option<Vec2>>)
    requires
        all_valid(old(boids)@),
        forces@.len() == old(boids)@.len(),
        forall|j: int|
            0 <= j < forces@.len() && (#[trigger] forces@[j]) is Some ==> forces@[j]->0.within(
                COORD_LIMIT as int,
            ),
    ensures
        final(boids)@ == Seq::new(
            old(boids)@.len(),
            |j: int| old(boids)@[j].pushed_opt(forces@[j]),
        ),
        all_valid(final(boids)@),
{
    let n = boids.len();
    let mut i: usize = 0;
    while i < n
        invariant
            n == boids@.len() == old(boids)@.len() == forces@.len(),
            0 <= i <= n,
            forall|j: int| 0 <= j < i ==> boids@[j] == old(boids)@[j].pushed_opt(forces@[j]),
            forall|j: int| i <= j < n ==> boids@[j] == old(boids)@[j],
            all_valid(old(boids)@),
            all_valid(boids@),
            forall|j: int|
                0 <= j < forces@.len() && (#[trigger] forces@[j]) is Some ==> forces@[j]->0.within(
                    COORD_LIMIT as int,
                ),
        decreases n - i,
    {
        if let Some(f) = forces[i] {
            let mut b = boids[i];
            assert(boids@[i as int].valid());
            b.dir = SteeringDirection(b.dir.0.saturating_add(f));
            assert(b.valid());
            boids.set(i, b);
        }
        i += 1;
    }
    assert(boids@ =~= Seq::new(n as nat, |j: int| old(boids)@[j].pushed_opt(forces@[j])));
}

/// The orientation step for every agent.
pub fn rotate_boids(boids: &mut Vec<Boid>)
    requires
        all_valid(old(boids)@),
    ensures
        final(boids)@ == old(boids)@.map_values(|b: Boid| b.rotated()),
        all_valid(final(boids)@),
{
    let n = boids.len();
    let mut i: usize = 0;
    while i < n
        invariant
            n == boids@.len() == old(boids)@.len(),
            0 <= i <= n,
            forall|j: int| 0 <= j < i ==> boids@[j] == old(boids)@[j].rotated(),
            forall|j: int| i <= j < n ==> boids@[j] == old(boids)@[j],
            all_valid(boids@),
        decreases n - i,
    {
        let mut b = boids[i];
        assert(boids@[i as int].valid());
        if b.vel.length_squared() != 0 {
            b.facing = b.vel.scale_to(SCALE);
        }
        assert(b.valid());
        boids.set(i, b);
        i += 1;
    }
    assert(boids@ =~= old(boids)@.map_values(|b: Boid| b.rotated()));
}

/// The steering step for every agent; no velocity comes out longer than the
/// largest speed.
pub fn steer_boids(boids: &mut Vec<Boid>, max_force: &MaxForce, max_speed: &MaxSpeed)
    requires
        all_valid(old(boids)@),
        0 <= max_force.0 <= COORD_LIMIT,
        0 <= max_speed.0 <= COORD_LIMIT,
    ensures
        final(boids)@ == old(boids)@.map_values(
            |b: Boid| b.steered(max_force.0 as int, max_speed.0 as int),
        ),
        forall|j: int|
            0 <= j < final(boids)@.len() ==> #[trigger] final(boids)@[j].vel.len_sq() <= max_speed.0
                * max_speed.0,
        all_valid(final(boids)@),
{
    let n = boids.len();
    let mut i: usize = 0;
    while i < n
        invariant
            n == boids@.len() == old(boids)@.len(),
            0 <= i <= n,
            0 <= max_force.0 <= COORD_LIMIT,
            0 <= max_speed.0 <= COORD_LIMIT,
            forall|j: int|
                0 <= j < i ==> boids@[j] == old(boids)@[j].steered(
                    max_force.0 as int,
                    max_speed.0 as int,
                ),
            forall|j: int| 0 <= j < i ==> #[trigger] boids@[j].vel.len_sq() <= max_speed.0 * max_speed.0,
            forall|j: int| i <= j < n ==> boids@[j] == old(boids)@[j],
            all_valid(boids@),
        decreases n - i,
    {
        let mut b = boids[i];
        assert(boids@[i as int].valid());
        b.vel = integrate_velocity(b.vel, b.dir.0, max_force.0, max_speed.0);
        assert(b.valid());
        boids.set(i, b);
        i += 1;
    }
    assert(boids@ =~= old(boids)@.map_values(
        |b: Boid| b.steered(max_force.0 as int, max_speed.0 as int),
    ));
}

/// One velocity update: `clamp(vel + clamp(steer, max_force), max_speed)`.
pub fn integrate_velocity(vel: Vec2, steer: Vec2, max_force: i64, max_speed: i64) -> (r: Vec2)
    requires
        vel.within(COORD_LIMIT as int),
        steer.within(COORD_LIMIT as int),
        0 <= max_force <= COORD_LIMIT,
        0 <= max_speed <= COORD_LIMIT,
    ensures
        r == vel.plus(steer.clamped_max(max_force as int)).clamped_max(max_speed as int),
        r.len_sq() <= max_speed * max_speed,
        r.within(max_speed as int),
{
    let force = steer.clamp_length_max(max_force);
    vel.add(force).clamp_length_max(max_speed)
}

/// `num` moved to the opposite edge when it leaves `[-half, half]`.
pub open spec fn wrapped(num: int, half: int) -> int {
    if num > half {
        -half
    } else if num < -half {
        half
    } else {
        num
    }
}

fn wrap(num: i64, half: i64) -> (r: i64)
    requires
        0 <= half,
        half <= COORD_LIMIT,
    ensures
        r == wrapped(num as int, half as int),
{
    if num > half {
        -half
    } else if num < -half {
        half
    } else {
        num
    }
}

/// Moves agents that left a window of `window_size` centred on the origin to
/// the opposite edge.
pub fn screenwrap_boids(boids: &mut Vec<Boid>, window_size: Vec2)
    requires
        all_valid(old(boids)@),
        0 <= window_size.x <= 2 * COORD_LIMIT,
        0 <= window_size.y <= 2 * COORD_LIMIT,
    ensures
        final(boids)@.len() == old(boids)@.len(),
        all_valid(final(boids)@),
        forall|j: int|
            0 <= j < old(boids)@.len() ==> #[trigger] final(boids)@[j] == (Boid {
                pos: Vec2 {
                    x: wrapped(old(boids)@[j].pos.x as int, window_size.x / 2) as i64,
                    y: wrapped(old(boids)@[j].pos.y as int, window_size.y / 2) as i64,
                },
                ..old(boids)@[j]
            }),
{
    let half_width: i64 = window_size.x / 2;
    let half_height: i64 = window_size.y / 2;
    let n = boids.len();
    let mut i: usize = 0;
    while i < n
        invariant
            n == boids@.len() == old(boids)@.len(),
            0 <= i <= n,
            half_width == window_size.x / 2,
            half_height == window_size.y / 2,
            0 <= half_width <= COORD_LIMIT,
            0 <= half_height <= COORD_LIMIT,
            forall|j: int|
                0 <= j < i ==> #[trigger] boids@[j] == (Boid {
                    pos: Vec2 {
                        x: wrapped(old(boids)@[j].pos.x as int, half_width as int) as i64,
                        y: wrapped(old(boids)@[j].pos.y as int, half_height as int) as i64,
                    },
                    ..old(boids)@[j]
                }),
            forall|j: int| i <= j < n ==> boids@[j] == old(boids)@[j],
            all_valid(boids@),
            all_valid(old(boids)@),
        decreases n - i,
    {
        let mut b = boids[i];
        assert(boids@[i as int].valid());
        b.pos = Vec2 { x: wrap(b.pos.x, half_width), y: wrap(b.pos.y, half_height) };
        assert(b.valid());
        boids.set(i, b);
        i += 1;
    }
}

/// A request to create an agent: where, facing which way (a direction, of
/// any non-zero length), and whether it is the debug agent.
#[derive(Clone, Copy, Debug, PartialEq, Eq, Structural)]
pub struct SpawnBoid {
    pub loc: Vec2,
    pub direction: Vec2,
    pub special: bool,
}

/// The body of an agent: a triangle in the agent's frame (forward is +y),
/// which targets touch to be captured.
#[derive(Clone, Copy, Debug, PartialEq, Eq, Structural)]
pub struct BoidCollider {
    pub tip: Vec2,
    pub left: Vec2,
    pub right: Vec2,
}

impl BoidCollider {
    /// The body of every agent: ten world units from the centre to the tip
    /// and to the base, five to either side of the base.
    pub fn triangle() -> (r: BoidCollider)
        ensures
            r.tip.x == 0 && r.tip.y == 10 * SCALE,
            r.left.x == -5 * SCALE && r.left.y == -10 * SCALE,
            r.right.x == 5 * SCALE && r.right.y == -10 * SCALE,
    {
        BoidCollider {
            tip: Vec2 { x: 0, y: 10 * SCALE },
            left: Vec2 { x: -5 * SCALE, y: -10 * SCALE },
            right: Vec2 { x: 5 * SCALE, y: -10 * SCALE },
        }
    }
}

/// The perception region of an agent: which agent owns it, and its radius.
#[derive(Clone, Copy, Debug, PartialEq, Eq, Structural)]
pub struct BoidVisionCone {
    pub parent: usize,
    pub radius: i64,
}

} // verus!
