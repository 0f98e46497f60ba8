//! The flock: agents, their perception regions and the targets, and the
//! per-tick chain of behaviours.
use crate::alignment::Alignment;
use crate::boids::{
    all_valid, apply_forces, rotate_boids, steer_boids, Behaviour, Boid, BoidVisionCone,
    Capabilities, SpawnBoid, SpecialBoid, SteeringDirection,
};
use crate::cohesion::Cohesion;
use crate::configuration::{ConfigurationStore, SimulationConfig, VisionRadius, PARAM_LIMIT};
use crate::obstacle_avoidance::{ObstacleAvoidance, RayFan};
use crate::obstacles::{Obstacle, SpawnObstacle};
use crate::perception::{perception_valid, tagged_values, BoidVisionQuery};
use crate::seek::{Chasing, Seek};
use crate::separation::Separation;
use crate::targets::{
    despawn_targets, seek_positions, seek_target_positions, survivors, targets_valid, FleeTarget,
    SeekTarget, SpawnTarget, Target,
};
use crate::vector::{Vec2, COORD_LIMIT, SCALE, SPAN_LIMIT};
use vstd::prelude::*;

verus! {

/// The force that behaviour `tag` puts on agent `i`, for the behaviours that
/// read the perceived agents.
pub open spec fn neighbour_steer_of(
    tag: Behaviour,
    boids: Seq<Boid>,
    ids: Seq<usize>,
    i: int,
    strength: int,
) -> Option<Vec2> {
    match tag {
        Behaviour::Separation => Separation::steer_of(boids, ids, i, strength),
        Behaviour::Cohesion => Cohesion::steer_of(boids, ids, i, strength),
        Behaviour::Alignment => Alignment::steer_of(boids, ids, i, strength),
        _ => None,
    }
}

/// An agent that perceives no agent carrying the tag of separation,
/// cohesion or alignment (in particular, one that perceives no agent at
/// all) is left unchanged by that behaviour's step.
pub proof fn lemma_no_neighbours_no_change(
    s: Seq<Boid>,
    perception: Seq<BoidVisionQuery>,
    tag: Behaviour,
    strength: int,
    j: int,
)
    requires
        0 <= j < s.len(),
        tag == Behaviour::Separation || tag == Behaviour::Cohesion || tag == Behaviour::Alignment,
        perception[j].colliding@.len() == 0 || tagged_values(
            s,
            perception[j].colliding@,
            tag,
            tag == Behaviour::Alignment,
        ).len() == 0,
    ensures
        neighbour_stage(s, perception, tag, strength)[j] == s[j],
{
}

/// Behaviour `tag` applied to every agent, each reading the agents it
/// perceives.
pub open spec fn neighbour_stage(
    s: Seq<Boid>,
    perception: Seq<BoidVisionQuery>,
    tag: Behaviour,
    strength: int,
) -> Seq<Boid> {
    Seq::new(
        s.len(),
        |j: int| s[j].pushed_opt(neighbour_steer_of(tag, s, perception[j].colliding@, j, strength)),
    )
}

pub open spec fn seek_stage(s: Seq<Boid>, targets: Seq<Vec2>, c: SimulationConfig) -> Seq<Boid> {
    s.map_values(
        |b: Boid| Seek::sought(b, targets, c.max_speed as int, c.seek_strength as int),
    )
}

pub open spec fn detection_stage(
    s: Seq<Boid>,
    perception: Seq<BoidVisionQuery>,
    forward_hits: Seq<bool>,
) -> Seq<Boid> {
    Seq::new(
        s.len(),
        |j: int| ObstacleAvoidance::detected(s[j], perception[j].sees_obstacle, forward_hits[j]),
    )
}

pub open spec fn avoidance_stage(
    s: Seq<Boid>,
    fan: Seq<Vec2>,
    fan_hits: Seq<Vec<Option<i64>>>,
    strength: int,
) -> Seq<Boid> {
    Seq::new(s.len(), |j: int| ObstacleAvoidance::avoided(s[j], fan, fan_hits[j]@, strength))
}

/// What the physics engine reports for one tick: for each agent, what its
/// perception region overlaps, whether its forward ray hits an obstacle,
/// and the hit distances of its avoidance fan, ray by ray (`None` for a ray
/// that hits nothing).
pub struct TickInput {
    pub perception: Vec<BoidVisionQuery>,
    pub forward_hits: Vec<bool>,
    pub fan_hits: Vec<Vec<Option<i64>>>,
}

impl TickInput {
    pub open spec fn valid(self, n: int) -> bool {
        &&& perception_valid(self.perception@, n)
        &&& self.forward_hits@.len() == n
        &&& self.fan_hits@.len() == n
    }
}

/// The agents after one tick: seek, obstacle detection, obstacle
/// avoidance, separation, cohesion, alignment, then orientation and
/// steering.
pub open spec fn ticked(
    s: Seq<Boid>,
    targets: Seq<Vec2>,
    c: SimulationConfig,
    max_force: int,
    max_speed: int,
    fan: Seq<Vec2>,
    input: TickInput,
) -> Seq<Boid> {
    let p = input.perception@;
    let s1 = seek_stage(s, targets, c);
    let s2 = detection_stage(s1, p, input.forward_hits@);
    let s3 = avoidance_stage(s2, fan, input.fan_hits@, c.obstacle_avoidance_strength as int);
    let s4 = neighbour_stage(s3, p, Behaviour::Separation, c.separation_strength as int);
    let s5 = neighbour_stage(s4, p, Behaviour::Cohesion, c.cohesion_strength as int);
    let s6 = neighbour_stage(s5, p, Behaviour::Alignment, c.alignment_strength as int);
    s6.map_values(|b: Boid| b.rotated()).map_values(|b: Boid| b.steered(max_force, max_speed))
}

/// The agent a spawn request creates: at rest, facing forward (+y), tagged
/// with every behaviour, its accumulator holding the requested direction
/// at unit length.
pub open spec fn spawned(req: SpawnBoid) -> Boid {
    Boid {
        pos: req.loc,
        vel: Vec2 { x: 0, y: 0 },
        facing: Vec2::unit_y(),
        dir: SteeringDirection(req.direction.scaled_to(SCALE as int)),
        tags: Capabilities {
            seek: true,
            separation: true,
            cohesion: true,
            alignment: true,
            obstacle_avoidance: true,
        },
        special: if req.special {
            Some(SpecialBoid)
        } else {
            None
        },
        chasing: None,
        avoiding: None,
    }
}

/// The seek step for every agent.
pub fn seek_behaviour(boids: &mut Vec<Boid>, targets: &Vec<Vec2>, config: &SimulationConfig)
    requires
        all_valid(old(boids)@),
        config.valid(),
        forall|k: int| 0 <= k < targets@.len() ==> (#[trigger] targets@[k]).within(COORD_LIMIT as int),
    ensures
        final(boids)@ == seek_stage(old(boids)@, targets@, *config),
        all_valid(final(boids)@),
{
    let n = boids.len();
    let mut i: usize = 0;
    while i < n
        invariant
            n == boids@.len() == old(boids)@.len(),
            0 <= i <= n,
            config.valid(),
            forall|k: int| 0 <= k < targets@.len() ==> (#[trigger] targets@[k]).within(COORD_LIMIT as int),
            forall|j: int| 0 <= j < i ==> boids@[j] == Seek::sought(old(boids)@[j], targets@, config.max_speed as int, config.seek_strength as int),
            forall|j: int| i <= j < n ==> boids@[j] == old(boids)@[j],
            all_valid(boids@),
        decreases n - i,
    {
        let mut b = boids[i];
        assert(boids@[i as int].valid());
        if b.tags.has(Behaviour::Seek) {
            let f = Seek::steer(&b, targets, config.max_speed, config.seek_strength);
            if let Some(f) = f {
                b.dir = SteeringDirection(b.dir.0.saturating_add(f));
            }
            b.chasing = if targets.len() > 0 {
                Some(Chasing)
            } else {
                None
            };
        }
        assert(b.valid());
        boids.set(i, b);
        i += 1;
    }
    assert(boids@ =~= seek_stage(old(boids)@, targets@, *config));
}

/// The detection step for every agent.
pub fn obstacle_detection(
    boids: &mut Vec<Boid>,
    perception: &Vec<BoidVisionQuery>,
    forward_hits: &Vec<bool>,
)
    requires
        all_valid(old(boids)@),
        perception@.len() == old(boids)@.len(),
        forward_hits@.len() == old(boids)@.len(),
    ensures
        final(boids)@ == detection_stage(old(boids)@, perception@, forward_hits@),
        all_valid(final(boids)@),
{
    let n = boids.len();
    let mut i: usize = 0;
    while i < n
        invariant
            n == boids@.len() == old(boids)@.len() == perception@.len() == forward_hits@.len(),
            0 <= i <= n,
            forall|j: int|
                0 <= j < i ==> boids@[j] == ObstacleAvoidance::detected(
                    old(boids)@[j],
                    perception@[j].sees_obstacle,
                    forward_hits@[j],
                ),
            forall|j: int| i <= j < n ==> boids@[j] == old(boids)@[j],
            all_valid(boids@),
        decreases n - i,
    {
        assert(boids@[i as int].valid());
        let b = ObstacleAvoidance::detect(boids[i], perception[i].sees_obstacle, forward_hits[i]);
        boids.set(i, b);
        i += 1;
    }
    assert(boids@ =~= detection_stage(old(boids)@, perception@, forward_hits@));
}

/// The avoidance step for every agent.
pub fn obstacle_avoidance(
    boids: &mut Vec<Boid>,
    fan: &RayFan,
    fan_hits: &Vec<Vec<Option<i64>>>,
    strength: i64,
)
    requires
        all_valid(old(boids)@),
        fan.wf(),
        fan_hits@.len() == old(boids)@.len(),
        0 <= strength <= PARAM_LIMIT,
    ensures
        final(boids)@ == avoidance_stage(old(boids)@, fan.directions@, fan_hits@, strength as int),
        all_valid(final(boids)@),
{
    let n = boids.len();
    let mut i: usize = 0;
    while i < n
        invariant
            n == boids@.len() == old(boids)@.len() == fan_hits@.len(),
            0 <= i <= n,
            fan.wf(),
            0 <= strength <= PARAM_LIMIT,
            forall|j: int|
                0 <= j < i ==> boids@[j] == ObstacleAvoidance::avoided(
                    old(boids)@[j],
                    fan.directions@,
                    fan_hits@[j]@,
                    strength as int,
                ),
            forall|j: int| i <= j < n ==> boids@[j] == old(boids)@[j],
            all_valid(boids@),
        decreases n - i,
    {
        assert(boids@[i as int].valid());
        let b = ObstacleAvoidance::avoid(boids[i], fan, &fan_hits[i], strength);
        boids.set(i, b);
        i += 1;
    }
    assert(boids@ =~= avoidance_stage(old(boids)@, fan.directions@, fan_hits@, strength as int));
}

fn neighbour_forces(
    boids: &Vec<Boid>,
    perception: &Vec<BoidVisionQuery>,
    tag: Behaviour,
    strength: i64,
) -> (r: Vec<Option<Vec2>>)
    requires
        all_valid(boids@),
        perception_valid(perception@, boids@.len() as int),
        0 <= strength <= PARAM_LIMIT,
    ensures
        r@.len() == boids@.len(),
        forall|j: int|
            0 <= j < r@.len() ==> #[trigger] r@[j] == neighbour_steer_of(
                tag,
                boids@,
                perception@[j].colliding@,
                j,
                strength as int,
            ),
        forall|j: int|
            0 <= j < r@.len() && (#[trigger] r@[j]) is Some ==> r@[j]->0.within(
                COORD_LIMIT as int,
            ),
{
    let mut r: Vec<Option<Vec2>> = Vec::new();
    let mut i: usize = 0;
    while i < boids.len()
        invariant
            0 <= i <= boids@.len(),
            all_valid(boids@),
            perception_valid(perception@, boids@.len() as int),
            0 <= strength <= PARAM_LIMIT,
            r@.len() == i,
            forall|j: int|
                0 <= j < i ==> #[trigger] r@[j] == neighbour_steer_of(
                    tag,
                    boids@,
                    perception@[j].colliding@,
                    j,
                    strength as int,
                ),
            forall|j: int|
                0 <= j < r@.len() && (#[trigger] r@[j]) is Some ==> r@[j]->0.within(
                    COORD_LIMIT as int,
                ),
        decreases boids@.len() - i,
    {
        let ids = &perception[i].colliding;
        assert(crate::perception::ids_valid(perception@[i as int].colliding@, boids@.len() as int));
        let f = match tag {
            Behaviour::Separation => Separation::steer(boids, ids, i, strength),
            Behaviour::Cohesion => Cohesion::steer(boids, ids, i, strength),
            Behaviour::Alignment => Alignment::steer(boids, ids, i, strength),
            _ => None,
        };
        r.push(f);
        i += 1;
    }
    r
}

fn neighbour_behaviour(
    boids: &mut Vec<Boid>,
    perception: &Vec<BoidVisionQuery>,
    tag: Behaviour,
    strength: i64,
)
    requires
        all_valid(old(boids)@),
        perception_valid(perception@, old(boids)@.len() as int),
        0 <= strength <= PARAM_LIMIT,
    ensures
        final(boids)@ == neighbour_stage(old(boids)@, perception@, tag, strength as int),
        all_valid(final(boids)@),
{
    let forces = neighbour_forces(boids, perception, tag, strength);
    apply_forces(boids, &forces);
    assert(boids@ =~= neighbour_stage(old(boids)@, perception@, tag, strength as int));
}

/// The separation step for every agent.
pub fn separation_behaviour(boids: &mut Vec<Boid>, perception: &Vec<BoidVisionQuery>, strength: i64)
    requires
        all_valid(old(boids)@),
        perception_valid(perception@, old(boids)@.len() as int),
        0 <= strength <= PARAM_LIMIT,
    ensures
        final(boids)@ == neighbour_stage(
            old(boids)@,
            perception@,
            Behaviour::Separation,
            strength as int,
        ),
        all_valid(final(boids)@),
{
    neighbour_behaviour(boids, perception, Behaviour::Separation, strength)
}

/// The cohesion step for every agent.
pub fn cohesion_behaviour(boids: &mut Vec<Boid>, perception: &Vec<BoidVisionQuery>, strength: i64)
    requires
        all_valid(old(boids)@),
        perception_valid(perception@, old(boids)@.len() as int),
        0 <= strength <= PARAM_LIMIT,
    ensures
        final(boids)@ == neighbour_stage(
            old(boids)@,
            perception@,
            Behaviour::Cohesion,
            strength as int,
        ),
        all_valid(final(boids)@),
{
    neighbour_behaviour(boids, perception, Behaviour::Cohesion, strength)
}

/// The alignment step for every agent.
pub fn alignment_behaviour(boids: &mut Vec<Boid>, perception: &Vec<BoidVisionQuery>, strength: i64)
    requires
        all_valid(old(boids)@),
        perception_valid(perception@, old(boids)@.len() as int),
        0 <= strength <= PARAM_LIMIT,
    ensures
        final(boids)@ == neighbour_stage(
            old(boids)@,
            perception@,
            Behaviour::Alignment,
            strength as int,
        ),
        all_valid(final(boids)@),
{
    neighbour_behaviour(boids, perception, Behaviour::Alignment, strength)
}

/// The agents, one perception region per agent (region `k` belongs to agent
/// `k`), the targets and the obstacles.
pub struct Flock {
    pub boids: Vec<Boid>,
    pub cones: Vec<BoidVisionCone>,
    pub targets: Vec<Target>,
    pub obstacles: Vec<Obstacle>,
}

/// Creates an agent and its perception region, of the given radius.
/// Returns the agent's index.
pub fn spawn_boid(flock: &mut Flock, req: SpawnBoid, vision_radius: &VisionRadius) -> (r: usize)
    requires
        old(flock).wf(),
        req.loc.within(COORD_LIMIT as int),
        req.direction.within(SPAN_LIMIT as int),
        0 <= vision_radius.0,
    ensures
        final(flock).wf(),
        r == old(flock).boids@.len(),
        final(flock).boids@ == old(flock).boids@.push(spawned(req)),
        final(flock).cones@ == old(flock).cones@.push(
            BoidVisionCone { parent: r, radius: vision_radius.0 },
        ),
        final(flock).targets@ == old(flock).targets@,
        final(flock).obstacles@ == old(flock).obstacles@,
{
    let id = flock.boids.len();
    let b = Boid {
        pos: req.loc,
        vel: Vec2::zero(),
        facing: Vec2::new(0, SCALE),
        dir: SteeringDirection(req.direction.scale_to(SCALE)),
        tags: Capabilities::all(),
        special: if req.special {
            Some(SpecialBoid)
        } else {
            None
        },
        chasing: None,
        avoiding: None,
    };
    flock.boids.push(b);
    flock.cones.push(BoidVisionCone { parent: id, radius: vision_radius.0 });
    assert(forall|k: int| 0 <= k < id ==> flock.boids@[k] == old(flock).boids@[k]);
    id
}

impl Flock {
    pub open spec fn wf(self) -> bool {
        &&& all_valid(self.boids@)
        &&& self.cones@.len() == self.boids@.len()
        &&& forall|k: int|
            0 <= k < self.cones@.len() ==> (#[trigger] self.cones@[k]).parent == k && 0
                <= self.cones@[k].radius
        &&& targets_valid(self.targets@)
    }

    /// An empty flock.
    pub fn new() -> (r: Flock)
        ensures
            r.wf(),
            r.boids@.len() == 0,
            r.cones@.len() == 0,
            r.targets@.len() == 0,
            r.obstacles@.len() == 0,
    {
        Flock { boids: Vec::new(), cones: Vec::new(), targets: Vec::new(), obstacles: Vec::new() }
    }

    /// Adds the obstacle a request creates.
    pub fn spawn_obstacle(&mut self, req: &SpawnObstacle)
        requires
            old(self).wf(),
        ensures
            final(self).wf(),
            final(self).obstacles@ == old(self).obstacles@.push(
                Obstacle { shape: req.obstacle_type, pos: req.pos, rotation: req.angle },
            ),
            final(self).boids@ == old(self).boids@,
            final(self).cones@ == old(self).cones@,
            final(self).targets@ == old(self).targets@,
    {
        self.obstacles.push(req.obstacle());
    }

    /// Adds the target a seek request creates.
    pub fn spawn_seek_target(&mut self, req: &SpawnTarget<SeekTarget>)
        requires
            old(self).wf(),
            req.pos.within(COORD_LIMIT as int),
        ensures
            final(self).wf(),
            final(self).targets@ == old(self).targets@.push(
                Target { pos: req.pos, kind: crate::targets::TargetKind::Seek },
            ),
            final(self).boids@ == old(self).boids@,
            final(self).cones@ == old(self).cones@,
            final(self).obstacles@ == old(self).obstacles@,
    {
        self.targets.push(req.target());
    }

    /// Adds the target a flee request creates.
    pub fn spawn_flee_target(&mut self, req: &SpawnTarget<FleeTarget>)
        requires
            old(self).wf(),
            req.pos.within(COORD_LIMIT as int),
        ensures
            final(self).wf(),
            final(self).targets@ == old(self).targets@.push(
                Target { pos: req.pos, kind: crate::targets::TargetKind::Flee },
            ),
            final(self).boids@ == old(self).boids@,
            final(self).cones@ == old(self).cones@,
            final(self).obstacles@ == old(self).obstacles@,
    {
        self.targets.push(req.target());
    }

    /// Removes the targets that agents touch; `touching[k]` lists the
    /// entities whose bodies overlap target `k`.
    pub fn capture_targets(&mut self, touching: &Vec<Vec<usize>>)
        requires
            old(self).wf(),
            touching@.len() == old(self).targets@.len(),
        ensures
            final(self).wf(),
            final(self).targets@ == survivors(
                old(self).targets@,
                touching@,
                old(self).boids@.len() as int,
            ),
            final(self).boids@ == old(self).boids@,
            final(self).cones@ == old(self).cones@,
            final(self).obstacles@ == old(self).obstacles@,
    {
        let n = self.boids.len();
        despawn_targets(&mut self.targets, touching, n);
    }

    /// Gives every perception region the radius `vision_radius`.
    pub fn update_vision_colliders(&mut self, vision_radius: &VisionRadius)
        requires
            old(self).wf(),
            0 <= vision_radius.0,
        ensures
            final(self).wf(),
            final(self).boids@ == old(self).boids@,
            final(self).targets@ == old(self).targets@,
            final(self).obstacles@ == old(self).obstacles@,
            final(self).cones@.len() == old(self).cones@.len(),
            forall|k: int|
                0 <= k < final(self).cones@.len() ==> (#[trigger] final(self).cones@[k]).radius
                    == vision_radius.0,
    {
        let n = self.cones.len();
        let mut k: usize = 0;
        while k < n
            invariant
                n == self.cones@.len() == old(self).cones@.len(),
                0 <= k <= n,
                0 <= vision_radius.0,
                self.boids@ == old(self).boids@,
                self.targets@ == old(self).targets@,
                self.obstacles@ == old(self).obstacles@,
                forall|j: int| 0 <= j < n ==> (#[trigger] self.cones@[j]).parent == j,
                forall|j: int| 0 <= j < n ==> 0 <= (#[trigger] self.cones@[j]).radius,
                forall|j: int| 0 <= j < k ==> (#[trigger] self.cones@[j]).radius == vision_radius.0,
                old(self).wf(),
            decreases n - k,
        {
            let parent = self.cones[k].parent;
            self.cones.set(k, BoidVisionCone { parent, radius: vision_radius.0 });
            k += 1;
        }
    }

    /// Runs one tick. Pending configuration changes are applied first (and a
    /// new vision radius pushed to the perception regions); then every
    /// behaviour runs in order, then orientation and steering. The fan must
    /// be the one built for the configured density: a caller that changes
    /// the density rebuilds it before the tick.
    pub fn tick(&mut self, store: &mut ConfigurationStore, fan: &RayFan, input: &TickInput)
        requires
            old(self).wf(),
            old(store).wf(),
            fan.wf(),
            fan.density == old(store).config.obstacle_detection_density,
            input.valid(old(self).boids@.len() as int),
        ensures
            final(self).wf(),
            final(store).wf(),
            final(store).config == old(store).config,
            !final(store).changed,
            final(store).derived_up_to_date(),
            final(self).boids@ == ticked(
                old(self).boids@,
                seek_positions(old(self).targets@),
                final(store).config,
                final(store).max_force.0 as int,
                final(store).max_speed.0 as int,
                fan.directions@,
                *input,
            ),
            final(self).targets@ == old(self).targets@,
            final(self).obstacles@ == old(self).obstacles@,
            forall|j: int|
                0 <= j < final(self).boids@.len() ==> #[trigger] final(self).boids@[j].vel.len_sq()
                    <= final(store).max_speed.0 * final(store).max_speed.0,
            old(store).changed ==> forall|k: int|
                0 <= k < final(self).cones@.len() ==> (#[trigger] final(self).cones@[k]).radius
                    == final(store).vision_radius.0,
            !old(store).changed ==> final(self).cones@ == old(self).cones@,
    {
        if store.apply_changes() {
            self.update_vision_colliders(&store.vision_radius);
        }
        let c = store.config;
        let targets = seek_target_positions(&self.targets);
        let p = &input.perception;
        seek_behaviour(&mut self.boids, &targets, &c);
        obstacle_detection(&mut self.boids, p, &input.forward_hits);
        obstacle_avoidance(&mut self.boids, fan, &input.fan_hits, c.obstacle_avoidance_strength);
        separation_behaviour(&mut self.boids, p, c.separation_strength);
        cohesion_behaviour(&mut self.boids, p, c.cohesion_strength);
        alignment_behaviour(&mut self.boids, p, c.alignment_strength);
        rotate_boids(&mut self.boids);
        steer_boids(&mut self.boids, &store.max_force, &store.max_speed);
    }
}

} // verus!
