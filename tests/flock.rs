use flocking::boids::{
    integrate_velocity, rotate_boids, screenwrap_boids, steer_boids, Behaviour, BoidCollider,
    Capabilities, SpawnBoid, SpecialBoid, SteeringDirection,
};
use flocking::configuration::{
    ConfigField, ConfigurationStore, MaxForce, MaxSpeed, SimulationConfig, VisionRadius,
};
use flocking::flock::{spawn_boid, Flock, TickInput};
use flocking::obstacle_avoidance::RayFan;
use flocking::obstacles::SpawnObstacle;
use flocking::perception::BoidVisionQuery;
use flocking::targets::{
    despawn_targets, seek_target_positions, FleeTarget, SeekTarget, SpawnTarget, Target,
    TargetKind,
};
use flocking::vector::{Vec2, SCALE};

fn spawn(flock: &mut Flock, x: i64, y: i64, tags: Capabilities) -> usize {
    let req = SpawnBoid { loc: Vec2::new(x, y), direction: Vec2::new(SCALE, 0), special: false };
    let id = spawn_boid(flock, req, &VisionRadius(225_000));
    flock.boids[id].tags = tags;
    id
}

fn quiet_input(colliding: Vec<Vec<usize>>) -> TickInput {
    let n = colliding.len();
    TickInput {
        perception: colliding
            .into_iter()
            .map(|c| BoidVisionQuery { colliding: c, sees_obstacle: false })
            .collect(),
        forward_hits: vec![false; n],
        fan_hits: vec![vec![]; n],
    }
}

fn default_fan() -> RayFan {
    RayFan::new(10, Vec2::new(282, 959))
}

#[test]
fn two_agents_push_each_other_apart_symmetrically() {
    let mut flock = Flock::new();
    let tags = Capabilities::none().with(Behaviour::Separation);
    let a = spawn(&mut flock, 0, 0, tags);
    let b = spawn(&mut flock, 10_000, 0, tags);
    flock.boids[a].dir = SteeringDirection(Vec2::zero());
    flock.boids[b].dir = SteeringDirection(Vec2::zero());
    let mut store = ConfigurationStore::new(SimulationConfig::default());
    store.set(ConfigField::SeparationStrength, 100_000);
    flock.tick(&mut store, &default_fan(), &quiet_input(vec![vec![b], vec![a]]));
    assert_eq!(flock.boids[a].dir.0, Vec2::new(-100_000, 0));
    assert_eq!(flock.boids[b].dir.0, Vec2::new(100_000, 0));
    assert!(flock.boids[a].vel.x < 0);
    assert!(flock.boids[b].vel.x > 0);
    assert_eq!(flock.boids[a].vel.x, -flock.boids[b].vel.x);
}

#[test]
fn single_agent_seeks_a_target_ahead() {
    let mut flock = Flock::new();
    let a = spawn(&mut flock, 0, 0, Capabilities::none().with(Behaviour::Seek));
    flock.spawn_seek_target(&SpawnTarget::<SeekTarget>::new(Vec2::new(100_000, 0)));
    let mut store = ConfigurationStore::new(SimulationConfig::default());
    store.set(ConfigField::MaxSpeed, 150_000);
    store.set(ConfigField::SeekStrength, 1000);
    flock.tick(&mut store, &default_fan(), &quiet_input(vec![vec![]]));
    let v = flock.boids[a].vel;
    assert!(v.x > 0);
    assert_eq!(v.y, 0);
    // The spawn direction (one unit along +x) plus the seek force.
    assert_eq!(v, Vec2::new(2000, 0));
}

#[test]
fn tick_applies_configuration_changes_to_perception_regions() {
    let mut flock = Flock::new();
    spawn(&mut flock, 0, 0, Capabilities::none());
    let mut store = ConfigurationStore::new(SimulationConfig::default());
    flock.tick(&mut store, &default_fan(), &quiet_input(vec![vec![]]));
    assert_eq!(flock.cones[0].radius, 225_000);
    store.set(ConfigField::VisionRadius, 2000);
    flock.tick(&mut store, &default_fan(), &quiet_input(vec![vec![]]));
    assert_eq!(flock.cones[0].radius, 300_000);
    assert!(!store.changed);
}

#[test]
fn tick_runs_obstacle_detection_and_avoidance() {
    let mut flock = Flock::new();
    let a = spawn(&mut flock, 0, 0, Capabilities::none().with(Behaviour::ObstacleAvoidance));
    flock.boids[a].vel = Vec2::new(1000, 0);
    flock.boids[a].facing = Vec2::new(1000, 0);
    flock.boids[a].dir = SteeringDirection(Vec2::zero());
    let mut store = ConfigurationStore::new(SimulationConfig::default());
    store.set(ConfigField::ObstacleDetectionDensity, 1);
    let fan = RayFan::new(1, Vec2::new(1000, 0));
    let input = TickInput {
        perception: vec![BoidVisionQuery { colliding: vec![], sees_obstacle: true }],
        forward_hits: vec![true],
        fan_hits: vec![vec![Some(500), None]],
    };
    flock.tick(&mut store, &fan, &input);
    assert!(flock.boids[a].avoiding.is_some());
    assert_eq!(flock.boids[a].dir.0, Vec2::new(-4826, 2826));
    let clear = TickInput {
        perception: vec![BoidVisionQuery { colliding: vec![], sees_obstacle: true }],
        forward_hits: vec![false],
        fan_hits: vec![vec![]],
    };
    flock.tick(&mut store, &fan, &clear);
    assert!(flock.boids[a].avoiding.is_none());
    flock.tick(&mut store, &fan, &input);
    assert!(flock.boids[a].avoiding.is_some());
    let gone = TickInput {
        perception: vec![BoidVisionQuery { colliding: vec![], sees_obstacle: false }],
        forward_hits: vec![false],
        fan_hits: vec![vec![]],
    };
    flock.tick(&mut store, &fan, &gone);
    assert!(flock.boids[a].avoiding.is_none());
}

#[test]
fn spawned_agents_start_at_rest_with_every_behaviour() {
    let mut flock = Flock::new();
    let req = SpawnBoid { loc: Vec2::new(1, 2), direction: Vec2::new(0, 5), special: true };
    let id = spawn_boid(&mut flock, req, &VisionRadius(42));
    assert_eq!(id, 0);
    let b = flock.boids[0];
    assert_eq!(b.pos, Vec2::new(1, 2));
    assert_eq!(b.vel, Vec2::zero());
    assert_eq!(b.facing, Vec2::new(0, SCALE));
    assert_eq!(b.dir.0, Vec2::new(0, SCALE));
    assert_eq!(b.tags, Capabilities::all());
    assert_eq!(b.special, Some(SpecialBoid));
    assert_eq!(flock.cones[0].parent, 0);
    assert_eq!(flock.cones[0].radius, 42);
}

#[test]
fn integration_never_exceeds_the_largest_speed() {
    let v = integrate_velocity(
        Vec2::new(140_000, 0),
        Vec2::new(1_000_000_000, 1_000_000_000),
        1_000_000_000,
        150_000,
    );
    assert!(v.length_squared() <= 150_000u64 * 150_000);
    let w = integrate_velocity(Vec2::zero(), Vec2::new(3000, 4000), 1000, 150_000);
    assert_eq!(w, Vec2::new(600, 800));
}

#[test]
fn steer_reads_but_keeps_the_accumulator() {
    let mut flock = Flock::new();
    spawn(&mut flock, 0, 0, Capabilities::none());
    flock.boids[0].dir = SteeringDirection(Vec2::new(0, 5000));
    steer_boids(&mut flock.boids, &MaxForce(1000), &MaxSpeed(150_000));
    assert_eq!(flock.boids[0].vel, Vec2::new(0, 1000));
    assert_eq!(flock.boids[0].dir.0, Vec2::new(0, 5000));
}

#[test]
fn facing_follows_velocity() {
    let mut flock = Flock::new();
    spawn(&mut flock, 0, 0, Capabilities::none());
    spawn(&mut flock, 0, 0, Capabilities::none());
    flock.boids[0].vel = Vec2::new(-3000, 4000);
    rotate_boids(&mut flock.boids);
    assert_eq!(flock.boids[0].facing, Vec2::new(-600, 800));
    assert_eq!(flock.boids[1].facing, Vec2::new(0, SCALE));
}

#[test]
fn screenwrap_moves_agents_to_the_opposite_edge() {
    let mut flock = Flock::new();
    spawn(&mut flock, 600, -20, Capabilities::none());
    spawn(&mut flock, -700, 400, Capabilities::none());
    spawn(&mut flock, 10, 10, Capabilities::none());
    screenwrap_boids(&mut flock.boids, Vec2::new(1000, 800));
    assert_eq!(flock.boids[0].pos, Vec2::new(-500, -20));
    assert_eq!(flock.boids[1].pos, Vec2::new(500, 400));
    assert_eq!(flock.boids[2].pos, Vec2::new(10, 10));
}

#[test]
fn targets_touched_by_agents_are_removed() {
    let mut targets = vec![
        Target { pos: Vec2::new(1, 1), kind: TargetKind::Seek },
        Target { pos: Vec2::new(2, 2), kind: TargetKind::Flee },
        Target { pos: Vec2::new(3, 3), kind: TargetKind::Seek },
    ];
    // Entity 7 is not an agent of a three-agent flock.
    despawn_targets(&mut targets, &vec![vec![7], vec![0], vec![]], 3);
    assert_eq!(
        targets,
        vec![
            Target { pos: Vec2::new(1, 1), kind: TargetKind::Seek },
            Target { pos: Vec2::new(3, 3), kind: TargetKind::Seek },
        ]
    );
}

#[test]
fn flock_captures_targets_and_keeps_obstacles() {
    let mut flock = Flock::new();
    spawn(&mut flock, 0, 0, Capabilities::none());
    flock.spawn_seek_target(&SpawnTarget::<SeekTarget>::new(Vec2::new(5, 5)));
    flock.spawn_flee_target(&SpawnTarget::<FleeTarget>::new(Vec2::new(6, 6)));
    flock.spawn_obstacle(&SpawnObstacle::circle(4000));
    assert_eq!(seek_target_positions(&flock.targets), vec![Vec2::new(5, 5)]);
    assert_eq!(flock.targets[1].kind.radius(), 10 * SCALE);
    flock.capture_targets(&vec![vec![], vec![0]]);
    assert_eq!(flock.targets.len(), 1);
    assert_eq!(flock.targets[0].kind, TargetKind::Seek);
    assert_eq!(flock.obstacles.len(), 1);
}

#[test]
fn agent_body_is_a_triangle() {
    let c = BoidCollider::triangle();
    assert_eq!(c.tip, Vec2::new(0, 10 * SCALE));
    assert_eq!(c.left, Vec2::new(-5 * SCALE, -10 * SCALE));
    assert_eq!(c.right, Vec2::new(5 * SCALE, -10 * SCALE));
}
