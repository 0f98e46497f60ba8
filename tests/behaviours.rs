use flocking::alignment::Alignment;
use flocking::boids::{Behaviour, Boid, Capabilities, SteeringDirection};
use flocking::cohesion::Cohesion;
use flocking::flock::{alignment_behaviour, cohesion_behaviour, separation_behaviour};
use flocking::perception::BoidVisionQuery;
use flocking::seek::{nearest, Chasing, Seek};
use flocking::separation::{push_from, Separation};
use flocking::vector::{Vec2, SCALE};

fn agent(x: i64, y: i64, tags: Capabilities) -> Boid {
    Boid {
        pos: Vec2::new(x, y),
        vel: Vec2::zero(),
        facing: Vec2::new(0, SCALE),
        dir: SteeringDirection(Vec2::zero()),
        tags,
        special: None,
        chasing: None,
        avoiding: None,
    }
}

fn sees(ids: Vec<usize>) -> BoidVisionQuery {
    BoidVisionQuery { colliding: ids, sees_obstacle: false }
}

#[test]
fn no_neighbours_leave_the_accumulator_alone() {
    let mut boids = vec![agent(0, 0, Capabilities::all()), agent(5000, 0, Capabilities::all())];
    boids[0].dir = SteeringDirection(Vec2::new(12, -34));
    let before = boids.clone();
    let perception = vec![sees(vec![]), sees(vec![])];
    separation_behaviour(&mut boids, &perception, 1000);
    cohesion_behaviour(&mut boids, &perception, 1000);
    alignment_behaviour(&mut boids, &perception, 1000);
    assert_eq!(boids, before);
}

#[test]
fn untagged_neighbours_are_not_perceived() {
    let tags = Capabilities::none().with(Behaviour::Cohesion);
    let boids = vec![agent(0, 0, tags), agent(5000, 0, Capabilities::none())];
    assert_eq!(Cohesion::steer(&boids, &vec![1], 0, 1000), None);
    let untagged = vec![agent(0, 0, Capabilities::none()), agent(5000, 0, tags)];
    assert_eq!(Cohesion::steer(&untagged, &vec![1], 0, 1000), None);
}

#[test]
fn separation_pushes_closer_neighbours_harder() {
    let tags = Capabilities::none().with(Behaviour::Separation);
    let near = vec![agent(0, 0, tags), agent(250, 0, tags)];
    let mid = vec![agent(0, 0, tags), agent(500, 0, tags)];
    let far = vec![agent(0, 0, tags), agent(10_000, 0, tags)];
    assert_eq!(Separation::steer(&near, &vec![1], 0, 1000), Some(Vec2::new(-4000, 0)));
    assert_eq!(Separation::steer(&mid, &vec![1], 0, 1000), Some(Vec2::new(-2000, 0)));
    // A push weaker than one world unit is lengthened to one unit.
    assert_eq!(Separation::steer(&far, &vec![1], 0, 1000), Some(Vec2::new(-1000, 0)));
    // Never shorter than the strength: one unit along a diagonal, times 0.3.
    let diag = vec![agent(0, 0, tags), agent(7000, 7000, tags)];
    let f = Separation::steer(&diag, &vec![1], 0, 300).unwrap();
    assert!(f.length_squared() >= 300 * 300);
}

#[test]
fn separation_of_coincident_agents_is_zero() {
    let tags = Capabilities::none().with(Behaviour::Separation);
    let boids = vec![agent(0, 0, tags), agent(0, 0, tags)];
    assert_eq!(Separation::steer(&boids, &vec![1], 0, 1000), Some(Vec2::zero()));
}

#[test]
fn cohesion_points_at_the_centroid() {
    let tags = Capabilities::none().with(Behaviour::Cohesion);
    let boids = vec![agent(0, 0, tags), agent(10_000, 0, tags), agent(0, 10_000, tags)];
    let f = Cohesion::steer(&boids, &vec![1, 2], 0, 1000).unwrap();
    assert_eq!(f, Vec2::new(707, 707));
    assert!(f.x * 5000 + f.y * 5000 >= 0);
}

#[test]
fn alignment_moves_velocity_toward_the_mean() {
    let tags = Capabilities::none().with(Behaviour::Alignment);
    let mut boids = vec![agent(0, 0, tags), agent(1000, 0, tags), agent(2000, 0, tags)];
    boids[1].vel = Vec2::new(1000, 0);
    boids[2].vel = Vec2::new(3000, 0);
    let f = Alignment::steer(&boids, &vec![1, 2], 0, 200).unwrap();
    assert_eq!(f, Vec2::new(200, 0));
    let moved = boids[0].vel.add(f);
    let mean = Vec2::new(2000, 0);
    assert!(moved.sub(mean).length_squared() <= boids[0].vel.sub(mean).length_squared());
}

#[test]
fn seek_chooses_the_nearest_target_first_on_ties() {
    let targets = vec![Vec2::new(5000, 0), Vec2::new(-3000, 0), Vec2::new(0, 3000)];
    assert_eq!(nearest(Vec2::zero(), &targets), 1);
}

#[test]
fn seek_steers_from_velocity_to_desired_velocity() {
    let b = agent(0, 0, Capabilities::none().with(Behaviour::Seek));
    let targets = vec![Vec2::new(100_000, 0)];
    assert_eq!(Seek::steer(&b, &targets, 150_000, 1000), Some(Vec2::new(1000, 0)));
    assert_eq!(Seek::steer(&b, &vec![], 150_000, 1000), None);
}

#[test]
fn seek_marks_chasing_agents() {
    let mut boids = vec![agent(0, 0, Capabilities::none().with(Behaviour::Seek))];
    let config = flocking::configuration::SimulationConfig::default();
    flocking::flock::seek_behaviour(&mut boids, &vec![Vec2::new(0, 5000)], &config);
    assert_eq!(boids[0].chasing, Some(Chasing));
    assert_eq!(boids[0].dir.0, Vec2::new(0, 100));
    flocking::flock::seek_behaviour(&mut boids, &vec![], &config);
    assert_eq!(boids[0].chasing, None);
    assert_eq!(boids[0].dir.0, Vec2::new(0, 100));
}

#[test]
fn push_length_is_one_unit_over_the_distance() {
    assert_eq!(push_from(Vec2::new(-10_000, 0)), Vec2::new(-100, 0));
    assert_eq!(push_from(Vec2::new(0, 2000)), Vec2::new(0, 500));
    assert_eq!(push_from(Vec2::new(1, 0)), Vec2::new(1_000_000, 0));
    assert_eq!(push_from(Vec2::zero()), Vec2::zero());
}
