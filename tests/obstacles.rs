use flocking::boids::{Behaviour, Boid, Capabilities, SteeringDirection};
use flocking::obstacle_avoidance::{rotate_cw, AvoidObstacle, ObstacleAvoidance, RayFan};
use flocking::obstacles::{ObstacleType, SpawnObstacle, DEFAULT_OBSTACLE_COLOR};
use flocking::vector::{Vec2, SCALE};

fn avoider() -> Boid {
    Boid {
        pos: Vec2::zero(),
        vel: Vec2::new(1000, 0),
        facing: Vec2::new(1000, 0),
        dir: SteeringDirection(Vec2::zero()),
        tags: Capabilities::none().with(Behaviour::ObstacleAvoidance),
        special: None,
        chasing: None,
        avoiding: None,
    }
}

#[test]
fn detection_enters_and_leaves_the_avoiding_state() {
    let b = avoider();
    let hit = ObstacleAvoidance::detect(b, true, true);
    assert_eq!(hit.avoiding, Some(AvoidObstacle));
    let cleared = ObstacleAvoidance::detect(hit, true, false);
    assert_eq!(cleared.avoiding, None);
}

#[test]
fn detection_clears_agents_that_no_longer_see_an_obstacle() {
    let hit = ObstacleAvoidance::detect(avoider(), true, true);
    assert_eq!(ObstacleAvoidance::detect(hit, false, false).avoiding, None);
    assert_eq!(ObstacleAvoidance::detect(avoider(), false, false).avoiding, None);
    let mut untagged = avoider();
    untagged.tags = Capabilities::none();
    assert_eq!(ObstacleAvoidance::detect(untagged, true, true).avoiding, None);
}

#[test]
fn ray_fan_alternates_right_and_left() {
    // One ray per side: a quarter turn between forward and each ray.
    let fan = RayFan::new(1, Vec2::new(1000, 0));
    assert_eq!(fan.directions, vec![Vec2::new(1000, 0), Vec2::new(-1000, 0)]);
    let fan = RayFan::new(2, Vec2::new(866, 500));
    assert_eq!(fan.directions.len(), 4);
    assert_eq!(fan.directions[0], Vec2::new(866, 500));
    assert_eq!(fan.directions[1], Vec2::new(-866, 500));
    assert_eq!(fan.directions[2], rotate_cw(Vec2::new(866, 500), Vec2::new(866, 500)));
    assert_eq!(fan.directions[2], Vec2::new(866, -499));
    assert_eq!(RayFan::new(0, Vec2::new(1000, 0)).directions.len(), 0);
}

#[test]
fn world_directions_follow_the_facing() {
    let fan = RayFan::new(1, Vec2::new(1000, 0));
    let dirs = fan.world_directions(Vec2::new(1000, 0));
    assert_eq!(dirs, vec![Vec2::new(0, -1000), Vec2::new(0, 1000)]);
    assert_eq!(rotate_cw(Vec2::new(1000, 0), Vec2::new(0, 1000)), Vec2::new(1000, 0));
}

#[test]
fn avoidance_steers_to_the_first_free_ray_and_brakes() {
    let fan = RayFan::new(1, Vec2::new(1000, 0));
    let mut b = avoider();
    b.avoiding = Some(AvoidObstacle);
    let r = ObstacleAvoidance::avoid(b, &fan, &vec![Some(500), None], 2000);
    assert_eq!(r.dir.0, Vec2::new(-4826, 2826));
}

#[test]
fn avoidance_only_brakes_when_every_ray_hits() {
    let fan = RayFan::new(1, Vec2::new(1000, 0));
    let mut b = avoider();
    b.avoiding = Some(AvoidObstacle);
    let r = ObstacleAvoidance::avoid(b, &fan, &vec![Some(500), Some(0)], 2000);
    assert_eq!(r.dir.0, Vec2::new(-2000, 0));
}

#[test]
fn avoidance_ignores_clear_agents() {
    let fan = RayFan::new(1, Vec2::new(1000, 0));
    let b = avoider();
    assert_eq!(ObstacleAvoidance::avoid(b, &fan, &vec![None, None], 2000), b);
}

#[test]
fn obstacle_requests_build_obstacles() {
    let d = SpawnObstacle::default();
    assert_eq!(d.obstacle_type, ObstacleType::Circle(10 * SCALE));
    assert_eq!(d.color, DEFAULT_OBSTACLE_COLOR);
    let r = SpawnObstacle::rectangle(2_400_000, 1_800_000)
        .with_pos(Vec2::new(5, 6))
        .with_angle(Vec2::new(0, 1000))
        .with_color(0x1a1a1aff);
    assert_eq!(r.obstacle_type, ObstacleType::Rectangle(2_400_000, 1_800_000));
    assert_eq!(r.color, 0x1a1a1aff);
    let o = r.obstacle();
    assert_eq!(o.pos, Vec2::new(5, 6));
    assert_eq!(o.rotation, Vec2::new(0, 1000));
    assert_eq!(SpawnObstacle::circle(3000).obstacle_type, ObstacleType::Circle(3000));
}

#[test]
fn forward_ray_follows_velocity_for_half_the_vision_radius() {
    let mut b = avoider();
    b.vel = Vec2::new(0, -3000);
    assert_eq!(ObstacleAvoidance::forward_ray(&b, 225_000), Some((Vec2::new(0, -1000), 112_500)));
    b.vel = Vec2::zero();
    assert_eq!(ObstacleAvoidance::forward_ray(&b, 225_000), None);
}
