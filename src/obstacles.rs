//! Static obstacles: their shapes, and requests to create them.
use crate::vector::{Vec2, SCALE};
use vstd::prelude::*;

verus! {

/// The shape of an obstacle, in fixed point.
#[derive(Clone, Copy, Debug, PartialEq, Eq, Structural)]
pub enum ObstacleType {
    /// A circle of the given radius.
    Circle(i64),
    /// A rectangle of the given width and height.
    Rectangle(i64, i64),
}

impl Default for ObstacleType {
    fn default() -> (r: ObstacleType)
        ensures
            r == ObstacleType::Circle(DEFAULT_OBSTACLE_RADIUS),
    {
        ObstacleType::Circle(DEFAULT_OBSTACLE_RADIUS)
    }
}

/// The radius of a circle obstacle unless a request says otherwise: ten
/// world units.
pub const DEFAULT_OBSTACLE_RADIUS: i64 = 10 * SCALE;

/// A static obstacle: a shape placed at `pos` and turned so that its +x
/// axis points along `rotation` (a direction).
#[derive(Clone, Copy, Debug, PartialEq, Eq, Structural)]
pub struct Obstacle {
    pub shape: ObstacleType,
    pub pos: Vec2,
    pub rotation: Vec2,
}

/// The colour of obstacles unless a request says otherwise (RGBA, a dark
/// red-grey); colour is only drawn, never simulated.
pub const DEFAULT_OBSTACLE_COLOR: u32 = 0x6336_36ff;

/// A request to create an obstacle.
#[derive(Clone, Copy, Debug, PartialEq, Eq, Structural)]
pub struct SpawnObstacle {
    pub pos: Vec2,
    /// The direction the shape's +x axis points to.
    pub angle: Vec2,
    pub obstacle_type: ObstacleType,
    /// RGBA colour.
    pub color: u32,
}

impl Default for SpawnObstacle {
    fn default() -> (r: SpawnObstacle)
        ensures
            r == (SpawnObstacle {
                pos: Vec2 { x: 0, y: 0 },
                angle: Vec2::unit_x(),
                obstacle_type: ObstacleType::Circle(DEFAULT_OBSTACLE_RADIUS),
                color: DEFAULT_OBSTACLE_COLOR,
            }),
    {
        SpawnObstacle {
            pos: Vec2 { x: 0, y: 0 },
            angle: Vec2 { x: SCALE, y: 0 },
            obstacle_type: ObstacleType::Circle(DEFAULT_OBSTACLE_RADIUS),
            color: DEFAULT_OBSTACLE_COLOR,
        }
    }
}

impl SpawnObstacle {
    /// A rectangle of the given width and height, otherwise as the default.
    pub fn rectangle(width: i64, height: i64) -> (r: SpawnObstacle)
        ensures
            r == (SpawnObstacle {
                obstacle_type: ObstacleType::Rectangle(width, height),
                ..SpawnObstacle::spec_default()
            }),
    {
        SpawnObstacle { obstacle_type: ObstacleType::Rectangle(width, height), ..Self::default() }
    }

    /// A circle of the given radius, otherwise as the default.
    pub fn circle(radius: i64) -> (r: SpawnObstacle)
        ensures
            r == (SpawnObstacle {
                obstacle_type: ObstacleType::Circle(radius),
                ..SpawnObstacle::spec_default()
            }),
    {
        SpawnObstacle { obstacle_type: ObstacleType::Circle(radius), ..Self::default() }
    }

    pub open spec fn spec_default() -> SpawnObstacle {
        SpawnObstacle {
            pos: Vec2 { x: 0, y: 0 },
            angle: Vec2::unit_x(),
            obstacle_type: ObstacleType::Circle(DEFAULT_OBSTACLE_RADIUS),
            color: DEFAULT_OBSTACLE_COLOR,
        }
    }

    pub fn with_pos(self, pos: Vec2) -> (r: SpawnObstacle)
        ensures
            r == (SpawnObstacle { pos, ..self }),
    {
        SpawnObstacle { pos, ..self }
    }

    pub fn with_angle(self, angle: Vec2) -> (r: SpawnObstacle)
        ensures
            r == (SpawnObstacle { angle, ..self }),
    {
        SpawnObstacle { angle, ..self }
    }

    pub fn with_color(self, color: u32) -> (r: SpawnObstacle)
        ensures
            r == (SpawnObstacle { color, ..self }),
    {
        SpawnObstacle { color, ..self }
    }

    /// The obstacle this request creates.
    pub fn obstacle(&self) -> (r: Obstacle)
        ensures
            r == (Obstacle { shape: self.obstacle_type, pos: self.pos, rotation: self.angle }),
    {
        Obstacle { shape: self.obstacle_type, pos: self.pos, rotation: self.angle }
    }
}

} // verus!
