//! The tunable parameters of the simulation and the quantities derived from
//! them.
use crate::vector::{COORD_LIMIT, SCALE};
use vstd::prelude::*;

verus! {

/// Largest value a configuration parameter can take (fixed point).
pub const PARAM_LIMIT: i64 = 1_000_000;

/// Largest number of rays cast on one side of an agent.
pub const MAX_DETECTION_DENSITY: i64 = 64;

/// The configurable parameters, as named by the configuration surface.
#[derive(Clone, Copy, Debug, PartialEq, Eq, Structural)]
pub enum ConfigField {
    MaxForce,
    MaxSpeed,
    VisionRadius,
    SeparationStrength,
    CohesionStrength,
    AlignmentStrength,
    SeekStrength,
    ObstacleDetectionDensity,
    ObstacleDetectionRadiusRel,
    ObstacleAvoidanceStrength,
}

/// Tunable parameters. All but the density are fixed-point numbers.
#[derive(Clone, Copy, Debug, PartialEq, Eq, Structural)]
pub struct SimulationConfig {
    /// The largest steering force, as a fraction of the largest speed.
    pub max_force: i64,
    /// The largest speed of an agent.
    pub max_speed: i64,
    /// The radius within which an agent sees others, as a fraction of the
    /// largest speed.
    pub vision_radius: i64,
    /// The weight of the separation instinct.
    pub separation_strength: i64,
    /// The weight of the cohesion instinct.
    pub cohesion_strength: i64,
    /// The weight of the alignment instinct.
    pub alignment_strength: i64,
    /// The weight of the seek instinct.
    pub seek_strength: i64,
    /// The number of rays cast on one side of an agent while it avoids an
    /// obstacle.
    pub obstacle_detection_density: i64,
    /// The radius at which an agent starts taking evasive action, as a
    /// fraction of the vision radius.
    pub obstacle_detection_radius_rel: i64,
    /// The weight of the obstacle avoidance instinct.
    pub obstacle_avoidance_strength: i64,
}

/// The largest value that `f` accepts.
pub open spec fn field_limit(f: ConfigField) -> int {
    match f {
        ConfigField::ObstacleDetectionDensity => MAX_DETECTION_DENSITY as int,
        _ => PARAM_LIMIT as int,
    }
}

/// `v` held within the range that `f` accepts.
pub open spec fn clamp_field(f: ConfigField, v: int) -> int {
    if v < 0 {
        0
    } else if v > field_limit(f) {
        field_limit(f)
    } else {
        v
    }
}

impl SimulationConfig {
    pub open spec fn field(self, f: ConfigField) -> int {
        match f {
            ConfigField::MaxForce => self.max_force as int,
            ConfigField::MaxSpeed => self.max_speed as int,
            ConfigField::VisionRadius => self.vision_radius as int,
            ConfigField::SeparationStrength => self.separation_strength as int,
            ConfigField::CohesionStrength => self.cohesion_strength as int,
            ConfigField::AlignmentStrength => self.alignment_strength as int,
            ConfigField::SeekStrength => self.seek_strength as int,
            ConfigField::ObstacleDetectionDensity => self.obstacle_detection_density as int,
            ConfigField::ObstacleDetectionRadiusRel => self.obstacle_detection_radius_rel as int,
            ConfigField::ObstacleAvoidanceStrength => self.obstacle_avoidance_strength as int,
        }
    }

    /// `self` with field `f` set to `v`.
    pub open spec fn with_field(self, f: ConfigField, v: int) -> SimulationConfig {
        let v = v as i64;
        match f {
            ConfigField::MaxForce => SimulationConfig { max_force: v, ..self },
            ConfigField::MaxSpeed => SimulationConfig { max_speed: v, ..self },
            ConfigField::VisionRadius => SimulationConfig { vision_radius: v, ..self },
            ConfigField::SeparationStrength => SimulationConfig { separation_strength: v, ..self },
            ConfigField::CohesionStrength => SimulationConfig { cohesion_strength: v, ..self },
            ConfigField::AlignmentStrength => SimulationConfig { alignment_strength: v, ..self },
            ConfigField::SeekStrength => SimulationConfig { seek_strength: v, ..self },
            ConfigField::ObstacleDetectionDensity => SimulationConfig {
                obstacle_detection_density: v,
                ..self
            },
            ConfigField::ObstacleDetectionRadiusRel => SimulationConfig {
                obstacle_detection_radius_rel: v,
                ..self
            },
            ConfigField::ObstacleAvoidanceStrength => SimulationConfig {
                obstacle_avoidance_strength: v,
                ..self
            },
        }
    }

    /// Every field lies within the range it accepts.
    pub open spec fn valid(self) -> bool {
        &&& 0 <= self.max_force <= PARAM_LIMIT
        &&& 0 <= self.max_speed <= PARAM_LIMIT
        &&& 0 <= self.vision_radius <= PARAM_LIMIT
        &&& 0 <= self.separation_strength <= PARAM_LIMIT
        &&& 0 <= self.cohesion_strength <= PARAM_LIMIT
        &&& 0 <= self.alignment_strength <= PARAM_LIMIT
        &&& 0 <= self.seek_strength <= PARAM_LIMIT
        &&& 0 <= self.obstacle_detection_density <= MAX_DETECTION_DENSITY
        &&& 0 <= self.obstacle_detection_radius_rel <= PARAM_LIMIT
        &&& 0 <= self.obstacle_avoidance_strength <= PARAM_LIMIT
    }

    /// Reads field `f`.
    pub fn get(&self, f: ConfigField) -> (r: i64)
        ensures
            r == self.field(f),
    {
        match f {
            ConfigField::MaxForce => self.max_force,
            ConfigField::MaxSpeed => self.max_speed,
            ConfigField::VisionRadius => self.vision_radius,
            ConfigField::SeparationStrength => self.separation_strength,
            ConfigField::CohesionStrength => self.cohesion_strength,
            ConfigField::AlignmentStrength => self.alignment_strength,
            ConfigField::SeekStrength => self.seek_strength,
            ConfigField::ObstacleDetectionDensity => self.obstacle_detection_density,
            ConfigField::ObstacleDetectionRadiusRel => self.obstacle_detection_radius_rel,
            ConfigField::ObstacleAvoidanceStrength => self.obstacle_avoidance_strength,
        }
    }

    /// Writes field `f`; a value out of the field's range is clamped into it.
    pub fn set(&mut self, f: ConfigField, v: i64)
        ensures
            *final(self) == old(self).with_field(f, clamp_field(f, v as int)),
            old(self).valid() ==> final(self).valid(),
    {
        let limit: i64 = match f {
            ConfigField::ObstacleDetectionDensity => MAX_DETECTION_DENSITY,
            _ => PARAM_LIMIT,
        };
        let v: i64 = if v < 0 {
            0
        } else if v > limit {
            limit
        } else {
            v
        };
        match f {
            ConfigField::MaxForce => self.max_force = v,
            ConfigField::MaxSpeed => self.max_speed = v,
            ConfigField::VisionRadius => self.vision_radius = v,
            ConfigField::SeparationStrength => self.separation_strength = v,
            ConfigField::CohesionStrength => self.cohesion_strength = v,
            ConfigField::AlignmentStrength => self.alignment_strength = v,
            ConfigField::SeekStrength => self.seek_strength = v,
            ConfigField::ObstacleDetectionDensity => self.obstacle_detection_density = v,
            ConfigField::ObstacleDetectionRadiusRel => self.obstacle_detection_radius_rel = v,
            ConfigField::ObstacleAvoidanceStrength => self.obstacle_avoidance_strength = v,
        }
    }
}

impl Default for SimulationConfig {
    fn default() -> (r: SimulationConfig)
        ensures
            r.valid(),
            r.max_force == 750,
            r.max_speed == 150_000,
            r.vision_radius == 1500,
            r.separation_strength == 1050,
            r.cohesion_strength == 1000,
            r.alignment_strength == 200,
            r.seek_strength == 100,
            r.obstacle_detection_density == 10,
            r.obstacle_detection_radius_rel == 500,
            r.obstacle_avoidance_strength == 2000,
    {
        SimulationConfig {
            max_force: 750,
            max_speed: 150_000,
            vision_radius: 1500,
            separation_strength: 1050,
            cohesion_strength: 1000,
            alignment_strength: 200,
            seek_strength: 100,
            obstacle_detection_density: 10,
            obstacle_detection_radius_rel: 500,
            obstacle_avoidance_strength: 2000,
        }
    }
}

/// The radius within which agents perceive each other.
#[derive(Clone, Copy, Debug, PartialEq, Eq, Structural)]
pub struct VisionRadius(pub i64);

/// The largest speed of an agent.
#[derive(Clone, Copy, Debug, PartialEq, Eq, Structural)]
pub struct MaxSpeed(pub i64);

/// The largest steering force applied to an agent in one tick.
#[derive(Clone, Copy, Debug, PartialEq, Eq, Structural)]
pub struct MaxForce(pub i64);

pub open spec fn derived_max_speed(c: SimulationConfig) -> int {
    c.max_speed as int
}

pub open spec fn derived_max_force(c: SimulationConfig) -> int {
    (c.max_speed * c.max_force) / (SCALE as int)
}

pub open spec fn derived_vision_radius(c: SimulationConfig) -> int {
    (c.max_speed * c.vision_radius) / (SCALE as int)
}

proof fn lemma_derived_bounds(c: SimulationConfig)
    requires
        c.valid(),
    ensures
        0 <= derived_max_force(c) <= COORD_LIMIT,
        0 <= derived_vision_radius(c) <= COORD_LIMIT,
{
    assert(0 <= c.max_speed * c.max_force <= 1_000_000_000_000) by (nonlinear_arith)
        requires
            0 <= c.max_speed <= 1_000_000,
            0 <= c.max_force <= 1_000_000,
    ;
    assert(0 <= c.max_speed * c.vision_radius <= 1_000_000_000_000) by (nonlinear_arith)
        requires
            0 <= c.max_speed <= 1_000_000,
            0 <= c.vision_radius <= 1_000_000,
    ;
}

/// The configuration, whether it changed since the derived quantities were
/// last computed, and those quantities.
pub struct ConfigurationStore {
    pub config: SimulationConfig,
    pub changed: bool,
    pub max_speed: MaxSpeed,
    pub max_force: MaxForce,
    pub vision_radius: VisionRadius,
}

impl ConfigurationStore {
    /// The configuration is valid and, unless a change is pending, the
    /// derived quantities are those of the configuration.
    pub open spec fn wf(self) -> bool {
        &&& self.config.valid()
        &&& 0 <= self.max_speed.0 <= PARAM_LIMIT
        &&& 0 <= self.max_force.0 <= COORD_LIMIT
        &&& 0 <= self.vision_radius.0 <= COORD_LIMIT
        &&& !self.changed ==> self.derived_up_to_date()
    }

    pub open spec fn derived_up_to_date(self) -> bool {
        &&& self.max_speed.0 == derived_max_speed(self.config)
        &&& self.max_force.0 == derived_max_force(self.config)
        &&& self.vision_radius.0 == derived_vision_radius(self.config)
    }

    /// A store holding `config`, marked changed so that the first tick
    /// derives its quantities.
    pub fn new(config: SimulationConfig) -> (r: ConfigurationStore)
        requires
            config.valid(),
        ensures
            r.wf(),
            r.config == config,
            r.changed,
    {
        ConfigurationStore {
            config,
            changed: true,
            max_speed: MaxSpeed(0),
            max_force: MaxForce(0),
            vision_radius: VisionRadius(0),
        }
    }

    /// Reads field `f` of the configuration.
    pub fn get(&self, f: ConfigField) -> (r: i64)
        ensures
            r == self.config.field(f),
    {
        self.config.get(f)
    }

    /// Writes field `f` of the configuration (clamped into its range) and
    /// marks the store changed.
    pub fn set(&mut self, f: ConfigField, v: i64)
        requires
            old(self).wf(),
        ensures
            final(self).wf(),
            final(self).config == old(self).config.with_field(f, clamp_field(f, v as int)),
            final(self).changed,
            final(self).max_speed == old(self).max_speed,
            final(self).max_force == old(self).max_force,
            final(self).vision_radius == old(self).vision_radius,
    {
        self.config.set(f, v);
        self.changed = true;
    }

    /// Derives the largest speed: the configured one.
    pub fn update_max_speed(&mut self)
        requires
            old(self).config.valid(),
        ensures
            *final(self) == (ConfigurationStore {
                max_speed: MaxSpeed(derived_max_speed(old(self).config) as i64),
                ..*old(self)
            }),
    {
        self.max_speed = MaxSpeed(self.config.max_speed);
    }

    /// Derives the largest force: the largest speed times the force factor.
    pub fn update_max_force(&mut self)
        requires
            old(self).config.valid(),
        ensures
            *final(self) == (ConfigurationStore {
                max_force: MaxForce(derived_max_force(old(self).config) as i64),
                ..*old(self)
            }),
    {
        proof {
            lemma_derived_bounds(self.config);
        }
        self.max_force = MaxForce(self.config.max_speed * self.config.max_force / SCALE);
    }

    /// Derives the vision radius: the largest speed times the vision factor.
    pub fn update_vision_radius(&mut self)
        requires
            old(self).config.valid(),
        ensures
            *final(self) == (ConfigurationStore {
                vision_radius: VisionRadius(derived_vision_radius(old(self).config) as i64),
                ..*old(self)
            }),
    {
        proof {
            lemma_derived_bounds(self.config);
        }
        self.vision_radius = VisionRadius(
            self.config.max_speed * self.config.vision_radius / SCALE,
        );
    }

    /// Recomputes the derived quantities if the configuration changed, and
    /// clears the mark. Returns whether it did, which is also whether the
    /// vision radius must be pushed to the perception regions.
    pub fn apply_changes(&mut self) -> (r: bool)
        requires
            old(self).wf(),
        ensures
            final(self).wf(),
            r == old(self).changed,
            !final(self).changed,
            final(self).config == old(self).config,
            final(self).derived_up_to_date(),
            !r ==> *final(self) == *old(self),
    {
        if !self.changed {
            return false;
        }
        proof {
            lemma_derived_bounds(self.config);
        }
        self.update_max_speed();
        self.update_max_force();
        self.update_vision_radius();
        self.changed = false;
        true
    }
}

/// Reading a field back after setting it to a value within its range gives
/// that value, and leaves every other field as it was.
pub proof fn lemma_set_then_get(c: SimulationConfig, f: ConfigField, g: ConfigField, v: int)
    requires
        0 <= v <= field_limit(f),
    ensures
        c.with_field(f, clamp_field(f, v)).field(f) == v,
        g != f ==> c.with_field(f, clamp_field(f, v)).field(g) == c.field(g),
{
}

/// The derived quantities are a function of the configuration alone: two
/// stores that hold the same configuration derive the same quantities.
pub proof fn lemma_derivation_repeatable(a: ConfigurationStore, b: ConfigurationStore)
    requires
        a.config == b.config,
        a.derived_up_to_date(),
        b.derived_up_to_date(),
    ensures
        a.max_speed == b.max_speed,
        a.max_force == b.max_force,
        a.vision_radius == b.vision_radius,
{
}

} // verus!
