//! A flocking ("boids") steering simulation on fixed-point integer vectors.
//!
//! Every agent accumulates steering forces from the behaviours it is tagged
//! with; an integration step turns the accumulator into a clamped velocity.
//! What only a physics engine can tell (who overlaps whom, what a ray hits)
//! is handed to the library as plain values.
pub mod alignment;
pub mod boids;
pub mod cohesion;
pub mod configuration;
pub mod flock;
pub mod obstacle_avoidance;
pub mod obstacles;
pub mod perception;
pub mod seek;
pub mod separation;
pub mod targets;
pub mod vector;
