//! A Barnes-Hut gravity simulation core.
//!
//! The library approximates the net gravitational acceleration exerted by a
//! large set of point masses and integrates particle motion over time. All
//! physical quantities are carried by a fixed-point scalar type, so every
//! arithmetic step has an exact, machine-checked description.

pub mod barnes_hut;
pub mod particle;
pub mod point_mass;
pub mod random;
pub mod simulation;
pub mod space;
pub mod stats;
pub mod universe;

pub use barnes_hut::Child;
pub use barnes_hut::GravityField;
pub use barnes_hut::MassAggregate;
pub use barnes_hut::Region;
pub use particle::Particle;
pub use particle::ParticleTag;
pub use point_mass::PointMass;
pub use simulation::Clock;
pub use simulation::Model;
pub use simulation::RateLimiter;
pub use simulation::RealClock;
pub use simulation::Simulation;
pub use space::at_least;
pub use space::at_most;
pub use space::Scalar;
pub use space::Space2D;
pub use space::Vec2;
pub use stats::Stats;
pub use universe::Universe;
