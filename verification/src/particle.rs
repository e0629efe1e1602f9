//! A simulated particle and its single integration step.

use vstd::prelude::*;

use crate::random::gen_range_i64;
use crate::space::Scalar;
use crate::space::Space2D;
use crate::space::Vec2;

verus! {

/// How a particle came to exist; purely a rendering distinction with no
/// physical effect.
#[derive(Clone, Copy, Debug, PartialEq, Eq, Structural)]
pub enum ParticleTag {
    /// Created by bulk random seeding.
    Seeded,
    /// Placed deliberately at a chosen point.
    Placed,
}

/// The physical state of one particle.
#[derive(Clone, Copy, Debug, PartialEq, Eq, Structural)]
pub struct Particle {
    pub tag: ParticleTag,
    pub mass: Scalar,
    pub position: Vec2,
    pub velocity: Vec2,
    pub radius: Scalar,
}

/// Raw coordinate magnitude within which seeded particles are placed: six
/// hundred units on either side of each axis.
pub const SEED_SPREAD_RAW: i64 = 39321600;

/// Smallest raw seeded particle size: half a unit.
pub const SEED_SIZE_MIN_RAW: i64 = 32768;

/// Largest raw seeded particle size: three and a half units.
pub const SEED_SIZE_MAX_RAW: i64 = 229376;

impl Particle {
    pub open spec fn spec_new(position: Vec2) -> Particle {
        Particle {
            tag: ParticleTag::Placed,
            mass: Scalar::spec_from_int(1000),
            position,
            velocity: Vec2::spec_zero(),
            radius: Scalar::spec_from_int(5),
        }
    }

    /// A particle placed at rest at the given position.
    pub fn new(position: Vec2) -> (r: Particle)
        ensures
            r == Self::spec_new(position),
    {
        Particle {
            tag: ParticleTag::Placed,
            mass: Scalar::from_int(1000),
            position,
            velocity: Vec2::zero(),
            radius: Scalar::from_int(5),
        }
    }

    pub open spec fn spec_new_moving(position: Vec2) -> Particle {
        Particle {
            tag: ParticleTag::Placed,
            mass: Scalar::spec_from_int(1000),
            position,
            velocity: Vec2 { x: Scalar::spec_from_int(100), y: Scalar::spec_zero() },
            radius: Scalar::spec_from_int(5),
        }
    }

    /// A particle placed at the given position with a fixed rightward
    /// initial velocity.
    pub fn new_moving(position: Vec2) -> (r: Particle)
        ensures
            r == Self::spec_new_moving(position),
    {
        Particle {
            tag: ParticleTag::Placed,
            mass: Scalar::from_int(1000),
            position,
            velocity: Vec2 { x: Scalar::from_int(100), y: Scalar::zero() },
            radius: Scalar::from_int(5),
        }
    }

    /// A seeded particle: position drawn uniformly from a square spread
    /// about the origin, at rest, with a bounded random size whose cube is
    /// its mass. The contract holds for every draw.
    pub fn new_uniform() -> (r: Particle)
        ensures
            r.tag == ParticleTag::Seeded,
            r.velocity == Vec2::spec_zero(),
            -SEED_SPREAD_RAW <= r.position.x.raw < SEED_SPREAD_RAW,
            -SEED_SPREAD_RAW <= r.position.y.raw < SEED_SPREAD_RAW,
            SEED_SIZE_MIN_RAW <= r.radius.raw < SEED_SIZE_MAX_RAW,
            r.mass == r.radius.spec_mul(r.radius).spec_mul(r.radius),
    {
        let x: i64 = gen_range_i64(-SEED_SPREAD_RAW, SEED_SPREAD_RAW);
        let y: i64 = gen_range_i64(-SEED_SPREAD_RAW, SEED_SPREAD_RAW);
        let size: Scalar = Scalar { raw: gen_range_i64(SEED_SIZE_MIN_RAW, SEED_SIZE_MAX_RAW) };
        Particle {
            tag: ParticleTag::Seeded,
            mass: size.mul(size).mul(size),
            position: Vec2 { x: Scalar { raw: x }, y: Scalar { raw: y } },
            velocity: Vec2::zero(),
            radius: size,
        }
    }

    pub open spec fn spec_tangential_velocity(position: Vec2) -> Vec2 {
        let tangent = Space2D::spec_normalize(Vec2 { x: position.y, y: position.x.neg() });
        let speed = Space2D::spec_magnitude(position).spec_sqrt().spec_mul(
            Scalar::spec_from_int(5),
        );
        tangent.scale(speed)
    }

    pub open spec fn spec_new_random_from(position: Vec2, size: Scalar) -> Particle {
        Particle {
            tag: ParticleTag::Seeded,
            mass: size.mul(size).mul(size),
            position,
            velocity: Self::spec_tangential_velocity(position),
            radius: size,
        }
    }

    /// A seeded particle built from an externally drawn position and size:
    /// its mass is the size cubed, and it starts circling the origin — the
    /// velocity points along the clockwise perpendicular of the position,
    /// with speed five times the square root of the distance from the
    /// origin.
    pub fn new_random_from(position: Vec2, size: Scalar) -> (r: Particle)
        ensures
            r == Self::spec_new_random_from(position, size),
            r.tag == ParticleTag::Seeded,
            r.position == position,
            r.radius == size,
            r.mass == size.spec_mul(size).spec_mul(size),
            r.velocity == Self::spec_tangential_velocity(position),
    {
        let tangent: Vec2 = Space2D::normalize(Vec2 { x: position.y, y: position.x.neg() });
        let speed: Scalar = Space2D::magnitude(position).sqrt().mul(Scalar::from_int(5));
        Particle {
            tag: ParticleTag::Seeded,
            mass: size.mul(size).mul(size),
            position,
            velocity: tangent.scale(speed),
            radius: size,
        }
    }

    pub open spec fn spec_update(self, dt: Scalar, acceleration: Vec2) -> Particle {
        let velocity = self.velocity.add(acceleration.scale(dt));
        Particle { position: self.position.add(velocity.scale(dt)), velocity, ..self }
    }

    /// One semi-implicit Euler step: the velocity absorbs the acceleration
    /// over `dt` first, and the new velocity then advances the position.
    pub fn update(&mut self, dt: Scalar, acceleration: Vec2)
        ensures
            *final(self) == old(self).spec_update(dt, acceleration),
    {
        self.velocity = self.velocity.add(acceleration.scale(dt));
        self.position = self.position.add(self.velocity.scale(dt));
    }
}

} // verus!
