//! The particle universe: the current particle set, the tunable physical
//! parameters, and one full simulation step over them.

use rayon::iter::IntoParallelRefMutIterator;
use rayon::iter::ParallelIterator;
use vstd::prelude::*;

use crate::barnes_hut::GravityField;
use crate::barnes_hut::MassAggregate;
use crate::barnes_hut::Region;
use crate::particle::Particle;
use crate::particle::ParticleTag;
use crate::particle::SEED_SIZE_MAX_RAW;
use crate::particle::SEED_SIZE_MIN_RAW;
use crate::particle::SEED_SPREAD_RAW;
use crate::point_mass::PointMass;
use crate::space::at_least;
use crate::space::Scalar;
use crate::space::Space2D;
use crate::space::Vec2;

verus! {

/// The raw gravitational constant: one hundred units.
pub const G_RAW: i64 = 6553600;

/// The raw default central ("black hole") mass: one thousand units.
pub const DEFAULT_BLACK_HOLE_MASS_RAW: i64 = 65536000;

/// The raw default opening angle: seven tenths.
pub const DEFAULT_THETA_RAW: i64 = 45875;

/// The particle set under simulation, with its live-tunable parameters and
/// the node regions of the last aggregation tree built.
#[derive(Debug)]
pub struct Universe {
    pub particles: Vec<Particle>,
    /// The mass of the synthetic central point mass at the origin.
    pub black_hole_mass: Scalar,
    /// The opening-angle threshold handed to the force approximation.
    pub theta: Scalar,
    /// The regions of every aggregation node of the tree built by the most
    /// recent step, for read-only traversal.
    pub bounding_regions: Vec<Region>,
}

impl Universe {
    pub open spec fn spec_empty(u: Universe) -> bool {
        &&& u.particles@ == Seq::<Particle>::empty()
        &&& u.black_hole_mass == (Scalar { raw: DEFAULT_BLACK_HOLE_MASS_RAW })
        &&& u.theta == (Scalar { raw: DEFAULT_THETA_RAW })
        &&& u.bounding_regions@ == Seq::<Region>::empty()
    }

    /// An empty universe with the default central mass and opening angle.
    pub fn new() -> (u: Universe)
        ensures
            Self::spec_empty(u),
    {
        Universe {
            particles: Vec::new(),
            black_hole_mass: Scalar { raw: DEFAULT_BLACK_HOLE_MASS_RAW },
            theta: Scalar { raw: DEFAULT_THETA_RAW },
            bounding_regions: Vec::new(),
        }
    }

    /// Forget every particle; the tunable parameters survive.
    pub fn clear(&mut self)
        ensures
            final(self).particles@ == Seq::<Particle>::empty(),
            final(self).black_hole_mass == old(self).black_hole_mass,
            final(self).theta == old(self).theta,
            final(self).bounding_regions == old(self).bounding_regions,
    {
        self.particles.clear();
    }

    /// Append one particle.
    pub fn insert(&mut self, particle: Particle)
        ensures
            final(self).particles@ == old(self).particles@.push(particle),
            final(self).black_hole_mass == old(self).black_hole_mass,
            final(self).theta == old(self).theta,
            final(self).bounding_regions == old(self).bounding_regions,
    {
        self.particles.push(particle);
    }

    /// Place a resting particle at `position`.
    pub fn add_particle_at(&mut self, position: Vec2)
        ensures
            final(self).particles@ == old(self).particles@.push(Particle::spec_new(position)),
            final(self).black_hole_mass == old(self).black_hole_mass,
            final(self).theta == old(self).theta,
            final(self).bounding_regions == old(self).bounding_regions,
    {
        let p: Particle = Particle::new(position);
        self.insert(p);
    }

    /// Place a moving particle at `position`.
    pub fn add_moving_particle_at(&mut self, position: Vec2)
        ensures
            final(self).particles@ == old(self).particles@.push(
                Particle::spec_new_moving(position),
            ),
            final(self).black_hole_mass == old(self).black_hole_mass,
            final(self).theta == old(self).theta,
            final(self).bounding_regions == old(self).bounding_regions,
    {
        let p: Particle = Particle::new_moving(position);
        self.insert(p);
    }

    /// Whether a particle looks like a fresh uniformly seeded one: tagged
    /// as seeded and at rest, placed within the seeding spread, with a
    /// bounded size whose cube is its mass.
    pub open spec fn spec_is_seeded_at_rest(p: Particle) -> bool {
        &&& p.tag == ParticleTag::Seeded
        &&& p.velocity == Vec2::spec_zero()
        &&& -SEED_SPREAD_RAW <= p.position.x.raw < SEED_SPREAD_RAW
        &&& -SEED_SPREAD_RAW <= p.position.y.raw < SEED_SPREAD_RAW
        &&& SEED_SIZE_MIN_RAW <= p.radius.raw < SEED_SIZE_MAX_RAW
        &&& p.mass == p.radius.spec_mul(p.radius).spec_mul(p.radius)
    }

    /// Seed `count` particles drawn uniformly from the seeding spread. The
    /// positions are random; every new particle is tagged as seeded and
    /// starts at rest.
    pub fn add_uniform_random(&mut self, count: u64)
        ensures
            final(self).particles@.len() == old(self).particles@.len() + count,
            forall|i: int|
                0 <= i < old(self).particles@.len() ==> final(self).particles@[i] == old(self).particles@[i],
            forall|i: int|
                old(self).particles@.len() <= i < final(self).particles@.len()
                    ==> Self::spec_is_seeded_at_rest(#[trigger] final(self).particles@[i]),
            final(self).black_hole_mass == old(self).black_hole_mass,
            final(self).theta == old(self).theta,
            final(self).bounding_regions == old(self).bounding_regions,
    {
        let mut k: u64 = 0;
        while k < count
            invariant
                k <= count,
                self.particles@.len() == old(self).particles@.len() + k,
                forall|i: int|
                    0 <= i < old(self).particles@.len() ==> self.particles@[i] == old(self).particles@[i],
                forall|i: int|
                    old(self).particles@.len() <= i < self.particles@.len()
                        ==> Self::spec_is_seeded_at_rest(#[trigger] self.particles@[i]),
                self.black_hole_mass == old(self).black_hole_mass,
                self.theta == old(self).theta,
                self.bounding_regions == old(self).bounding_regions,
            decreases count - k,
        {
            let p: Particle = Particle::new_uniform();
            self.insert(p);
            k = k + 1;
        }
    }

    /// Overwrite the central mass.
    pub fn set_black_hole_mass(&mut self, value: Scalar)
        ensures
            final(self).black_hole_mass == value,
            final(self).particles == old(self).particles,
            final(self).theta == old(self).theta,
            final(self).bounding_regions == old(self).bounding_regions,
    {
        self.black_hole_mass = value;
    }

    /// Scale the central mass by a factor.
    pub fn multiply_black_hole_mass(&mut self, factor: Scalar)
        ensures
            final(self).black_hole_mass == old(self).black_hole_mass.spec_mul(factor),
            final(self).particles == old(self).particles,
            final(self).theta == old(self).theta,
            final(self).bounding_regions == old(self).bounding_regions,
    {
        self.black_hole_mass = self.black_hole_mass.mul(factor);
    }

    /// Overwrite the opening angle.
    pub fn set_opening_angle(&mut self, theta: Scalar)
        ensures
            final(self).theta == theta,
            final(self).particles == old(self).particles,
            final(self).black_hole_mass == old(self).black_hole_mass,
            final(self).bounding_regions == old(self).bounding_regions,
    {
        self.theta = theta;
    }

    /// The largest coordinate magnitude over the first `n` particles.
    pub open spec fn spec_max_abs_prefix(s: Seq<Particle>, n: int) -> Scalar
        decreases n,
    {
        if n <= 0 {
            Scalar::spec_zero()
        } else {
            Self::spec_max_abs_prefix(s, n - 1).max(
                Space2D::spec_max_abs_dimension(s[n - 1].position),
            )
        }
    }

    /// The largest coordinate magnitude over every particle.
    pub fn max_abs_extent(&self) -> (r: Scalar)
        ensures
            r == Self::spec_max_abs_prefix(self.particles@, self.particles@.len() as int),
    {
        let mut m: Scalar = Scalar::zero();
        let n: usize = self.particles.len();
        let mut i: usize = 0;
        while i < n
            invariant
                i <= n,
                n == self.particles@.len(),
                m == Self::spec_max_abs_prefix(self.particles@, i as int),
            decreases n - i,
        {
            m = m.max(Space2D::max_abs_dimension(self.particles[i].position));
            i = i + 1;
        }
        m
    }

    /// Doubling from `w`, the first width at or past `m` (or the scalar
    /// ceiling, whichever comes first).
    pub open spec fn spec_grow_width(m: int, w: int) -> int
        decreases (if m - w > 0 { m - w } else { 0 }),
    {
        if w <= 0 || w >= m || w >= 9223372036854775807 {
            w
        } else {
            Self::spec_grow_width(m, crate::space::sat64(w + w))
        }
    }

    /// The field width for the current particle set: a power-of-two number
    /// of units at least as large as the occupied extent (and at least one
    /// unit), doubled once more for headroom.
    pub open spec fn spec_field_width(self) -> Scalar {
        let m = Scalar::spec_from_int(1).spec_max(
            Self::spec_max_abs_prefix(self.particles@, self.particles@.len() as int),
        );
        let w = Self::spec_grow_width(m.raw as int, 65536);
        Scalar { raw: crate::space::sat64(w + w) as i64 }
    }

    /// An empty gravity field wide enough for every current particle.
    pub fn gravity_field(&self) -> (r: GravityField)
        ensures
            r == GravityField::spec_new(self.spec_field_width()),
            r.wf(),
    {
        let m: Scalar = at_least(Scalar::from_int(1), self.max_abs_extent());
        let mut w: Scalar = Scalar { raw: 65536 };
        while w.raw < m.raw && w.raw < i64::MAX
            invariant
                Self::spec_grow_width(m.raw as int, w.raw as int) == Self::spec_grow_width(
                    m.raw as int,
                    65536,
                ),
                w.raw >= 1,
            decreases (if m.raw - w.raw > 0 { m.raw - w.raw } else { 0 }),
        {
            w = w.add(w);
        }
        GravityField::new(w.add(w))
    }

    /// The field after absorbing the first `n` particles, in order.
    pub open spec fn spec_fold_field(f: GravityField, s: Seq<Particle>, n: int) -> GravityField
        decreases n,
    {
        if n <= 0 {
            f
        } else {
            Self::spec_fold_field(f, s, n - 1).spec_insert(
                PointMass::spec_new(s[n - 1].position, s[n - 1].mass),
            )
        }
    }

    /// The aggregation tree one step builds: a fresh field wide enough for
    /// the particle set, absorbing every particle and then the synthetic
    /// central mass at the origin.
    pub open spec fn spec_seeded_field(self) -> GravityField {
        Self::spec_fold_field(
            GravityField::spec_new(self.spec_field_width()),
            self.particles@,
            self.particles@.len() as int,
        ).spec_insert(PointMass::spec_new(Vec2::spec_zero(), self.black_hole_mass))
    }

    /// What one step does to a single particle, given the field built from
    /// the whole set.
    pub open spec fn spec_step_particle(
        p: Particle,
        f: GravityField,
        theta: Scalar,
        dt: Scalar,
    ) -> Particle {
        p.spec_update(dt, f.spec_estimate_net_g(p.position, theta, Scalar { raw: G_RAW }))
    }

    /// Advance the whole universe by `dt`: rebuild the aggregation tree from
    /// the current particles and the central mass, then estimate the net
    /// acceleration on each particle against that one tree and integrate it.
    /// Every particle is updated against the same snapshot, so the result is
    /// independent of the order the particles are visited in.
    pub fn step(&mut self, dt: Scalar)
        ensures
            final(self).particles@.len() == old(self).particles@.len(),
            forall|i: int|
                0 <= i < old(self).particles@.len() ==> final(self).particles@[i]
                    == Self::spec_step_particle(
                    old(self).particles@[i],
                    old(self).spec_seeded_field(),
                    old(self).theta,
                    dt,
                ),
            final(self).black_hole_mass == old(self).black_hole_mass,
            final(self).theta == old(self).theta,
            final(self).bounding_regions@ == old(self).spec_seeded_field().root.spec_regions(),
    {
        let ghost u0: Universe = *old(self);
        let mut field: GravityField = self.gravity_field();
        let n: usize = self.particles.len();
        let mut i: usize = 0;
        while i < n
            invariant
                *self == u0,
                i <= n,
                n == self.particles@.len(),
                field == Self::spec_fold_field(
                    GravityField::spec_new(u0.spec_field_width()),
                    u0.particles@,
                    i as int,
                ),
                field.wf(),
            decreases n - i,
        {
            let pm: PointMass = PointMass::new(self.particles[i].position, self.particles[i].mass);
            field.insert(pm);
            i = i + 1;
        }
        field.insert(PointMass::new(Vec2::zero(), self.black_hole_mass));
        proof {
            assert(field == u0.spec_seeded_field());
        }
        let mut regions: Vec<Region> = Vec::new();
        field.root.collect_regions(&mut regions);
        self.bounding_regions = regions;
        update_particles_parallel(&mut self.particles, &field, self.theta, dt);
    }

    /// Whether a point lies inside the axis-aligned box `lo..=hi`.
    pub open spec fn spec_in_box(p: Vec2, lo: Vec2, hi: Vec2) -> bool {
        lo.x.raw <= p.x.raw <= hi.x.raw && lo.y.raw <= p.y.raw <= hi.y.raw
    }

    /// The particles among the first `n` whose positions lie in the box, in
    /// order.
    pub open spec fn spec_within(s: Seq<Particle>, n: int, lo: Vec2, hi: Vec2) -> Seq<Particle>
        decreases n,
    {
        if n <= 0 {
            Seq::<Particle>::empty()
        } else {
            let prev = Self::spec_within(s, n - 1, lo, hi);
            if Self::spec_in_box(s[n - 1].position, lo, hi) {
                prev.push(s[n - 1])
            } else {
                prev
            }
        }
    }

    /// The particles whose positions lie inside the query box, for drawing.
    pub fn particles_within(&self, lo: Vec2, hi: Vec2) -> (r: Vec<Particle>)
        ensures
            r@ == Self::spec_within(self.particles@, self.particles@.len() as int, lo, hi),
    {
        let mut out: Vec<Particle> = Vec::new();
        let n: usize = self.particles.len();
        let mut i: usize = 0;
        while i < n
            invariant
                i <= n,
                n == self.particles@.len(),
                out@ == Self::spec_within(self.particles@, i as int, lo, hi),
            decreases n - i,
        {
            let p: Particle = self.particles[i];
            if lo.x.raw <= p.position.x.raw && p.position.x.raw <= hi.x.raw && lo.y.raw
                <= p.position.y.raw && p.position.y.raw <= hi.y.raw {
                out.push(p);
            }
            i = i + 1;
        }
        out
    }

    /// Whether a node region touches the axis-aligned box `lo..=hi`,
    /// comparing against the square of half the region's width about its
    /// center.
    pub open spec fn spec_region_overlaps(r: Region, lo: Vec2, hi: Vec2) -> bool {
        let half = r.width.div(Scalar::spec_from_int(2));
        &&& r.center.x.sub(half).raw <= hi.x.raw
        &&& r.center.x.add(half).raw >= lo.x.raw
        &&& r.center.y.sub(half).raw <= hi.y.raw
        &&& r.center.y.add(half).raw >= lo.y.raw
    }

    /// The regions among the first `n` recorded ones that touch the box, in
    /// order.
    pub open spec fn spec_regions_within(s: Seq<Region>, n: int, lo: Vec2, hi: Vec2) -> Seq<Region>
        decreases n,
    {
        if n <= 0 {
            Seq::<Region>::empty()
        } else {
            let prev = Self::spec_regions_within(s, n - 1, lo, hi);
            if Self::spec_region_overlaps(s[n - 1], lo, hi) {
                prev.push(s[n - 1])
            } else {
                prev
            }
        }
    }

    /// The recorded tree-node regions that touch the query box, for drawing.
    pub fn regions_within(&self, lo: Vec2, hi: Vec2) -> (r: Vec<Region>)
        ensures
            r@ == Self::spec_regions_within(
                self.bounding_regions@,
                self.bounding_regions@.len() as int,
                lo,
                hi,
            ),
    {
        let mut out: Vec<Region> = Vec::new();
        let n: usize = self.bounding_regions.len();
        let mut i: usize = 0;
        while i < n
            invariant
                i <= n,
                n == self.bounding_regions@.len(),
                out@ == Self::spec_regions_within(self.bounding_regions@, i as int, lo, hi),
            decreases n - i,
        {
            let rg: Region = self.bounding_regions[i];
            let half: Scalar = rg.width.div(Scalar::from_int(2));
            if rg.center.x.sub(half).raw <= hi.x.raw && rg.center.x.add(half).raw >= lo.x.raw
                && rg.center.y.sub(half).raw <= hi.y.raw && rg.center.y.add(half).raw >= lo.y.raw {
                out.push(rg);
            }
            i = i + 1;
        }
        out
    }
}

impl Default for Universe {
    /// An empty universe with the default parameters.
    fn default() -> (r: Universe)
        ensures
            Universe::spec_empty(r),
    {
        Universe::new()
    }
}

/// Estimate the net acceleration on one particle against the given field and
/// integrate it over `dt`.
pub fn step_particle(p: Particle, field: &GravityField, theta: Scalar, dt: Scalar) -> (r: Particle)
    ensures
        r == Universe::spec_step_particle(p, *field, theta, dt),
{
    let net_g: Vec2 = field.estimate_net_g(p.position, theta, Scalar { raw: G_RAW });
    let mut q: Particle = p;
    q.update(dt, net_g);
    q
}

/// Relies on rayon's `par_iter_mut().for_each`: the closure runs exactly once
/// on each element of the vector, each element independently, so every
/// particle is replaced by its stepped value. The force pass only reads the
/// shared field, so the update is safe to distribute over worker threads.
#[verifier::external_body]
fn update_particles_parallel(
    particles: &mut Vec<Particle>,
    field: &GravityField,
    theta: Scalar,
    dt: Scalar,
)
    ensures
        final(particles)@.len() == old(particles)@.len(),
        forall|i: int|
            0 <= i < old(particles)@.len() ==> final(particles)@[i] == Universe::spec_step_particle(
                old(particles)@[i],
                *field,
                theta,
                dt,
            ),
{
    particles.par_iter_mut().for_each(|p| {
        *p = step_particle(*p, field, theta, dt);
    });
}

} // verus!
