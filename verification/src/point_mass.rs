//! A point mass: a scalar mass together with the place it acts from.
//!
//! Internally the position is kept as the mass-weighted coordinate sum (the
//! first moment) rather than as a centroid. Combination is then plain
//! componentwise addition, which makes merging masses exactly commutative and
//! order-independent — the property the aggregation tree and the parallel
//! force pass rely on. The centroid is recovered on demand by dividing the
//! moment by the mass.

use vstd::arithmetic::div_mod::lemma_div_multiples_vanish;
use vstd::arithmetic::div_mod::lemma_fundamental_div_mod;
use vstd::arithmetic::div_mod::lemma_mod_multiples_basic;
use vstd::prelude::*;

use crate::space::lemma_magnitude_dominates;
use crate::space::lemma_sqrt_floor_exists;
use crate::space::lemma_tz_div_bounded;
use crate::space::lemma_tz_div_near;
use crate::space::lemma_tz_div_exact;
use crate::space::lemma_tz_div_odd;
use crate::space::sat64;
use crate::space::sqrt_floor;
use crate::space::tz_div;
use crate::space::MIN_GRAVITY_DISTANCE_SQUARED_RAW;
use crate::space::Scalar;
use crate::space::Space2D;
use crate::space::Vec2;

verus! {

/// A mass and its weighted position. `moment` holds the componentwise sum of
/// `position * mass` over everything merged into this value.
#[derive(Clone, Copy, Debug, PartialEq, Eq, Structural)]
pub struct PointMass {
    pub moment: Vec2,
    pub mass: Scalar,
}

impl PointMass {
    pub open spec fn spec_zero() -> PointMass {
        PointMass { moment: Vec2::spec_zero(), mass: Scalar::spec_zero() }
    }

    /// The massless point mass: combining it into anything is a no-op.
    pub fn zero() -> (r: PointMass)
        ensures
            r == Self::spec_zero(),
    {
        PointMass { moment: Vec2::zero(), mass: Scalar::zero() }
    }

    pub open spec fn spec_new(position: Vec2, mass: Scalar) -> PointMass {
        PointMass { moment: position.scale(mass), mass }
    }

    /// Whether the centroid read back from a freshly built point mass lands
    /// within one raw step of the constructing position on each axis.
    pub open spec fn spec_reads_back_close(position: Vec2, mass: Scalar) -> bool {
        let r = Self::spec_new(position, mass).spec_position();
        &&& -1 <= r.x.raw - position.x.raw <= 1
        &&& -1 <= r.y.raw - position.y.raw <= 1
    }

    /// The point mass of the given mass acting at the given position.
    ///
    /// Only the moment `position * mass` is stored, so the position read
    /// back through `position()` is the truncated quotient of that product:
    /// within one raw step of `position` for moderate positions and masses
    /// of at least one unit, but quantized toward the origin for smaller
    /// masses — at a mass of a single raw step, a position under one unit
    /// reads back as the origin. A zero mass always reads back the origin.
    pub fn new(position: Vec2, mass: Scalar) -> (r: PointMass)
        ensures
            r == Self::spec_new(position, mass),
            r.mass == mass,
            mass.raw == 0 ==> r.spec_position() == Vec2::spec_zero(),
            (moderate(position.x.raw as int) && moderate(position.y.raw as int)
                && moderate_unit_mass(mass)) ==> Self::spec_reads_back_close(position, mass),
    {
        proof {
            if moderate(position.x.raw as int) && moderate(position.y.raw as int)
                && moderate_unit_mass(mass) {
                lemma_position_close(position, mass);
            }
        }
        PointMass { moment: position.scale(mass), mass }
    }

    pub open spec fn spec_combine(self, o: PointMass) -> PointMass {
        PointMass { moment: self.moment.add(o.moment), mass: self.mass.add(o.mass) }
    }

    /// Merge another point mass into this one: the result carries the summed
    /// mass and acts from the mass-weighted centroid of the pair.
    #[verifier::when_used_as_spec(spec_combine)]
    pub fn combine(self, o: PointMass) -> (r: PointMass)
        ensures
            r == self.spec_combine(o),
    {
        PointMass { moment: self.moment.add(o.moment), mass: self.mass.add(o.mass) }
    }

    pub open spec fn spec_position(self) -> Vec2 {
        if self.mass.raw == 0 {
            Vec2::spec_zero()
        } else {
            Vec2 { x: self.moment.x.div(self.mass), y: self.moment.y.div(self.mass) }
        }
    }

    /// The centroid this mass acts from: the moment divided by the mass, or
    /// the origin for a massless value.
    #[verifier::when_used_as_spec(spec_position)]
    pub fn position(self) -> (r: Vec2)
        ensures
            r == self.spec_position(),
    {
        if self.mass.raw == 0 {
            Vec2::zero()
        } else {
            Vec2 { x: self.moment.x.div(self.mass), y: self.moment.y.div(self.mass) }
        }
    }

    pub open spec fn spec_g_at(self, target: Vec2, grav_constant: Scalar) -> Vec2 {
        let to_self = self.spec_position().sub(target);
        let distance_squared = Space2D::magnitude_squared(to_self);
        if distance_squared.raw <= MIN_GRAVITY_DISTANCE_SQUARED_RAW {
            Vec2::spec_zero()
        } else {
            let g = self.mass.mul(grav_constant).div(distance_squared);
            Space2D::normalize(to_self).scale(g)
        }
    }

    /// The gravitational acceleration this mass induces at `target`, per unit
    /// of attracted mass: `G * mass / d^2` toward the centroid, and zero when
    /// the squared distance lies at or under the softening floor.
    #[verifier::when_used_as_spec(spec_g_at)]
    pub fn g_at(self, target: Vec2, grav_constant: Scalar) -> (r: Vec2)
        ensures
            r == self.spec_g_at(target, grav_constant),
    {
        let to_self: Vec2 = self.position().sub(target);
        let distance_squared: Scalar = Space2D::magnitude_squared(to_self);
        if distance_squared.raw <= MIN_GRAVITY_DISTANCE_SQUARED_RAW {
            Vec2::zero()
        } else {
            let g: Scalar = self.mass.mul(grav_constant).div(distance_squared);
            Space2D::normalize(to_self).scale(g)
        }
    }
}

impl Default for PointMass {
    /// The massless point mass.
    fn default() -> (r: PointMass)
        ensures
            r == PointMass::spec_zero(),
    {
        PointMass::zero()
    }
}

/// Combining point masses is commutative, with no proviso: each component is
/// a saturating sum, and saturating addition commutes.
pub proof fn lemma_combine_commutative(a: PointMass, b: PointMass)
    ensures
        a.combine(b) == b.combine(a),
{
}

/// Whether an unbounded integer fits the `i64` range, so that a saturating
/// operation landing on it is exact.
pub open spec fn fits_i64(x: int) -> bool {
    i64::MIN <= x <= i64::MAX
}

/// Combining point masses is associative whenever the partial and total
/// componentwise sums stay inside the scalar range (at the range's rim,
/// saturation may order the roundings differently).
pub proof fn lemma_combine_associative(a: PointMass, b: PointMass, c: PointMass)
    requires
        fits_i64(a.moment.x.raw + b.moment.x.raw),
        fits_i64(a.moment.y.raw + b.moment.y.raw),
        fits_i64(a.mass.raw + b.mass.raw),
        fits_i64(b.moment.x.raw + c.moment.x.raw),
        fits_i64(b.moment.y.raw + c.moment.y.raw),
        fits_i64(b.mass.raw + c.mass.raw),
        fits_i64(a.moment.x.raw + b.moment.x.raw + c.moment.x.raw),
        fits_i64(a.moment.y.raw + b.moment.y.raw + c.moment.y.raw),
        fits_i64(a.mass.raw + b.mass.raw + c.mass.raw),
    ensures
        a.combine(b).combine(c) == a.combine(b.combine(c)),
{
}

/// Combining in a freshly constructed zero-mass point is a no-op: a mass of
/// zero scales any position to a zero moment.
pub proof fn lemma_combine_zero_mass_noop(a: PointMass, position: Vec2)
    ensures
        a.combine(PointMass::spec_new(position, Scalar::spec_zero())) == a,
{
    assert(PointMass::spec_new(position, Scalar::spec_zero()).moment == Vec2::spec_zero());
}

/// A raw value within two-to-the-thirty-ninth of zero: far enough from the
/// scalar range's rim that the gravity formula never saturates on it.
pub open spec fn moderate(x: int) -> bool {
    -549755813888 <= x <= 549755813888
}

/// A mass of a whole number of units, positive and moderate. For such a
/// mass the stored moment divides back exactly to the constructing
/// position.
pub open spec fn moderate_whole_mass(m: Scalar) -> bool {
    65536 <= m.raw <= 549755813888 && m.raw as int % 65536 == 0
}

/// One coordinate of the moment round trip: scaling by a whole-unit mass
/// and dividing back returns the coordinate unchanged.
proof fn lemma_component_exact(px: int, mr: int, k: int)
    requires
        moderate(px),
        mr == 65536 * k,
        1 <= k <= 8388608,
    ensures
        sat64(tz_div(px * mr, 65536)) == px * k,
        sat64(tz_div((px * k) * 65536, mr)) == px,
{
    assert(px * mr == (px * k) * 65536) by (nonlinear_arith)
        requires
            mr == 65536 * k,
    ;
    lemma_mod_multiples_basic(px * k, 65536);
    lemma_tz_div_exact(px * mr, 65536);
    assert(px * mr == 65536 * (px * k)) by (nonlinear_arith)
        requires
            mr == 65536 * k,
    ;
    lemma_div_multiples_vanish(px * k, 65536);
    assert(tz_div(px * mr, 65536) == px * k);
    assert(-4611686018427387904 <= px * k <= 4611686018427387904) by (nonlinear_arith)
        requires
            -549755813888 <= px <= 549755813888,
            1 <= k <= 8388608,
    ;
    assert(sat64(tz_div(px * mr, 65536)) == px * k);

    assert((px * k) * 65536 == px * mr);
    assert(px * mr == mr * px) by (nonlinear_arith);
    lemma_mod_multiples_basic(px, mr);
    assert((px * mr) % (mr as int) == 0);
    lemma_tz_div_exact(px * mr, mr);
    lemma_div_multiples_vanish(px, mr);
    assert(tz_div(px * mr, mr) == px);
    assert(sat64(px) == px);
}

/// For a whole-unit moderate mass at a moderate position, the centroid read
/// back from the moment is exactly the constructing position.
pub proof fn lemma_position_exact(p: Vec2, m: Scalar)
    requires
        moderate(p.x.raw as int),
        moderate(p.y.raw as int),
        moderate_whole_mass(m),
    ensures
        PointMass::spec_new(p, m).spec_position() == p,
{
    let mr: int = m.raw as int;
    let k: int = mr / 65536;
    lemma_fundamental_div_mod(mr, 65536);
    assert(mr == 65536 * k);
    assert(1 <= k <= 8388608);
    lemma_component_exact(p.x.raw as int, mr, k);
    lemma_component_exact(p.y.raw as int, mr, k);
    let pm = PointMass::spec_new(p, m);
    assert(pm.moment.x.raw == p.x.raw as int * k);
    assert(pm.moment.y.raw == p.y.raw as int * k);
    assert(pm.spec_position().x == p.x);
    assert(pm.spec_position().y == p.y);
}

/// A mass of at least one unit, and moderate. Such a mass anchors its
/// moment firmly enough that the centroid read back is within one raw step
/// of the constructing position.
pub open spec fn moderate_unit_mass(m: Scalar) -> bool {
    65536 <= m.raw <= 549755813888
}

/// One coordinate of the moment round trip for a moderate unit mass: the
/// centroid coordinate read back is within one raw step of the
/// constructing one, and every intermediate stays moderate.
proof fn lemma_component_close(px: int, mr: int)
    requires
        moderate(px),
        65536 <= mr <= 549755813888,
    ensures
        -4611686018427387904 <= tz_div(px * mr, 65536) <= 4611686018427387904,
        sat64(tz_div(px * mr, 65536)) == tz_div(px * mr, 65536),
        -549755813889 <= tz_div(tz_div(px * mr, 65536) * 65536, mr) <= 549755813889,
        -1 <= sat64(tz_div(tz_div(px * mr, 65536) * 65536, mr)) - px <= 1,
        sat64(tz_div(tz_div(px * mr, 65536) * 65536, mr)) == tz_div(
            tz_div(px * mr, 65536) * 65536,
            mr,
        ),
{
    assert(-(65536 * 4611686018427387904) <= px * mr <= 65536 * 4611686018427387904)
        by (nonlinear_arith)
        requires
            -549755813888 <= px <= 549755813888,
            65536 <= mr <= 549755813888,
    ;
    lemma_tz_div_bounded(px * mr, 65536, 4611686018427387904);
    let momx: int = tz_div(px * mr, 65536);
    assert(sat64(momx) == momx);
    lemma_tz_div_near(px * mr, 65536);
    assert(-(mr * 549755813889) <= momx * 65536 <= mr * 549755813889) by (nonlinear_arith)
        requires
            65536 * momx < px * mr + 65536,
            px * mr - 65536 < 65536 * momx,
            -549755813888 <= px <= 549755813888,
            65536 <= mr,
    ;
    lemma_tz_div_bounded(momx * 65536, mr, 549755813889);
    let posx: int = tz_div(momx * 65536, mr);
    assert(sat64(posx) == posx);
    lemma_tz_div_near(momx * 65536, mr);
    assert(-1 <= posx - px <= 1) by (nonlinear_arith)
        requires
            mr * posx < momx * 65536 + mr,
            momx * 65536 - mr < mr * posx,
            65536 * momx < px * mr + 65536,
            px * mr - 65536 < 65536 * momx,
            65536 <= mr,
    ;
}

/// One coordinate of the moment round trip for any positive moderate mass:
/// the moment and the centroid read back from it stay in moderate ranges,
/// so the saturating wrappers are exact. (Closeness needs a unit mass; the
/// bounds do not.)
proof fn lemma_component_bounds(px: int, mr: int)
    requires
        moderate(px),
        1 <= mr <= 549755813888,
    ensures
        -4611686018427387904 <= tz_div(px * mr, 65536) <= 4611686018427387904,
        sat64(tz_div(px * mr, 65536)) == tz_div(px * mr, 65536),
        -549755879425 <= tz_div(tz_div(px * mr, 65536) * 65536, mr) <= 549755879425,
        sat64(tz_div(tz_div(px * mr, 65536) * 65536, mr)) == tz_div(
            tz_div(px * mr, 65536) * 65536,
            mr,
        ),
{
    assert(-(65536 * 4611686018427387904) <= px * mr <= 65536 * 4611686018427387904)
        by (nonlinear_arith)
        requires
            -549755813888 <= px <= 549755813888,
            1 <= mr <= 549755813888,
    ;
    lemma_tz_div_bounded(px * mr, 65536, 4611686018427387904);
    let momx: int = tz_div(px * mr, 65536);
    assert(sat64(momx) == momx);
    lemma_tz_div_near(px * mr, 65536);
    lemma_tz_div_near(momx * 65536, mr);
    let posx: int = tz_div(momx * 65536, mr);
    assert(-549755879425 <= posx <= 549755879425) by (nonlinear_arith)
        requires
            mr * posx < momx * 65536 + mr,
            momx * 65536 - mr < mr * posx,
            65536 * momx < px * mr + 65536,
            px * mr - 65536 < 65536 * momx,
            1 <= mr,
            -549755813888 <= px <= 549755813888,
    ;
    assert(sat64(posx) == posx);
}

/// For a moderate unit mass at a moderate position, the centroid read back
/// from the moment is within one raw step of the constructing position on
/// each axis.
pub proof fn lemma_position_close(p: Vec2, m: Scalar)
    requires
        moderate(p.x.raw as int),
        moderate(p.y.raw as int),
        moderate_unit_mass(m),
    ensures
        -1 <= PointMass::spec_new(p, m).spec_position().x.raw - p.x.raw <= 1,
        -1 <= PointMass::spec_new(p, m).spec_position().y.raw - p.y.raw <= 1,
{
    lemma_component_close(p.x.raw as int, m.raw as int);
    lemma_component_close(p.y.raw as int, m.raw as int);
}

/// A moderate unit mass induces no acceleration at its own position: the
/// centroid read back drifts by at most one raw step, so the squared
/// distance collapses to zero and lies under the softening floor.
pub proof fn lemma_self_gravity_zero(p: Vec2, m: Scalar, grav_constant: Scalar)
    requires
        moderate(p.x.raw as int),
        moderate(p.y.raw as int),
        moderate_unit_mass(m),
    ensures
        PointMass::spec_new(p, m).spec_g_at(p, grav_constant) == Vec2::spec_zero(),
{
    lemma_position_close(p, m);
    let pm = PointMass::spec_new(p, m);
    let to_self = pm.spec_position().sub(p);
    let dx: int = to_self.x.raw as int;
    let dy: int = to_self.y.raw as int;
    assert(-1 <= dx <= 1 && -1 <= dy <= 1);
    assert(0 <= dx * dx <= 1 && 0 <= dy * dy <= 1) by (nonlinear_arith)
        requires
            -1 <= dx <= 1,
            -1 <= dy <= 1,
    ;
    assert(tz_div(0, 65536) == 0);
    assert(tz_div(1, 65536) == 0);
    assert(Space2D::spec_magnitude_squared(to_self).raw == 0);
}

/// Mirroring a position through the origin negates the stored moment and
/// the centroid read back from it, exactly: truncation toward zero is odd,
/// and in the moderate range nothing saturates.
pub proof fn lemma_position_mirrored(p: Vec2, q: Vec2, m: Scalar)
    requires
        moderate(p.x.raw as int),
        moderate(p.y.raw as int),
        q.x.raw + p.x.raw == 0,
        q.y.raw + p.y.raw == 0,
        1 <= m.raw <= 549755813888,
    ensures
        PointMass::spec_new(q, m).spec_position().x.raw == -PointMass::spec_new(
            p,
            m,
        ).spec_position().x.raw,
        PointMass::spec_new(q, m).spec_position().y.raw == -PointMass::spec_new(
            p,
            m,
        ).spec_position().y.raw,
        -549755879425 <= PointMass::spec_new(p, m).spec_position().x.raw <= 549755879425,
        -549755879425 <= PointMass::spec_new(p, m).spec_position().y.raw <= 549755879425,
{
    let mr: int = m.raw as int;
    lemma_component_bounds(p.x.raw as int, mr);
    lemma_component_bounds(p.y.raw as int, mr);
    let pm1 = PointMass::spec_new(p, m);
    let pm2 = PointMass::spec_new(q, m);

    let m1x: int = tz_div(p.x.raw as int * mr, 65536);
    let m1y: int = tz_div(p.y.raw as int * mr, 65536);
    assert(q.x.raw as int * mr == -(p.x.raw as int * mr)) by (nonlinear_arith)
        requires
            q.x.raw + p.x.raw == 0,
    ;
    assert(q.y.raw as int * mr == -(p.y.raw as int * mr)) by (nonlinear_arith)
        requires
            q.y.raw + p.y.raw == 0,
    ;
    lemma_tz_div_odd(p.x.raw as int * mr, 65536);
    lemma_tz_div_odd(p.y.raw as int * mr, 65536);
    assert(pm1.moment.x.raw == m1x && pm1.moment.y.raw == m1y);
    assert(pm2.moment.x.raw == -m1x && pm2.moment.y.raw == -m1y);

    let p1x: int = tz_div(m1x * 65536, mr);
    let p1y: int = tz_div(m1y * 65536, mr);
    assert((-m1x) * 65536 == -(m1x * 65536));
    assert((-m1y) * 65536 == -(m1y * 65536));
    lemma_tz_div_odd(m1x * 65536, mr);
    lemma_tz_div_odd(m1y * 65536, mr);
    assert(pm1.spec_position().x.raw == p1x && pm1.spec_position().y.raw == p1y);
    assert(pm2.spec_position().x.raw == -p1x && pm2.spec_position().y.raw == -p1y);
}

/// Mirroring a configuration through the origin negates the induced
/// acceleration exactly: every rounding step in the formula is odd, and in
/// the moderate range nothing saturates.
pub proof fn lemma_g_at_mirrored(p: Vec2, q: Vec2, t: Vec2, tq: Vec2, m: Scalar, grav: Scalar)
    requires
        moderate(p.x.raw as int),
        moderate(p.y.raw as int),
        moderate(t.x.raw as int),
        moderate(t.y.raw as int),
        q.x.raw + p.x.raw == 0,
        q.y.raw + p.y.raw == 0,
        tq.x.raw + t.x.raw == 0,
        tq.y.raw + t.y.raw == 0,
        1 <= m.raw <= 549755813888,
        moderate(grav.raw as int),
    ensures
        PointMass::spec_new(q, m).spec_g_at(tq, grav).x.raw == -PointMass::spec_new(
            p,
            m,
        ).spec_g_at(t, grav).x.raw,
        PointMass::spec_new(q, m).spec_g_at(tq, grav).y.raw == -PointMass::spec_new(
            p,
            m,
        ).spec_g_at(t, grav).y.raw,
{
    lemma_position_mirrored(p, q, m);
    lemma_component_bounds(p.x.raw as int, m.raw as int);
    lemma_component_bounds(p.y.raw as int, m.raw as int);
    let pm1 = PointMass::spec_new(p, m);
    let pm2 = PointMass::spec_new(q, m);

    let a: int = pm1.spec_position().x.raw - t.x.raw;
    let b: int = pm1.spec_position().y.raw - t.y.raw;
    let v1 = pm1.spec_position().sub(t);
    let v2 = pm2.spec_position().sub(tq);
    assert(v1.x.raw == a && v1.y.raw == b);
    assert(v2.x.raw == -a && v2.y.raw == -b);

    assert((-a) * (-a) == a * a) by (nonlinear_arith);
    assert((-b) * (-b) == b * b) by (nonlinear_arith);
    let d1 = Space2D::spec_magnitude_squared(v1);
    let d2 = Space2D::spec_magnitude_squared(v2);
    assert(d1 == d2);

    if d1.raw <= MIN_GRAVITY_DISTANCE_SQUARED_RAW {
        assert(pm1.spec_g_at(t, grav) == Vec2::spec_zero());
        assert(pm2.spec_g_at(tq, grav) == Vec2::spec_zero());
    } else {
        let g = m.spec_mul(grav).spec_div(d1);
        assert(pm1.mass == pm2.mass);

        // The two magnitudes agree: they are square roots of the same sum.
        let nsum: int = a * a + b * b;
        assert(a * a >= 0 && b * b >= 0) by (nonlinear_arith);
        assert(v2.x.raw * v2.x.raw + v2.y.raw * v2.y.raw == nsum);
        lemma_sqrt_floor_exists(nsum);
        let ms: int = sqrt_floor(nsum);
        assert(a * a + b * b <= 2500000000000000000000000) by (nonlinear_arith)
            requires
                -1099511693313 <= a <= 1099511693313,
                -1099511693313 <= b <= 1099511693313,
        ;
        assert(ms < 1600000000000) by (nonlinear_arith)
            requires
                0 <= ms,
                ms * ms <= nsum,
                nsum <= 2500000000000000000000000,
        ;
        let mag1 = Space2D::spec_magnitude(v1);
        let mag2 = Space2D::spec_magnitude(v2);
        assert(mag1.raw == ms && mag2.raw == ms);

        if ms <= 0 {
            assert(Space2D::spec_normalize(v1) == Vec2::spec_zero());
            assert(Space2D::spec_normalize(v2) == Vec2::spec_zero());
            assert(tz_div(0, 65536) == 0);
            assert(pm1.spec_g_at(t, grav).x.raw == 0);
            assert(pm2.spec_g_at(tq, grav).x.raw == 0);
            assert(pm1.spec_g_at(t, grav).y.raw == 0);
            assert(pm2.spec_g_at(tq, grav).y.raw == 0);
        } else {
            // Components are bounded by the magnitude, so the normalized
            // components stay within one unit and nothing saturates.
            assert(-ms <= a <= ms) by (nonlinear_arith)
                requires
                    0 <= ms,
                    a * a <= nsum,
                    nsum < (ms + 1) * (ms + 1),
                    nsum == a * a + b * b,
                    b * b >= 0,
            ;
            assert(-ms <= b <= ms) by (nonlinear_arith)
                requires
                    0 <= ms,
                    b * b <= nsum,
                    nsum < (ms + 1) * (ms + 1),
                    nsum == a * a + b * b,
                    a * a >= 0,
            ;
            // The strength itself stays far from the rim: the mass-times-
            // constant product and its division by the squared distance are
            // both bounded well inside the range.
            assert(-(65536 * 4611686018427387904) <= m.raw * grav.raw <= 65536
                * 4611686018427387904) by (nonlinear_arith)
                requires
                    0 <= m.raw <= 549755813888,
                    -549755813888 <= grav.raw <= 549755813888,
            ;
            lemma_tz_div_bounded(m.raw * grav.raw, 65536, 4611686018427387904);
            let mg: int = tz_div(m.raw * grav.raw, 65536);
            assert(m.spec_mul(grav).raw == mg);
            assert(-((d1.raw as int) * 4611686018427387904) <= mg * 65536 <= (d1.raw as int)
                * 4611686018427387904) by (nonlinear_arith)
                requires
                    -4611686018427387904 <= mg <= 4611686018427387904,
                    d1.raw > 65536,
            ;
            lemma_tz_div_bounded(mg * 65536, d1.raw as int, 4611686018427387904);
            assert(g.raw == tz_div(mg * 65536, d1.raw as int));
            lemma_mirrored_component(a, ms, g.raw as int);
            lemma_mirrored_component(b, ms, g.raw as int);
            assert(pm2.spec_g_at(tq, grav).x.raw == -pm1.spec_g_at(t, grav).x.raw);
            assert(pm2.spec_g_at(tq, grav).y.raw == -pm1.spec_g_at(t, grav).y.raw);
        }
    }
}

/// One coordinate of the mirrored gravity formula: normalizing a component
/// bounded by the magnitude and scaling it by the strength is odd and free
/// of saturation.
proof fn lemma_mirrored_component(a: int, ms: int, gr: int)
    requires
        1 <= ms,
        -ms <= a <= ms,
        -9223372036854775807 <= gr <= 9223372036854775807,
    ensures
        sat64(tz_div(-a * 65536, ms)) == -sat64(tz_div(a * 65536, ms)),
        sat64(tz_div(sat64(tz_div(-a * 65536, ms)) * gr, 65536)) == -sat64(
            tz_div(sat64(tz_div(a * 65536, ms)) * gr, 65536),
        ),
{
    assert(-a * 65536 == -(a * 65536));
    lemma_tz_div_odd(a * 65536, ms);
    assert(-(ms * 65536) <= a * 65536 <= ms * 65536) by (nonlinear_arith)
        requires
            -ms <= a <= ms,
            1 <= ms,
    ;
    lemma_tz_div_bounded(a * 65536, ms, 65536);
    let n: int = tz_div(a * 65536, ms);
    assert(sat64(n) == n);
    assert(sat64(-n) == -n);
    assert(sat64(tz_div(-a * 65536, ms)) == -n);

    assert((-n) * gr == -(n * gr)) by (nonlinear_arith);
    lemma_tz_div_odd(n * gr, 65536);
    assert(-(65536 * 9223372036854775807) <= n * gr <= 65536 * 9223372036854775807)
        by (nonlinear_arith)
        requires
            -65536 <= n <= 65536,
            -9223372036854775807 <= gr <= 9223372036854775807,
    ;
    lemma_tz_div_bounded(n * gr, 65536, 9223372036854775807);
    let s: int = tz_div(n * gr, 65536);
    assert(sat64(s) == s);
    assert(sat64(-s) == -s);
}

/// Every component of an induced acceleration stays within a quarter of
/// the scalar range when the mass is moderate and the gravitational
/// constant within half the moderate range: the normalized direction is
/// within one unit, and the strength is bounded by the mass-constant
/// product over the softening floor. Two such accelerations can then be
/// summed without saturating.
pub proof fn lemma_g_at_bounded(pm: PointMass, at: Vec2, grav: Scalar)
    requires
        -549755813888 <= pm.mass.raw <= 549755813888,
        -274877906944 <= grav.raw <= 274877906944,
        -549755879425 <= pm.spec_position().x.raw <= 549755879425,
        -549755879425 <= pm.spec_position().y.raw <= 549755879425,
        -549755879425 <= at.x.raw <= 549755879425,
        -549755879425 <= at.y.raw <= 549755879425,
    ensures
        -2305843009213693952 <= pm.spec_g_at(at, grav).x.raw <= 2305843009213693952,
        -2305843009213693952 <= pm.spec_g_at(at, grav).y.raw <= 2305843009213693952,
{
    let v = pm.spec_position().sub(at);
    let d2 = Space2D::spec_magnitude_squared(v);
    if d2.raw <= MIN_GRAVITY_DISTANCE_SQUARED_RAW {
        assert(pm.spec_g_at(at, grav) == Vec2::spec_zero());
    } else {
        assert(-(65536 * 2305843009213693952) <= pm.mass.raw * grav.raw <= 65536
            * 2305843009213693952) by (nonlinear_arith)
            requires
                -549755813888 <= pm.mass.raw <= 549755813888,
                -274877906944 <= grav.raw <= 274877906944,
        ;
        lemma_tz_div_bounded(pm.mass.raw * grav.raw, 65536, 2305843009213693952);
        let mg: int = tz_div(pm.mass.raw * grav.raw, 65536);
        assert(pm.mass.spec_mul(grav).raw == mg);
        assert(-((d2.raw as int) * 2305843009213693952) <= mg * 65536 <= (d2.raw as int)
            * 2305843009213693952) by (nonlinear_arith)
            requires
                -2305843009213693952 <= mg <= 2305843009213693952,
                d2.raw > 65536,
        ;
        lemma_tz_div_bounded(mg * 65536, d2.raw as int, 2305843009213693952);
        let g = pm.mass.spec_mul(grav).spec_div(d2);
        assert(g.raw == tz_div(mg * 65536, d2.raw as int));

        lemma_magnitude_dominates(v);
        let mag = Space2D::spec_magnitude(v);
        if mag.raw <= 0 {
            assert(Space2D::spec_normalize(v) == Vec2::spec_zero());
            assert(0 * g.raw == 0) by (nonlinear_arith);
            assert(tz_div(0, 65536) == 0);
        } else {
            lemma_normalized_component_scaled(v.x.raw as int, mag.raw as int, g.raw as int);
            lemma_normalized_component_scaled(v.y.raw as int, mag.raw as int, g.raw as int);
        }
    }
}

/// A component within the magnitude normalizes to within one unit, and
/// scaling that by a bounded strength stays within the same bound.
proof fn lemma_normalized_component_scaled(c: int, mag: int, gr: int)
    requires
        1 <= mag,
        -mag <= c <= mag,
        -2305843009213693952 <= gr <= 2305843009213693952,
    ensures
        -65536 <= tz_div(c * 65536, mag) <= 65536,
        sat64(tz_div(c * 65536, mag)) == tz_div(c * 65536, mag),
        -2305843009213693952 <= tz_div(tz_div(c * 65536, mag) * gr, 65536)
            <= 2305843009213693952,
        sat64(tz_div(tz_div(c * 65536, mag) * gr, 65536)) == tz_div(
            tz_div(c * 65536, mag) * gr,
            65536,
        ),
{
    assert(-(mag * 65536) <= c * 65536 <= mag * 65536) by (nonlinear_arith)
        requires
            -mag <= c <= mag,
            1 <= mag,
    ;
    lemma_tz_div_bounded(c * 65536, mag, 65536);
    let n: int = tz_div(c * 65536, mag);
    assert(sat64(n) == n);
    assert(-(65536 * 2305843009213693952) <= n * gr <= 65536 * 2305843009213693952)
        by (nonlinear_arith)
        requires
            -65536 <= n <= 65536,
            -2305843009213693952 <= gr <= 2305843009213693952,
    ;
    lemma_tz_div_bounded(n * gr, 65536, 2305843009213693952);
    let s: int = tz_div(n * gr, 65536);
    assert(sat64(s) == s);
}

} // verus!

