//! The spatial aggregation tree and the gravity field built on it.
//!
//! A `MassAggregate` covers a square region of space, split about a pivot
//! into four quadrants. Each quadrant holds nothing, a single body, or a
//! boxed sub-aggregate; the node's `total` always carries the combination of
//! every point mass inserted beneath it. `GravityField` wraps the root node,
//! rejects out-of-bounds or massless insertions, and answers approximate
//! net-acceleration queries by walking the tree with the opening-angle test.

use vstd::arithmetic::div_mod::lemma_div_denominator;
use vstd::arithmetic::div_mod::lemma_div_multiples_vanish;
use vstd::prelude::*;

use crate::point_mass::lemma_g_at_bounded;
use crate::point_mass::lemma_g_at_mirrored;
use crate::point_mass::lemma_position_close;
use crate::point_mass::lemma_position_mirrored;
use crate::point_mass::lemma_self_gravity_zero;
use crate::point_mass::moderate;
use crate::point_mass::moderate_unit_mass;
use crate::point_mass::PointMass;
use crate::space::sat64;
use crate::space::tz_div;
use crate::space::EPSILON_RAW;
use crate::space::Scalar;
use crate::space::Space2D;
use crate::space::Vec2;

verus! {

/// One quadrant slot of an aggregation node.
#[derive(Debug)]
pub enum Child {
    /// Nothing has been inserted into this quadrant.
    Empty,
    /// Exactly one unaggregated point mass sits in this quadrant.
    Body(PointMass),
    /// The quadrant has subdivided into a nested aggregation node.
    Aggregate(Box<MassAggregate>),
}

/// A node of the aggregation tree: a square region of edge length `width`
/// about `pivot`, with four quadrant slots and the combined point mass of
/// everything inserted beneath it.
#[derive(Debug)]
pub struct MassAggregate {
    /// The combination of every point mass inserted at or under this node.
    pub total: PointMass,
    /// The point about which the four quadrants are delimited.
    pub pivot: Vec2,
    /// The edge length of the region this node covers.
    pub width: Scalar,
    /// Quadrant of coordinates at or above the pivot on both axes.
    pub q0: Child,
    /// Quadrant of x at or above the pivot, y below.
    pub q1: Child,
    /// Quadrant of x below the pivot, y at or above.
    pub q2: Child,
    /// Quadrant of coordinates below the pivot on both axes.
    pub q3: Child,
}

/// The raw value of half the given raw width, as the scalar division
/// computes it.
pub open spec fn half_raw(w: int) -> int {
    sat64(tz_div(w * 65536, 131072))
}

/// Halving a width: exact for whole range, and a half of at least one unit
/// forces a parent width of at least two units.
pub proof fn lemma_half_width(w: int)
    requires
        -9223372036854775808 <= w <= 9223372036854775807,
    ensures
        w >= 0 ==> half_raw(w) == w / 2,
        w < 0 ==> half_raw(w) <= 0,
        half_raw(w) >= 1 ==> 2 <= w && half_raw(w) < w,
{
    if w >= 0 {
        if w == 0 {
            assert(half_raw(0) == 0);
        } else {
            lemma_div_multiples_vanish(w, 65536);
            lemma_div_denominator(w * 65536, 65536, 2);
            assert((w * 65536) / 131072 == w / 2);
        }
    } else {
        let v: int = -w;
        lemma_div_multiples_vanish(v, 65536);
        lemma_div_denominator(v * 65536, 65536, 2);
        assert((v * 65536) / 131072 == v / 2);
        assert(w * 65536 == -(v * 65536));
    }
}

/// The half width and quadrant pivot a node hands to the quadrant `i`, as
/// raw spec values.
pub open spec fn spec_quadrant(i: int, width: Scalar, pivot: Vec2) -> (Scalar, Vec2) {
    Space2D::spec_subtree_width_pivot(i, width, pivot)
}

/// Well-formedness of a quadrant slot with respect to its parent: a nested
/// aggregate covers exactly the quadrant it sits in, its width is half the
/// parent's and still above the resolution floor, and it is itself
/// well-formed.
pub open spec fn child_wf(c: Child, width: Scalar, pivot: Vec2, i: int) -> bool
    decreases c,
{
    match c {
        Child::Empty => true,
        Child::Body(_) => true,
        Child::Aggregate(a) => {
            let wp = spec_quadrant(i, width, pivot);
            wp.0.raw >= EPSILON_RAW && a.width == wp.0 && a.pivot == wp.1 && a.wf()
        },
    }
}

impl MassAggregate {
    /// Every nested aggregate of this node covers the quadrant it occupies.
    pub open spec fn wf(self) -> bool
        decreases self,
    {
        &&& child_wf(self.q0, self.width, self.pivot, 0)
        &&& child_wf(self.q1, self.width, self.pivot, 1)
        &&& child_wf(self.q2, self.width, self.pivot, 2)
        &&& child_wf(self.q3, self.width, self.pivot, 3)
    }

    pub open spec fn spec_child(self, i: int) -> Child {
        if i == 0 {
            self.q0
        } else if i == 1 {
            self.q1
        } else if i == 2 {
            self.q2
        } else {
            self.q3
        }
    }

    /// `self` with quadrant `i` replaced and the given total.
    pub open spec fn spec_with(self, i: int, c: Child, total: PointMass) -> MassAggregate {
        MassAggregate {
            total,
            pivot: self.pivot,
            width: self.width,
            q0: if i == 0 { c } else { self.q0 },
            q1: if i == 1 { c } else { self.q1 },
            q2: if i == 2 { c } else { self.q2 },
            q3: if i == 3 { c } else { self.q3 },
        }
    }

    pub open spec fn spec_new(pivot: Vec2, width: Scalar) -> MassAggregate {
        MassAggregate {
            total: PointMass::spec_zero(),
            pivot,
            width,
            q0: Child::Empty,
            q1: Child::Empty,
            q2: Child::Empty,
            q3: Child::Empty,
        }
    }

    /// An empty node covering a square of the given width about `pivot`.
    pub fn new(pivot: Vec2, width: Scalar) -> (r: MassAggregate)
        ensures
            r == Self::spec_new(pivot, width),
            r.wf(),
    {
        MassAggregate {
            total: PointMass::zero(),
            pivot,
            width,
            q0: Child::Empty,
            q1: Child::Empty,
            q2: Child::Empty,
            q3: Child::Empty,
        }
    }

    /// The node that holds exactly the two bodies `e` and `b`, covering a
    /// quadrant of the given width about `pivot`: the shape a slot takes when
    /// a second body arrives in an occupied quadrant.
    pub open spec fn spec_pair(pivot: Vec2, width: Scalar, e: PointMass, b: PointMass) -> MassAggregate
        decreases width.raw,
        via Self::spec_pair_decreases
    {
        let total = PointMass::spec_zero().combine(e).combine(b);
        let ie = Space2D::spec_subdivision_index(pivot, e.spec_position());
        let ib = Space2D::spec_subdivision_index(pivot, b.spec_position());
        let base = Self::spec_new(pivot, width);
        if ie != ib {
            base.spec_with(ie, Child::Body(e), total).spec_with(ib, Child::Body(b), total)
        } else {
            let wp = spec_quadrant(ie, width, pivot);
            let c = if wp.0.raw < EPSILON_RAW {
                Child::Body(e.combine(b))
            } else {
                Child::Aggregate(Box::new(Self::spec_pair(wp.1, wp.0, e, b)))
            };
            base.spec_with(ie, c, total)
        }
    }

    /// The tree after absorbing one more point mass: the total is combined in
    /// at every node along the path, and the routed quadrant gains the body,
    /// merges with it at the resolution floor, or subdivides.
    pub open spec fn spec_insert(self, body: PointMass) -> MassAggregate
        decreases self,
    {
        let total = self.total.combine(body);
        let i = Space2D::spec_subdivision_index(self.pivot, body.spec_position());
        let newc = match self.spec_child(i) {
            Child::Empty => Child::Body(body),
            Child::Body(existing) => {
                let wp = spec_quadrant(i, self.width, self.pivot);
                if wp.0.raw < EPSILON_RAW {
                    Child::Body(existing.combine(body))
                } else {
                    Child::Aggregate(Box::new(Self::spec_pair(wp.1, wp.0, existing, body)))
                }
            },
            Child::Aggregate(a) => Child::Aggregate(Box::new(a.spec_insert(body))),
        };
        self.spec_with(i, newc, total)
    }
    #[via_fn]
    proof fn spec_pair_decreases(pivot: Vec2, width: Scalar, e: PointMass, b: PointMass) {
        lemma_half_width(width.raw as int);
    }
}

impl MassAggregate {
    /// Two inserts into a fresh node build exactly the two-body quadrant
    /// shape that `spec_pair` describes.
    pub proof fn lemma_pair_is_two_inserts(pivot: Vec2, width: Scalar, e: PointMass, b: PointMass)
        ensures
            Self::spec_new(pivot, width).spec_insert(e).spec_insert(b) == Self::spec_pair(
                pivot,
                width,
                e,
                b,
            ),
    {
        let n0 = Self::spec_new(pivot, width);
        let n1 = n0.spec_insert(e);
        let n2 = n1.spec_insert(b);
        let p = Self::spec_pair(pivot, width, e, b);
        assert(n2 == p);
    }

    /// Absorb one point mass: combine it into this node's total and place it
    /// in the quadrant containing its position, subdividing an occupied
    /// quadrant whose half width is still above the resolution floor and
    /// merging coincident bodies at that floor.
    pub fn insert(&mut self, body: PointMass)
        requires
            old(self).wf(),
        ensures
            *final(self) == old(self).spec_insert(body),
            final(self).wf(),
            final(self).total == old(self).total.combine(body),
            final(self).width == old(self).width,
            final(self).pivot == old(self).pivot,
        decreases old(self).width.raw,
    {
        self.total = self.total.combine(body);
        let i: usize = Space2D::subdivision_index(self.pivot, body.position());
        let mut c: Child = Child::Empty;
        if i == 0 {
            core::mem::swap(&mut self.q0, &mut c);
        } else if i == 1 {
            core::mem::swap(&mut self.q1, &mut c);
        } else if i == 2 {
            core::mem::swap(&mut self.q2, &mut c);
        } else {
            core::mem::swap(&mut self.q3, &mut c);
        }
        let newc: Child = match c {
            Child::Empty => Child::Body(body),
            Child::Body(existing) => {
                let wp: (Scalar, Vec2) = Space2D::subtree_width_pivot(i, self.width, self.pivot);
                if wp.0.raw < EPSILON_RAW {
                    Child::Body(existing.combine(body))
                } else {
                    proof {
                        lemma_half_width(old(self).width.raw as int);
                    }
                    let mut aggregate: MassAggregate = MassAggregate::new(wp.1, wp.0);
                    aggregate.insert(existing);
                    aggregate.insert(body);
                    proof {
                        Self::lemma_pair_is_two_inserts(wp.1, wp.0, existing, body);
                    }
                    Child::Aggregate(Box::new(aggregate))
                }
            },
            Child::Aggregate(mut a) => {
                proof {
                    lemma_half_width(old(self).width.raw as int);
                }
                (&mut *a).insert(body);
                Child::Aggregate(a)
            },
        };
        if i == 0 {
            self.q0 = newc;
        } else if i == 1 {
            self.q1 = newc;
        } else if i == 2 {
            self.q2 = newc;
        } else {
            self.q3 = newc;
        }
    }
}

/// The contribution one quadrant slot makes to a net-acceleration estimate:
/// nothing for an empty slot, the body's direct pull for a single body, and
/// a recursive estimate over the quadrant's own region for an aggregate.
pub open spec fn spec_child_g(
    c: Child,
    i: int,
    other_position: Vec2,
    pivot: Vec2,
    width: Scalar,
    theta_squared: Scalar,
    grav_const: Scalar,
) -> Vec2
    decreases c,
{
    match c {
        Child::Empty => Vec2::spec_zero(),
        Child::Body(b) => b.spec_g_at(other_position, grav_const),
        Child::Aggregate(a) => {
            let wp = spec_quadrant(i, width, pivot);
            a.spec_estimate_net_g(other_position, wp.1, wp.0, theta_squared, grav_const)
        },
    }
}

fn child_g(
    c: &Child,
    i: usize,
    other_position: Vec2,
    pivot: Vec2,
    width: Scalar,
    theta_squared: Scalar,
    grav_const: Scalar,
) -> (r: Vec2)
    requires
        i < 4,
    ensures
        r == spec_child_g(*c, i as int, other_position, pivot, width, theta_squared, grav_const),
    decreases *c,
{
    match c {
        Child::Empty => Vec2::zero(),
        Child::Body(b) => b.g_at(other_position, grav_const),
        Child::Aggregate(a) => {
            let wp: (Scalar, Vec2) = Space2D::subtree_width_pivot(i, width, pivot);
            a.estimate_net_g(other_position, wp.1, wp.0, theta_squared, grav_const)
        },
    }
}

impl MassAggregate {
    /// The approximate net acceleration this subtree induces at
    /// `other_position`, walking the tree with the opening-angle test.
    pub open spec fn spec_estimate_net_g(
        self,
        other_position: Vec2,
        pivot: Vec2,
        width: Scalar,
        theta_squared: Scalar,
        grav_const: Scalar,
    ) -> Vec2
        decreases self,
    {
        let to_self = self.total.spec_position().sub(other_position);
        let distance_squared = Space2D::spec_magnitude_squared(to_self);
        if width.mul(width).raw <= theta_squared.mul(distance_squared).raw {
            self.total.spec_g_at(other_position, grav_const)
        } else {
            Vec2::spec_zero().add(
                spec_child_g(self.q0, 0, other_position, pivot, width, theta_squared, grav_const),
            ).add(
                spec_child_g(self.q1, 1, other_position, pivot, width, theta_squared, grav_const),
            ).add(
                spec_child_g(self.q2, 2, other_position, pivot, width, theta_squared, grav_const),
            ).add(
                spec_child_g(self.q3, 3, other_position, pivot, width, theta_squared, grav_const),
            )
        }
    }

    /// Estimate the net acceleration at `other_position` from everything in
    /// this subtree, covering a region of the given width about `pivot`. When
    /// the region's squared width is within `theta_squared` times the squared
    /// distance to the subtree's center of mass, the whole subtree acts as
    /// its single combined point mass; otherwise each quadrant contributes
    /// separately.
    pub fn estimate_net_g(
        &self,
        other_position: Vec2,
        pivot: Vec2,
        width: Scalar,
        theta_squared: Scalar,
        grav_const: Scalar,
    ) -> (r: Vec2)
        ensures
            r == self.spec_estimate_net_g(other_position, pivot, width, theta_squared, grav_const),
        decreases *self,
    {
        let to_self: Vec2 = self.total.position().sub(other_position);
        let distance_squared: Scalar = Space2D::magnitude_squared(to_self);
        if width.mul(width).raw <= theta_squared.mul(distance_squared).raw {
            return self.total.g_at(other_position, grav_const);
        }
        let mut sum: Vec2 = Vec2::zero();
        sum = sum.add(child_g(&self.q0, 0, other_position, pivot, width, theta_squared, grav_const));
        sum = sum.add(child_g(&self.q1, 1, other_position, pivot, width, theta_squared, grav_const));
        sum = sum.add(child_g(&self.q2, 2, other_position, pivot, width, theta_squared, grav_const));
        sum = sum.add(child_g(&self.q3, 3, other_position, pivot, width, theta_squared, grav_const));
        sum
    }
}

/// The square patch of space an aggregation node covers, for read-only
/// traversal by a renderer.
#[derive(Clone, Copy, Debug, PartialEq, Eq, Structural)]
pub struct Region {
    /// The node's pivot.
    pub center: Vec2,
    /// The node's edge length.
    pub width: Scalar,
}

/// The regions of every aggregation node inside one quadrant slot.
pub open spec fn spec_child_regions(c: Child) -> Seq<Region>
    decreases c,
{
    match c {
        Child::Empty => Seq::<Region>::empty(),
        Child::Body(_) => Seq::<Region>::empty(),
        Child::Aggregate(a) => a.spec_regions(),
    }
}

fn collect_child_regions(c: &Child, out: &mut Vec<Region>)
    ensures
        final(out)@ == old(out)@ + spec_child_regions(*c),
    decreases *c,
{
    match c {
        Child::Empty => {
            proof {
                assert(out@ =~= out@ + spec_child_regions(*c));
            }
        },
        Child::Body(_) => {
            proof {
                assert(out@ =~= out@ + spec_child_regions(*c));
            }
        },
        Child::Aggregate(a) => {
            a.collect_regions(out);
        },
    }
}

impl MassAggregate {
    /// The regions of this node and of every aggregation node beneath it,
    /// in depth-first order.
    pub open spec fn spec_regions(self) -> Seq<Region>
        decreases self,
    {
        seq![Region { center: self.pivot, width: self.width }] + spec_child_regions(self.q0)
            + spec_child_regions(self.q1) + spec_child_regions(self.q2) + spec_child_regions(
            self.q3,
        )
    }

    /// Append the regions of this subtree's nodes to `out`.
    pub fn collect_regions(&self, out: &mut Vec<Region>)
        ensures
            final(out)@ == old(out)@ + self.spec_regions(),
        decreases *self,
    {
        out.push(Region { center: self.pivot, width: self.width });
        collect_child_regions(&self.q0, out);
        collect_child_regions(&self.q1, out);
        collect_child_regions(&self.q2, out);
        collect_child_regions(&self.q3, out);
        proof {
            assert(out@ =~= old(out)@ + self.spec_regions());
        }
    }
}

/// An adaptively subdivided square field of point masses, covering a region
/// of edge length `width` centered at the origin. Massless and out-of-bounds
/// insertions are rejected without effect.
#[derive(Debug)]
pub struct GravityField {
    /// The center of the covered region.
    pub origin: Vec2,
    /// The edge length of the covered region.
    pub width: Scalar,
    /// The root aggregation node.
    pub root: MassAggregate,
}

impl GravityField {
    /// The root node covers the whole field about the origin.
    pub open spec fn wf(self) -> bool {
        self.root.wf() && self.root.pivot == self.origin && self.root.width == self.width
    }

    pub open spec fn spec_new(size: Scalar) -> GravityField {
        GravityField {
            origin: Vec2::spec_zero(),
            width: size,
            root: MassAggregate::spec_new(Vec2::spec_zero(), size),
        }
    }

    /// An empty field covering a square of the given width centered at the
    /// origin.
    pub fn new(size: Scalar) -> (r: GravityField)
        ensures
            r == Self::spec_new(size),
            r.wf(),
    {
        GravityField {
            origin: Vec2::zero(),
            width: size,
            root: MassAggregate::new(Vec2::zero(), size),
        }
    }

    /// Whether an insertion is accepted: it carries mass and its position —
    /// the centroid read back from its moment, which is what the tree
    /// routes on — stays strictly inside the covered width along every
    /// axis.
    pub open spec fn spec_accepts(self, rhs: PointMass) -> bool {
        rhs.mass.raw != 0 && Space2D::spec_max_abs_dimension(rhs.spec_position()).raw
            < self.width.raw
    }

    pub open spec fn spec_insert(self, rhs: PointMass) -> GravityField {
        if self.spec_accepts(rhs) {
            GravityField { origin: self.origin, width: self.width, root: self.root.spec_insert(rhs) }
        } else {
            self
        }
    }

    /// Absorb a point mass into the field. A massless point is a no-op; a
    /// point out of the covered region is dropped with no other effect, so a
    /// runaway position can never corrupt the tree; otherwise the root
    /// absorbs it and every total along the path gains its mass.
    pub fn insert(&mut self, rhs: PointMass)
        requires
            old(self).wf(),
        ensures
            *final(self) == old(self).spec_insert(rhs),
            final(self).wf(),
            !old(self).spec_accepts(rhs) ==> *final(self) == *old(self),
            old(self).spec_accepts(rhs) ==> final(self).root.total == old(self).root.total.combine(
                rhs,
            ),
    {
        if rhs.mass.raw == 0 {
            return;
        }
        if Space2D::max_abs_dimension(rhs.position()).raw >= self.width.raw {
            return;
        }
        self.root.insert(rhs);
    }

    pub open spec fn spec_estimate_net_g(self, at: Vec2, theta: Scalar, grav_const: Scalar) -> Vec2 {
        self.root.spec_estimate_net_g(at, self.origin, self.width, theta.mul(theta), grav_const)
    }

    /// The approximate net gravitational acceleration at `at`, with opening
    /// angle `theta`: smaller `theta` opens more nodes and approaches the
    /// direct pairwise sum, and `theta == 0` forces it.
    pub fn estimate_net_g(&self, at: Vec2, theta: Scalar, grav_const: Scalar) -> (r: Vec2)
        ensures
            r == self.spec_estimate_net_g(at, theta, grav_const),
    {
        self.root.estimate_net_g(at, self.origin, self.width, theta.mul(theta), grav_const)
    }
}

/// The direct (unapproximated) acceleration sum over one quadrant slot.
pub open spec fn spec_child_direct_g(c: Child, at: Vec2, grav_const: Scalar) -> Vec2
    decreases c,
{
    match c {
        Child::Empty => Vec2::spec_zero(),
        Child::Body(b) => b.spec_g_at(at, grav_const),
        Child::Aggregate(a) => a.spec_direct_g(at, grav_const),
    }
}

impl MassAggregate {
    /// The direct pairwise sum: every body under this node contributes its
    /// own pull, with no opening-angle shortcut anywhere.
    pub open spec fn spec_direct_g(self, at: Vec2, grav_const: Scalar) -> Vec2
        decreases self,
    {
        Vec2::spec_zero().add(spec_child_direct_g(self.q0, at, grav_const)).add(
            spec_child_direct_g(self.q1, at, grav_const),
        ).add(spec_child_direct_g(self.q2, at, grav_const)).add(
            spec_child_direct_g(self.q3, at, grav_const),
        )
    }

    /// Every region on the descent keeps a positive squared width: the
    /// shortcut test's left side never collapses to zero, width halving as
    /// the walk descends one quadrant at a time.
    pub open spec fn spec_widths_open(self, width: Scalar) -> bool
        decreases self,
    {
        &&& width.spec_mul(width).raw > 0
        &&& child_widths_open(self.q0, width)
        &&& child_widths_open(self.q1, width)
        &&& child_widths_open(self.q2, width)
        &&& child_widths_open(self.q3, width)
    }
}

/// Positive squared widths below one quadrant slot.
pub open spec fn child_widths_open(c: Child, width: Scalar) -> bool
    decreases c,
{
    match c {
        Child::Empty => true,
        Child::Body(_) => true,
        Child::Aggregate(a) => a.spec_widths_open(width.div(Scalar::spec_from_int(2))),
    }
}

/// With a zero opening angle, the estimate is the direct pairwise sum: the
/// shortcut's right-hand side vanishes, so the walk reaches every body,
/// provided no region on the way has a squared width of zero.
pub proof fn lemma_estimate_is_direct_sum_at_zero_theta(
    node: MassAggregate,
    at: Vec2,
    pivot: Vec2,
    width: Scalar,
    theta_squared: Scalar,
    grav_const: Scalar,
)
    requires
        theta_squared.raw == 0,
        node.spec_widths_open(width),
    ensures
        node.spec_estimate_net_g(at, pivot, width, theta_squared, grav_const)
            == node.spec_direct_g(at, grav_const),
    decreases node,
{
    let to_self = node.total.spec_position().sub(at);
    let d2 = Space2D::spec_magnitude_squared(to_self);
    assert(theta_squared.raw * d2.raw == 0) by (nonlinear_arith)
        requires
            theta_squared.raw == 0,
    ;
    assert(theta_squared.spec_mul(d2).raw == 0);
    lemma_child_estimate_is_direct(node.q0, 0, at, pivot, width, theta_squared, grav_const);
    lemma_child_estimate_is_direct(node.q1, 1, at, pivot, width, theta_squared, grav_const);
    lemma_child_estimate_is_direct(node.q2, 2, at, pivot, width, theta_squared, grav_const);
    lemma_child_estimate_is_direct(node.q3, 3, at, pivot, width, theta_squared, grav_const);
}

proof fn lemma_child_estimate_is_direct(
    c: Child,
    i: int,
    at: Vec2,
    pivot: Vec2,
    width: Scalar,
    theta_squared: Scalar,
    grav_const: Scalar,
)
    requires
        theta_squared.raw == 0,
        child_widths_open(c, width),
    ensures
        spec_child_g(c, i, at, pivot, width, theta_squared, grav_const) == spec_child_direct_g(
            c,
            at,
            grav_const,
        ),
    decreases c,
{
    match c {
        Child::Empty => {
        },
        Child::Body(_) => {
        },
        Child::Aggregate(a) => {
            let wp = spec_quadrant(i, width, pivot);
            assert(wp.0 == width.spec_div(Scalar::spec_from_int(2)));
            lemma_estimate_is_direct_sum_at_zero_theta(
                *a,
                at,
                wp.1,
                wp.0,
                theta_squared,
                grav_const,
            );
        },
    }
}

/// A field queried with a zero opening angle performs full direct
/// summation: its estimate is the body-by-body pairwise sum, provided no
/// region on the descent has a squared width of zero.
pub proof fn lemma_field_direct_at_zero_theta(
    f: GravityField,
    at: Vec2,
    theta: Scalar,
    grav: Scalar,
)
    requires
        theta.raw == 0,
        f.root.spec_widths_open(f.width),
    ensures
        f.spec_estimate_net_g(at, theta, grav) == f.root.spec_direct_g(at, grav),
{
    assert(theta.raw * theta.raw == 0) by (nonlinear_arith)
        requires
            theta.raw == 0,
    ;
    lemma_estimate_is_direct_sum_at_zero_theta(
        f.root,
        at,
        f.origin,
        f.width,
        theta.spec_mul(theta),
        grav,
    );
}

/// A moderate width squared is positive and unsaturated: the opening-angle
/// test at such a node can never take the whole-tree shortcut against a
/// zero right-hand side.
proof fn lemma_width_squared_positive(w: Scalar)
    requires
        65536 <= w.raw <= 549755813888,
    ensures
        w.spec_mul(w).raw >= 65536,
{
    assert(4294967296 <= w.raw * w.raw <= 302231454903657293676544) by (nonlinear_arith)
        requires
            65536 <= w.raw <= 549755813888,
    ;
    assert(tz_div(w.raw * w.raw, 65536) == w.raw * w.raw / 65536);
    assert(65536 <= w.raw * w.raw / 65536 <= 4611686018427387904) by (nonlinear_arith)
        requires
            4294967296 <= w.raw * w.raw <= 302231454903657293676544,
    ;
}

/// Self-exclusion: a body whose mass is a whole number of moderate units
/// induces no net acceleration at its own position when it is the only
/// mass in the field, whatever the opening angle.
pub proof fn lemma_self_exclusion(w: Scalar, p: Vec2, m: Scalar, theta: Scalar, grav: Scalar)
    requires
        65536 <= w.raw <= 549755813888,
        moderate(p.x.raw as int),
        moderate(p.y.raw as int),
        moderate_unit_mass(m),
        Space2D::spec_max_abs_dimension(p).raw + 1 < w.raw,
    ensures
        GravityField::spec_new(w).spec_insert(PointMass::spec_new(p, m)).spec_estimate_net_g(
            p,
            theta,
            grav,
        ) == Vec2::spec_zero(),
{
    lemma_position_close(p, m);
    lemma_self_gravity_zero(p, m, grav);
    lemma_width_squared_positive(w);
    let pm = PointMass::spec_new(p, m);
    let f0 = GravityField::spec_new(w);
    assert(Space2D::spec_max_abs_dimension(pm.spec_position()).raw < w.raw);
    assert(f0.spec_accepts(pm));
    let f = f0.spec_insert(pm);
    let root = f.root;
    assert(root.total == pm);
    let d = root.total.spec_position().sub(p);
    let dx: int = d.x.raw as int;
    let dy: int = d.y.raw as int;
    assert(-1 <= dx <= 1 && -1 <= dy <= 1);
    assert(0 <= dx * dx <= 1 && 0 <= dy * dy <= 1) by (nonlinear_arith)
        requires
            -1 <= dx <= 1,
            -1 <= dy <= 1,
    ;
    assert(tz_div(0, 65536) == 0);
    assert(tz_div(1, 65536) == 0);
    assert(Space2D::spec_magnitude_squared(d).raw == 0);
    assert(theta.spec_mul(theta).spec_mul(Space2D::spec_magnitude_squared(d)).raw == 0);
    assert(f.spec_estimate_net_g(p, theta, grav) == Vec2::spec_zero());
}

/// The field holding exactly one mirrored pair of equal whole-unit masses.
pub open spec fn spec_mirrored_pair_field(w: Scalar, p: Vec2, q: Vec2, m: Scalar) -> GravityField {
    GravityField::spec_new(w).spec_insert(PointMass::spec_new(p, m)).spec_insert(
        PointMass::spec_new(q, m),
    )
}

/// Conservation under exact evaluation: with an opening angle of zero, the
/// net accelerations a mirrored pair of equal masses induce on one another
/// are exactly equal in magnitude and opposite in direction — self-pulls
/// and cross-pulls both mirror exactly, whatever the mass. The hypotheses
/// ask that the pair's read-back centroid not sit exactly on the origin
/// pivot (the two bodies would share a quadrant) and that it lie inside the
/// covered width (the insertions are accepted); the range bounds keep every
/// intermediate off the saturation rim, where negation stops being exact.
#[verifier::rlimit(100)]
#[verifier::spinoff_prover]
pub proof fn lemma_mirrored_pair_opposite(
    w: Scalar,
    p: Vec2,
    q: Vec2,
    m: Scalar,
    theta: Scalar,
    grav: Scalar,
)
    requires
        65536 <= w.raw <= 549755813888,
        moderate(p.x.raw as int),
        moderate(p.y.raw as int),
        q.x.raw + p.x.raw == 0,
        q.y.raw + p.y.raw == 0,
        1 <= m.raw <= 549755813888,
        -274877906944 <= grav.raw <= 274877906944,
        theta.raw == 0,
        PointMass::spec_new(p, m).spec_position() != Vec2::spec_zero(),
        Space2D::spec_max_abs_dimension(PointMass::spec_new(p, m).spec_position()).raw < w.raw,
    ensures
        spec_mirrored_pair_field(w, p, q, m).spec_estimate_net_g(p, theta, grav).x.raw
            == -spec_mirrored_pair_field(w, p, q, m).spec_estimate_net_g(q, theta, grav).x.raw,
        spec_mirrored_pair_field(w, p, q, m).spec_estimate_net_g(p, theta, grav).y.raw
            == -spec_mirrored_pair_field(w, p, q, m).spec_estimate_net_g(q, theta, grav).y.raw,
{
    lemma_width_squared_positive(w);
    lemma_position_mirrored(p, q, m);
    let pm1 = PointMass::spec_new(p, m);
    let pm2 = PointMass::spec_new(q, m);
    // The mirrored centroids are exact negations of one another, so the two
    // bodies land in distinct quadrants and neither is dropped.
    assert(pm2.spec_position().x.raw == -pm1.spec_position().x.raw && pm2.spec_position().y.raw
        == -pm1.spec_position().y.raw);
    let f0 = GravityField::spec_new(w);
    assert(f0.spec_accepts(pm1));
    let f1 = f0.spec_insert(pm1);
    assert(Space2D::spec_max_abs_dimension(pm2.spec_position()).raw == Space2D::spec_max_abs_dimension(
        pm1.spec_position(),
    ).raw);
    assert(f1.spec_accepts(pm2));
    let f = f1.spec_insert(pm2);

    let i1 = Space2D::spec_subdivision_index(Vec2::spec_zero(), pm1.spec_position());
    let i2 = Space2D::spec_subdivision_index(Vec2::spec_zero(), pm2.spec_position());
    assert(!(pm1.spec_position().x.raw == 0 && pm1.spec_position().y.raw == 0));
    assert(i1 != i2);

    let root = f.root;
    assert(root.spec_child(i1) == Child::Body(pm1));
    assert(root.spec_child(i2) == Child::Body(pm2));

    // With a zero opening angle the test never takes the shortcut, so each
    // estimate adds exactly the two bodies' direct pulls.
    assert(theta.raw * theta.raw == 0) by (nonlinear_arith)
        requires
            theta.raw == 0,
    ;
    assert(theta.spec_mul(theta).raw == 0);
    let a1 = pm1.spec_g_at(p, grav);
    let b1 = pm2.spec_g_at(p, grav);
    let ep = f.spec_estimate_net_g(p, theta, grav);
    let eq = f.spec_estimate_net_g(q, theta, grav);
    assert(ep.x.raw == sat64(a1.x.raw + b1.x.raw));
    assert(ep.y.raw == sat64(a1.y.raw + b1.y.raw));

    // At the mirrored query point each body's pull is the exact negation of
    // the other body's pull at the original point, so the mirrored estimate
    // sums the negations.
    lemma_g_at_mirrored(p, q, q, p, m, grav);
    lemma_g_at_mirrored(p, q, p, q, m, grav);
    assert(pm2.spec_g_at(q, grav).x.raw == -a1.x.raw);
    assert(pm1.spec_g_at(q, grav).x.raw == -b1.x.raw);
    assert(eq.x.raw == sat64(-b1.x.raw + -a1.x.raw));
    assert(eq.y.raw == sat64(-b1.y.raw + -a1.y.raw));

    // Both pulls stay within a quarter of the range, so the sums do not
    // saturate and negation passes through them.
    lemma_g_at_bounded(pm1, p, grav);
    lemma_g_at_bounded(pm2, p, grav);
    assert(ep.x.raw == a1.x.raw + b1.x.raw);
    assert(eq.x.raw == -(a1.x.raw + b1.x.raw));
    assert(ep.y.raw == a1.y.raw + b1.y.raw);
    assert(eq.y.raw == -(a1.y.raw + b1.y.raw));
}

} // verus!
