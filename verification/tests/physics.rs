use barnes_hut::GravityField;
use barnes_hut::Particle;
use barnes_hut::ParticleTag;
use barnes_hut::PointMass;
use barnes_hut::Scalar;
use barnes_hut::Universe;
use barnes_hut::Vec2;

fn s(i: i64) -> Scalar {
    Scalar::from_int(i)
}

fn v(x: i64, y: i64) -> Vec2 {
    Vec2 { x: s(x), y: s(y) }
}

fn g() -> Scalar {
    s(100)
}

/// Combining three point masses in any order gives the same moment and mass.
#[test]
fn combine_order_independent() {
    let a = PointMass::new(v(3, 1), s(2));
    let b = PointMass::new(v(-5, 4), s(7));
    let c = PointMass::new(v(10, -2), s(1));

    let abc = a.combine(b).combine(c);
    let acb = a.combine(c).combine(b);
    let cba = c.combine(b).combine(a);
    let bac = b.combine(a).combine(c);
    assert_eq!(abc, acb);
    assert_eq!(abc, cba);
    assert_eq!(abc, bac);
    assert_eq!(abc.mass, s(10));
    // The centroid of 2 kg at (3,1), 7 kg at (-5,4) and 1 kg at (10,-2):
    // x = (6 - 35 + 10) / 10, y = (2 + 28 - 2) / 10.
    let p = abc.position();
    assert_eq!(p.y, Scalar { raw: 28 * 65536 / 10 });
    assert_eq!(p.x, Scalar { raw: -(19 * 65536 / 10) });
}

/// Combining a zero-mass point into anything changes nothing.
#[test]
fn combine_zero_mass_is_noop() {
    let a = PointMass::new(v(3, 1), s(2));
    let z = PointMass::new(v(123, -44), s(0));
    assert_eq!(a.combine(z), a);
}

/// A single mass induces no acceleration at its own position, whatever the
/// opening angle.
#[test]
fn self_force_is_zero() {
    let mut field = GravityField::new(s(64));
    field.insert(PointMass::new(v(10, 0), s(5)));
    assert_eq!(field.estimate_net_g(v(10, 0), s(0), g()), Vec2 { x: s(0), y: s(0) });
    assert_eq!(
        field.estimate_net_g(v(10, 0), Scalar { raw: 45875 }, g()),
        Vec2 { x: s(0), y: s(0) }
    );
}

/// With exact evaluation, two equal mirrored masses pull on each other with
/// equal magnitude and opposite direction.
#[test]
fn mirrored_pair_forces_are_opposite() {
    let mut field = GravityField::new(s(64));
    field.insert(PointMass::new(v(10, 0), s(5)));
    field.insert(PointMass::new(v(-10, 0), s(5)));

    let on_right = field.estimate_net_g(v(10, 0), s(0), g());
    let on_left = field.estimate_net_g(v(-10, 0), s(0), g());

    // G * m / d^2 = 100 * 5 / 400 = 1.25, pointing at the other body.
    assert_eq!(on_right, Vec2 { x: Scalar { raw: -81920 }, y: s(0) });
    assert_eq!(on_left, Vec2 { x: Scalar { raw: 81920 }, y: s(0) });
}

/// The mirrored-pair conservation holds below one unit of mass as well:
/// half-unit masses still pull with exactly opposite accelerations.
#[test]
fn mirrored_pair_light_masses() {
    let half_unit = Scalar { raw: 32768 };
    let mut field = GravityField::new(s(64));
    field.insert(PointMass::new(v(10, 0), half_unit));
    field.insert(PointMass::new(v(-10, 0), half_unit));

    let on_right = field.estimate_net_g(v(10, 0), s(0), g());
    let on_left = field.estimate_net_g(v(-10, 0), s(0), g());

    // G * m / d^2 = 100 * 0.5 / 400 = 0.125, pointing at the other body.
    assert_eq!(on_right, Vec2 { x: Scalar { raw: -8192 }, y: s(0) });
    assert_eq!(on_left, Vec2 { x: Scalar { raw: 8192 }, y: s(0) });
}

/// As the opening angle shrinks, the estimate converges to the direct
/// pairwise sum, and reaches it exactly at a small enough angle.
#[test]
fn estimate_converges_to_direct_sum() {
    let masses = [
        PointMass::new(v(10, 0), s(5)),
        PointMass::new(v(-10, 0), s(5)),
        PointMass::new(v(0, 15), s(3)),
        PointMass::new(v(5, -7), s(2)),
    ];
    let mut field = GravityField::new(s(64));
    for pm in masses {
        field.insert(pm);
    }
    let at = v(30, 20);

    let mut direct = Vec2 { x: s(0), y: s(0) };
    for pm in masses {
        direct = direct.add(pm.g_at(at, g()));
    }

    let exact = field.estimate_net_g(at, s(0), g());
    let tight = field.estimate_net_g(at, Scalar { raw: 655 }, g());
    let loose = field.estimate_net_g(at, Scalar { raw: 45875 }, g());

    assert_eq!(exact, direct);
    assert_eq!(tight, direct);

    let err = |e: Vec2| -> i64 {
        (e.x.sub(direct.x).abs().raw).max(e.y.sub(direct.y).abs().raw)
    };
    assert!(err(loose) >= err(tight));
    assert_eq!(err(exact), 0);
}

/// An out-of-bounds insertion changes nothing, in particular not the root's
/// total mass.
#[test]
fn out_of_bounds_insert_keeps_total_mass() {
    let mut field = GravityField::new(s(100));
    field.insert(PointMass::new(v(5, 5), s(2)));
    assert_eq!(field.root.total.mass, s(2));
    field.insert(PointMass::new(v(1000, 0), s(50)));
    assert_eq!(field.root.total.mass, s(2));
    field.insert(PointMass::new(v(0, -1000), s(50)));
    assert_eq!(field.root.total.mass, s(2));
}

/// An empty field induces no acceleration anywhere.
#[test]
fn empty_field_pulls_nothing() {
    let field = GravityField::new(s(64));
    let zero = Vec2 { x: s(0), y: s(0) };
    assert_eq!(field.estimate_net_g(v(10, 5), Scalar { raw: 45875 }, g()), zero);
    assert_eq!(field.estimate_net_g(v(10, 5), s(0), g()), zero);
}

/// A massless insertion is a no-op on the whole tree.
#[test]
fn massless_insert_is_noop() {
    let mut field = GravityField::new(s(100));
    field.insert(PointMass::new(v(5, 5), s(2)));
    let before = field.root.total;
    field.insert(PointMass::new(v(7, 7), s(0)));
    assert_eq!(field.root.total, before);
}

/// Two bodies coincident to numerical precision merge instead of subdividing
/// forever.
#[test]
fn coincident_bodies_merge() {
    let mut field = GravityField::new(s(64));
    field.insert(PointMass::new(v(10, 10), s(1)));
    field.insert(PointMass::new(v(10, 10), s(3)));
    assert_eq!(field.root.total.mass, s(4));
    assert_eq!(field.root.total.position(), v(10, 10));
}

fn placed(position: Vec2, mass: Scalar) -> Particle {
    Particle {
        tag: ParticleTag::Placed,
        mass,
        position,
        velocity: Vec2 { x: s(0), y: s(0) },
        radius: s(1),
    }
}

/// Three bodies — two light ones mirrored about a heavy central "sun" — stay
/// exactly mirrored under exact evaluation, deflecting toward the center.
#[test]
fn symmetric_orbital_deflection() {
    let mut universe = Universe::new();
    universe.set_opening_angle(s(0));
    universe.set_black_hole_mass(s(0));
    universe.insert(placed(v(-10, 0), s(1)));
    universe.insert(placed(v(10, 0), s(1)));
    universe.insert(placed(v(0, 0), s(1000)));

    let dt = Scalar { raw: 655 };
    for _ in 0..10 {
        universe.step(dt);
    }

    let left = universe.particles[0];
    let right = universe.particles[1];
    let sun = universe.particles[2];

    // Mirrored across the y-axis, exactly.
    assert_eq!(left.position.x, right.position.x.neg());
    assert_eq!(left.position.y, right.position.y);
    assert_eq!(left.velocity.x, right.velocity.x.neg());
    assert_eq!(left.velocity.y, right.velocity.y);

    // Equal displacement magnitudes, deflected toward the central mass.
    let left_shift = left.position.sub(v(-10, 0));
    let right_shift = right.position.sub(v(10, 0));
    assert_eq!(left_shift.x.abs(), right_shift.x.abs());
    assert_eq!(left_shift.y.abs(), right_shift.y.abs());
    assert!(left_shift.x.raw > 0);
    assert!(right_shift.x.raw < 0);

    // The forces on the sun cancel exactly: it never moves.
    assert_eq!(sun.position, v(0, 0));
}

/// The universe's maintenance operations: placing, clearing and seeding.
#[test]
fn universe_maintenance() {
    let mut universe = Universe::new();
    universe.add_particle_at(v(1, 2));
    universe.add_moving_particle_at(v(3, 4));
    assert_eq!(universe.particles.len(), 2);
    assert_eq!(universe.particles[0].position, v(1, 2));
    assert_eq!(universe.particles[1].velocity, v(100, 0));

    universe.add_uniform_random(5);
    assert_eq!(universe.particles.len(), 7);
    for p in &universe.particles[2..] {
        assert_eq!(p.tag, ParticleTag::Seeded);
        assert_eq!(p.velocity, v(0, 0));
        assert!(p.position.x.raw.abs() <= 600 * 65536);
        assert_eq!(p.mass, p.radius.mul(p.radius).mul(p.radius));
    }

    universe.clear();
    assert_eq!(universe.particles.len(), 0);
}

/// The bounded read-only traversal: particles and node regions inside a
/// query box.
#[test]
fn bounded_traversal() {
    let mut universe = Universe::new();
    universe.set_black_hole_mass(s(0));
    universe.insert(placed(v(-10, 0), s(1)));
    universe.insert(placed(v(10, 0), s(1)));
    universe.insert(placed(v(0, 0), s(1000)));

    let inside = universe.particles_within(v(-1, -1), v(11, 1));
    assert_eq!(inside.len(), 2);
    assert_eq!(inside[0].position, v(10, 0));
    assert_eq!(inside[1].position, v(0, 0));

    universe.step(Scalar { raw: 655 });
    assert!(!universe.bounding_regions.is_empty());
    let touching = universe.regions_within(v(-1, -1), v(1, 1));
    assert!(!touching.is_empty());
    let far = universe.regions_within(v(100000, 100000), v(100001, 100001));
    assert_eq!(far.len(), 0);
}

/// A particle integrates with semi-implicit Euler: velocity first, then
/// position with the new velocity.
#[test]
fn particle_integration_step() {
    let mut p = placed(v(0, 0), s(1));
    p.update(s(1), v(2, -3));
    assert_eq!(p.velocity, v(2, -3));
    assert_eq!(p.position, v(2, -3));
    p.update(s(1), v(0, 0));
    assert_eq!(p.position, v(4, -6));
}
