use interstellare_simulation::body::Body;
use interstellare_simulation::meta::NEWTON_G_BITS;
use interstellare_simulation::sim::SimState;

const AU: f64 = 149597870700.0;

fn f(bits: u64) -> f64 {
    f64::from_bits(bits)
}

/// The radius each seed body carries satisfies the sphere-volume relation
/// `mass ~= (4/3) * pi * radius^3 * density` within floating-point
/// tolerance.
fn assert_radius_invariant(b: &Body) {
    let mass = f(b.mass);
    let density = f(b.density);
    let radius = f(b.radius);
    let reconstructed = 4.0 / 3.0 * std::f64::consts::PI * radius.powi(3) * density;
    let rel = ((reconstructed - mass) / mass).abs();
    assert!(rel < 1e-12, "relative error {} for mass {}", rel, mass);
}

#[test]
fn every_seed_body_satisfies_the_radius_relation() {
    for b in SimState::new(0, 0).bodies.iter() {
        assert_radius_invariant(b);
    }
}

#[test]
fn star_seed_matches_its_physical_constants() {
    let sun = Body::sun();
    assert_eq!(f(sun.mass), 1.98847e30);
    assert_eq!(f(sun.density), 1410.0);
    assert_eq!(f(sun.x), 0.0);
    assert_eq!(f(sun.vy), 0.0);
}

#[test]
fn earth_seed_matches_its_physical_constants() {
    let earth = Body::earth();
    assert_eq!(f(earth.mass), 5.9722e24);
    assert_eq!(f(earth.density), 5515.0);
    assert_eq!(f(earth.x), 1.017 * AU);
    assert_eq!(f(earth.y), 0.0);
    assert_eq!(f(earth.vx), 0.0);
    assert_eq!(f(earth.vy), 29780.0);
}

#[test]
fn moon_seed_sits_beside_earth() {
    let moon = Body::moon();
    assert_eq!(f(moon.mass), 7.34767309e22);
    assert_eq!(f(moon.x), 1.017 * AU);
    assert_eq!(f(moon.y), 0.00271862 * AU);
    assert_eq!(f(moon.vx), 1022.0);
    assert_eq!(f(moon.vy), 29780.0);
}

#[test]
fn outer_planets_match_their_orbits() {
    assert_eq!(f(Body::mercury().x), 0.4667 * AU);
    assert_eq!(f(Body::venus().x), 0.728 * AU);
    assert_eq!(f(Body::mars().x), 1.666 * AU);
    assert_eq!(f(Body::jupiter().x), 5.459 * AU);
    assert_eq!(f(Body::saturn().x), 10.124 * AU);
    assert_eq!(f(Body::uranus().x), 20.078 * AU);
    assert_eq!(f(Body::neptun().x), 30.385 * AU);
    assert_eq!(f(Body::mercury().vy), 47360.0);
    assert_eq!(f(Body::neptun().vy), 5430.0);
}

#[test]
fn seed_metadata_is_the_gravitational_constant() {
    assert_eq!(f(NEWTON_G_BITS), 6.67430e-11);
    let sim = SimState::new(0, 300000.0f64.to_bits());
    assert_eq!(sim.metadata.interaction_constant, NEWTON_G_BITS);
    assert_eq!(f(sim.metadata.time_scaling), 300000.0);
}

#[test]
fn builder_setters_replace_only_their_fields() {
    let b = Body::new(
        2.0f64.to_bits(),
        3.0f64.to_bits(),
        0.5f64.to_bits(),
    );
    let moved = b.set_position(1.0f64.to_bits(), 2.0f64.to_bits(), 3.0f64.to_bits());
    assert_eq!(f(moved.x), 1.0);
    assert_eq!(f(moved.y), 2.0);
    assert_eq!(f(moved.z), 3.0);
    assert_eq!(moved.mass, b.mass);
    let pushed = moved.set_velocity(4.0f64.to_bits(), 5.0f64.to_bits(), 6.0f64.to_bits());
    assert_eq!(f(pushed.vy), 5.0);
    assert_eq!(pushed.x, moved.x);
    let accel = pushed.set_accuracy(7.0f64.to_bits(), 8.0f64.to_bits(), 9.0f64.to_bits());
    assert_eq!(f(accel.az), 9.0);
    assert_eq!(accel.vx, pushed.vx);
}
