use interstellare_simulation::body::Body;
use interstellare_simulation::errors::ProtocolError;
use interstellare_simulation::events::InputEvent;
use interstellare_simulation::meta::SimMetaData;
use interstellare_simulation::sim::{SimState, StepOutcome};

fn small_body(tag: u64) -> Body {
    Body::new(tag, 1, 1)
}

#[test]
fn seed_has_ten_bodies_in_order() {
    let sim = SimState::new(10_000_000, 0x4112_a880_0000_0000);
    assert_eq!(sim.bodies.len(), 10);
    assert_eq!(sim.bodies[0], Body::sun());
    assert_eq!(sim.bodies[1], Body::mercury());
    assert_eq!(sim.bodies[2], Body::venus());
    assert_eq!(sim.bodies[3], Body::earth());
    assert_eq!(sim.bodies[4], Body::moon());
    assert_eq!(sim.bodies[5], Body::mars());
    assert_eq!(sim.bodies[6], Body::jupiter());
    assert_eq!(sim.bodies[7], Body::saturn());
    assert_eq!(sim.bodies[8], Body::uranus());
    assert_eq!(sim.bodies[9], Body::neptun());
    assert_eq!(sim.target_time_per_step_ns, 10_000_000);
}

#[test]
fn add_places_body_at_old_length() {
    let mut sim = SimState::new(0, 0);
    let b = small_body(7);
    let old_len = sim.bodies.len();
    let r = sim.handle_input(InputEvent::Add, Some(b));
    assert_eq!(r, Ok(None));
    assert_eq!(sim.bodies.len(), old_len + 1);
    assert_eq!(sim.bodies[old_len], b);
}

#[test]
fn remove_shifts_later_indices_down_by_one() {
    let mut sim = SimState::new(0, 0);
    let before = sim.bodies.clone();
    let r = sim.handle_input(InputEvent::Remove(4), None);
    assert_eq!(r, Ok(Some(4)));
    assert_eq!(sim.bodies.len(), before.len() - 1);
    for j in 0..4 {
        assert_eq!(sim.bodies[j], before[j]);
    }
    for j in 4..sim.bodies.len() {
        assert_eq!(sim.bodies[j], before[j + 1]);
    }
}

#[test]
fn update_replaces_exactly_one_body() {
    let mut sim = SimState::new(0, 0);
    let before = sim.bodies.clone();
    let b = small_body(9);
    let r = sim.handle_input(InputEvent::Update(3), Some(b));
    assert_eq!(r, Ok(None));
    assert_eq!(sim.bodies[3], b);
    for j in 0..sim.bodies.len() {
        if j != 3 {
            assert_eq!(sim.bodies[j], before[j]);
        }
    }
}

#[test]
fn add_without_payload_is_protocol_violation() {
    let mut sim = SimState::new(0, 0);
    let before = sim.bodies.clone();
    let r = sim.handle_input(InputEvent::Add, None);
    assert_eq!(r, Err(ProtocolError::MissingPayload));
    assert_eq!(sim.bodies, before);
}

#[test]
fn update_without_payload_is_protocol_violation() {
    let mut sim = SimState::new(0, 0);
    let r = sim.handle_input(InputEvent::Update(0), None);
    assert_eq!(r, Err(ProtocolError::MissingPayload));
    assert_eq!(sim.bodies.len(), 10);
}

#[test]
fn meta_event_leaves_bodies_alone() {
    let mut sim = SimState::new(0, 0);
    let before = sim.bodies.clone();
    let r = sim.handle_input(InputEvent::Meta, None);
    assert_eq!(r, Ok(None));
    assert_eq!(sim.bodies, before);
}

#[test]
fn handle_meta_input_replaces_constants_wholesale() {
    let mut sim = SimState::new(0, 0);
    let m = SimMetaData::new(11, 22);
    sim.handle_meta_input(m);
    assert_eq!(sim.metadata, m);
    assert_eq!(sim.bodies.len(), 10);
}

#[test]
fn single_unstable_body_is_removed_and_others_advance() {
    let mut sim = SimState::new(0, 0);
    sim.bodies = vec![small_body(1), small_body(2), small_body(3)];
    let a = small_body(10);
    let c = small_body(30);
    let outcomes = vec![
        StepOutcome::Advanced(a),
        StepOutcome::Unstable,
        StepOutcome::Advanced(c),
    ];
    let removed = sim.apply_step(&outcomes);
    assert_eq!(removed, vec![1]);
    assert_eq!(sim.bodies, vec![a, c]);
}

#[test]
fn removal_notices_come_highest_index_first() {
    let mut sim = SimState::new(0, 0);
    sim.bodies = vec![small_body(1), small_body(2), small_body(3), small_body(4)];
    let k = small_body(20);
    let outcomes = vec![
        StepOutcome::Unstable,
        StepOutcome::Advanced(k),
        StepOutcome::Unstable,
        StepOutcome::Unstable,
    ];
    let removed = sim.apply_step(&outcomes);
    assert_eq!(removed, vec![3, 2, 0]);
    assert_eq!(sim.bodies, vec![k]);
}

#[test]
fn publish_throttle_compares_elapsed_to_target() {
    let sim = SimState::new(10_000_000, 0);
    assert!(!sim.publish_due(10_000_000));
    assert!(sim.publish_due(10_000_001));
    assert!(!sim.publish_due(0));
}
