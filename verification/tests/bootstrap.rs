use gravsim::kinetics::Body;
use gravsim::planet::{
    AppState, Bootstrap, ColorRgb, DefinitionStore, ParseError, Planet, COLOR_SCALE,
};
use gravsim::vec3::Vec3i;

fn v(x: i64, y: i64, z: i64) -> Vec3i {
    Vec3i { x, y, z }
}

fn white() -> ColorRgb {
    ColorRgb { r: COLOR_SCALE, g: COLOR_SCALE, b: COLOR_SCALE }
}

fn def(mass: i64, x: i64) -> Planet {
    Planet::new(mass, 5, white(), v(0, 0, 0), v(x, 0, 0)).unwrap()
}

#[test]
fn planet_validation_accepts_in_range_record() {
    let p = Planet::new(100, 2, white(), v(1, 2, 3), v(4, 5, 6)).unwrap();
    assert_eq!(p.mass, 100);
    assert_eq!(p.radius, 2);
    assert_eq!(p.color, white());
    assert_eq!(p.velocity, v(1, 2, 3));
    assert_eq!(p.location, v(4, 5, 6));
}

#[test]
fn planet_validation_rejects_each_violation() {
    let ok = v(0, 0, 0);
    assert_eq!(Planet::new(0, 1, white(), ok, ok), Err(ParseError::MassOutOfRange));
    assert_eq!(Planet::new(1_000_001, 1, white(), ok, ok), Err(ParseError::MassOutOfRange));
    assert_eq!(Planet::new(1, -1, white(), ok, ok), Err(ParseError::RadiusNegative));
    let bad_color = ColorRgb { r: COLOR_SCALE + 1, g: 0, b: 0 };
    assert_eq!(Planet::new(1, 1, bad_color, ok, ok), Err(ParseError::ColorOutOfRange));
    let negative_color = ColorRgb { r: 0, g: -1, b: 0 };
    assert_eq!(Planet::new(1, 1, negative_color, ok, ok), Err(ParseError::ColorOutOfRange));
    let far = v(1_000_000_001, 0, 0);
    assert_eq!(Planet::new(1, 1, white(), far, ok), Err(ParseError::VelocityOutOfRange));
    assert_eq!(Planet::new(1, 1, white(), ok, far), Err(ParseError::LocationOutOfRange));
}

#[test]
fn store_poll_before_and_after_completion() {
    let mut store = DefinitionStore::new();
    let h0 = store.register();
    let h1 = store.register();
    assert_eq!(h0, 0);
    assert_eq!(h1, 1);
    assert_eq!(store.get(h0), None);
    assert_eq!(store.get(h1), None);
    assert_eq!(store.get(7), None);
    store.complete(h1, def(42, 9));
    assert_eq!(store.get(h0), None);
    assert_eq!(store.get(h1), Some(def(42, 9)));
}

#[test]
fn bootstrap_waits_for_last_definition() {
    // Three definitions; two resolve before the first poll, the third
    // only "at tick 5": the transition fires exactly on the fifth poll.
    let mut store = DefinitionStore::new();
    let h0 = store.register();
    let h1 = store.register();
    let h2 = store.register();
    store.complete(h0, def(10, 1));
    store.complete(h1, def(20, 2));

    let mut boot = Bootstrap::new(&vec![h0, h1, h2]);
    let mut bodies: Vec<Body> = Vec::new();
    assert_eq!(boot.state, AppState::Loading);

    for poll in 1..=4 {
        let transitioned = boot.poll(&store, &mut bodies);
        assert!(!transitioned, "transitioned too early, at poll {}", poll);
        assert_eq!(boot.state, AppState::Loading);
        assert_eq!(bodies.len(), 2);
        assert_eq!(boot.pending(), vec![h2]);
    }
    assert_eq!(bodies[0].mass, 10);
    assert_eq!(bodies[1].mass, 20);
    assert!(bodies[0].gravity_source && bodies[0].massive);

    store.complete(h2, def(30, 3));
    let transitioned = boot.poll(&store, &mut bodies);
    assert!(transitioned);
    assert_eq!(boot.state, AppState::InSim);
    assert_eq!(bodies.len(), 3);
    assert_eq!(bodies[2].mass, 30);
    assert_eq!(bodies[2].position, v(3, 0, 0));
    assert_eq!(boot.pending(), Vec::<usize>::new());

    // The transition fires at most once; afterwards polls are no-ops.
    let again = boot.poll(&store, &mut bodies);
    assert!(!again);
    assert_eq!(boot.state, AppState::InSim);
    assert_eq!(bodies.len(), 3);
}

#[test]
fn bootstrap_with_nothing_to_load_transitions_at_once() {
    let store = DefinitionStore::new();
    let mut boot = Bootstrap::new(&Vec::new());
    let mut bodies: Vec<Body> = Vec::new();
    let transitioned = boot.poll(&store, &mut bodies);
    assert!(transitioned);
    assert_eq!(boot.state, AppState::InSim);
    assert!(bodies.is_empty());
}

#[test]
fn stalled_load_stays_in_loading() {
    // A definition that never resolves (e.g. its source failed to parse)
    // keeps the machine in `Loading`; the pending handles surface it.
    let mut store = DefinitionStore::new();
    let h0 = store.register();
    let h1 = store.register();
    store.complete(h0, def(10, 1));
    let mut boot = Bootstrap::new(&vec![h0, h1]);
    let mut bodies: Vec<Body> = Vec::new();
    for _ in 0..10 {
        assert!(!boot.poll(&store, &mut bodies));
    }
    assert_eq!(boot.state, AppState::Loading);
    assert_eq!(boot.pending(), vec![h1]);
    assert_eq!(bodies.len(), 1);
}
