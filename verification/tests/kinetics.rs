use gravsim::kinetics::{begin_sim, tick, tick_gated, AppState, Body, KineticsError, GRAV_CONSTANT};
use gravsim::math::isqrt;
use gravsim::vec3::Vec3i;

fn v(x: i64, y: i64, z: i64) -> Vec3i {
    Vec3i { x, y, z }
}

fn body(pos: Vec3i, vel: Vec3i, mass: i64, source: bool, massive: bool) -> Body {
    Body { position: pos, velocity: vel, mass, gravity_source: source, massive }
}

#[test]
fn isqrt_exact_values() {
    assert_eq!(isqrt(0), 0);
    assert_eq!(isqrt(1), 1);
    assert_eq!(isqrt(3), 1);
    assert_eq!(isqrt(4), 2);
    assert_eq!(isqrt(99), 9);
    assert_eq!(isqrt(100), 10);
    assert_eq!(isqrt(u64::MAX), 4294967295);
}

#[test]
fn two_body_scenario() {
    // A: mass 100 at the origin, both source and massive.
    // B: mass 1 at (10,0,0), massive only.  With G = 10 and dt = 1, B's
    // velocity after one tick is (100*10/100)*1*(-1,0,0) = (-10,0,0) and
    // its position integrates back to the origin; A never moves.
    let a = body(v(0, 0, 0), v(0, 0, 0), 100, true, true);
    let b = body(v(10, 0, 0), v(0, 0, 0), 1, false, true);
    let mut world = vec![a, b];
    let r = tick(&mut world, GRAV_CONSTANT, 1, 32);
    assert!(r.is_ok());
    assert_eq!(world[1].velocity, v(-10, 0, 0));
    assert_eq!(world[1].position, v(0, 0, 0));
    assert_eq!(world[0].velocity, v(0, 0, 0));
    assert_eq!(world[0].position, v(0, 0, 0));
}

#[test]
fn one_directional_pull() {
    // Only A is a source: B accelerates toward A, A's velocity never
    // changes even though A is massive.
    let a = body(v(0, 0, 0), v(0, 0, 0), 25, true, true);
    let b = body(v(10, 0, 0), v(0, 0, 0), 7, false, true);
    let mut world = vec![a, b];
    assert!(tick(&mut world, 10, 1, 32).is_ok());
    assert_eq!(world[0].velocity, v(0, 0, 0));
    assert_eq!(world[1].velocity, v(-2, 0, 0));
}

#[test]
fn self_exclusion_single_body() {
    // A lone body with both roles: no contribution from itself, so its
    // velocity is unchanged and it coasts by velocity * dt.
    let a = body(v(5, 5, 5), v(1, 2, 3), 1000, true, true);
    let mut world = vec![a];
    assert!(tick(&mut world, 10, 2, 32).is_ok());
    assert_eq!(world[0].velocity, v(1, 2, 3));
    assert_eq!(world[0].position, v(7, 9, 11));
}

#[test]
fn phase_ordering_two_ticks() {
    // The second tick's pull must be computed from the position the first
    // tick produced, never from the same tick's own integration.
    // Tick 1: dist 10 -> impulse 250*10/1000 = 2, B moves to x = 8.
    // Tick 2: dist 8 -> impulse 250*8/512 = 3 (not 2500/27 = 92, which a
    // same-tick read of the integrated position x = 3 would give).
    let a = body(v(0, 0, 0), v(0, 0, 0), 25, true, true);
    let b = body(v(10, 0, 0), v(0, 0, 0), 1, false, true);
    let mut world = vec![a, b];
    assert!(tick(&mut world, 10, 1, 32).is_ok());
    assert_eq!(world[1].velocity, v(-2, 0, 0));
    assert_eq!(world[1].position, v(8, 0, 0));
    assert!(tick(&mut world, 10, 1, 32).is_ok());
    assert_eq!(world[1].velocity, v(-5, 0, 0));
    assert_eq!(world[1].position, v(3, 0, 0));
}

#[test]
fn deterministic_across_chunk_sizes() {
    // Identical initial worlds and time steps give identical trajectories
    // for every chunk size (the worker-pool partitioning).
    let mk = || {
        vec![
            body(v(0, 0, 0), v(0, 0, 0), 1000, true, true),
            body(v(100, 0, 0), v(0, 3, 0), 500, true, true),
            body(v(0, 200, 0), v(-1, 0, 2), 250, true, true),
            body(v(-300, 40, 50), v(2, -2, 0), 999, false, true),
            body(v(77, -88, 99), v(0, 0, 0), 123, true, false),
        ]
    };
    let mut w1 = mk();
    let mut w2 = mk();
    let mut w3 = mk();
    for _ in 0..3 {
        assert!(tick(&mut w1, 10, 7, 1).is_ok());
        assert!(tick(&mut w2, 10, 7, 32).is_ok());
        assert!(tick(&mut w3, 10, 7, 1000).is_ok());
    }
    assert_eq!(w1, w2);
    assert_eq!(w1, w3);
}

#[test]
fn degenerate_distance_reported() {
    // Two distinct bodies at the same position, both pulling and pulled:
    // the tick reports the degenerate separation and leaves the world
    // untouched.
    let a = body(v(1, 2, 3), v(0, 0, 0), 10, true, true);
    let b = body(v(1, 2, 3), v(4, 0, 0), 20, true, true);
    let mut world = vec![a, b];
    let before = world.clone();
    let r = tick(&mut world, 10, 1, 32);
    assert_eq!(r, Err(KineticsError::DegenerateDistance));
    assert_eq!(world, before);
}

#[test]
fn coincident_but_harmless_pair_is_not_degenerate() {
    // Two coincident bodies of which neither is a gravity source: nothing
    // pulls anything, so there is no degenerate pair and the tick runs.
    let a = body(v(1, 1, 1), v(2, 0, 0), 10, false, true);
    let b = body(v(1, 1, 1), v(0, 0, 0), 20, false, true);
    let mut world = vec![a, b];
    assert!(tick(&mut world, 10, 1, 32).is_ok());
    assert_eq!(world[0].position, v(3, 1, 1));
    assert_eq!(world[1].position, v(1, 1, 1));
}

#[test]
fn extreme_bounds_still_tick() {
    // The largest admissible world values: coordinates, mass, g and dt at
    // their bounds.  At this separation the rounded impulse is zero, so
    // nothing moves.
    let m = 1_000_000_000;
    let a = body(v(m, 0, 0), v(0, 0, 0), 1_000_000, true, true);
    let b = body(v(-m, 0, 0), v(0, 0, 0), 1_000_000, true, true);
    let mut world = vec![a, b];
    assert!(tick(&mut world, 1_000, 1_000, 32).is_ok());
    assert_eq!(world[0].position, v(m, 0, 0));
    assert_eq!(world[1].position, v(-m, 0, 0));
    assert_eq!(world[0].velocity, v(0, 0, 0));
}

#[test]
fn gate_blocks_tick_while_paused() {
    let a = body(v(0, 0, 0), v(0, 0, 0), 100, true, true);
    let b = body(v(10, 0, 0), v(0, 0, 0), 1, false, true);
    let mut world = vec![a, b];
    let before = world.clone();
    let r = tick_gated(&AppState::Paused, &mut world, 10, 1, 32);
    assert_eq!(r, Ok(false));
    assert_eq!(world, before);
}

#[test]
fn gate_runs_tick_in_sim() {
    let a = body(v(0, 0, 0), v(0, 0, 0), 100, true, true);
    let b = body(v(10, 0, 0), v(0, 0, 0), 1, false, true);
    let mut world = vec![a, b];
    let mut state = AppState::Paused;
    begin_sim(&mut state);
    assert_eq!(state, AppState::InSim);
    let r = tick_gated(&state, &mut world, 10, 1, 32);
    assert_eq!(r, Ok(true));
    assert_eq!(world[1].velocity, v(-10, 0, 0));
}
