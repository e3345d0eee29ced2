use vstd::prelude::*;

use crate::kinetics::{
    acc_sum, contribution, new_velocity, simulate_model, tick_model, vadd, vscale, BodyModel,
};
use crate::vec3::V3Model;

verus! {

/// Phase ordering: in one tick, every distance entering the acceleration
/// phase is measured in the pre-tick world `w`, while each position then
/// advances by the velocity that phase produced — integration never feeds
/// back into the same tick's force calculation.
pub proof fn lemma_phase_ordering(w: Seq<BodyModel>, g: int, dt: int, i: int)
    requires
        0 <= i < w.len(),
    ensures
        tick_model(w, g, dt).len() == w.len(),
        tick_model(w, g, dt)[i].velocity == new_velocity(w, i, g, dt),
        tick_model(w, g, dt)[i].position == vadd(
            w[i].position,
            vscale(new_velocity(w, i, g, dt), dt),
        ),
        tick_model(w, g, dt)[i].mass == w[i].mass,
        tick_model(w, g, dt)[i].gravity_source == w[i].gravity_source,
        tick_model(w, g, dt)[i].massive == w[i].massive,
{
}

/// Self-exclusion: a lone body, even when it is both a gravity source and
/// massive, never accumulates a contribution from itself; one tick leaves
/// its velocity unchanged.
pub proof fn lemma_self_exclusion(w: Seq<BodyModel>, g: int, dt: int)
    requires
        w.len() == 1,
    ensures
        tick_model(w, g, dt)[0].velocity == w[0].velocity,
{
    assert(acc_sum(w, 0, g, dt, 1) == acc_sum(w, 0, g, dt, 0));
    assert(vadd(w[0].velocity, V3Model { x: 0, y: 0, z: 0 }) == w[0].velocity);
}

/// One-directional pull: with two bodies of which only the first is a
/// gravity source, one tick adds exactly the first body's contribution to
/// the second body's velocity (if the second is massive), while the first
/// body's own velocity never changes — there is no action-reaction.
pub proof fn lemma_one_directional(w: Seq<BodyModel>, g: int, dt: int)
    requires
        w.len() == 2,
        w[0].gravity_source,
        !w[1].gravity_source,
    ensures
        tick_model(w, g, dt)[0].velocity == w[0].velocity,
        w[1].massive ==> tick_model(w, g, dt)[1].velocity == vadd(
            w[1].velocity,
            contribution(w[0], w[1], g, dt),
        ),
        !w[1].massive ==> tick_model(w, g, dt)[1].velocity == w[1].velocity,
{
    assert(acc_sum(w, 0, g, dt, 2) == acc_sum(w, 0, g, dt, 1));
    assert(acc_sum(w, 0, g, dt, 1) == acc_sum(w, 0, g, dt, 0));
    assert(vadd(w[0].velocity, V3Model { x: 0, y: 0, z: 0 }) == w[0].velocity);
    assert(acc_sum(w, 1, g, dt, 2) == acc_sum(w, 1, g, dt, 1));
    assert(acc_sum(w, 1, g, dt, 1) == vadd(
        acc_sum(w, 1, g, dt, 0),
        contribution(w[0], w[1], g, dt),
    ));
    assert(vadd(
        vadd(V3Model { x: 0, y: 0, z: 0 }, contribution(w[0], w[1], g, dt)),
        w[1].velocity,
    ) == vadd(w[1].velocity, contribution(w[0], w[1], g, dt)));
}

/// Determinism: a run is a function of the initial world, the
/// gravitational constant and the time-step sequence alone.  Together
/// with `tick`'s contract — whose result is pinned for every chunk size —
/// repeated runs cannot diverge, whatever the worker partitioning.
pub proof fn lemma_determinism(
    w1: Seq<BodyModel>,
    w2: Seq<BodyModel>,
    g: int,
    dts1: Seq<int>,
    dts2: Seq<int>,
)
    requires
        w1 == w2,
        dts1 == dts2,
    ensures
        simulate_model(w1, g, dts1) == simulate_model(w2, g, dts2),
{
}

} // verus!
