use vstd::prelude::*;
use vstd::arithmetic::div_mod::{lemma_div_is_ordered, lemma_div_multiples_vanish};

use crate::math::{sqrt_floor, isqrt, lemma_sqrt_floor_bounds};
use vstd::math::abs;
use crate::vec3::{Vec3i, V3Model};

verus! {

/// Gravitational constant of the reference behaviour (configurable: every
/// entry point takes `g` as an argument; this is merely the default).
pub const GRAV_CONSTANT: i64 = 10;

/// Largest magnitude allowed for a position or initial-velocity coordinate.
pub const MAX_COORD: i64 = 1_000_000_000;

/// Largest allowed body mass (masses are strictly positive).
pub const MAX_MASS: i64 = 1_000_000;

/// Largest allowed gravitational constant.
pub const MAX_G: i64 = 1_000;

/// Largest allowed time step.
pub const MAX_DT: i64 = 1_000;

/// Largest allowed number of bodies in a world.
pub const MAX_BODIES: usize = 1024;

/// Largest magnitude of a single velocity contribution:
/// `MAX_MASS * MAX_G * MAX_DT`.
pub const CONTRIB_BOUND: i64 = 1_000_000_000_000;

/// Largest velocity magnitude after one acceleration phase:
/// `MAX_COORD + MAX_BODIES * CONTRIB_BOUND`.
pub const VEL_BOUND: i64 = 1_025_000_000_000_000;

/// Whether the kinetics engine is running; it ticks only in `InSim`.
#[derive(Clone, Copy, PartialEq, Eq, Structural, Debug)]
pub enum AppState {
    Paused,
    InSim,
}

/// One simulated body in the arena.  `gravity_source` marks it as pulling
/// on others, `massive` as being pulled.  Self-interaction is excluded by
/// arena index, never by position equality.
#[derive(Clone, Copy, PartialEq, Eq, Structural, Debug)]
pub struct Body {
    pub position: Vec3i,
    pub velocity: Vec3i,
    pub mass: i64,
    pub gravity_source: bool,
    pub massive: bool,
}

/// The mathematical (unbounded) value of a `Body`.
pub ghost struct BodyModel {
    pub position: V3Model,
    pub velocity: V3Model,
    pub mass: int,
    pub gravity_source: bool,
    pub massive: bool,
}

impl View for Body {
    type V = BodyModel;

    open spec fn view(&self) -> BodyModel {
        BodyModel {
            position: self.position@,
            velocity: self.velocity@,
            mass: self.mass as int,
            gravity_source: self.gravity_source,
            massive: self.massive,
        }
    }
}

/// The world as the kinetics engine models it.
pub open spec fn world_view(s: Seq<Body>) -> Seq<BodyModel> {
    Seq::new(s.len(), |i: int| s[i]@)
}

pub open spec fn vadd(a: V3Model, b: V3Model) -> V3Model {
    V3Model { x: a.x + b.x, y: a.y + b.y, z: a.z + b.z }
}

pub open spec fn vscale(a: V3Model, k: int) -> V3Model {
    V3Model { x: a.x * k, y: a.y * k, z: a.z * k }
}

pub open spec fn sq(a: int) -> int {
    a * a
}

/// Squared Euclidean distance between two points.
pub open spec fn dist_sq(a: V3Model, b: V3Model) -> int {
    sq(a.x - b.x) + sq(a.y - b.y) + sq(a.z - b.z)
}

/// Division of integers rounding toward zero (the denominator is
/// nonnegative; division by zero yields zero).
pub open spec fn div_toward_zero(num: int, den: int) -> int {
    if num >= 0 {
        num / den
    } else {
        -((-num) / den)
    }
}

/// One axis of a velocity contribution: `m * g * dt * delta / (d2 * d)`
/// rounded toward zero, where `delta` is the source minus target
/// coordinate, `d2` their squared distance and `d = sqrt_floor(d2)`.
pub open spec fn contrib_axis(m: int, g: int, dt: int, delta: int, d2: int) -> int {
    div_toward_zero(m * g * dt * delta, d2 * sqrt_floor(d2))
}

/// The velocity impulse a gravity source adds to a target body in one
/// tick: `(m * G / dist^2) * dt` along the unit vector from target toward
/// source, evaluated in integer arithmetic as a single rounded division
/// per axis.
pub open spec fn contribution(src: BodyModel, tgt: BodyModel, g: int, dt: int) -> V3Model {
    let d2 = dist_sq(src.position, tgt.position);
    V3Model {
        x: contrib_axis(src.mass, g, dt, src.position.x - tgt.position.x, d2),
        y: contrib_axis(src.mass, g, dt, src.position.y - tgt.position.y, d2),
        z: contrib_axis(src.mass, g, dt, src.position.z - tgt.position.z, d2),
    }
}

/// Sum of the contributions of the sources among the first `upto` bodies
/// to body `i`, skipping `i` itself.
pub open spec fn acc_sum(w: Seq<BodyModel>, i: int, g: int, dt: int, upto: int) -> V3Model
    decreases upto,
{
    if upto <= 0 {
        V3Model { x: 0, y: 0, z: 0 }
    } else {
        let prev = acc_sum(w, i, g, dt, upto - 1);
        if upto - 1 != i && w[upto - 1].gravity_source {
            vadd(prev, contribution(w[upto - 1], w[i], g, dt))
        } else {
            prev
        }
    }
}

/// Velocity of body `i` after the acceleration phase: unchanged unless the
/// body is massive, in which case every source other than itself
/// contributes.
pub open spec fn new_velocity(w: Seq<BodyModel>, i: int, g: int, dt: int) -> V3Model {
    if w[i].massive {
        vadd(w[i].velocity, acc_sum(w, i, g, dt, w.len() as int))
    } else {
        w[i].velocity
    }
}

/// The whole world after the acceleration phase: positions, masses and
/// roles untouched, velocities accumulated from the pre-phase positions.
pub open spec fn accelerate_model(w: Seq<BodyModel>, g: int, dt: int) -> Seq<BodyModel> {
    Seq::new(
        w.len(),
        |i: int|
            BodyModel {
                position: w[i].position,
                velocity: new_velocity(w, i, g, dt),
                mass: w[i].mass,
                gravity_source: w[i].gravity_source,
                massive: w[i].massive,
            },
    )
}

/// The whole world after the integration phase: every body moves by
/// `velocity * dt`; nothing else changes.
pub open spec fn integrate_model(w: Seq<BodyModel>, dt: int) -> Seq<BodyModel> {
    Seq::new(
        w.len(),
        |i: int|
            BodyModel {
                position: vadd(w[i].position, vscale(w[i].velocity, dt)),
                velocity: w[i].velocity,
                mass: w[i].mass,
                gravity_source: w[i].gravity_source,
                massive: w[i].massive,
            },
    )
}

/// One full tick: the acceleration phase over the pre-tick positions,
/// then the integration phase over the accumulated velocities.
pub open spec fn tick_model(w: Seq<BodyModel>, g: int, dt: int) -> Seq<BodyModel> {
    integrate_model(accelerate_model(w, g, dt), dt)
}

/// A whole run: one tick per entry of the time-step sequence.
pub open spec fn simulate_model(w: Seq<BodyModel>, g: int, dts: Seq<int>) -> Seq<BodyModel>
    decreases dts.len(),
{
    if dts.len() == 0 {
        w
    } else {
        simulate_model(tick_model(w, g, dts[0]), g, dts.drop_first())
    }
}

/// Bodies `i` (massive) and `j` (a source, distinct from `i`) coincide, so
/// the contribution of `j` to `i` is not defined.
pub open spec fn degenerate_pair(w: Seq<BodyModel>, i: int, j: int) -> bool {
    &&& 0 <= i < w.len()
    &&& 0 <= j < w.len()
    &&& i != j
    &&& w[i].massive
    &&& w[j].gravity_source
    &&& dist_sq(w[j].position, w[i].position) == 0
}

pub open spec fn has_degenerate_pair(w: Seq<BodyModel>) -> bool {
    exists|i: int, j: int| degenerate_pair(w, i, j)
}

/// No source other than `i` itself sits at `i`'s exact position.
pub open spec fn sources_separated(w: Seq<BodyModel>, i: int) -> bool {
    forall|j: int|
        0 <= j < w.len() && j != i && w[j].gravity_source ==> dist_sq(
            w[j].position,
            w[i].position,
        ) != 0
}

pub open spec fn coord_ok(a: int) -> bool {
    -(MAX_COORD as int) <= a <= MAX_COORD as int
}

pub open spec fn v3_ok(v: V3Model) -> bool {
    coord_ok(v.x) && coord_ok(v.y) && coord_ok(v.z)
}

/// Per-body input bounds: coordinates and initial velocities within
/// `MAX_COORD`, mass strictly positive and within `MAX_MASS`.
pub open spec fn body_wf(b: BodyModel) -> bool {
    v3_ok(b.position) && v3_ok(b.velocity) && 0 < b.mass <= MAX_MASS as int
}

pub open spec fn world_wf(w: Seq<BodyModel>) -> bool {
    w.len() <= MAX_BODIES as int && forall|i: int| 0 <= i < w.len() ==> body_wf(#[trigger] w[i])
}

/// The part of `body_wf` that the acceleration phase reads from a source:
/// its position and mass (never its velocity).
pub open spec fn body_pm_ok(b: BodyModel) -> bool {
    v3_ok(b.position) && 0 < b.mass <= MAX_MASS as int
}

/// Velocity bound that one acceleration phase guarantees.
pub open spec fn vel_bounded(v: V3Model) -> bool {
    &&& -(VEL_BOUND as int) <= v.x <= VEL_BOUND as int
    &&& -(VEL_BOUND as int) <= v.y <= VEL_BOUND as int
    &&& -(VEL_BOUND as int) <= v.z <= VEL_BOUND as int
}

/// Squared distance between two in-bounds points, exactly.
fn dist_sq_exec(a: &Vec3i, b: &Vec3i) -> (d2: u64)
    requires
        v3_ok(a@),
        v3_ok(b@),
    ensures
        d2 as int == dist_sq(a@, b@),
{
    let dx: i64 = a.x - b.x;
    let dy: i64 = a.y - b.y;
    let dz: i64 = a.z - b.z;
    proof {
        assert(0 <= (dx as int) * (dx as int) <= 4000000000000000000) by (nonlinear_arith)
            requires
                -2000000000 <= dx as int <= 2000000000;
        assert(0 <= (dy as int) * (dy as int) <= 4000000000000000000) by (nonlinear_arith)
            requires
                -2000000000 <= dy as int <= 2000000000;
        assert(0 <= (dz as int) * (dz as int) <= 4000000000000000000) by (nonlinear_arith)
            requires
                -2000000000 <= dz as int <= 2000000000;
    }
    let s: i128 = (dx as i128) * (dx as i128) + (dy as i128) * (dy as i128) + (dz as i128) * (dz
        as i128);
    s as u64
}

/// One axis of a contribution, from the premultiplied magnitude `scale`
/// (the value `m * g * dt`), the denominator `den` (the value
/// `d2 * sqrt_floor(d2)`) and the coordinate difference `delta`.
fn axis_contrib(scale: u128, den: u128, delta: i64) -> (c: i64)
    requires
        1 <= den as int,
        scale as int <= CONTRIB_BOUND as int,
        -2000000000 <= delta as int <= 2000000000,
        -(den as int) <= delta as int <= den as int,
    ensures
        c as int == div_toward_zero((scale as int) * (delta as int), den as int),
        -(scale as int) <= c as int <= scale as int,
{
    let mag: u64 = if delta < 0 {
        (-delta) as u64
    } else {
        delta as u64
    };
    proof {
        assert(0 <= (scale as int) * (mag as int) <= 2000000000000000000000) by (nonlinear_arith)
            requires
                0 <= scale as int <= 1000000000000,
                0 <= mag as int <= 2000000000;
        assert((scale as int) * (mag as int) <= (den as int) * (scale as int)) by (nonlinear_arith)
            requires
                0 <= scale as int,
                0 <= mag as int <= den as int;
    }
    let num: u128 = scale * (mag as u128);
    let q: u128 = num / den;
    proof {
        lemma_div_is_ordered(0, num as int, den as int);
        lemma_div_is_ordered(num as int, (den as int) * (scale as int), den as int);
        lemma_div_multiples_vanish(scale as int, den as int);
        assert(0int / (den as int) == 0) by (nonlinear_arith)
            requires
                1 <= den as int;
    }
    let qi: i64 = q as i64;
    if delta < 0 {
        proof {
            assert((scale as int) * (delta as int) == -((scale as int) * (mag as int)))
                by (nonlinear_arith)
                requires
                    (delta as int) < 0,
                    (mag as int) + (delta as int) == 0;
        }
        -qi
    } else {
        qi
    }
}

/// The contribution of one gravity source to one target body, exactly as
/// `contribution` states it.
fn accel_from_source(src: &Body, tgt: &Body, g: i64, dt: i64) -> (c: Vec3i)
    requires
        body_pm_ok(src@),
        v3_ok(tgt@.position),
        0 <= g <= MAX_G,
        0 <= dt <= MAX_DT,
        dist_sq(src@.position, tgt@.position) != 0,
    ensures
        c@ == contribution(src@, tgt@, g as int, dt as int),
        -(CONTRIB_BOUND as int) <= c@.x <= CONTRIB_BOUND as int,
        -(CONTRIB_BOUND as int) <= c@.y <= CONTRIB_BOUND as int,
        -(CONTRIB_BOUND as int) <= c@.z <= CONTRIB_BOUND as int,
{
    let dx: i64 = src.position.x - tgt.position.x;
    let dy: i64 = src.position.y - tgt.position.y;
    let dz: i64 = src.position.z - tgt.position.z;
    let d2: u64 = dist_sq_exec(&src.position, &tgt.position);
    let d: u64 = isqrt(d2);
    proof {
        lemma_sqrt_floor_bounds(d2 as int);
        assert(1 <= d as int) by (nonlinear_arith)
            requires
                d as int == sqrt_floor(d2 as int),
                sqrt_floor(d2 as int) >= 0,
                (sqrt_floor(d2 as int) + 1) * (sqrt_floor(d2 as int) + 1) > d2 as int,
                1 <= d2 as int;
        assert((d2 as int) * (d as int) < 79228162514264337593543950336) by (nonlinear_arith)
            requires
                1 <= d2 as int && (d2 as int) < 18446744073709551616,
                1 <= d as int,
                (d as int) * (d as int) <= d2 as int;
        // Each axis difference is bounded by the full distance.
        assert((dx as int) * (dx as int) <= d2 as int && (dy as int) * (dy as int) <= d2 as int
            && (dz as int) * (dz as int) <= d2 as int) by (nonlinear_arith)
            requires
                d2 as int == sq(dx as int) + sq(dy as int) + sq(dz as int);
        lemma_axis_le_sqrt(dx as int, d2 as int);
        lemma_axis_le_sqrt(dy as int, d2 as int);
        lemma_axis_le_sqrt(dz as int, d2 as int);
        assert(d as int <= (d2 as int) * (d as int) && abs(dx as int) <= (d2 as int) * (
        d as int) && abs(dy as int) <= (d2 as int) * (d as int) && abs(dz as int) <= (
        d2 as int) * (d as int)) by (nonlinear_arith)
            requires
                1 <= d2 as int,
                1 <= d as int,
                abs(dx as int) <= d as int,
                abs(dy as int) <= d as int,
                abs(dz as int) <= d as int;
        assert(0 <= (src.mass as int) * (g as int) <= 1000000000) by (nonlinear_arith)
            requires
                0 < src.mass as int <= 1000000,
                0 <= g as int <= 1000;
        assert(0 <= (src.mass as int) * (g as int) * (dt as int) <= 1000000000000)
            by (nonlinear_arith)
            requires
                0 <= (src.mass as int) * (g as int) <= 1000000000,
                0 <= dt as int <= 1000;
    }
    let den: u128 = (d2 as u128) * (d as u128);
    let scale: u128 = (src.mass as u128) * (g as u128) * (dt as u128);
    let cx: i64 = axis_contrib(scale, den, dx);
    let cy: i64 = axis_contrib(scale, den, dy);
    let cz: i64 = axis_contrib(scale, den, dz);
    Vec3i { x: cx, y: cy, z: cz }
}

/// An axis difference never exceeds the floor square root of the full
/// squared distance.
proof fn lemma_axis_le_sqrt(delta: int, d2: int)
    requires
        0 <= d2,
        delta * delta <= d2,
    ensures
        abs(delta) <= sqrt_floor(d2),
{
    lemma_sqrt_floor_bounds(d2);
    let s = sqrt_floor(d2);
    assert(abs(delta) <= s) by (nonlinear_arith)
        requires
            s >= 0,
            delta * delta <= d2,
            d2 < (s + 1) * (s + 1);
}

/// `acc_sum` reads only positions, masses and source flags, never
/// velocities or `massive` flags of other bodies.
proof fn lemma_acc_sum_congruence(
    w1: Seq<BodyModel>,
    w2: Seq<BodyModel>,
    i: int,
    g: int,
    dt: int,
    upto: int,
)
    requires
        w1.len() == w2.len(),
        0 <= i < w1.len(),
        upto <= w1.len(),
        forall|j: int|
            #![trigger w1[j], w2[j]]
            0 <= j < w1.len() ==> w1[j].position == w2[j].position && w1[j].mass == w2[j].mass
                && w1[j].gravity_source == w2[j].gravity_source,
    ensures
        acc_sum(w1, i, g, dt, upto) == acc_sum(w2, i, g, dt, upto),
    decreases upto,
{
    if upto > 0 {
        lemma_acc_sum_congruence(w1, w2, i, g, dt, upto - 1);
    }
}

/// `new_velocity` for body `i` depends only on the positions, masses and
/// source flags of the world and on body `i`'s own velocity and role.
proof fn lemma_new_velocity_congruence(
    w1: Seq<BodyModel>,
    w2: Seq<BodyModel>,
    i: int,
    g: int,
    dt: int,
)
    requires
        w1.len() == w2.len(),
        0 <= i < w1.len(),
        forall|j: int|
            #![trigger w1[j], w2[j]]
            0 <= j < w1.len() ==> w1[j].position == w2[j].position && w1[j].mass == w2[j].mass
                && w1[j].gravity_source == w2[j].gravity_source,
        w1[i].velocity == w2[i].velocity,
        w1[i].massive == w2[i].massive,
    ensures
        new_velocity(w1, i, g, dt) == new_velocity(w2, i, g, dt),
{
    lemma_acc_sum_congruence(w1, w2, i, g, dt, w1.len() as int);
}

/// The velocity of body `i` after the acceleration phase, read off the
/// current arena: its own velocity plus one contribution per distinct
/// gravity source, accumulated in index order.
fn compute_velocity(bodies: &Vec<Body>, i: usize, g: i64, dt: i64) -> (v: Vec3i)
    requires
        (i as int) < bodies@.len(),
        bodies@.len() <= MAX_BODIES as int,
        forall|j: int| 0 <= j < bodies@.len() ==> body_pm_ok(#[trigger] world_view(bodies@)[j]),
        v3_ok(world_view(bodies@)[i as int].velocity),
        0 <= g <= MAX_G,
        0 <= dt <= MAX_DT,
        world_view(bodies@)[i as int].massive ==> sources_separated(
            world_view(bodies@),
            i as int,
        ),
    ensures
        v@ == new_velocity(world_view(bodies@), i as int, g as int, dt as int),
        vel_bounded(v@),
{
    let n = bodies.len();
    let b = bodies[i];
    if !b.massive {
        return b.velocity;
    }
    let mut ax: i64 = 0;
    let mut ay: i64 = 0;
    let mut az: i64 = 0;
    let mut j: usize = 0;
    while j < n
        invariant
            n == bodies@.len(),
            j <= n,
            (i as int) < bodies@.len(),
            bodies@.len() <= MAX_BODIES as int,
            b == bodies@[i as int],
            b@.massive,
            forall|k: int| 0 <= k < bodies@.len() ==> body_pm_ok(#[trigger] world_view(bodies@)[k]),
            0 <= g <= MAX_G,
            0 <= dt <= MAX_DT,
            sources_separated(world_view(bodies@), i as int),
            (V3Model { x: ax as int, y: ay as int, z: az as int }) == acc_sum(
                world_view(bodies@),
                i as int,
                g as int,
                dt as int,
                j as int,
            ),
            -(j as int) * (CONTRIB_BOUND as int) <= ax as int <= (j as int) * (
            CONTRIB_BOUND as int),
            -(j as int) * (CONTRIB_BOUND as int) <= ay as int <= (j as int) * (
            CONTRIB_BOUND as int),
            -(j as int) * (CONTRIB_BOUND as int) <= az as int <= (j as int) * (
            CONTRIB_BOUND as int),
        decreases n - j,
    {
        if j != i {
            let bj = bodies[j];
            if bj.gravity_source {
                proof {
                    assert(bj@ == world_view(bodies@)[j as int]);
                    assert(dist_sq(bj@.position, b@.position) != 0);
                }
                let c = accel_from_source(&bj, &b, g, dt);
                ax = ax + c.x;
                ay = ay + c.y;
                az = az + c.z;
            }
        }
        j += 1;
    }
    proof {
        assert(new_velocity(world_view(bodies@), i as int, g as int, dt as int) == vadd(
            b@.velocity,
            acc_sum(world_view(bodies@), i as int, g as int, dt as int, n as int),
        ));
    }
    Vec3i { x: b.velocity.x + ax, y: b.velocity.y + ay, z: b.velocity.z + az }
}

/// Whether body `k` of `w` carries the phase-A result for the pre-phase
/// world `w0` while everything else about it is untouched.
pub open spec fn accel_updated(w0: Seq<BodyModel>, b: BodyModel, k: int, g: int, dt: int) -> bool {
    &&& b == (BodyModel {
        position: w0[k].position,
        velocity: new_velocity(w0, k, g, dt),
        mass: w0[k].mass,
        gravity_source: w0[k].gravity_source,
        massive: w0[k].massive,
    })
    &&& vel_bounded(b.velocity)
}

/// Phase A: accumulate every source's contribution into every massive
/// body's velocity.  All distances are measured in the pre-phase world, so
/// the result does not depend on the order of processing; in particular it
/// is the same for every chunk size.
pub fn accelerate(bodies: &mut Vec<Body>, g: i64, dt: i64, chunk_size: usize)
    requires
        world_wf(world_view(old(bodies)@)),
        !has_degenerate_pair(world_view(old(bodies)@)),
        0 <= g <= MAX_G,
        0 <= dt <= MAX_DT,
        chunk_size >= 1,
    ensures
        world_view(final(bodies)@) =~= accelerate_model(
            world_view(old(bodies)@),
            g as int,
            dt as int,
        ),
        forall|k: int|
            0 <= k < final(bodies)@.len() ==> v3_ok(
                (#[trigger] world_view(final(bodies)@)[k]).position,
            ) && vel_bounded(world_view(final(bodies)@)[k].velocity),
{
    let ghost w0 = world_view(old(bodies)@);
    let n = bodies.len();
    let mut start: usize = 0;
    while start < n
        invariant
            start <= n,
            n == bodies@.len(),
            bodies@.len() == old(bodies)@.len(),
            w0 == world_view(old(bodies)@),
            world_wf(w0),
            !has_degenerate_pair(w0),
            0 <= g <= MAX_G,
            0 <= dt <= MAX_DT,
            chunk_size >= 1,
            forall|k: int|
                0 <= k < start ==> accel_updated(
                    w0,
                    (#[trigger] bodies@[k])@,
                    k,
                    g as int,
                    dt as int,
                ),
            forall|k: int| start <= k < n ==> #[trigger] bodies@[k] == old(bodies)@[k],
        decreases n - start,
    {
        let end: usize = if n - start < chunk_size {
            n
        } else {
            start + chunk_size
        };
        let mut i: usize = start;
        while i < end
            invariant
                start <= i <= end <= n,
                n == bodies@.len(),
                bodies@.len() == old(bodies)@.len(),
                w0 == world_view(old(bodies)@),
                world_wf(w0),
                !has_degenerate_pair(w0),
                0 <= g <= MAX_G,
                0 <= dt <= MAX_DT,
                forall|k: int|
                    0 <= k < i ==> accel_updated(
                        w0,
                        (#[trigger] bodies@[k])@,
                        k,
                        g as int,
                        dt as int,
                    ),
                forall|k: int| i <= k < n ==> #[trigger] bodies@[k] == old(bodies)@[k],
            decreases end - i,
        {
            proof {
                let wc = world_view(bodies@);
                assert forall|j: int| 0 <= j < wc.len() implies body_pm_ok(#[trigger] wc[j])
                    && wc[j].position == w0[j].position && wc[j].mass == w0[j].mass
                    && wc[j].gravity_source == w0[j].gravity_source by {
                    assert(wc[j] == bodies@[j]@);
                    if j < i {
                        assert(accel_updated(w0, bodies@[j]@, j, g as int, dt as int));
                    } else {
                        assert(bodies@[j] == old(bodies)@[j]);
                    }
                    assert(body_wf(w0[j]));
                }
                assert(wc[i as int].velocity == w0[i as int].velocity);
                assert(wc[i as int].massive == w0[i as int].massive);
                if wc[i as int].massive {
                    assert forall|j: int|
                        0 <= j < wc.len() && j != i as int && wc[j].gravity_source implies dist_sq(
                        wc[j].position,
                        wc[i as int].position,
                    ) != 0 by {
                        if dist_sq(w0[j].position, w0[i as int].position) == 0 {
                            assert(degenerate_pair(w0, i as int, j));
                            assert(false);
                        }
                    }
                    assert(sources_separated(wc, i as int));
                }
            }
            let v = compute_velocity(bodies, i, g, dt);
            proof {
                lemma_new_velocity_congruence(
                    world_view(bodies@),
                    w0,
                    i as int,
                    g as int,
                    dt as int,
                );
            }
            let mut nb = bodies[i];
            nb.velocity = v;
            bodies.set(i, nb);
            i += 1;
        }
        start = end;
    }
    proof {
        let wf_ = world_view(bodies@);
        let am = accelerate_model(w0, g as int, dt as int);
        assert forall|k: int| 0 <= k < wf_.len() implies wf_[k] == am[k] by {
            assert(accel_updated(w0, bodies@[k]@, k, g as int, dt as int));
        }
        assert(wf_ =~= am);
        assert forall|k: int|
            0 <= k < bodies@.len() implies v3_ok((#[trigger] wf_[k]).position) && vel_bounded(
            wf_[k].velocity,
        ) by {
            assert(accel_updated(w0, bodies@[k]@, k, g as int, dt as int));
            assert(body_wf(w0[k]));
        }
    }
}

/// Phase B: every body moves by `velocity * dt`; independent per body, so
/// again the same for every chunk size.
pub fn integrate(bodies: &mut Vec<Body>, dt: i64, chunk_size: usize)
    requires
        forall|k: int|
            0 <= k < old(bodies)@.len() ==> v3_ok(
                (#[trigger] world_view(old(bodies)@)[k]).position,
            ) && vel_bounded(world_view(old(bodies)@)[k].velocity),
        0 <= dt <= MAX_DT,
        chunk_size >= 1,
    ensures
        world_view(final(bodies)@) =~= integrate_model(world_view(old(bodies)@), dt as int),
{
    let ghost w0 = world_view(old(bodies)@);
    let n = bodies.len();
    let mut start: usize = 0;
    while start < n
        invariant
            start <= n,
            n == bodies@.len(),
            bodies@.len() == old(bodies)@.len(),
            w0 == world_view(old(bodies)@),
            forall|k: int|
                0 <= k < old(bodies)@.len() ==> v3_ok((#[trigger] w0[k]).position) && vel_bounded(
                    w0[k].velocity,
                ),
            0 <= dt <= MAX_DT,
            chunk_size >= 1,
            forall|k: int|
                0 <= k < start ==> (#[trigger] bodies@[k])@ == integrate_model(w0, dt as int)[k],
            forall|k: int| start <= k < n ==> #[trigger] bodies@[k] == old(bodies)@[k],
        decreases n - start,
    {
        let end: usize = if n - start < chunk_size {
            n
        } else {
            start + chunk_size
        };
        let mut i: usize = start;
        while i < end
            invariant
                start <= i <= end <= n,
                n == bodies@.len(),
                bodies@.len() == old(bodies)@.len(),
                w0 == world_view(old(bodies)@),
                forall|k: int|
                    0 <= k < old(bodies)@.len() ==> v3_ok((#[trigger] w0[k]).position)
                        && vel_bounded(w0[k].velocity),
                0 <= dt <= MAX_DT,
                forall|k: int|
                    0 <= k < i ==> (#[trigger] bodies@[k])@ == integrate_model(w0, dt as int)[k],
                forall|k: int| i <= k < n ==> #[trigger] bodies@[k] == old(bodies)@[k],
            decreases end - i,
        {
            let mut nb = bodies[i];
            proof {
                assert(nb@ == w0[i as int]);
                assert(-1025000000000000000 <= (nb.velocity.x as int) * (dt as int)
                    <= 1025000000000000000) by (nonlinear_arith)
                    requires
                        -1025000000000000 <= nb.velocity.x as int <= 1025000000000000,
                        0 <= dt as int <= 1000;
                assert(-1025000000000000000 <= (nb.velocity.y as int) * (dt as int)
                    <= 1025000000000000000) by (nonlinear_arith)
                    requires
                        -1025000000000000 <= nb.velocity.y as int <= 1025000000000000,
                        0 <= dt as int <= 1000;
                assert(-1025000000000000000 <= (nb.velocity.z as int) * (dt as int)
                    <= 1025000000000000000) by (nonlinear_arith)
                    requires
                        -1025000000000000 <= nb.velocity.z as int <= 1025000000000000,
                        0 <= dt as int <= 1000;
            }
            nb.position = Vec3i {
                x: nb.position.x + nb.velocity.x * dt,
                y: nb.position.y + nb.velocity.y * dt,
                z: nb.position.z + nb.velocity.z * dt,
            };
            bodies.set(i, nb);
            i += 1;
        }
        start = end;
    }
    proof {
        assert(world_view(bodies@) =~= integrate_model(w0, dt as int));
    }
}

/// Scan for a massive body and a distinct source at zero squared distance.
fn find_degenerate(bodies: &Vec<Body>) -> (r: Option<(usize, usize)>)
    requires
        forall|k: int|
            0 <= k < bodies@.len() ==> v3_ok((#[trigger] world_view(bodies@)[k]).position),
    ensures
        match r {
            Some(p) => degenerate_pair(world_view(bodies@), p.0 as int, p.1 as int),
            None => !has_degenerate_pair(world_view(bodies@)),
        },
{
    let ghost w = world_view(bodies@);
    let n = bodies.len();
    let mut i: usize = 0;
    while i < n
        invariant
            i <= n,
            n == bodies@.len(),
            w == world_view(bodies@),
            forall|k: int|
                0 <= k < bodies@.len() ==> v3_ok((#[trigger] world_view(bodies@)[k]).position),
            forall|a: int, b: int| 0 <= a < i as int ==> !#[trigger] degenerate_pair(w, a, b),
        decreases n - i,
    {
        let bi = bodies[i];
        if bi.massive {
            let mut j: usize = 0;
            while j < n
                invariant
                    i < n,
                    j <= n,
                    n == bodies@.len(),
                    w == world_view(bodies@),
                    bi == bodies@[i as int],
                    bi.massive,
                    forall|k: int|
                        0 <= k < bodies@.len() ==> v3_ok(
                            (#[trigger] world_view(bodies@)[k]).position,
                        ),
                    forall|b: int| 0 <= b < j as int ==> !#[trigger] degenerate_pair(w, i as int, b),
                decreases n - j,
            {
                if j != i {
                    let bj = bodies[j];
                    proof {
                        assert(bj@ == world_view(bodies@)[j as int]);
                        assert(bi@ == world_view(bodies@)[i as int]);
                    }
                    if bj.gravity_source {
                        let d2 = dist_sq_exec(&bj.position, &bi.position);
                        if d2 == 0 {
                            proof {
                                assert(degenerate_pair(w, i as int, j as int));
                            }
                            return Some((i, j));
                        }
                    }
                }
                j += 1;
            }
        }
        proof {
            assert forall|b: int| !#[trigger] degenerate_pair(w, i as int, b) by {
                if 0 <= b < n as int {
                    assert(w[i as int].massive == bi@.massive);
                }
            }
        }
        i += 1;
    }
    proof {
        assert forall|a: int, b: int| !#[trigger] degenerate_pair(w, a, b) by {}
    }
    None
}

/// The kinetics engine's error taxonomy: a source coincides with a
/// distinct massive body, so its pull on that body is not defined.
#[derive(Clone, Copy, PartialEq, Eq, Structural, Debug)]
pub enum KineticsError {
    DegenerateDistance,
}

/// One full simulation tick: the acceleration phase runs to completion
/// over the pre-tick positions, then the integration phase moves every
/// body.  A degenerate world is reported and left untouched.  The result
/// does not depend on `chunk_size`.
pub fn tick(bodies: &mut Vec<Body>, g: i64, dt: i64, chunk_size: usize) -> (r: Result<
    (),
    KineticsError,
>)
    requires
        world_wf(world_view(old(bodies)@)),
        0 <= g <= MAX_G,
        0 <= dt <= MAX_DT,
        chunk_size >= 1,
    ensures
        r is Err <==> has_degenerate_pair(world_view(old(bodies)@)),
        r is Err ==> r == Err::<(), KineticsError>(KineticsError::DegenerateDistance)
            && final(bodies)@ == old(bodies)@,
        r is Ok ==> world_view(final(bodies)@) =~= tick_model(
            world_view(old(bodies)@),
            g as int,
            dt as int,
        ),
{
    let ghost w0 = world_view(old(bodies)@);
    proof {
        assert forall|k: int| 0 <= k < bodies@.len() implies v3_ok(
            (#[trigger] world_view(bodies@)[k]).position,
        ) by {
            assert(body_wf(w0[k]));
        }
    }
    match find_degenerate(bodies) {
        Some(_) => Err(KineticsError::DegenerateDistance),
        None => {
            accelerate(bodies, g, dt, chunk_size);
            integrate(bodies, dt, chunk_size);
            Ok(())
        },
    }
}

/// The state gate around the engine: while the application is not in
/// `InSim` the world is left exactly as it is; in `InSim` one tick runs.
pub fn tick_gated(
    state: &AppState,
    bodies: &mut Vec<Body>,
    g: i64,
    dt: i64,
    chunk_size: usize,
) -> (r: Result<bool, KineticsError>)
    requires
        *state == AppState::InSim ==> world_wf(world_view(old(bodies)@)),
        0 <= g <= MAX_G,
        0 <= dt <= MAX_DT,
        chunk_size >= 1,
    ensures
        *state != AppState::InSim ==> r == Ok::<bool, KineticsError>(false) && final(bodies)@
            == old(bodies)@,
        *state == AppState::InSim ==> {
            &&& (r is Err <==> has_degenerate_pair(world_view(old(bodies)@)))
            &&& (r is Err ==> r == Err::<bool, KineticsError>(KineticsError::DegenerateDistance)
                && final(bodies)@ == old(bodies)@)
            &&& (r is Ok ==> r == Ok::<bool, KineticsError>(true) && world_view(final(bodies)@)
                =~= tick_model(world_view(old(bodies)@), g as int, dt as int))
        },
{
    if *state == AppState::InSim {
        match tick(bodies, g, dt, chunk_size) {
            Ok(()) => Ok(true),
            Err(e) => Err(e),
        }
    } else {
        Ok(false)
    }
}

/// The lifecycle signal: the moment the loading phase completes, the
/// engine's own state machine is moved into `InSim`.
pub fn begin_sim(state: &mut AppState)
    ensures
        *final(state) == AppState::InSim,
{
    *state = AppState::InSim;
}


} // verus!
