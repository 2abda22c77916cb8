//! The engine's global guarantees, each stated and proved over the same
//! specification functions the executable contracts are pinned to.

use vstd::prelude::*;
use crate::fx::{sdiv, iabs, fx_div_s, fx_mul_s, fx_sub_s, lemma_sdiv_mag,
    lemma_sdiv_remainder, lemma_sdiv_exact_multiple, lemma_cbrt_floor_pos, SCALE, PI_RAW};
use crate::vec2::{v2_zero_s, v2_sub_s};
use crate::galaxy::{SActor, create_suns_s, gen_suns_s, momentum_x_s, momentum_y_s, mass_sum_s,
    correct_one_s, spawned_bounds, lemma_gen_props, lemma_sums_bound, radius_s, v_afterwards_s,
    advance_iter_s, all_wf, lemma_advance_frame, lemma_advance_wf, SUN_MIN_MASS_RAW,
    SUN_MAX_MASS_RAW, SUN_MAX_STARTING_VELOCITY_RAW, SUN_DENSITY_RAW, TRACE_LEN, TRACE_EVERY};

verus! {

/// Subtracting the same bulk velocity from every body shifts each exact
/// momentum sum by that velocity times the total mass, and leaves the
/// total mass alone.
proof fn lemma_corrected_sums(g: Seq<SActor>, h: Seq<SActor>, cx: int, cy: int)
    requires
        h.len() == g.len(),
        forall|j: int| 0 <= j < g.len() ==> h[j] == correct_one_s(#[trigger] g[j], cx, cy),
        forall|j: int| 0 <= j < g.len() ==> spawned_bounds(#[trigger] g[j]),
        iabs(cx) <= SUN_MAX_STARTING_VELOCITY_RAW as int,
        iabs(cy) <= SUN_MAX_STARTING_VELOCITY_RAW as int,
    ensures
        momentum_x_s(h) == momentum_x_s(g) - cx * mass_sum_s(g),
        momentum_y_s(h) == momentum_y_s(g) - cy * mass_sum_s(g),
        mass_sum_s(h) == mass_sum_s(g),
    decreases g.len(),
{
    if g.len() == 0 {
        assert(cx * 0 == 0) by (nonlinear_arith);
        assert(cy * 0 == 0) by (nonlinear_arith);
    } else {
        let gp = g.drop_last();
        let hp = h.drop_last();
        assert(forall|j: int| 0 <= j < gp.len() ==> hp[j] == correct_one_s(#[trigger] gp[j], cx, cy));
        assert(forall|j: int| 0 <= j < gp.len() ==> spawned_bounds(#[trigger] gp[j]));
        lemma_corrected_sums(gp, hp, cx, cy);
        let a = g.last();
        assert(h.last() == correct_one_s(a, cx, cy));
        let m = a.mass;
        let vx = a.velocity.x;
        let vy = a.velocity.y;
        assert(spawned_bounds(a));
        assert(h.last().velocity.x == fx_sub_s(vx, cx) && fx_sub_s(vx, cx) == vx - cx);
        assert(h.last().velocity.y == fx_sub_s(vy, cy) && fx_sub_s(vy, cy) == vy - cy);
        assert(m * (vx - cx) == m * vx - cx * m && m * (vy - cy) == m * vy - cy * m)
            by (nonlinear_arith);
        assert(cx * (mass_sum_s(gp) + m) == cx * mass_sum_s(gp) + cx * m) by (nonlinear_arith);
        assert(cy * (mass_sum_s(gp) + m) == cy * mass_sum_s(gp) + cy * m) by (nonlinear_arith);
    }
}

/// Total momentum is (nearly) zero at spawn: right after `create_suns`,
/// each component of the exact total momentum is smaller in magnitude
/// than the total mass in raw units; since momentum carries a factor of
/// the scale, that is less than `total mass / SCALE` in world units, one
/// truncation step away from zero.
pub proof fn law_spawn_momentum_near_zero(s: u64, num: nat, galaxy_radius: int, shape: nat)
    requires
        num >= 1,
        0 <= galaxy_radius <= i64::MAX as int,
    ensures
        iabs(momentum_x_s(create_suns_s(s, num, galaxy_radius, shape))) < mass_sum_s(
            create_suns_s(s, num, galaxy_radius, shape),
        ),
        iabs(momentum_y_s(create_suns_s(s, num, galaxy_radius, shape))) < mass_sum_s(
            create_suns_s(s, num, galaxy_radius, shape),
        ),
{
    let g = gen_suns_s(s, 0, num, galaxy_radius, shape);
    let bodies = create_suns_s(s, num, galaxy_radius, shape);
    lemma_gen_props(s, 0, num, galaxy_radius, shape);
    lemma_sums_bound(g);
    let m = mass_sum_s(g);
    let px = momentum_x_s(g);
    let py = momentum_y_s(g);
    let cx = sdiv(px, m);
    let cy = sdiv(py, m);
    assert(num as int * SUN_MIN_MASS_RAW as int >= SUN_MIN_MASS_RAW as int) by (nonlinear_arith)
        requires
            num >= 1,
    ;
    lemma_sdiv_mag(px, m);
    lemma_sdiv_mag(py, m);
    vstd::arithmetic::div_mod::lemma_multiply_divide_le(
        iabs(px),
        m,
        SUN_MAX_STARTING_VELOCITY_RAW as int,
    );
    vstd::arithmetic::div_mod::lemma_multiply_divide_le(
        iabs(py),
        m,
        SUN_MAX_STARTING_VELOCITY_RAW as int,
    );
    assert(forall|j: int| 0 <= j < g.len() ==> bodies[j] == correct_one_s(#[trigger] g[j], cx, cy));
    lemma_corrected_sums(g, bodies, cx, cy);
    lemma_sdiv_remainder(px, m);
    lemma_sdiv_remainder(py, m);
}

/// The radius derived from any mass in the configured range is positive.
pub proof fn lemma_radius_pos(m: int)
    requires
        SUN_MIN_MASS_RAW as int <= m <= SUN_MAX_MASS_RAW as int,
    ensures
        radius_s(m) >= 1,
{
    let t1 = fx_div_s(m, SUN_DENSITY_RAW as int);
    lemma_sdiv_mag(m * SCALE as int, SUN_DENSITY_RAW as int);
    vstd::arithmetic::div_mod::lemma_div_is_ordered(
        300_000 * SCALE as int,
        m * SCALE as int,
        SUN_DENSITY_RAW as int,
    );
    vstd::arithmetic::div_mod::lemma_div_is_ordered(
        m * SCALE as int,
        60_000_000 * SCALE as int,
        SUN_DENSITY_RAW as int,
    );
    assert(t1 == sdiv(m * SCALE as int, SUN_DENSITY_RAW as int));
    assert(150_000_000 <= t1 <= 30_000_000_000_000);
    let t2 = fx_mul_s(t1, 750_000);
    lemma_sdiv_mag(t1 * 750_000, SCALE as int);
    assert(150_000_000 * 750_000 <= t1 * 750_000 <= 30_000_000_000_000 * 750_000)
        by (nonlinear_arith)
        requires
            150_000_000 <= t1 <= 30_000_000_000_000,
    ;
    vstd::arithmetic::div_mod::lemma_div_is_ordered(
        150_000_000int * 750_000,
        t1 * 750_000,
        SCALE as int,
    );
    vstd::arithmetic::div_mod::lemma_div_is_ordered(
        t1 * 750_000,
        30_000_000_000_000int * 750_000,
        SCALE as int,
    );
    assert(112_500_000 <= t2 <= 22_500_000_000_000);
    let t3 = fx_div_s(t2, PI_RAW as int);
    lemma_sdiv_mag(t2 * SCALE as int, PI_RAW as int);
    assert(112_500_000 * SCALE as int <= t2 * SCALE as int) by (nonlinear_arith)
        requires
            112_500_000 <= t2,
    ;
    assert(t2 * SCALE as int <= 22_500_000_000_000 * SCALE as int) by (nonlinear_arith)
        requires
            t2 <= 22_500_000_000_000,
    ;
    vstd::arithmetic::div_mod::lemma_div_is_ordered(
        112_500_000 * SCALE as int,
        t2 * SCALE as int,
        PI_RAW as int,
    );
    vstd::arithmetic::div_mod::lemma_div_is_ordered(
        t2 * SCALE as int,
        22_500_000_000_000 * SCALE as int,
        PI_RAW as int,
    );
    assert(1 <= t3 <= i64::MAX as int);
    lemma_cbrt_floor_pos(t3 * SCALE as int * SCALE as int);
}

/// Mass and radius positivity: every body `create_suns` returns has a
/// mass at least the configured minimum and a strictly positive radius,
/// and the radius is derived from the mass by the fixed density law.
pub proof fn law_spawn_mass_radius_positive(s: u64, num: nat, galaxy_radius: int, shape: nat)
    requires
        0 <= galaxy_radius <= i64::MAX as int,
    ensures
        forall|j: int|
            0 <= j < create_suns_s(s, num, galaxy_radius, shape).len() ==> {
                let a = #[trigger] create_suns_s(s, num, galaxy_radius, shape)[j];
                a.mass >= SUN_MIN_MASS_RAW as int && a.mass > 0 && a.radius >= 1 && a.radius > 0
                    && a.radius == radius_s(a.mass)
            },
{
    let g = gen_suns_s(s, 0, num, galaxy_radius, shape);
    let bodies = create_suns_s(s, num, galaxy_radius, shape);
    lemma_gen_props(s, 0, num, galaxy_radius, shape);
    assert forall|j: int| 0 <= j < bodies.len() implies {
        let a = #[trigger] bodies[j];
        a.mass >= SUN_MIN_MASS_RAW as int && a.mass > 0 && a.radius >= 1 && a.radius > 0
            && a.radius == radius_s(a.mass)
    } by {
        assert(bodies[j] == correct_one_s(g[j], sdiv(momentum_x_s(g), mass_sum_s(g)), sdiv(momentum_y_s(g), mass_sum_s(g))));
        assert(spawned_bounds(g[j]));
        lemma_radius_pos(g[j].mass);
    }
}

/// No two bodies share an identifier: the factory assigns them in spawn
/// order, and a tick never changes them (see [`lemma_advance_frame`]).
pub proof fn law_spawn_ids_unique(s: u64, num: nat, galaxy_radius: int, shape: nat)
    requires
        0 <= galaxy_radius <= i64::MAX as int,
    ensures
        forall|j: int|
            0 <= j < create_suns_s(s, num, galaxy_radius, shape).len()
                ==> (#[trigger] create_suns_s(s, num, galaxy_radius, shape)[j]).id == j,
{
    let g = gen_suns_s(s, 0, num, galaxy_radius, shape);
    let bodies = create_suns_s(s, num, galaxy_radius, shape);
    lemma_gen_props(s, 0, num, galaxy_radius, shape);
    assert forall|j: int| 0 <= j < bodies.len() implies (#[trigger] bodies[j]).id == j by {
        assert(bodies[j] == correct_one_s(
            g[j],
            sdiv(momentum_x_s(g), mass_sum_s(g)),
            sdiv(momentum_y_s(g), mass_sum_s(g)),
        ));
    }
}

/// Freshly created bodies have empty traces and counters at zero: the
/// starting point of the trace-growth law.
pub proof fn law_spawn_fresh_traces(s: u64, num: nat, galaxy_radius: int, shape: nat)
    requires
        0 <= galaxy_radius <= i64::MAX as int,
    ensures
        forall|j: int|
            0 <= j < create_suns_s(s, num, galaxy_radius, shape).len() ==> {
                let a = #[trigger] create_suns_s(s, num, galaxy_radius, shape)[j];
                a.trace.len() == 0 && a.trace_cnt == 0
            },
{
    let g = gen_suns_s(s, 0, num, galaxy_radius, shape);
    let bodies = create_suns_s(s, num, galaxy_radius, shape);
    lemma_gen_props(s, 0, num, galaxy_radius, shape);
    assert forall|j: int| 0 <= j < bodies.len() implies {
        let a = #[trigger] bodies[j];
        a.trace.len() == 0 && a.trace_cnt == 0
    } by {
        assert(bodies[j] == correct_one_s(
            g[j],
            sdiv(momentum_x_s(g), mass_sum_s(g)),
            sdiv(momentum_y_s(g), mass_sum_s(g)),
        ));
    }
}

/// A single body ends at rest: with one body the bulk velocity is the
/// body's own velocity, the subtraction is exact, and the corrected
/// velocity is exactly the zero vector.
pub proof fn law_single_body_at_rest(s: u64, galaxy_radius: int, shape: nat)
    requires
        0 <= galaxy_radius <= i64::MAX as int,
    ensures
        create_suns_s(s, 1, galaxy_radius, shape).len() == 1,
        create_suns_s(s, 1, galaxy_radius, shape)[0].velocity == v2_zero_s(),
{
    let g = gen_suns_s(s, 0, 1, galaxy_radius, shape);
    let bodies = create_suns_s(s, 1, galaxy_radius, shape);
    lemma_gen_props(s, 0, 1, galaxy_radius, shape);
    let a = g[0];
    assert(g.drop_last().len() == 0);
    assert(momentum_x_s(g.drop_last()) == 0);
    assert(momentum_y_s(g.drop_last()) == 0);
    assert(mass_sum_s(g.drop_last()) == 0);
    assert(g.last() == g[0]);
    assert(momentum_x_s(g) == a.mass * a.velocity.x);
    assert(momentum_y_s(g) == a.mass * a.velocity.y);
    assert(mass_sum_s(g) == a.mass);
    assert(spawned_bounds(a));
    lemma_sdiv_exact_multiple(a.mass, a.velocity.x);
    lemma_sdiv_exact_multiple(a.mass, a.velocity.y);
    assert(bodies[0] == correct_one_s(a, a.velocity.x, a.velocity.y));
    assert(bodies[0].velocity =~= v2_zero_s());
}

/// The exact general core of the axial collision scenarios: two bodies
/// sitting on one horizontal line and moving along it keep all motion on
/// that line through an elastic collision, whatever their masses and
/// speeds. The full-momentum-transfer values of the equal-mass scenarios
/// are checked, exactly, by the collision tests.
pub proof fn law_collision_stays_on_axis(a: SActor, b: SActor)
    requires
        a.pos.y == b.pos.y,
        a.velocity.y == 0,
        b.velocity.y == 0,
    ensures
        v_afterwards_s(a, b).y == 0,
        v_afterwards_s(b, a).y == 0,
{
    assert(fx_sub_s(a.pos.y, b.pos.y) == 0);
    let pd = v2_sub_s(a.pos, b.pos);
    let pd2 = v2_sub_s(b.pos, a.pos);
    assert(pd.y == 0 && pd2.y == 0);
    let fab = fx_div_s(
        fx_mul_s(
            fx_div_s(fx_mul_s(2 * SCALE as int, b.mass), crate::fx::fx_add_s(a.mass, b.mass)),
            crate::vec2::v2_dot_s(v2_sub_s(a.velocity, b.velocity), pd),
        ),
        crate::vec2::v2_norm_sq_s(pd),
    );
    assert(0 * fab == 0) by (nonlinear_arith);
    assert(fx_mul_s(0, fab) == 0);
    let fba = fx_div_s(
        fx_mul_s(
            fx_div_s(fx_mul_s(2 * SCALE as int, a.mass), crate::fx::fx_add_s(b.mass, a.mass)),
            crate::vec2::v2_dot_s(v2_sub_s(b.velocity, a.velocity), pd2),
        ),
        crate::vec2::v2_norm_sq_s(pd2),
    );
    assert(0 * fba == 0) by (nonlinear_arith);
    assert(fx_mul_s(0, fba) == 0);
}

/// Trace growth and eviction: starting from fresh bodies (empty traces,
/// counters at zero), after `t` ticks every trace holds exactly one entry
/// per full sampling interval, capped at the capacity — so after
/// `TRACE_LEN * TRACE_EVERY` ticks it holds exactly `TRACE_LEN` entries,
/// and it never exceeds the capacity.
pub proof fn law_trace_growth(s: Seq<SActor>, dt: int, t: nat)
    requires
        forall|k: int|
            0 <= k < s.len() ==> (#[trigger] s[k]).trace.len() == 0 && s[k].trace_cnt == 0,
    ensures
        advance_iter_s(s, dt, t).len() == s.len(),
        forall|k: int|
            0 <= k < s.len() ==> {
                let b = #[trigger] advance_iter_s(s, dt, t)[k];
                b.trace_cnt == t as int % (TRACE_EVERY as int) && b.trace.len() == (if t as int
                    / (TRACE_EVERY as int) < TRACE_LEN as int {
                    t as int / (TRACE_EVERY as int)
                } else {
                    TRACE_LEN as int
                })
            },
    decreases t,
{
    if t == 0 {
        assert(0int % (TRACE_EVERY as int) == 0);
        assert(0int / (TRACE_EVERY as int) == 0);
    } else {
        law_trace_growth(s, dt, (t - 1) as nat);
        let prev = advance_iter_s(s, dt, (t - 1) as nat);
        lemma_advance_frame(prev, dt);
        let tt = t as int;
        vstd::arithmetic::div_mod::lemma_fundamental_div_mod(tt - 1, TRACE_EVERY as int);
        vstd::arithmetic::div_mod::lemma_fundamental_div_mod(tt, TRACE_EVERY as int);
        assert forall|k: int| 0 <= k < s.len() implies {
            let b = #[trigger] advance_iter_s(s, dt, t)[k];
            b.trace_cnt == tt % (TRACE_EVERY as int) && b.trace.len() == (if tt / (
            TRACE_EVERY as int) < TRACE_LEN as int {
                tt / (TRACE_EVERY as int)
            } else {
                TRACE_LEN as int
            })
        } by {
            let a = prev[k];
            let b = advance_iter_s(s, dt, t)[k];
            if a.trace_cnt + 1 == TRACE_EVERY as int {
                assert((tt - 1) % (TRACE_EVERY as int) == TRACE_EVERY as int - 1);
                assert(tt % (TRACE_EVERY as int) == 0) by {
                    vstd::arithmetic::div_mod::lemma_mod_add_multiples_vanish(
                        tt - TRACE_EVERY as int,
                        TRACE_EVERY as int,
                    );
                };
                assert(tt / (TRACE_EVERY as int) == (tt - 1) / (TRACE_EVERY as int) + 1) by {
                    vstd::arithmetic::div_mod::lemma_hoist_over_denominator(
                        tt - 1,
                        1,
                        TRACE_EVERY as nat,
                    );
                };
            } else {
                assert(tt % (TRACE_EVERY as int) == (tt - 1) % (TRACE_EVERY as int) + 1) by {
                    vstd::arithmetic::div_mod::lemma_mod_add_multiples_vanish(
                        tt - TRACE_EVERY as int,
                        TRACE_EVERY as int,
                    );
                };
                assert(tt / (TRACE_EVERY as int) == (tt - 1) / (TRACE_EVERY as int));
            }
        }
    }
}

/// Determinism: a run is a pure function of the seed, the body count, the
/// spawn radius, the shaping exponent, the timestep and the tick count.
/// The executable engine is pinned to exactly these functions by its
/// contracts, so two runs with equal inputs go through identical states.
pub proof fn law_run_deterministic(
    s1: u64,
    s2: u64,
    num: nat,
    galaxy_radius: int,
    shape: nat,
    dt: int,
    ticks: nat,
)
    requires
        s1 == s2,
    ensures
        advance_iter_s(create_suns_s(s1, num, galaxy_radius, shape), dt, ticks) == advance_iter_s(
            create_suns_s(s2, num, galaxy_radius, shape),
            dt,
            ticks,
        ),
{
}

/// A whole run keeps every body well formed: the trace never exceeds its
/// capacity at any tick.
pub proof fn law_run_wf(s: Seq<SActor>, dt: int, ticks: nat)
    requires
        all_wf(s),
    ensures
        all_wf(advance_iter_s(s, dt, ticks)),
    decreases ticks,
{
    if ticks > 0 {
        law_run_wf(s, dt, (ticks - 1) as nat);
        lemma_advance_wf(advance_iter_s(s, dt, (ticks - 1) as nat), dt);
    }
}

} // verus!
