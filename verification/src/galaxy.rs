//! The simulation engine: body generation, the per-tick force and
//! integration step, elastic collision resolution, and the bounded
//! position-trace buffer.
//!
//! Every executable function is pinned to an exact specification
//! function of its inputs, so a whole run is reproducible: the same
//! seed, body count and tick count give bit-identical states.

use vstd::prelude::*;
use std::collections::VecDeque;
use itertools::Itertools;
use crate::fx::{Fx, SCALE, PI_RAW, TWO_PI_RAW, sdiv, iabs, fx_add_s, fx_sub_s, fx_mul_s,
    fx_div_s, fx_cbrt_s, fx_pow_s, sin_s, cos_s, sin_fx, cos_fx, mul_wide, div_trunc,
    lemma_fx_mul_unit_bound, lemma_fx_mul_signed_bound, lemma_sdiv_mag};
use crate::rng::{SimRng, rng_step_s, rng_step_n, rng_unit_s};
use crate::vec2::{V2, Sv2, v2_add_s, v2_sub_s, v2_neg_s, v2_scale_s, v2_div_scalar_s,
    v2_dot_s, v2_norm_sq_s, v2_normalize_s, v2_from_points_s, vec_from_points};

verus! {

// Star classes, by mass threshold (solar masses, fixed point).
pub const CLASS_O_RAW: i64 = 60_000_000;

pub const CLASS_B_RAW: i64 = 18_000_000;

pub const CLASS_A_RAW: i64 = 3_200_000;

pub const CLASS_F_RAW: i64 = 1_700_000;

pub const CLASS_G_RAW: i64 = 1_100_000;

pub const CLASS_K_RAW: i64 = 800_000;

pub const CLASS_M_RAW: i64 = 300_000;

/// The gravitational constant of the pairwise attraction.
pub const GRAV_RAW: i64 = 1_000_000_000;

/// The much smaller constant of the weak centering pull toward the origin.
pub const DARK_GRAV_RAW: i64 = 100;

/// Largest speed a body can be spawned with.
pub const SUN_MAX_STARTING_VELOCITY_RAW: i64 = 100_000_000;

/// Smallest mass the factory draws.
pub const SUN_MIN_MASS_RAW: i64 = CLASS_M_RAW;

/// Largest mass the factory draws.
pub const SUN_MAX_MASS_RAW: i64 = CLASS_O_RAW;

/// Density used to derive a body's radius from its mass (higher density,
/// smaller radius).
pub const SUN_DENSITY_RAW: i64 = 2_000;

/// Capacity of the position-trace buffer.
pub const TRACE_LEN: usize = 600;

/// A position is recorded in the trace once per this many ticks.
pub const TRACE_EVERY: u32 = 10;

/// A simulated body: a point mass with a position, a velocity, a
/// mass-derived radius and color, and a bounded trace of past positions
/// (newest first) kept for rendering.
#[derive(Clone, Debug)]
pub struct Actor {
    pub id: u32,
    pub pos: V2,
    pub trace: VecDeque<V2>,
    pub trace_cnt: u32,
    pub radius: Fx,
    pub velocity: V2,
    pub new_velocity: V2,
    pub mass: Fx,
    pub color: u32,
}

/// The mathematical image of an [`Actor`]: every field as unbounded
/// integers over raw fixed-point units.
#[verifier::ext_equal]
pub struct SActor {
    pub id: int,
    pub pos: Sv2,
    pub trace: Seq<Sv2>,
    pub trace_cnt: int,
    pub radius: int,
    pub velocity: Sv2,
    pub new_velocity: Sv2,
    pub mass: int,
    pub color: int,
}

impl View for Actor {
    type V = SActor;

    open spec fn view(&self) -> SActor {
        SActor {
            id: self.id as int,
            pos: self.pos@,
            trace: self.trace@.map_values(|p: V2| p@),
            trace_cnt: self.trace_cnt as int,
            radius: self.radius@,
            velocity: self.velocity@,
            new_velocity: self.new_velocity@,
            mass: self.mass@,
            color: self.color as int,
        }
    }
}

/// The mathematical image of a whole body set.
pub open spec fn views(s: Seq<Actor>) -> Seq<SActor> {
    s.map_values(|a: Actor| a@)
}

/// The trace bookkeeping every body maintains: the tick counter stays
/// below the sampling interval and the trace within its capacity.
pub open spec fn actor_wf(a: SActor) -> bool {
    &&& 0 <= a.trace_cnt < TRACE_EVERY as int
    &&& a.trace.len() <= TRACE_LEN as int
}

/// All bodies of a set are well formed.
pub open spec fn all_wf(s: Seq<SActor>) -> bool {
    forall|k: int| 0 <= k < s.len() ==> actor_wf(#[trigger] s[k])
}

/// The color of a body of the given mass: a fixed piecewise table of
/// spectral-class-inspired thresholds.
pub open spec fn color_s(mass: int) -> int {
    if mass < CLASS_M_RAW as int {
        0xfbc8_86ff
    } else if mass < CLASS_K_RAW as int {
        0xffd8_70ff
    } else if mass < CLASS_G_RAW as int {
        0xfdf9_b3ff
    } else if mass < CLASS_F_RAW as int {
        0xf9fa_e7ff
    } else if mass < CLASS_A_RAW as int {
        0xdadd_e6ff
    } else if mass < CLASS_B_RAW as int {
        0xaabf_ffff
    } else if mass < CLASS_O_RAW as int {
        0x9bb0_ffff
    } else {
        0xffff_ffff
    }
}

/// The color of a body of the given mass.
pub fn color_from_mass(mass: Fx) -> (r: u32)
    ensures
        r as int == color_s(mass@),
{
    if mass.raw < CLASS_M_RAW {
        0xfbc8_86ff
    } else if mass.raw < CLASS_K_RAW {
        0xffd8_70ff
    } else if mass.raw < CLASS_G_RAW {
        0xfdf9_b3ff
    } else if mass.raw < CLASS_F_RAW {
        0xf9fa_e7ff
    } else if mass.raw < CLASS_A_RAW {
        0xdadd_e6ff
    } else if mass.raw < CLASS_B_RAW {
        0xaabf_ffff
    } else if mass.raw < CLASS_O_RAW {
        0x9bb0_ffff
    } else {
        0xffff_ffff
    }
}

/// The radius of a body of the given mass, treating the mass as the
/// volume of a sphere of the fixed density: `cbrt(m / density * 3/4 / pi)`.
pub open spec fn radius_s(mass: int) -> int {
    fx_cbrt_s(fx_div_s(fx_mul_s(fx_div_s(mass, SUN_DENSITY_RAW as int), 750_000), PI_RAW as int))
}

/// The radius of a body of the given mass.
pub fn radius_from_mass(mass: Fx) -> (r: Fx)
    ensures
        r@ == radius_s(mass@),
{
    mass.fx_div(Fx { raw: SUN_DENSITY_RAW }).fx_mul(Fx { raw: 750_000 }).fx_div(
        Fx { raw: PI_RAW },
    ).fx_cbrt()
}

/// The unit vector at the given angle (clockwise from the y axis).
pub open spec fn vec_from_angle_s(angle: int) -> Sv2 {
    Sv2 { x: sin_s(angle), y: cos_s(angle) }
}

/// The unit vector at the given angle (clockwise from the y axis).
pub fn vec_from_angle(angle: Fx) -> (r: V2)
    requires
        0 <= angle@ <= TWO_PI_RAW as int,
    ensures
        r@ == vec_from_angle_s(angle@),
        -(SCALE as int) <= r@.x <= SCALE as int,
        -(SCALE as int) <= r@.y <= SCALE as int,
{
    V2 { x: sin_fx(angle), y: cos_fx(angle) }
}

/// The vector two draws from state `s` yield: a uniformly drawn angle,
/// and a magnitude drawn up to `max` (so magnitudes, not area, are
/// uniform: the distribution is biased toward the center by design).
pub open spec fn random_vec_s(s: u64, max: int) -> Sv2 {
    let angle = fx_mul_s(rng_unit_s(s), TWO_PI_RAW as int);
    let mag = fx_mul_s(rng_unit_s(rng_step_s(s)), max);
    v2_scale_s(vec_from_angle_s(angle), mag)
}

/// A random vector with magnitude below `max_magnitude`: a uniform angle,
/// then an independent magnitude draw.
pub fn random_vec(rng: &mut SimRng, max_magnitude: Fx) -> (r: V2)
    requires
        max_magnitude@ >= 0,
    ensures
        final(rng).state == rng_step_s(rng_step_s(old(rng).state)),
        r@ == random_vec_s(old(rng).state, max_magnitude@),
        -max_magnitude@ <= r@.x <= max_magnitude@,
        -max_magnitude@ <= r@.y <= max_magnitude@,
{
    let u1 = rng.next_unit();
    let u2 = rng.next_unit();
    proof {
        lemma_fx_mul_unit_bound(u1@, TWO_PI_RAW as int);
        lemma_fx_mul_unit_bound(u2@, max_magnitude@);
    }
    let angle = u1.fx_mul(Fx { raw: TWO_PI_RAW });
    let mag = u2.fx_mul(max_magnitude);
    let dir = vec_from_angle(angle);
    proof {
        lemma_fx_mul_signed_bound(dir@.x, mag@);
        lemma_fx_mul_signed_bound(dir@.y, mag@);
    }
    dir.scale(mag)
}

/// The velocity of `this` after an elastic collision with `that`:
/// the standard two-body law
/// `v' = v - (2 m_that / (m_this + m_that))
///        * ((v_this - v_that) . (p_this - p_that)) / |p_this - p_that|^2
///        * (p_this - p_that)`,
/// evaluated in fixed point. Coincident positions make the divisor zero,
/// which fixed-point division defines as zero: such a pair passes through
/// unchanged instead of propagating a float NaN.
pub open spec fn v_afterwards_s(this: SActor, that: SActor) -> Sv2 {
    let pd = v2_sub_s(this.pos, that.pos);
    let vd = v2_sub_s(this.velocity, that.velocity);
    let ratio = fx_div_s(fx_mul_s(2 * SCALE as int, that.mass), fx_add_s(this.mass, that.mass));
    let f = fx_div_s(fx_mul_s(ratio, v2_dot_s(vd, pd)), v2_norm_sq_s(pd));
    v2_sub_s(this.velocity, v2_scale_s(pd, f))
}

/// Resolve an elastic collision: the returned pair holds the two bodies'
/// new velocities; nothing is mutated. Momentum and kinetic energy are
/// conserved up to fixed-point rounding.
pub fn elastic_collision(a1: &Actor, a2: &Actor) -> (r: (V2, V2))
    ensures
        r.0@ == v_afterwards_s(a1@, a2@),
        r.1@ == v_afterwards_s(a2@, a1@),
{
    (v_afterwards(a1, a2), v_afterwards(a2, a1))
}

fn v_afterwards(this: &Actor, that: &Actor) -> (r: V2)
    ensures
        r@ == v_afterwards_s(this@, that@),
{
    let pd = this.pos.sub(that.pos);
    let vd = this.velocity.sub(that.velocity);
    let ratio = Fx { raw: 2 * SCALE }.fx_mul(that.mass).fx_div(this.mass.fx_add(that.mass));
    let f = ratio.fx_mul(vd.dot(pd)).fx_div(pd.norm_sq());
    this.velocity.sub(pd.scale(f))
}

/// The mass one unit draw yields: the configured minimum plus the draw,
/// raised to the shaping exponent (1 leaves the draw uniform; larger
/// exponents bias toward light bodies), scaled over the configured range.
pub open spec fn mass_s(s: u64, shape: nat) -> int {
    fx_add_s(
        SUN_MIN_MASS_RAW as int,
        fx_mul_s(
            fx_pow_s(rng_unit_s(s), shape),
            SUN_MAX_MASS_RAW as int - SUN_MIN_MASS_RAW as int,
        ),
    )
}

pub proof fn lemma_mass_bounds(s: u64, shape: nat)
    ensures
        SUN_MIN_MASS_RAW as int <= mass_s(s, shape) <= SUN_MAX_MASS_RAW as int,
{
    crate::fx::lemma_fx_pow_unit(rng_unit_s(s), shape);
    lemma_fx_mul_unit_bound(
        fx_pow_s(rng_unit_s(s), shape),
        SUN_MAX_MASS_RAW as int - SUN_MIN_MASS_RAW as int,
    );
}

/// The body five draws from state `s` yield: one draw shapes the mass,
/// two the position within the spawn disk, two the starting velocity.
/// Identifiers are assigned in spawn order, so they are unique.
#[verifier::opaque]
pub open spec fn new_sun_s(s: u64, idx: int, galaxy_radius: int, shape: nat) -> SActor {
    let m = mass_s(s, shape);
    let s1 = rng_step_s(s);
    let pos = random_vec_s(s1, galaxy_radius);
    let s3 = rng_step_s(rng_step_s(s1));
    let vel = random_vec_s(s3, SUN_MAX_STARTING_VELOCITY_RAW as int);
    SActor {
        id: idx,
        pos,
        trace: Seq::empty(),
        trace_cnt: 0,
        radius: radius_s(m),
        velocity: vel,
        new_velocity: vel,
        mass: m,
        color: color_s(m),
    }
}

/// Componentwise bounds every freshly spawned body satisfies.
pub open spec fn spawned_bounds(a: SActor) -> bool {
    &&& SUN_MIN_MASS_RAW as int <= a.mass <= SUN_MAX_MASS_RAW as int
    &&& iabs(a.velocity.x) <= SUN_MAX_STARTING_VELOCITY_RAW as int
    &&& iabs(a.velocity.y) <= SUN_MAX_STARTING_VELOCITY_RAW as int
}

pub proof fn lemma_random_vec_bounds(s: u64, max: int)
    requires
        0 <= max <= i64::MAX as int,
    ensures
        iabs(random_vec_s(s, max).x) <= max,
        iabs(random_vec_s(s, max).y) <= max,
{
    let angle = fx_mul_s(rng_unit_s(s), TWO_PI_RAW as int);
    let mag = fx_mul_s(rng_unit_s(rng_step_s(s)), max);
    lemma_fx_mul_unit_bound(rng_unit_s(rng_step_s(s)), max);
    lemma_fx_mul_signed_bound(sin_s(angle), mag);
    lemma_fx_mul_signed_bound(cos_s(angle), mag);
}

pub proof fn lemma_new_sun_props(s: u64, idx: int, galaxy_radius: int, shape: nat)
    requires
        0 <= galaxy_radius <= i64::MAX as int,
    ensures
        spawned_bounds(new_sun_s(s, idx, galaxy_radius, shape)),
        actor_wf(new_sun_s(s, idx, galaxy_radius, shape)),
        new_sun_s(s, idx, galaxy_radius, shape).new_velocity == new_sun_s(
            s,
            idx,
            galaxy_radius,
            shape,
        ).velocity,
        new_sun_s(s, idx, galaxy_radius, shape).id == idx,
        new_sun_s(s, idx, galaxy_radius, shape).radius == radius_s(
            new_sun_s(s, idx, galaxy_radius, shape).mass,
        ),
        new_sun_s(s, idx, galaxy_radius, shape).trace.len() == 0,
        new_sun_s(s, idx, galaxy_radius, shape).trace_cnt == 0,
{
    reveal(new_sun_s);
    lemma_mass_bounds(s, shape);
    let s1 = rng_step_s(s);
    let s3 = rng_step_s(rng_step_s(s1));
    lemma_random_vec_bounds(s3, SUN_MAX_STARTING_VELOCITY_RAW as int);
}

/// The sequence of bodies spawned from state `s`: identifiers count up
/// from `next_id`, and each body consumes five draws.
pub open spec fn gen_suns_s(s: u64, next_id: int, count: nat, galaxy_radius: int, shape: nat) -> Seq<
    SActor,
>
    decreases count,
{
    if count == 0 {
        Seq::empty()
    } else {
        seq![new_sun_s(s, next_id, galaxy_radius, shape)] + gen_suns_s(
            rng_step_n(s, 5),
            next_id + 1,
            (count - 1) as nat,
            galaxy_radius,
            shape,
        )
    }
}

/// Spawning one more body appends it to the sequence.
#[verifier::rlimit(60)]
pub proof fn lemma_gen_snoc(s: u64, next_id: int, count: nat, galaxy_radius: int, shape: nat)
    requires
        count >= 1,
    ensures
        gen_suns_s(s, next_id, count, galaxy_radius, shape) == gen_suns_s(
            s,
            next_id,
            (count - 1) as nat,
            galaxy_radius,
            shape,
        ).push(
            new_sun_s(
                rng_step_n(s, 5 * (count - 1) as nat),
                next_id + count - 1,
                galaxy_radius,
                shape,
            ),
        ),
    decreases count,
{
    if count == 1 {
        assert(gen_suns_s(rng_step_n(s, 5), next_id + 1, 0, galaxy_radius, shape) =~= Seq::<
            SActor,
        >::empty());
        assert(gen_suns_s(s, next_id, 0, galaxy_radius, shape) =~= Seq::<SActor>::empty());
        assert(rng_step_n(s, 0) == s);
        assert(gen_suns_s(s, next_id, 1, galaxy_radius, shape) =~= gen_suns_s(
            s,
            next_id,
            0,
            galaxy_radius,
            shape,
        ).push(new_sun_s(s, next_id, galaxy_radius, shape)));
    } else {
        let s5 = rng_step_n(s, 5);
        lemma_gen_snoc(s5, next_id + 1, (count - 1) as nat, galaxy_radius, shape);
        crate::rng::lemma_rng_step_n_add(s, 5, 5 * (count - 2) as nat);
        assert(5 + 5 * (count - 2) as nat == 5 * (count - 1) as nat);
        assert(gen_suns_s(s, next_id, count, galaxy_radius, shape) =~= gen_suns_s(
            s,
            next_id,
            (count - 1) as nat,
            galaxy_radius,
            shape,
        ).push(
            new_sun_s(
                rng_step_n(s, 5 * (count - 1) as nat),
                next_id + count - 1,
                galaxy_radius,
                shape,
            ),
        ));
    }
}

/// Every spawned body is well formed and bounded, its pending velocity
/// starts equal to its velocity, and identifiers count up from `next_id`.
pub proof fn lemma_gen_props(s: u64, next_id: int, count: nat, galaxy_radius: int, shape: nat)
    requires
        0 <= galaxy_radius <= i64::MAX as int,
    ensures
        gen_suns_s(s, next_id, count, galaxy_radius, shape).len() == count,
        forall|j: int|
            0 <= j < count ==> {
                let a = #[trigger] gen_suns_s(s, next_id, count, galaxy_radius, shape)[j];
                spawned_bounds(a) && actor_wf(a) && a.new_velocity == a.velocity && a.id == next_id
                    + j && a.radius == radius_s(a.mass) && a.trace.len() == 0 && a.trace_cnt == 0
            },
    decreases count,
{
    if count > 0 {
        lemma_new_sun_props(s, next_id, galaxy_radius, shape);
        lemma_gen_props(rng_step_n(s, 5), next_id + 1, (count - 1) as nat, galaxy_radius, shape);
    }
}

/// The horizontal total momentum of a body set, exactly (in raw units of
/// the squared scale).
pub open spec fn momentum_x_s(s: Seq<SActor>) -> int
    decreases s.len(),
{
    if s.len() == 0 {
        0
    } else {
        momentum_x_s(s.drop_last()) + s.last().mass * s.last().velocity.x
    }
}

/// The vertical total momentum of a body set, exactly.
pub open spec fn momentum_y_s(s: Seq<SActor>) -> int
    decreases s.len(),
{
    if s.len() == 0 {
        0
    } else {
        momentum_y_s(s.drop_last()) + s.last().mass * s.last().velocity.y
    }
}

/// The total mass of a body set, exactly.
pub open spec fn mass_sum_s(s: Seq<SActor>) -> int
    decreases s.len(),
{
    if s.len() == 0 {
        0
    } else {
        mass_sum_s(s.drop_last()) + s.last().mass
    }
}

/// Bounds on the exact sums of a set of spawned bodies: total mass grows
/// within the configured mass range, and each momentum component is at
/// most the total mass times the largest starting speed.
pub proof fn lemma_sums_bound(s: Seq<SActor>)
    requires
        forall|j: int| 0 <= j < s.len() ==> spawned_bounds(#[trigger] s[j]),
    ensures
        s.len() * SUN_MIN_MASS_RAW as int <= mass_sum_s(s) <= s.len() * SUN_MAX_MASS_RAW as int,
        iabs(momentum_x_s(s)) <= mass_sum_s(s) * SUN_MAX_STARTING_VELOCITY_RAW as int,
        iabs(momentum_y_s(s)) <= mass_sum_s(s) * SUN_MAX_STARTING_VELOCITY_RAW as int,
    decreases s.len(),
{
    if s.len() > 0 {
        let pre = s.drop_last();
        let a = s.last();
        assert(forall|j: int| 0 <= j < pre.len() ==> spawned_bounds(#[trigger] pre[j]));
        lemma_sums_bound(pre);
        assert(iabs(a.mass * a.velocity.x) <= a.mass * SUN_MAX_STARTING_VELOCITY_RAW as int
            && iabs(a.mass * a.velocity.y) <= a.mass * SUN_MAX_STARTING_VELOCITY_RAW as int)
            by (nonlinear_arith)
            requires
                a.mass >= 0,
                iabs(a.velocity.x) <= SUN_MAX_STARTING_VELOCITY_RAW as int,
                iabs(a.velocity.y) <= SUN_MAX_STARTING_VELOCITY_RAW as int,
        ;
        assert((mass_sum_s(pre) + a.mass) * SUN_MAX_STARTING_VELOCITY_RAW as int == mass_sum_s(pre)
            * SUN_MAX_STARTING_VELOCITY_RAW as int + a.mass
            * SUN_MAX_STARTING_VELOCITY_RAW as int) by (nonlinear_arith);
        assert((s.len() - 1) * SUN_MIN_MASS_RAW as int + SUN_MIN_MASS_RAW as int == s.len()
            * SUN_MIN_MASS_RAW as int) by (nonlinear_arith);
        assert((s.len() - 1) * SUN_MAX_MASS_RAW as int + SUN_MAX_MASS_RAW as int == s.len()
            * SUN_MAX_MASS_RAW as int) by (nonlinear_arith);
    }
}

/// A body with the bulk velocity `(cx, cy)` subtracted, so that the whole
/// set's center of mass is brought to rest.
pub open spec fn correct_one_s(a: SActor, cx: int, cy: int) -> SActor {
    let v = Sv2 { x: fx_sub_s(a.velocity.x, cx), y: fx_sub_s(a.velocity.y, cy) };
    SActor {
        id: a.id,
        pos: a.pos,
        trace: a.trace,
        trace_cnt: a.trace_cnt,
        radius: a.radius,
        velocity: v,
        new_velocity: v,
        mass: a.mass,
        color: a.color,
    }
}

/// The body set `create_suns` returns: the spawned bodies, each with the
/// bulk velocity (total momentum over total mass, truncated) subtracted,
/// so total momentum is within one rounding step of zero.
pub open spec fn create_suns_s(s: u64, num: nat, galaxy_radius: int, shape: nat) -> Seq<SActor> {
    let g = gen_suns_s(s, 0, num, galaxy_radius, shape);
    let cx = sdiv(momentum_x_s(g), mass_sum_s(g));
    let cy = sdiv(momentum_y_s(g), mass_sum_s(g));
    g.map_values(|a: SActor| correct_one_s(a, cx, cy))
}

#[verifier::rlimit(60)]
fn new_sun(rng: &mut SimRng, idx: u32, galaxy_radius: Fx, mass_shape: u32) -> (r: Actor)
    requires
        galaxy_radius@ >= 0,
    ensures
        r@ == new_sun_s(old(rng).state, idx as int, galaxy_radius@, mass_shape as nat),
        final(rng).state == rng_step_n(old(rng).state, 5),
{
    let u = rng.next_unit();
    let m = Fx { raw: SUN_MIN_MASS_RAW }.fx_add(
        u.fx_pow(mass_shape).fx_mul(Fx { raw: SUN_MAX_MASS_RAW - SUN_MIN_MASS_RAW }),
    );
    let pos = random_vec(rng, galaxy_radius);
    let vel = random_vec(rng, Fx { raw: SUN_MAX_STARTING_VELOCITY_RAW });
    let radius = radius_from_mass(m);
    let color = color_from_mass(m);
    let a = Actor {
        id: idx,
        pos,
        trace: VecDeque::with_capacity(TRACE_LEN),
        trace_cnt: 0,
        radius,
        velocity: vel,
        new_velocity: vel,
        mass: m,
        color,
    };
    proof {
        reveal_with_fuel(rng_step_n, 6);
        let s0 = old(rng).state;
        assert(a@.mass == mass_s(s0, mass_shape as nat));
        assert(a@.pos == random_vec_s(rng_step_s(s0), galaxy_radius@));
        assert(a@.velocity == random_vec_s(
            rng_step_s(rng_step_s(rng_step_s(s0))),
            SUN_MAX_STARTING_VELOCITY_RAW as int,
        ));
        reveal(new_sun_s);
        let spec_a = new_sun_s(s0, idx as int, galaxy_radius@, mass_shape as nat);
        assert(a@.trace =~= spec_a.trace);
        assert(a@ =~= spec_a);
    }
    a
}

/// Spawn `num` bodies within a disk of radius `galaxy_radius` around the
/// origin, then subtract the bulk velocity from every body so the set's
/// total momentum is (up to one truncation per component) zero.
/// `mass_shape` is the shaping exponent of the mass draw: 1 leaves it
/// uniform over the configured range, larger values bias it toward light
/// bodies. The generator is the explicit source of all randomness: a
/// caller that seeds it reproduces the same bodies.
pub fn create_suns(num: u32, galaxy_radius: Fx, mass_shape: u32, rng: &mut SimRng) -> (r: Vec<
    Actor,
>)
    requires
        galaxy_radius@ >= 0,
    ensures
        views(r@) == create_suns_s(old(rng).state, num as nat, galaxy_radius@, mass_shape as nat),
        r@.len() == num as int,
        final(rng).state == rng_step_n(old(rng).state, 5 * num as nat),
        all_wf(views(r@)),
{
    let ghost s0 = rng.state;
    let ghost shape = mass_shape as nat;
    let mut suns: Vec<Actor> = Vec::new();
    let mut i: u32 = 0;
    while i < num
        invariant
            i <= num,
            galaxy_radius@ >= 0,
            suns@.len() == i as int,
            views(suns@) == gen_suns_s(s0, 0, i as nat, galaxy_radius@, shape),
            rng.state == rng_step_n(s0, 5 * i as nat),
            shape == mass_shape as nat,
        decreases num - i,
    {
        let a = new_sun(rng, i, galaxy_radius, mass_shape);
        suns.push(a);
        proof {
            lemma_gen_snoc(s0, 0, (i + 1) as nat, galaxy_radius@, shape);
            crate::rng::lemma_rng_step_n_add(s0, 5 * i as nat, 5);
            assert(views(suns@) =~= gen_suns_s(s0, 0, (i + 1) as nat, galaxy_radius@, shape));
        }
        i = i + 1;
    }
    let ghost g = gen_suns_s(s0, 0, num as nat, galaxy_radius@, shape);
    proof {
        lemma_gen_props(s0, 0, num as nat, galaxy_radius@, shape);
    }
    // Exact totals, in wide integers: no truncation happens while summing.
    let n = suns.len();
    let mut px: i128 = 0;
    let mut py: i128 = 0;
    let mut tm: i128 = 0;
    let mut k: usize = 0;
    while k < n
        invariant
            k <= n,
            n == suns@.len(),
            views(suns@) == g,
            g.len() == n as int,
            forall|j: int| 0 <= j < g.len() ==> spawned_bounds(#[trigger] g[j]),
            px == momentum_x_s(g.take(k as int)),
            py == momentum_y_s(g.take(k as int)),
            tm == mass_sum_s(g.take(k as int)),
        decreases n - k,
    {
        let prod_x = mul_wide(suns[k].mass.raw, suns[k].velocity.x.raw);
        let prod_y = mul_wide(suns[k].mass.raw, suns[k].velocity.y.raw);
        proof {
            assert(g.take(k + 1).drop_last() =~= g.take(k as int));
            assert(g.take(k + 1).last() == g[k as int]);
            assert(forall|j: int| 0 <= j < k + 1 ==> spawned_bounds(#[trigger] g.take(k + 1)[j]));
            lemma_sums_bound(g.take(k + 1));
            lemma_sums_bound(g.take(k as int));
            assert(g[k as int] == views(suns@)[k as int]);
        }
        px = px + prod_x;
        py = py + prod_y;
        tm = tm + suns[k].mass.raw as i128;
        k = k + 1;
    }
    proof {
        assert(g.take(n as int) =~= g);
        lemma_sums_bound(g);
        if num > 0 {
            assert(mass_sum_s(g) >= num as int * SUN_MIN_MASS_RAW as int);
            assert(num as int * SUN_MIN_MASS_RAW as int >= SUN_MIN_MASS_RAW as int)
                by (nonlinear_arith)
                requires
                    num >= 1,
            ;
            lemma_sdiv_mag(momentum_x_s(g), mass_sum_s(g));
            lemma_sdiv_mag(momentum_y_s(g), mass_sum_s(g));
            vstd::arithmetic::div_mod::lemma_multiply_divide_le(
                iabs(momentum_x_s(g)),
                mass_sum_s(g),
                SUN_MAX_STARTING_VELOCITY_RAW as int,
            );
            vstd::arithmetic::div_mod::lemma_multiply_divide_le(
                iabs(momentum_y_s(g)),
                mass_sum_s(g),
                SUN_MAX_STARTING_VELOCITY_RAW as int,
            );
        }
    }
    let cx = div_trunc(px, tm) as i64;
    let cy = div_trunc(py, tm) as i64;
    let c = V2 { x: Fx { raw: cx }, y: Fx { raw: cy } };
    let ghost cxs = sdiv(momentum_x_s(g), mass_sum_s(g));
    let ghost cys = sdiv(momentum_y_s(g), mass_sum_s(g));
    let mut k2: usize = 0;
    while k2 < n
        invariant
            k2 <= n,
            n == suns@.len(),
            g.len() == n as int,
            cx as int == cxs,
            cy as int == cys,
            c@ == (Sv2 { x: cxs, y: cys }),
            forall|j: int| k2 as int <= j < n as int ==> views(suns@)[j] == g[j],
            forall|j: int|
                0 <= j < k2 as int ==> views(suns@)[j] == correct_one_s(#[trigger] g[j], cxs, cys),
        decreases n - k2,
    {
        let nv = suns[k2].velocity.sub(c);
        suns[k2].velocity = nv;
        suns[k2].new_velocity = nv;
        proof {
            assert(views(suns@)[k2 as int] =~= correct_one_s(g[k2 as int], cxs, cys));
        }
        k2 = k2 + 1;
    }
    proof {
        assert(views(suns@) =~= create_suns_s(s0, num as nat, galaxy_radius@, shape));
    }
    suns
}

/// One row of pairs: `(i, j)`, `(i, j+1)`, ..., `(i, n-1)`.
pub open spec fn pair_row_s(i: int, j: int, n: int) -> Seq<(usize, usize)>
    decreases n - j,
{
    if j < 0 || n <= j {
        Seq::empty()
    } else {
        seq![(i as usize, j as usize)] + pair_row_s(i, j + 1, n)
    }
}

/// All rows from `i` on: every pair `(a, b)` with `i <= a < b < n`, in
/// lexicographic order.
pub open spec fn pair_rows_s(i: int, n: int) -> Seq<(usize, usize)>
    decreases n - i,
{
    if i < 0 || n <= i {
        Seq::empty()
    } else {
        pair_row_s(i, i + 1, n) + pair_rows_s(i + 1, n)
    }
}

/// Every unordered pair of distinct indices below `n`, each written with
/// the smaller index first, in lexicographic order.
pub open spec fn pair_seq_s(n: int) -> Seq<(usize, usize)> {
    pair_rows_s(0, n)
}

proof fn lemma_pair_row_props(i: int, j: int, n: int)
    requires
        0 <= i < j,
        n <= usize::MAX as int,
    ensures
        forall|q: int|
            0 <= q < pair_row_s(i, j, n).len() ==> {
                let p = #[trigger] pair_row_s(i, j, n)[q];
                p.0 as int == i && j <= p.1 as int && (p.1 as int) < n && i < p.1 as int
            },
    decreases n - j,
{
    if j < n {
        lemma_pair_row_props(i, j + 1, n);
        let me = pair_row_s(i, j, n);
        let rest = pair_row_s(i, j + 1, n);
        assert forall|q: int| 0 <= q < me.len() implies {
            let p = #[trigger] me[q];
            p.0 as int == i && j <= p.1 as int && (p.1 as int) < n && i < p.1 as int
        } by {
            if q == 0 {
                assert(me[0] == (i as usize, j as usize));
            } else {
                assert(me[q] == rest[q - 1]);
            }
        }
    }
}

proof fn lemma_pair_rows_props(i: int, n: int)
    requires
        0 <= i,
        n <= usize::MAX as int,
    ensures
        forall|q: int|
            0 <= q < pair_rows_s(i, n).len() ==> {
                let p = #[trigger] pair_rows_s(i, n)[q];
                i <= p.0 as int && (p.0 as int) < (p.1 as int) && (p.1 as int) < n
            },
    decreases n - i,
{
    if i < n {
        lemma_pair_row_props(i, i + 1, n);
        lemma_pair_rows_props(i + 1, n);
        let me = pair_rows_s(i, n);
        let row = pair_row_s(i, i + 1, n);
        let rest = pair_rows_s(i + 1, n);
        assert forall|q: int| 0 <= q < me.len() implies {
            let p = #[trigger] me[q];
            i <= p.0 as int && (p.0 as int) < (p.1 as int) && (p.1 as int) < n
        } by {
            if q < row.len() {
                assert(me[q] == row[q]);
            } else {
                assert(me[q] == rest[q - row.len()]);
            }
        }
    }
}

/// Every pair the pair sequence yields has its smaller index first and
/// both indices below `n`.
pub proof fn lemma_pair_seq_props(n: int)
    requires
        n <= usize::MAX as int,
    ensures
        forall|q: int|
            0 <= q < pair_seq_s(n).len() ==> {
                let p = #[trigger] pair_seq_s(n)[q];
                 (p.0 as int) < (p.1 as int) && (p.1 as int) < n
            },
{
    lemma_pair_rows_props(0, n);
}

/// Relies on itertools' `tuple_combinations` over the range `0..n`: it
/// yields every pair `(i, j)` with `i < j < n`, in lexicographic order.
#[verifier::external_body]
fn pair_indices(n: usize) -> (r: Vec<(usize, usize)>)
    ensures
        r@ == pair_seq_s(n as int),
{
    (0..n).tuple_combinations().collect()
}

/// A body with only its pending velocity replaced.
pub open spec fn with_new_velocity_s(a: SActor, v: Sv2) -> SActor {
    SActor {
        id: a.id,
        pos: a.pos,
        trace: a.trace,
        trace_cnt: a.trace_cnt,
        radius: a.radius,
        velocity: a.velocity,
        new_velocity: v,
        mass: a.mass,
        color: a.color,
    }
}

/// The interaction of one pair, on the tick's snapshot: overlapping
/// bodies have their pending velocities replaced by the elastic-collision
/// resolution; otherwise each accumulates the gravitational pull
/// `G m_i m_j / d^2` along the unit vector between them, divided by its
/// own mass. Positions, velocities and masses are only read, so every
/// pair of a tick sees the same snapshot.
pub open spec fn pair_step_s(s: Seq<SActor>, i: int, j: int) -> Seq<SActor> {
    if !(0 <= i < s.len() && 0 <= j < s.len() && i != j) {
        s
    } else {
        let ai = s[i];
        let aj = s[j];
        let d = v2_from_points_s(ai.pos, aj.pos);
        let r_unit = v2_normalize_s(d);
        let dist_sq = v2_norm_sq_s(d);
        let touching = fx_mul_s(fx_add_s(ai.radius, aj.radius), fx_add_s(ai.radius, aj.radius));
        if dist_sq < touching {
            s.update(i, with_new_velocity_s(ai, v_afterwards_s(ai, aj))).update(
                j,
                with_new_velocity_s(aj, v_afterwards_s(aj, ai)),
            )
        } else {
            let fg = v2_scale_s(
                r_unit,
                fx_div_s(fx_mul_s(fx_mul_s(GRAV_RAW as int, ai.mass), aj.mass), dist_sq),
            );
            let dva = v2_div_scalar_s(fg, ai.mass);
            let dvb = v2_div_scalar_s(v2_neg_s(fg), aj.mass);
            s.update(i, with_new_velocity_s(ai, v2_add_s(ai.new_velocity, dva))).update(
                j,
                with_new_velocity_s(aj, v2_add_s(aj.new_velocity, dvb)),
            )
        }
    }
}

/// The pair interactions applied in order: a body touching several others
/// in one tick keeps the resolution of the last processed pair.
pub open spec fn pairs_fold_s(s: Seq<SActor>, ps: Seq<(usize, usize)>) -> Seq<SActor>
    decreases ps.len(),
{
    if ps.len() == 0 {
        s
    } else {
        pairs_fold_s(pair_step_s(s, ps[0].0 as int, ps[0].1 as int), ps.drop_first())
    }
}

/// A body at the start of a tick: the pending velocity starts from the
/// current velocity, so the pair phase accumulates on the snapshot.
pub open spec fn snap_one_s(a: SActor) -> SActor {
    with_new_velocity_s(a, a.velocity)
}

pub open spec fn snap_s(s: Seq<SActor>) -> Seq<SActor> {
    s.map_values(|a: SActor| snap_one_s(a))
}

/// The weak centering pull: every body's pending velocity gains the
/// displacement toward the origin scaled by the small dark-matter
/// constant, independent of any other body.
pub open spec fn dark_one_s(a: SActor) -> SActor {
    with_new_velocity_s(
        a,
        v2_add_s(a.new_velocity, v2_scale_s(v2_neg_s(a.pos), DARK_GRAV_RAW as int)),
    )
}

pub open spec fn dark_s(s: Seq<SActor>) -> Seq<SActor> {
    s.map_values(|a: SActor| dark_one_s(a))
}

/// The commit at the end of a tick: the pending velocity becomes the
/// velocity, the position advances one explicit Euler step, and every
/// `TRACE_EVERY` ticks the new position is pushed on the front of the
/// trace, evicting the oldest entry once the capacity is reached.
pub open spec fn commit_one_s(a: SActor, dt: int) -> SActor {
    let vel = a.new_velocity;
    let pos = v2_add_s(a.pos, v2_scale_s(vel, dt));
    let cnt = a.trace_cnt + 1;
    if cnt == TRACE_EVERY as int {
        let grown = seq![pos] + a.trace;
        let tr = if grown.len() > TRACE_LEN as int {
            grown.drop_last()
        } else {
            grown
        };
        SActor {
            id: a.id,
            pos,
            trace: tr,
            trace_cnt: 0,
            radius: a.radius,
            velocity: vel,
            new_velocity: vel,
            mass: a.mass,
            color: a.color,
        }
    } else {
        SActor {
            id: a.id,
            pos,
            trace: a.trace,
            trace_cnt: cnt,
            radius: a.radius,
            velocity: vel,
            new_velocity: vel,
            mass: a.mass,
            color: a.color,
        }
    }
}

pub open spec fn commit_s(s: Seq<SActor>, dt: int) -> Seq<SActor> {
    s.map_values(|a: SActor| commit_one_s(a, dt))
}

/// One whole tick: snapshot the velocities, apply every pair interaction
/// on that snapshot, add the centering pull, then commit velocities,
/// integrate positions and advance the traces, all simultaneously.
pub open spec fn advance_s(s: Seq<SActor>, dt: int) -> Seq<SActor> {
    commit_s(dark_s(pairs_fold_s(snap_s(s), pair_seq_s(s.len() as int))), dt)
}

/// A pair step changes pending velocities only: everything else, the
/// length included, stays.
pub proof fn lemma_pair_step_frame(s: Seq<SActor>, i: int, j: int)
    ensures
        pair_step_s(s, i, j).len() == s.len(),
        forall|k: int|
            0 <= k < s.len() ==> {
                let b = #[trigger] pair_step_s(s, i, j)[k];
                let a = s[k];
                b.id == a.id && b.pos == a.pos && b.trace == a.trace && b.trace_cnt == a.trace_cnt
                    && b.radius == a.radius && b.velocity == a.velocity && b.mass == a.mass
                    && b.color == a.color
            },
{
}

/// The whole pair phase changes pending velocities only.
pub proof fn lemma_fold_frame(s: Seq<SActor>, ps: Seq<(usize, usize)>)
    ensures
        pairs_fold_s(s, ps).len() == s.len(),
        forall|k: int|
            0 <= k < s.len() ==> {
                let b = #[trigger] pairs_fold_s(s, ps)[k];
                let a = s[k];
                b.id == a.id && b.pos == a.pos && b.trace == a.trace && b.trace_cnt == a.trace_cnt
                    && b.radius == a.radius && b.velocity == a.velocity && b.mass == a.mass
                    && b.color == a.color
            },
    decreases ps.len(),
{
    if ps.len() > 0 {
        lemma_pair_step_frame(s, ps[0].0 as int, ps[0].1 as int);
        lemma_fold_frame(pair_step_s(s, ps[0].0 as int, ps[0].1 as int), ps.drop_first());
    }
}

/// The state after `t` whole ticks.
pub open spec fn advance_iter_s(s: Seq<SActor>, dt: int, t: nat) -> Seq<SActor>
    decreases t,
{
    if t == 0 {
        s
    } else {
        advance_s(advance_iter_s(s, dt, (t - 1) as nat), dt)
    }
}

/// What one tick does to the fields the pair phase never touches: mass,
/// radius, color and identity persist; the trace counter advances
/// cyclically, and the trace grows by the sampled position, the oldest
/// entry leaving once the capacity is reached.
pub proof fn lemma_advance_frame(s: Seq<SActor>, dt: int)
    ensures
        advance_s(s, dt).len() == s.len(),
        forall|k: int|
            0 <= k < s.len() ==> {
                let b = #[trigger] advance_s(s, dt)[k];
                let a = s[k];
                b.id == a.id && b.mass == a.mass && b.radius == a.radius && b.color == a.color
                    && b.trace_cnt == (if a.trace_cnt + 1 == TRACE_EVERY as int {
                    0int
                } else {
                    a.trace_cnt + 1
                }) && b.trace.len() == (if a.trace_cnt + 1 == TRACE_EVERY as int {
                    if a.trace.len() + 1 > TRACE_LEN as int {
                        a.trace.len() as int
                    } else {
                        a.trace.len() as int + 1
                    }
                } else {
                    a.trace.len() as int
                })
            },
{
    let snapped = snap_s(s);
    let folded = pairs_fold_s(snapped, pair_seq_s(s.len() as int));
    lemma_fold_frame(snapped, pair_seq_s(s.len() as int));
    let darked = dark_s(folded);
    assert forall|k: int| 0 <= k < s.len() implies {
        let b = #[trigger] advance_s(s, dt)[k];
        let a = s[k];
        b.id == a.id && b.mass == a.mass && b.radius == a.radius && b.color == a.color
            && b.trace_cnt == (if a.trace_cnt + 1 == TRACE_EVERY as int {
            0int
        } else {
            a.trace_cnt + 1
        }) && b.trace.len() == (if a.trace_cnt + 1 == TRACE_EVERY as int {
            if a.trace.len() + 1 > TRACE_LEN as int {
                a.trace.len() as int
            } else {
                a.trace.len() as int + 1
            }
        } else {
            a.trace.len() as int
        })
    } by {
        assert(snapped[k] == snap_one_s(s[k]));
        assert(darked[k] == dark_one_s(folded[k]));
        assert(advance_s(s, dt)[k] == commit_one_s(darked[k], dt));
    }
}

/// One tick keeps every body well formed.
pub proof fn lemma_advance_wf(s: Seq<SActor>, dt: int)
    requires
        all_wf(s),
    ensures
        all_wf(advance_s(s, dt)),
{
    lemma_advance_frame(s, dt);
    assert forall|k: int| 0 <= k < advance_s(s, dt).len() implies actor_wf(
        #[trigger] advance_s(s, dt)[k],
    ) by {
        assert(actor_wf(s[k]));
    }
}

/// One fixed-timestep tick, `dt` seconds long, over the whole body set.
/// The result is a function of the previous state alone: the pair phase
/// reads only the snapshot taken at the start of the tick, pairs are
/// processed in ascending lexicographic order, and the commit applies to
/// all bodies simultaneously.
#[verifier::rlimit(100)]
pub fn update_vel_and_pos(actors: &mut Vec<Actor>, dt: Fx)
    requires
        dt@ > 0,
        all_wf(views(old(actors)@)),
    ensures
        views(final(actors)@) == advance_s(views(old(actors)@), dt@),
        final(actors)@.len() == old(actors)@.len(),
        all_wf(views(final(actors)@)),
{
    let ghost s_in = views(actors@);
    let n = actors.len();
    let mut k: usize = 0;
    while k < n
        invariant
            k <= n,
            actors@.len() == n,
            s_in.len() == n,
            forall|j: int| 0 <= j < k as int ==> views(actors@)[j] == snap_one_s(#[trigger] s_in[j]),
            forall|j: int| k as int <= j < n ==> views(actors@)[j] == #[trigger] s_in[j],
        decreases n - k,
    {
        let v = actors[k].velocity;
        actors[k].new_velocity = v;
        proof {
            assert(views(actors@)[k as int] =~= snap_one_s(s_in[k as int]));
        }
        k = k + 1;
    }
    let ghost s_snap = snap_s(s_in);
    proof {
        assert(views(actors@) =~= s_snap);
    }
    let pairs = pair_indices(n);
    proof {
        lemma_pair_seq_props(n as int);
        assert(pairs@.skip(0) =~= pairs@);
    }
    let mut t: usize = 0;
    while t < pairs.len()
        invariant
            t <= pairs@.len(),
            actors@.len() == n,
            pairs@ == pair_seq_s(n as int),
            forall|q: int|
                0 <= q < pairs@.len() ==> {
                    let p = #[trigger] pairs@[q];
                    (p.0 as int) < (p.1 as int) && (p.1 as int) < n
                },
            pairs_fold_s(s_snap, pairs@) == pairs_fold_s(views(actors@), pairs@.skip(t as int)),
        decreases pairs@.len() - t,
    {
        let ghost pre = views(actors@);
        let (i, j) = pairs[t];
        let d = vec_from_points(actors[i].pos, actors[j].pos);
        let r_unit = d.normalize();
        let dist_sq = d.norm_sq();
        let touching = actors[i].radius.fx_add(actors[j].radius);
        let touching_sq = touching.fx_mul(touching);
        if dist_sq.raw < touching_sq.raw {
            let (va, vb) = elastic_collision(&actors[i], &actors[j]);
            actors[i].new_velocity = va;
            actors[j].new_velocity = vb;
        } else {
            let g1 = Fx { raw: GRAV_RAW }.fx_mul(actors[i].mass).fx_mul(actors[j].mass).fx_div(
                dist_sq,
            );
            let fg = r_unit.scale(g1);
            let dva = fg.div_scalar(actors[i].mass);
            let dvb = fg.neg().div_scalar(actors[j].mass);
            let nvi = actors[i].new_velocity.add(dva);
            actors[i].new_velocity = nvi;
            let nvj = actors[j].new_velocity.add(dvb);
            actors[j].new_velocity = nvj;
        }
        proof {
            assert(views(actors@) =~= pair_step_s(pre, i as int, j as int));
            assert(pairs@.skip(t as int).drop_first() =~= pairs@.skip(t as int + 1));
            assert(pairs@.skip(t as int)[0] == pairs@[t as int]);
        }
        t = t + 1;
    }
    let ghost s_fold = pairs_fold_s(s_snap, pair_seq_s(n as int));
    proof {
        assert(pairs@.skip(pairs@.len() as int) =~= Seq::<(usize, usize)>::empty());
        assert(views(actors@) == s_fold);
        lemma_fold_frame(s_snap, pair_seq_s(n as int));
    }
    let mut k2: usize = 0;
    while k2 < n
        invariant
            k2 <= n,
            actors@.len() == n,
            s_fold.len() == n,
            forall|j: int|
                0 <= j < k2 as int ==> views(actors@)[j] == dark_one_s(#[trigger] s_fold[j]),
            forall|j: int| k2 as int <= j < n ==> views(actors@)[j] == #[trigger] s_fold[j],
        decreases n - k2,
    {
        let pull = actors[k2].pos.neg().scale(Fx { raw: DARK_GRAV_RAW });
        let nv = actors[k2].new_velocity.add(pull);
        actors[k2].new_velocity = nv;
        proof {
            assert(views(actors@)[k2 as int] =~= dark_one_s(s_fold[k2 as int]));
        }
        k2 = k2 + 1;
    }
    let ghost s_dark = dark_s(s_fold);
    proof {
        assert(views(actors@) =~= s_dark);
        assert(forall|j: int|
            0 <= j < n ==> (#[trigger] s_dark[j]).trace_cnt == s_in[j].trace_cnt && s_dark[j].trace
                == s_in[j].trace);
        assert(all_wf(s_in));
    }
    let mut k3: usize = 0;
    while k3 < n
        invariant
            k3 <= n,
            actors@.len() == n,
            s_dark.len() == n,
            forall|j: int|
                0 <= j < n ==> (#[trigger] s_dark[j]).trace_cnt == s_in[j].trace_cnt
                    && s_dark[j].trace == s_in[j].trace,
            s_in.len() == n,
            all_wf(s_in),
            forall|j: int|
                0 <= j < k3 as int ==> views(actors@)[j] == commit_one_s(#[trigger] s_dark[j], dt@),
            forall|j: int| k3 as int <= j < n ==> views(actors@)[j] == #[trigger] s_dark[j],
        decreases n - k3,
    {
        proof {
            assert(actor_wf(s_in[k3 as int]));
            assert(views(actors@)[k3 as int] == s_dark[k3 as int]);
            assert(views(actors@)[k3 as int].trace_cnt < TRACE_EVERY as int);
        }
        let v = actors[k3].new_velocity;
        actors[k3].velocity = v;
        let np = actors[k3].pos.add(v.scale(dt));
        actors[k3].pos = np;
        let c = actors[k3].trace_cnt + 1;
        if c == TRACE_EVERY {
            actors[k3].trace_cnt = 0;
            actors[k3].trace.push_front(np);
            if actors[k3].trace.len() > TRACE_LEN {
                actors[k3].trace.pop_back();
            }
        } else {
            actors[k3].trace_cnt = c;
        }
        proof {
            assert(views(actors@)[k3 as int].trace =~= commit_one_s(s_dark[k3 as int], dt@).trace);
            assert(views(actors@)[k3 as int] =~= commit_one_s(s_dark[k3 as int], dt@));
        }
        k3 = k3 + 1;
    }
    proof {
        assert(views(actors@) =~= advance_s(s_in, dt@));
        assert(forall|j: int|
            0 <= j < n ==> actor_wf(#[trigger] views(actors@)[j]));
    }
}

} // verus!
