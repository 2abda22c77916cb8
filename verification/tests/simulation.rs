use nbody::fx::{Fx, SCALE, HALF_PI_RAW, sin_fx, cos_fx};
use nbody::galaxy::{color_from_mass, create_suns, radius_from_mass, update_vel_and_pos, Actor,
    TRACE_EVERY, TRACE_LEN};
use nbody::rng::SimRng;
use nbody::vec2::V2;

fn v2_int(x: i64, y: i64) -> V2 {
    V2 { x: Fx::from_int(x), y: Fx::from_int(y) }
}

#[test]
fn fx_arithmetic_exact_values() {
    assert_eq!(Fx::from_int(3).fx_mul(Fx::from_int(2)).raw, 6_000_000);
    assert_eq!(Fx::from_int(1).fx_div(Fx::from_int(3)).raw, 333_333);
    assert_eq!(Fx::from_int(-1).fx_div(Fx::from_int(3)).raw, -333_333);
    assert_eq!(Fx::from_int(7).fx_sub(Fx::from_int(9)).raw, -2_000_000);
    assert_eq!(Fx::from_int(5).fx_div(Fx::zero()).raw, 0);
    assert_eq!(Fx::from_int(27).fx_cbrt().raw, 3_000_000);
    assert_eq!(Fx::from_int(2).fx_pow(10).raw, 1_024_000_000);
}

#[test]
fn vector_norms_exact_values() {
    let v = V2::new(Fx::from_int(3), Fx::from_int(4));
    assert_eq!(v.norm().raw, 5_000_000);
    assert_eq!(v.norm_sq().raw, 25_000_000);
    let u = v.normalize();
    assert_eq!(u.x.raw, 600_000);
    assert_eq!(u.y.raw, 800_000);
    let z = V2::zero().normalize();
    assert_eq!((z.x.raw, z.y.raw), (0, 0));
}

#[test]
fn trig_sanity() {
    let one = SCALE;
    let s = sin_fx(Fx { raw: HALF_PI_RAW });
    assert!((s.raw - one).abs() <= 2_000, "sin(pi/2) was {}", s.raw);
    let c = cos_fx(Fx { raw: 0 });
    assert!((c.raw - one).abs() <= 2_000, "cos(0) was {}", c.raw);
    let s0 = sin_fx(Fx { raw: 0 });
    assert_eq!(s0.raw, 0);
}

#[test]
fn color_table_exact() {
    assert_eq!(color_from_mass(Fx { raw: 200_000 }), 0xfbc8_86ff);
    assert_eq!(color_from_mass(Fx { raw: 500_000 }), 0xffd8_70ff);
    assert_eq!(color_from_mass(Fx { raw: 900_000 }), 0xfdf9_b3ff);
    assert_eq!(color_from_mass(Fx { raw: 1_500_000 }), 0xf9fa_e7ff);
    assert_eq!(color_from_mass(Fx { raw: 2_000_000 }), 0xdadd_e6ff);
    assert_eq!(color_from_mass(Fx { raw: 10_000_000 }), 0xaabf_ffff);
    assert_eq!(color_from_mass(Fx { raw: 30_000_000 }), 0x9bb0_ffff);
    assert_eq!(color_from_mass(Fx { raw: 70_000_000 }), 0xffff_ffff);
}

#[test]
fn radius_follows_density_law() {
    // radius(10) = cbrt(10 / 0.002 * 0.75 / pi) ~ 10.6078
    let r = radius_from_mass(Fx::from_int(10));
    let value = r.raw as f64 / 1.0e6;
    assert!((value - 10.6078).abs() < 1.0e-3, "radius was {value}");
    assert!(r.raw > 0);
}

#[test]
fn create_zero_bodies_yields_empty_set() {
    let mut rng = SimRng::new(7);
    let suns = create_suns(0, Fx::from_int(1000), 10, &mut rng);
    assert_eq!(suns.len(), 0);
}

#[test]
fn create_single_body_is_at_rest() {
    let mut rng = SimRng::new(99);
    let suns = create_suns(1, Fx::from_int(1000), 10, &mut rng);
    assert_eq!(suns.len(), 1);
    assert_eq!(suns[0].velocity.x.raw, 0);
    assert_eq!(suns[0].velocity.y.raw, 0);
}

#[test]
fn create_bodies_have_positive_mass_and_radius() {
    let mut rng = SimRng::new(1234);
    let suns = create_suns(20, Fx::from_int(2000), 10, &mut rng);
    assert_eq!(suns.len(), 20);
    for s in &suns {
        assert!(s.mass.raw >= 300_000);
        assert!(s.radius.raw > 0);
    }
}

#[test]
fn create_bodies_momentum_is_near_zero() {
    let mut rng = SimRng::new(42);
    let suns = create_suns(5, Fx::from_int(1000), 10, &mut rng);
    let mut px: i128 = 0;
    let mut py: i128 = 0;
    let mut tm: i128 = 0;
    for s in &suns {
        px += s.mass.raw as i128 * s.velocity.x.raw as i128;
        py += s.mass.raw as i128 * s.velocity.y.raw as i128;
        tm += s.mass.raw as i128;
    }
    // Each raw momentum component stays below the raw total mass: in
    // world units the magnitude is below total_mass / SCALE.
    assert!(px.abs() < tm);
    assert!(py.abs() < tm);
    let world = ((px * px + py * py) as f64).sqrt() / 1.0e12;
    assert!(world < 1.0e-4, "momentum magnitude was {world}");
}

#[test]
fn create_bodies_mass_shape_one_is_spread_out() {
    // With the shaping exponent 1 the draw stays uniform, so twenty
    // bodies are very unlikely to all sit in the lightest mass class.
    let mut rng = SimRng::new(5);
    let suns = create_suns(20, Fx::from_int(1000), 1, &mut rng);
    assert!(suns.iter().any(|s| s.mass.raw > 30_000_000));
}

#[test]
fn rng_is_deterministic_per_seed() {
    let mut a = SimRng::new(31337);
    let mut b = SimRng::new(31337);
    for _ in 0..100 {
        assert_eq!(a.next_u64(), b.next_u64());
    }
    let mut c = SimRng::new(31338);
    let first: Vec<u64> = (0..4).map(|_| SimRng::new(31337).next_u64()).collect();
    assert!(first.iter().any(|&w| w != c.next_u64()));
}

fn assert_actors_identical(a: &Actor, b: &Actor) {
    assert_eq!(a.id, b.id);
    assert_eq!((a.pos.x.raw, a.pos.y.raw), (b.pos.x.raw, b.pos.y.raw));
    assert_eq!((a.velocity.x.raw, a.velocity.y.raw), (b.velocity.x.raw, b.velocity.y.raw));
    assert_eq!(a.mass.raw, b.mass.raw);
    assert_eq!(a.radius.raw, b.radius.raw);
    assert_eq!(a.color, b.color);
    assert_eq!(a.trace_cnt, b.trace_cnt);
    assert_eq!(a.trace.len(), b.trace.len());
    for (p, q) in a.trace.iter().zip(b.trace.iter()) {
        assert_eq!((p.x.raw, p.y.raw), (q.x.raw, q.y.raw));
    }
}

#[test]
fn runs_with_equal_seeds_are_bit_identical() {
    let dt = Fx { raw: 16_667 };
    let mut rng1 = SimRng::new(2024);
    let mut suns1 = create_suns(4, Fx::from_int(500), 10, &mut rng1);
    let mut rng2 = SimRng::new(2024);
    let mut suns2 = create_suns(4, Fx::from_int(500), 10, &mut rng2);
    for _ in 0..200 {
        update_vel_and_pos(&mut suns1, dt);
        update_vel_and_pos(&mut suns2, dt);
    }
    assert_eq!(suns1.len(), suns2.len());
    for (a, b) in suns1.iter().zip(suns2.iter()) {
        assert_actors_identical(a, b);
    }
}

#[test]
fn trace_fills_to_capacity_and_never_beyond() {
    let dt = Fx { raw: 16_667 };
    let mut rng = SimRng::new(8);
    let mut suns = create_suns(2, Fx::from_int(300), 10, &mut rng);
    let ticks = TRACE_LEN * TRACE_EVERY as usize;
    for t in 0..ticks {
        update_vel_and_pos(&mut suns, dt);
        for s in &suns {
            assert!(s.trace.len() <= TRACE_LEN);
            assert_eq!(s.trace.len(), ((t + 1) / TRACE_EVERY as usize).min(TRACE_LEN));
        }
    }
    for s in &suns {
        assert_eq!(s.trace.len(), TRACE_LEN);
    }
    // Keep going: the trace stays exactly at capacity.
    for _ in 0..3 * TRACE_EVERY as usize {
        update_vel_and_pos(&mut suns, dt);
        for s in &suns {
            assert_eq!(s.trace.len(), TRACE_LEN);
        }
    }
}

#[test]
fn trace_records_newest_first() {
    let dt = Fx::from_int(1);
    let mut rng = SimRng::new(77);
    let mut suns = create_suns(2, Fx::from_int(300), 10, &mut rng);
    for _ in 0..TRACE_EVERY as usize {
        update_vel_and_pos(&mut suns, dt);
    }
    for s in &suns {
        assert_eq!(s.trace.len(), 1);
        let front = s.trace.front().unwrap();
        assert_eq!((front.x.raw, front.y.raw), (s.pos.x.raw, s.pos.y.raw));
    }
}

#[test]
fn one_tick_swaps_velocities_of_touching_pair() {
    // Two equal masses overlapping head-on: the tick resolves the
    // collision, adds the weak centering pull, and integrates positions.
    let dt = Fx::from_int(1);
    let mut suns = vec![
        sun_at(1, 0, 10, 0),
        sun_at(2, 100, -10, 0),
    ];
    update_vel_and_pos(&mut suns, dt);
    // Velocities swapped; the body away from the origin also feels the
    // centering pull of -100 * 0.0001 = -0.01.
    assert_eq!(suns[0].velocity.x.raw, -10_000_000);
    assert_eq!(suns[1].velocity.x.raw, 10_000_000 - 10_000);
    assert_eq!(suns[0].pos.x.raw, -10_000_000);
    assert_eq!(suns[1].pos.x.raw, 100_000_000 + 10_000_000 - 10_000);
    assert_eq!(suns[0].trace_cnt, 1);
}

#[test]
fn one_tick_applies_gravity_to_distant_pair() {
    let dt = Fx::from_int(1);
    let mut suns = vec![
        sun_small(1, 0, 10),
        sun_small(2, 1000, 20),
    ];
    update_vel_and_pos(&mut suns, dt);
    // G * m1 * m2 / d^2 = 1000 * 10 * 20 / 1e6 = 0.2; the pull is 0.02
    // on the light body and 0.01 on the heavy one (opposite), and the
    // heavy one, sitting 1000 units out, also feels the centering pull
    // of -0.1.
    assert_eq!(suns[0].velocity.x.raw, 20_000);
    assert_eq!(suns[1].velocity.x.raw, -10_000 - 100_000);
    assert_eq!(suns[0].pos.x.raw, 20_000);
    assert_eq!(suns[1].pos.x.raw, 1_000_000_000 - 110_000);
}

fn sun_at(id: u32, x: i64, vx: i64, vy: i64) -> Actor {
    Actor {
        id,
        pos: v2_int(x, 0),
        trace: std::collections::VecDeque::new(),
        trace_cnt: 0,
        radius: Fx::from_int(100),
        velocity: v2_int(vx, vy),
        new_velocity: V2::zero(),
        mass: Fx::from_int(10),
        color: 0,
    }
}

fn sun_small(id: u32, x: i64, mass: i64) -> Actor {
    Actor {
        id,
        pos: v2_int(x, 0),
        trace: std::collections::VecDeque::new(),
        trace_cnt: 0,
        radius: Fx::from_int(1),
        velocity: V2::zero(),
        new_velocity: V2::zero(),
        mass: Fx::from_int(mass),
        color: 0,
    }
}
