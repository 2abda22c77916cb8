use std::collections::VecDeque;

use nbody::fx::Fx;
use nbody::galaxy::{elastic_collision, Actor};
use nbody::rng::SimRng;
use nbody::vec2::V2;

fn v2_int(x: i64, y: i64) -> V2 {
    V2 { x: Fx::from_int(x), y: Fx::from_int(y) }
}

fn sun(id: u32, pos: V2, velocity: V2, mass: i64, radius: i64) -> Actor {
    Actor {
        id,
        pos,
        trace: VecDeque::new(),
        trace_cnt: 0,
        radius: Fx::from_int(radius),
        velocity,
        new_velocity: V2::zero(),
        mass: Fx::from_int(mass),
        color: 0x0000_0000,
    }
}

#[test]
fn test_collision_central_one_moving() {
    let a = sun(1, v2_int(0, 0), v2_int(10, 0), 10, 100);
    let b = sun(2, v2_int(200, 0), v2_int(0, 0), 10, 100);
    let (v1, v2) = elastic_collision(&a, &b);
    // The velocities must have swapped: a full momentum transfer.
    assert_eq!(v1.x.raw, 0);
    assert_eq!(v2.x.raw, 10_000_000);
    assert_eq!(v1.y.raw, 0);
    assert_eq!(v2.y.raw, 0);
}

#[test]
fn test_collision_central_both_moving() {
    let a = sun(1, v2_int(0, 0), v2_int(10, 0), 10, 100);
    let b = sun(2, v2_int(200, 0), v2_int(-10, 0), 10, 100);
    let (v1, v2) = elastic_collision(&a, &b);
    // The velocities must have swapped.
    assert_eq!(v1.x.raw, -10_000_000);
    assert_eq!(v2.x.raw, 10_000_000);
    assert_eq!(v1.y.raw, 0);
    assert_eq!(v2.y.raw, 0);
}

#[test]
fn collision_coincident_positions_pass_through() {
    // Coincident centers make the divisor zero; the engine defines that
    // division as zero, so the pair passes through unchanged.
    let a = sun(1, v2_int(5, 5), v2_int(3, 0), 10, 100);
    let b = sun(2, v2_int(5, 5), v2_int(0, -4), 10, 100);
    let (v1, v2) = elastic_collision(&a, &b);
    assert_eq!((v1.x.raw, v1.y.raw), (3_000_000, 0));
    assert_eq!((v2.x.raw, v2.y.raw), (0, -4_000_000));
}

fn as_f64(raw: i64) -> f64 {
    raw as f64 / 1.0e6
}

fn kinetic_energy(mass: Fx, v: V2) -> f64 {
    let m = as_f64(mass.raw);
    let vx = as_f64(v.x.raw);
    let vy = as_f64(v.y.raw);
    0.5 * m * (vx * vx + vy * vy)
}

#[test]
fn collision_conserves_energy_and_momentum_on_random_scenarios() {
    let mut rng = SimRng::new(0xDECAF_BAD);
    let mut unit = |max: i64| -> Fx { rng.next_unit().fx_mul(Fx::from_int(max)) };
    for _ in 0..50 {
        // Masses in [1, 61), positions a few hundred units apart (never
        // coincident), velocities up to 50 either way.
        let ma = Fx::from_int(1).fx_add(unit(60));
        let mb = Fx::from_int(1).fx_add(unit(60));
        let pa = V2 { x: unit(100), y: unit(100) };
        let offset = V2 {
            x: Fx::from_int(1).fx_add(unit(200)),
            y: Fx::from_int(1).fx_add(unit(200)),
        };
        let pb = pa.add(offset);
        let va = V2 {
            x: unit(100).fx_sub(Fx::from_int(50)),
            y: unit(100).fx_sub(Fx::from_int(50)),
        };
        let vb = V2 {
            x: unit(100).fx_sub(Fx::from_int(50)),
            y: unit(100).fx_sub(Fx::from_int(50)),
        };
        let a = Actor {
            id: 1,
            pos: pa,
            trace: VecDeque::new(),
            trace_cnt: 0,
            radius: Fx::from_int(500),
            velocity: va,
            new_velocity: V2::zero(),
            mass: ma,
            color: 0,
        };
        let b = Actor {
            id: 2,
            pos: pb,
            trace: VecDeque::new(),
            trace_cnt: 0,
            radius: Fx::from_int(500),
            velocity: vb,
            new_velocity: V2::zero(),
            mass: mb,
            color: 0,
        };
        let (na, nb) = elastic_collision(&a, &b);
        let before = kinetic_energy(ma, va) + kinetic_energy(mb, vb);
        let after = kinetic_energy(ma, na) + kinetic_energy(mb, nb);
        assert!(before > 0.0);
        let rel = ((after - before) / before).abs();
        assert!(rel < 1.0e-3, "energy drifted by {rel}");
        let px_before = as_f64(ma.raw) * as_f64(va.x.raw) + as_f64(mb.raw) * as_f64(vb.x.raw);
        let px_after = as_f64(ma.raw) * as_f64(na.x.raw) + as_f64(mb.raw) * as_f64(nb.x.raw);
        let py_before = as_f64(ma.raw) * as_f64(va.y.raw) + as_f64(mb.raw) * as_f64(vb.y.raw);
        let py_after = as_f64(ma.raw) * as_f64(na.y.raw) + as_f64(mb.raw) * as_f64(nb.y.raw);
        // Each resolved velocity component carries up to a few raw units
        // of truncation, so momentum is conserved to roughly
        // mass * position-spread * one raw unit.
        assert!((px_after - px_before).abs() < 0.1);
        assert!((py_after - py_before).abs() < 0.1);
    }
}
