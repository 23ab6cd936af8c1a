use nbody::Body;
use nbody::Fx;
use nbody::RecordUniverse;
use nbody::Universe;
use nbody::Vector3;

fn fx(v: i64) -> Fx {
    Fx::from_i64(v)
}

fn body(px: i64, py: i64, pz: i64, vx: i64, vy: i64, vz: i64, m: i64) -> Body {
    Body {
        position: Vector3::new(fx(px), fx(py), fx(pz)),
        velocity: Vector3::new(fx(vx), fx(vy), fx(vz)),
        mass: fx(m),
    }
}

/// A single isolated body gets a zero velocity delta, and its position
/// advances by exactly velocity * duration every step.
#[test]
fn zero_force_idempotence() {
    let mut u = Universe::new();
    u.push_body(body(0, 0, 0, 1, 2, 3, 5_000_000));
    let (dx, dy, dz) = u.compute_dv(0, fx(1));
    assert_eq!(dx, fx(0));
    assert_eq!(dy, fx(0));
    assert_eq!(dz, fx(0));
    let mut dvs = Vec::new();
    let mut expected = Vector3::new(fx(0), fx(0), fx(0));
    let velocity = Vector3::new(fx(1), fx(2), fx(3));
    for _ in 0..10 {
        u.step(&mut dvs, fx(1));
        expected = expected.vadd(velocity.smul(fx(1)));
        let b = u.body(0);
        assert_eq!(b.velocity, velocity);
        assert_eq!(b.position, expected);
    }
    assert_eq!(u.body(0).position, Vector3::new(fx(10), fx(20), fx(30)));
}

/// For two bodies with equal masses the two velocity deltas are exactly
/// equal in magnitude and opposite in direction.
#[test]
fn symmetry_of_pairwise_deltas() {
    let mut u = Universe::new();
    u.push_body(body(0, 0, 0, 0, 0, 0, 3_000_000));
    u.push_body(body(1000, 2000, -500, 0, 0, 0, 3_000_000));
    let step = fx(1).fdiv(fx(10));
    let (ax, ay, az) = u.compute_dv(0, step);
    let (bx, by, bz) = u.compute_dv(1, step);
    assert_eq!(ax, bx.fneg());
    assert_eq!(ay, by.fneg());
    assert_eq!(az, bz.fneg());
    assert!(!ax.is_zero());
}

/// The parallel-array layout and the array-of-records layout produce
/// identical trajectories from identical initial conditions.
#[test]
fn layout_equivalence() {
    let bodies = [
        body(0, 0, 0, 10, 0, 0, 9_000_000),
        body(5000, 0, 0, 0, -3, 0, 7_000_000),
        body(0, 8000, 100, 1, 2, 3, 4_000_000),
    ];
    let mut u = Universe::new();
    let mut r = RecordUniverse::new();
    for b in bodies.iter() {
        u.push_body(*b);
        r.push_body(*b);
    }
    let step = fx(1).fdiv(fx(10));
    let mut u_buf = Vec::new();
    let mut r_buf = Vec::new();
    for _ in 0..25 {
        u.step(&mut u_buf, step);
        r.step(&mut r_buf, step);
    }
    assert_eq!(u.len(), r.len());
    for i in 0..u.len() {
        assert_eq!(u.body(i), r.body(i));
    }
}

/// Two independent runs from the same initial population end in the
/// same state.
#[test]
fn determinism() {
    let bodies = [
        body(0, 0, 0, 0, 5, 0, 8_000_000),
        body(-4000, 250, 0, 2, 0, -1, 6_000_000),
    ];
    let mut a = Universe::new();
    let mut b = Universe::new();
    for x in bodies.iter() {
        a.push_body(*x);
        b.push_body(*x);
    }
    let step = fx(1).fdiv(fx(10));
    let mut buf_a = Vec::new();
    let mut buf_b = Vec::new();
    for _ in 0..50 {
        a.step(&mut buf_a, step);
        b.step(&mut buf_b, step);
    }
    for i in 0..a.len() {
        assert_eq!(a.body(i), b.body(i));
    }
}

/// The body count never changes, however many steps run.
#[test]
fn population_is_constant() {
    let mut u = Universe::new();
    for k in 0..7 {
        u.push_body(body(k * 1000, -k * 2000, k, 0, 0, 0, 1_000_000 + k));
    }
    assert_eq!(u.len(), 7);
    let step = fx(1).fdiv(fx(10));
    let mut buf = Vec::new();
    for _ in 0..40 {
        u.step(&mut buf, step);
        assert_eq!(u.len(), 7);
    }
    assert_eq!(buf.len(), 7);
}

/// A multi-step run is the same as stepping one step at a time.
#[test]
fn run_matches_single_steps() {
    let bodies = [
        body(0, 0, 0, 0, 7, 0, 9_000_000),
        body(3000, -100, 40, -2, 0, 1, 5_000_000),
        body(-500, 600, -700, 0, 0, 0, 2_000_000),
    ];
    let mut a = Universe::new();
    let mut b = Universe::new();
    for x in bodies.iter() {
        a.push_body(*x);
        b.push_body(*x);
    }
    let step = fx(1).fdiv(fx(10));
    let mut buf_a = Vec::new();
    let mut buf_b = Vec::new();
    a.run(&mut buf_a, step, 30);
    for _ in 0..30 {
        b.step(&mut buf_b, step);
    }
    for i in 0..a.len() {
        assert_eq!(a.body(i), b.body(i));
    }
}

/// Coincident bodies have zero separation; the degenerate quotients are
/// defined to collapse, so the pair contributes no velocity delta.
#[test]
fn coincident_bodies_contribute_nothing() {
    let mut u = Universe::new();
    u.push_body(body(42, 42, 42, 0, 0, 0, 5_000_000));
    u.push_body(body(42, 42, 42, 0, 0, 0, 5_000_000));
    let (dx, dy, dz) = u.compute_dv(0, fx(1));
    assert_eq!(dx, fx(0));
    assert_eq!(dy, fx(0));
    assert_eq!(dz, fx(0));
}
