use nbody::Body;
use nbody::Fx;
use nbody::Universe;
use nbody::Vector3;

fn fx(v: i64) -> Fx {
    Fx::from_i64(v)
}

/// m * 10^e as a scalar.
fn scaled(m: i64, e: u32) -> Fx {
    let mut r = fx(m);
    let mut k = 0;
    while k < e {
        r = r.fmul(fx(10));
        k += 1;
    }
    r
}

/// A large mass at rest and a small mass at radius 1,750,000 with
/// tangential speed 1673: the inter-body distance must stay within
/// [1,737,100, 10^12] over a long run with step duration 0.1.
#[test]
fn two_body_test() {
    let mut dvs = Vec::with_capacity(2);
    let step = fx(1).fdiv(fx(10));
    let mut universe = Universe::new();
    universe.push_body(Body {
        position: Vector3::new(fx(0), fx(0), fx(0)),
        velocity: Vector3::new(fx(0), fx(0), fx(0)),
        mass: scaled(734, 20),
    });
    universe.push_body(Body {
        position: Vector3::new(fx(1_750_000), fx(0), fx(0)),
        velocity: Vector3::new(fx(0), fx(1673), fx(0)),
        mass: fx(1000),
    });
    let lo = fx(1_737_100);
    let hi = scaled(1, 12);
    for _ in 0..1_000_000 {
        universe.step(&mut dvs, step);
        let d = Vector3::distance(&universe.body(0).position, &universe.body(1).position);
        assert!(lo.fle(&d));
        assert!(d.fle(&hi));
    }
}
