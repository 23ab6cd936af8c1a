use nbody::Fx;
use nbody::Vector3;

fn fx(v: i64) -> Fx {
    Fx::from_i64(v)
}

fn v3(x: i64, y: i64, z: i64) -> Vector3 {
    Vector3::new(fx(x), fx(y), fx(z))
}

#[test]
fn componentwise_operators() {
    assert_eq!(v3(1, 2, 3).vadd(v3(10, 20, 30)), v3(11, 22, 33));
    assert_eq!(v3(10, 20, 30).vsub(v3(1, 2, 3)), v3(9, 18, 27));
    assert_eq!(v3(2, 3, 4).vmul(v3(5, 6, 7)), v3(10, 18, 28));
    assert_eq!(v3(10, 18, 28).vdiv(v3(5, 6, 7)), v3(2, 3, 4));
    assert_eq!(v3(1, -2, 3).smul(fx(4)), v3(4, -8, 12));
    assert_eq!(v3(1, -2, 3).vneg(), v3(-1, 2, -3));
}

#[test]
fn in_place_variants_match_value_forms() {
    let a = v3(3, -4, 5);
    let b = v3(-1, 2, 6);
    let mut m = a;
    m.vadd_assign(b);
    assert_eq!(m, a.vadd(b));
    let mut m = a;
    m.vsub_assign(b);
    assert_eq!(m, a.vsub(b));
    let mut m = a;
    m.vmul_assign(b);
    assert_eq!(m, a.vmul(b));
    let mut m = a;
    m.vdiv_assign(b);
    assert_eq!(m, a.vdiv(b));
    let mut m = a;
    m.smul_assign(fx(7));
    assert_eq!(m, a.smul(fx(7)));
    let mut m = v3(0, 8, 0);
    m.normalize();
    assert_eq!(m, v3(0, 8, 0).normalized());
}

#[test]
fn dot_product_and_distances() {
    assert_eq!(Vector3::dotp(&v3(1, 2, 3), &v3(4, 5, 6)), fx(32));
    assert_eq!(Vector3::distance_squared(&v3(0, 0, 0), &v3(3, 4, 0)), fx(25));
    assert_eq!(Vector3::distance(&v3(0, 0, 0), &v3(3, 4, 0)), fx(5));
    assert_eq!(Vector3::distance(&v3(1, 1, 1), &v3(1, 1, 1)), fx(0));
}

#[test]
fn normalization_on_power_of_two_magnitudes() {
    assert_eq!(v3(2, 0, 0).normalized(), v3(1, 0, 0));
    assert_eq!(v3(0, -8, 0).normalized(), v3(0, -1, 0));
    assert_eq!(Vector3::direction(v3(6, 0, 0), v3(2, 0, 0)), v3(1, 0, 0));
    assert_eq!(Vector3::direction(v3(0, 0, 0), v3(0, 16, 0)), v3(0, -1, 0));
}
