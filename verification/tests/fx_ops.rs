use nbody::Fx;

fn fx(v: i64) -> Fx {
    Fx::from_i64(v)
}

/// 10^e as a scalar (exact for small e).
fn pow10(e: u32) -> Fx {
    let mut r = fx(1);
    let mut k = 0;
    while k < e {
        r = r.fmul(fx(10));
        k += 1;
    }
    r
}

#[test]
fn integer_addition_is_exact() {
    assert_eq!(fx(3).fadd(fx(4)), fx(7));
    assert_eq!(fx(1000).fadd(fx(-1)), fx(999));
    assert_eq!(fx(-5).fadd(fx(-6)), fx(-11));
    assert_eq!(fx(123456).fadd(fx(0)), fx(123456));
    assert_eq!(fx(0).fadd(fx(123456)), fx(123456));
}

#[test]
fn integer_subtraction_is_exact() {
    assert_eq!(fx(10).fsub(fx(3)), fx(7));
    assert_eq!(fx(3).fsub(fx(10)), fx(-7));
    assert_eq!(fx(42).fsub(fx(42)), fx(0));
}

#[test]
fn integer_multiplication_is_exact() {
    assert_eq!(fx(6).fmul(fx(7)), fx(42));
    assert_eq!(fx(-6).fmul(fx(7)), fx(-42));
    assert_eq!(fx(-6).fmul(fx(-7)), fx(42));
    assert_eq!(fx(1_000_000).fmul(fx(1_000_000)), pow10(12));
    assert_eq!(fx(123).fmul(fx(0)), fx(0));
}

#[test]
fn division_and_reciprocals() {
    assert_eq!(fx(42).fdiv(fx(6)), fx(7));
    let half = fx(1).fdiv(fx(2));
    assert_eq!(half.fmul(fx(2)), fx(1));
    let quarter = fx(1).fdiv(fx(4));
    assert_eq!(quarter.fadd(quarter), half);
    // a zero divisor yields zero: the degenerate case is defined
    assert_eq!(fx(5).fdiv(fx(0)), fx(0));
    assert_eq!(fx(0).fdiv(fx(5)), fx(0));
}

#[test]
fn square_roots() {
    assert_eq!(fx(49).fsqrt(), fx(7));
    assert_eq!(fx(25).fsqrt(), fx(5));
    assert_eq!(fx(4).fsqrt(), fx(2));
    assert_eq!(fx(0).fsqrt(), fx(0));
    assert_eq!(pow10(12).fsqrt(), pow10(6));
    // the square root of a negative value is the defined zero result
    assert_eq!(fx(-9).fsqrt(), fx(0));
}

#[test]
fn negation_and_order() {
    assert_eq!(fx(5).fneg(), fx(-5));
    assert_eq!(fx(-5).fneg(), fx(5));
    assert_eq!(fx(0).fneg(), fx(0));
    assert!(fx(-3).fle(&fx(2)));
    assert!(fx(2).fle(&fx(2)));
    assert!(!fx(3).fle(&fx(2)));
    assert!(fx(-3).fle(&fx(-2)));
    assert!(!fx(-2).fle(&fx(-3)));
    assert!(fx(0).fle(&fx(1)));
    assert!(fx(-1).fle(&fx(0)));
    let tenth = fx(1).fdiv(fx(10));
    assert!(tenth.fle(&fx(1)));
    assert!(fx(0).fle(&tenth));
}

#[test]
fn make_normalizes() {
    assert_eq!(Fx::make(false, 0, 12), fx(12));
    assert_eq!(Fx::make(true, 0, 12), fx(-12));
    assert_eq!(Fx::make(false, 2, 3), fx(12));
    assert_eq!(Fx::make(false, 0, 0), fx(0));
    assert_eq!(Fx::make(false, -1, 24), fx(12));
}

#[test]
fn zero_is_canonical() {
    let z = Fx::zero();
    assert!(z.is_zero());
    assert_eq!(fx(7).fsub(fx(7)), z);
    assert_eq!(z.fneg(), z);
}
