//! Relaxed-precision real scalar.
//!
//! The simulation works on real values that are stored in binary
//! floating-point form: a sign, a power-of-two exponent and a 32-bit
//! mantissa.  Results of the arithmetic operations are truncated to the
//! mantissa width, which is the library's relaxed arithmetic contract:
//! every operation is a total, deterministic function whose exact result
//! is pinned down by a spec function, and callers that need only
//! tolerance-level accuracy get at least 31 significant bits.
//!
//! Degenerate operands are given defined results rather than poisoning
//! the state: a quotient with a zero divisor is zero, and the square
//! root of a negative value is zero.  An exponent that leaves the
//! supported range saturates to the largest representable magnitude or
//! underflows to zero.

use vstd::prelude::*;

verus! {

/// Smallest mantissa of a normalized nonzero scalar: 2^31.
pub const MAN_MIN: u64 = 0x8000_0000;

/// One past the largest mantissa of a normalized scalar: 2^32.
pub const MAN_LIM: u64 = 0x1_0000_0000;

/// Smallest exponent a stored scalar may carry.
pub const EXP_MIN: i64 = -1_000_000;

/// Largest exponent a stored scalar may carry.
pub const EXP_MAX: i64 = 1_000_000;

/// A real scalar `(-1)^neg * man * 2^exp`, with `man` normalized into
/// `[2^31, 2^32)` for nonzero values.  Zero is canonical: positive sign,
/// zero exponent, zero mantissa.  Values are built by the constructors,
/// which establish `wf`.
#[derive(Clone, Copy, Debug, PartialEq, Eq, Structural)]
pub struct Fx {
    pub neg: bool,
    pub exp: i64,
    pub man: u64,
}

impl Fx {
    /// Well-formedness: canonical zero, or a normalized mantissa and an
    /// exponent inside the supported range.
    pub open spec fn wf(self) -> bool {
        if self.man == 0 {
            !self.neg && self.exp == 0
        } else {
            MAN_MIN <= self.man < MAN_LIM && EXP_MIN <= self.exp <= EXP_MAX
        }
    }

    pub open spec fn spec_zero() -> Fx {
        Fx { neg: false, exp: 0, man: 0 }
    }

    /// Saturation value used when an exponent overflows upward.
    pub open spec fn spec_huge(neg: bool) -> Fx {
        Fx { neg, exp: EXP_MAX, man: (MAN_LIM - 1) as u64 }
    }

    /// Clamp a normalized mantissa/exponent pair into the stored range.
    pub open spec fn clamped(neg: bool, exp: int, man: nat) -> Fx
        recommends
            MAN_MIN <= man < MAN_LIM,
    {
        if exp > EXP_MAX as int {
            Fx::spec_huge(neg)
        } else if exp < EXP_MIN as int {
            Fx::spec_zero()
        } else {
            Fx { neg, exp: exp as i64, man: man as u64 }
        }
    }
}

/// Halve the mantissa (truncating) until it is below 2^32.
pub open spec fn norm_down(exp: int, man: nat) -> (int, nat)
    decreases man,
{
    if man >= MAN_LIM as nat {
        norm_down(exp + 1, man / 2)
    } else {
        (exp, man)
    }
}

/// Double the mantissa until it reaches 2^31.
pub open spec fn norm_up(exp: int, man: nat) -> (int, nat)
    decreases (if man < MAN_MIN as nat { (MAN_MIN as nat - man) as nat } else { 0nat }),
{
    if 1 <= man && man < MAN_MIN as nat {
        norm_up(exp - 1, man * 2)
    } else {
        (exp, man)
    }
}

/// Build the scalar `(-1)^neg * man * 2^exp`: normalize the mantissa,
/// then clamp the exponent into the stored range.
pub open spec fn spec_make(neg: bool, exp: int, man: nat) -> Fx {
    if man == 0 {
        Fx::spec_zero()
    } else if man >= MAN_LIM as nat {
        let (e, m) = norm_down(exp, man);
        Fx::clamped(neg, e, m)
    } else {
        let (e, m) = norm_up(exp, man);
        Fx::clamped(neg, e, m)
    }
}

/// Magnitude order of two nonzero normalized scalars.
pub open spec fn mag_lt(a: Fx, b: Fx) -> bool {
    a.exp < b.exp || (a.exp == b.exp && a.man < b.man)
}

pub open spec fn spec_fneg(a: Fx) -> Fx {
    if a.man == 0 {
        a
    } else {
        Fx { neg: !a.neg, ..a }
    }
}

/// Truncating addition: the smaller operand's mantissa is aligned to the
/// larger one's exponent by a truncating shift, then the mantissas are
/// combined and the result renormalized.
pub open spec fn spec_fadd(a: Fx, b: Fx) -> Fx {
    if a.man == 0 {
        b
    } else if b.man == 0 {
        a
    } else {
        let hi = if mag_lt(a, b) { b } else { a };
        let lo = if mag_lt(a, b) { a } else { b };
        let diff = hi.exp - lo.exp;
        let lom: nat = if diff >= 64 { 0nat } else { lo.man as nat / vstd::arithmetic::power2::pow2(diff as nat) };
        if hi.neg == lo.neg {
            spec_make(hi.neg, hi.exp as int, (hi.man + lom) as nat)
        } else if hi.man <= lom {
            Fx::spec_zero()
        } else {
            spec_make(hi.neg, hi.exp as int, (hi.man - lom) as nat)
        }
    }
}

pub open spec fn spec_fsub(a: Fx, b: Fx) -> Fx {
    spec_fadd(a, spec_fneg(b))
}

/// Truncating multiplication: the exact 64-bit mantissa product is
/// renormalized with truncation.
pub open spec fn spec_fmul(a: Fx, b: Fx) -> Fx {
    if a.man == 0 || b.man == 0 {
        Fx::spec_zero()
    } else {
        spec_make(a.neg != b.neg, a.exp + b.exp, (a.man * b.man) as nat)
    }
}

/// Truncating division, with at least 31 significant bits in the
/// quotient.  A zero divisor yields zero (the degenerate case is
/// defined, not an error).
pub open spec fn spec_fdiv(a: Fx, b: Fx) -> Fx {
    if a.man == 0 || b.man == 0 {
        Fx::spec_zero()
    } else {
        spec_make(a.neg != b.neg, a.exp - b.exp - 31, (a.man as nat * MAN_MIN as nat) / b.man as nat)
    }
}

/// Integer square root, `floor(sqrt(n))`.
pub open spec fn spec_isqrt(n: nat) -> nat
    decreases n,
{
    if n == 0 {
        0nat
    } else {
        let r = spec_isqrt((n - 1) as nat);
        if (r + 1) * (r + 1) <= n {
            r + 1
        } else {
            r
        }
    }
}

/// Truncating square root.  A negative operand yields zero (defined
/// degenerate result).
pub open spec fn spec_fsqrt(a: Fx) -> Fx {
    if a.neg || a.man == 0 {
        Fx::spec_zero()
    } else if a.exp % 2 != 0 {
        spec_make(false, (a.exp - 31) / 2, spec_isqrt((a.man * MAN_MIN) as nat))
    } else {
        spec_make(false, (a.exp - 30) / 2, spec_isqrt((a.man * 0x4000_0000) as nat))
    }
}

pub open spec fn spec_from_i64(v: i64) -> Fx {
    if v == 0 {
        Fx::spec_zero()
    } else if v < 0 {
        spec_make(true, 0, (-(v as int)) as nat)
    } else {
        spec_make(false, 0, v as nat)
    }
}

/// Value order on well-formed scalars.
pub open spec fn spec_fle(a: Fx, b: Fx) -> bool {
    if a.neg && !b.neg {
        true
    } else if !a.neg && b.neg {
        false
    } else if !a.neg && !b.neg {
        if a.man == 0 {
            true
        } else if b.man == 0 {
            false
        } else {
            !mag_lt(b, a)
        }
    } else {
        !mag_lt(a, b)
    }
}

proof fn lemma_norm_down_range(exp: int, man: nat)
    requires
        MAN_MIN as nat <= man,
    ensures
        MAN_MIN as nat <= norm_down(exp, man).1 < MAN_LIM as nat,
    decreases man,
{
    if man >= MAN_LIM as nat {
        lemma_norm_down_range(exp + 1, man / 2);
    }
}

proof fn lemma_norm_up_range(exp: int, man: nat)
    requires
        1 <= man < MAN_LIM as nat,
    ensures
        MAN_MIN as nat <= norm_up(exp, man).1 < MAN_LIM as nat,
    decreases (if man < MAN_MIN as nat { (MAN_MIN as nat - man) as nat } else { 0nat }),
{
    if man < MAN_MIN as nat {
        lemma_norm_up_range(exp - 1, man * 2);
    }
}

/// Every built scalar is well-formed.
pub proof fn lemma_make_wf(neg: bool, exp: int, man: nat)
    ensures
        spec_make(neg, exp, man).wf(),
{
    if man == 0 {
    } else if man >= MAN_LIM as nat {
        lemma_norm_down_range(exp, man);
    } else {
        lemma_norm_up_range(exp, man);
    }
}

/// Halving an oversized mantissa while raising the exponent builds the
/// same scalar.
pub proof fn lemma_make_halve(neg: bool, exp: int, man: nat)
    requires
        man >= MAN_LIM as nat,
    ensures
        spec_make(neg, exp, man) == spec_make(neg, exp + 1, man / 2),
{
    assert(norm_down(exp, man) == norm_down(exp + 1, man / 2));
}

/// Doubling an undersized mantissa while lowering the exponent builds
/// the same scalar.
pub proof fn lemma_make_double(neg: bool, exp: int, man: nat)
    requires
        1 <= man < MAN_MIN as nat,
    ensures
        spec_make(neg, exp, man) == spec_make(neg, exp - 1, man * 2),
{
    assert(norm_up(exp, man) == norm_up(exp - 1, man * 2));
}

/// A normalized mantissa is stored as given, up to exponent clamping.
pub proof fn lemma_make_fixed(neg: bool, exp: int, man: nat)
    requires
        MAN_MIN as nat <= man < MAN_LIM as nat,
    ensures
        spec_make(neg, exp, man) == Fx::clamped(neg, exp, man),
{
}

/// Negation commutes with building a scalar.
pub proof fn lemma_make_neg(neg: bool, exp: int, man: nat)
    ensures
        spec_fneg(spec_make(neg, exp, man)) == spec_make(!neg, exp, man),
{
    lemma_make_wf(neg, exp, man);
    lemma_make_wf(!neg, exp, man);
    if man == 0 {
    } else if man >= MAN_LIM as nat {
        lemma_norm_down_range(exp, man);
    } else {
        lemma_norm_up_range(exp, man);
    }
}

/// Negation is an involution.
pub proof fn lemma_fneg_involution(a: Fx)
    ensures
        spec_fneg(spec_fneg(a)) == a,
{
}

/// Adding a well-formed zero changes nothing.
pub proof fn lemma_fadd_zero(a: Fx)
    requires
        a.wf(),
    ensures
        spec_fadd(a, Fx::spec_zero()) == a,
        spec_fadd(Fx::spec_zero(), a) == a,
{
}

/// Addition of well-formed scalars is commutative.
pub proof fn lemma_fadd_comm(a: Fx, b: Fx)
    requires
        a.wf(),
        b.wf(),
    ensures
        spec_fadd(a, b) == spec_fadd(b, a),
{
    if a.man == 0 || b.man == 0 {
    } else if mag_lt(a, b) {
        assert(!mag_lt(b, a));
    } else if mag_lt(b, a) {
    } else {
        vstd::arithmetic::power2::lemma2_to64();
        assert(a.exp == b.exp && a.man == b.man);
        assert(a.man as nat / vstd::arithmetic::power2::pow2(0) == a.man as nat);
        assert(b.man as nat / vstd::arithmetic::power2::pow2(0) == b.man as nat);
        if a.neg == b.neg {
            assert(spec_fadd(a, b) == spec_make(a.neg, a.exp as int, (a.man + b.man) as nat));
            assert(spec_fadd(b, a) == spec_make(b.neg, b.exp as int, (b.man + a.man) as nat));
        } else {
            assert(spec_fadd(a, b) == Fx::spec_zero());
            assert(spec_fadd(b, a) == Fx::spec_zero());
        }
    }
}

/// Negating both operands negates the sum.
pub proof fn lemma_fadd_neg(a: Fx, b: Fx)
    ensures
        spec_fadd(spec_fneg(a), spec_fneg(b)) == spec_fneg(spec_fadd(a, b)),
{
    if a.man == 0 || b.man == 0 {
    } else {
        let na = spec_fneg(a);
        let nb = spec_fneg(b);
        assert(mag_lt(na, nb) == mag_lt(a, b));
        let hi = if mag_lt(a, b) { b } else { a };
        let lo = if mag_lt(a, b) { a } else { b };
        let diff = hi.exp - lo.exp;
        let lom: nat = if diff >= 64 {
            0nat
        } else {
            lo.man as nat / vstd::arithmetic::power2::pow2(diff as nat)
        };
        if hi.neg == lo.neg {
            lemma_make_neg(hi.neg, hi.exp as int, (hi.man + lom) as nat);
        } else if hi.man <= lom {
        } else {
            lemma_make_neg(hi.neg, hi.exp as int, (hi.man - lom) as nat);
        }
    }
}

/// Negating the left factor negates the product.
pub proof fn lemma_fmul_neg_left(a: Fx, b: Fx)
    ensures
        spec_fmul(spec_fneg(a), b) == spec_fneg(spec_fmul(a, b)),
{
    if a.man != 0 && b.man != 0 {
        lemma_make_neg(a.neg != b.neg, a.exp + b.exp, (a.man * b.man) as nat);
    }
}

/// Negating both factors leaves the product unchanged.
pub proof fn lemma_fmul_neg_both(a: Fx, b: Fx)
    ensures
        spec_fmul(spec_fneg(a), spec_fneg(b)) == spec_fmul(a, b),
{
}

/// Swapping the operands of a difference negates it exactly.
pub proof fn lemma_fsub_antisym(a: Fx, b: Fx)
    requires
        a.wf(),
        b.wf(),
    ensures
        spec_fsub(b, a) == spec_fneg(spec_fsub(a, b)),
{
    lemma_fadd_comm(b, spec_fneg(a));
    lemma_fneg_involution(b);
    lemma_fadd_neg(a, spec_fneg(b));
}

impl Fx {
    /// The zero scalar.
    pub fn zero() -> (r: Fx)
        ensures
            r == Fx::spec_zero(),
            r.wf(),
    {
        Fx { neg: false, exp: 0, man: 0 }
    }

    fn mag_lt_exec(a: &Fx, b: &Fx) -> (r: bool)
        ensures
            r == mag_lt(*a, *b),
    {
        a.exp < b.exp || (a.exp == b.exp && a.man < b.man)
    }

    /// Build `(-1)^neg * man * 2^exp`, normalizing and clamping.
    pub fn make(neg: bool, exp: i64, man: u64) -> (r: Fx)
        requires
            -3_000_000 <= exp <= 3_000_000,
        ensures
            r == spec_make(neg, exp as int, man as nat),
            r.wf(),
    {
        proof {
            lemma_make_wf(neg, exp as int, man as nat);
        }
        if man == 0 {
            return Fx::zero();
        }
        let mut e: i128 = exp as i128;
        let mut m: u64 = man;
        while m >= MAN_LIM
            invariant
                1 <= m,
                exp as int <= e <= exp as int + (man as int - m as int),
                -3_000_000 <= exp <= 3_000_000,
                spec_make(neg, exp as int, man as nat) == spec_make(neg, e as int, m as nat),
            decreases m,
        {
            proof {
                lemma_make_halve(neg, e as int, m as nat);
            }
            m = m / 2;
            e = e + 1;
        }
        while m < MAN_MIN
            invariant
                1 <= m < MAN_LIM,
                e >= exp as int + 1 - m as int,
                e <= exp as int + man as int,
                -3_000_000 <= exp <= 3_000_000,
                spec_make(neg, exp as int, man as nat) == spec_make(neg, e as int, m as nat),
            decreases MAN_LIM - m,
        {
            proof {
                lemma_make_double(neg, e as int, m as nat);
            }
            m = m * 2;
            e = e - 1;
        }
        proof {
            lemma_make_fixed(neg, e as int, m as nat);
        }
        if e > EXP_MAX as i128 {
            Fx { neg, exp: EXP_MAX, man: MAN_LIM - 1 }
        } else if e < EXP_MIN as i128 {
            Fx::zero()
        } else {
            Fx { neg, exp: e as i64, man: m }
        }
    }

    /// Build the scalar for a machine integer.
    pub fn from_i64(v: i64) -> (r: Fx)
        ensures
            r == spec_from_i64(v),
            r.wf(),
    {
        if v == 0 {
            Fx::zero()
        } else if v < 0 {
            let m: u64 = if v == i64::MIN {
                0x8000_0000_0000_0000u64
            } else {
                (-v) as u64
            };
            Fx::make(true, 0, m)
        } else {
            Fx::make(false, 0, v as u64)
        }
    }

    pub fn is_zero(&self) -> (r: bool)
        ensures
            r == (self.man == 0),
    {
        self.man == 0
    }

    pub fn fneg(self) -> (r: Fx)
        requires
            self.wf(),
        ensures
            r == spec_fneg(self),
            r.wf(),
    {
        if self.man == 0 {
            self
        } else {
            Fx { neg: !self.neg, ..self }
        }
    }

    /// Truncating addition.
    pub fn fadd(self, other: Fx) -> (r: Fx)
        requires
            self.wf(),
            other.wf(),
        ensures
            r == spec_fadd(self, other),
            r.wf(),
    {
        if self.man == 0 {
            return other;
        }
        if other.man == 0 {
            return self;
        }
        let swap = Fx::mag_lt_exec(&self, &other);
        let hi = if swap { other } else { self };
        let lo = if swap { self } else { other };
        let diff: i64 = hi.exp - lo.exp;
        let lom: u64 = if diff >= 64 {
            0
        } else {
            proof {
                vstd::bits::lemma_u64_shr_is_div(lo.man, diff as u64);
                let lm = lo.man;
                let d = diff as u64;
                assert(lm >> d <= lm) by (bit_vector);
            }
            lo.man >> (diff as u64)
        };
        if hi.neg == lo.neg {
            Fx::make(hi.neg, hi.exp, hi.man + lom)
        } else if hi.man <= lom {
            Fx::zero()
        } else {
            Fx::make(hi.neg, hi.exp, hi.man - lom)
        }
    }

    /// Truncating subtraction.
    pub fn fsub(self, other: Fx) -> (r: Fx)
        requires
            self.wf(),
            other.wf(),
        ensures
            r == spec_fsub(self, other),
            r.wf(),
    {
        self.fadd(other.fneg())
    }

    /// Truncating multiplication.
    pub fn fmul(self, other: Fx) -> (r: Fx)
        requires
            self.wf(),
            other.wf(),
        ensures
            r == spec_fmul(self, other),
            r.wf(),
    {
        if self.man == 0 || other.man == 0 {
            Fx::zero()
        } else {
            proof {
                assert(self.man as int * other.man as int <= 0xFFFF_FFFFi64 as int
                    * 0xFFFF_FFFFi64 as int) by (nonlinear_arith)
                    requires
                        self.man <= 0xFFFF_FFFFu64,
                        other.man <= 0xFFFF_FFFFu64,
                ;
            }
            let p: u64 = self.man * other.man;
            Fx::make(self.neg != other.neg, self.exp + other.exp, p)
        }
    }

    /// Truncating division; a zero divisor yields zero.
    pub fn fdiv(self, other: Fx) -> (r: Fx)
        requires
            self.wf(),
            other.wf(),
        ensures
            r == spec_fdiv(self, other),
            r.wf(),
    {
        if self.man == 0 || other.man == 0 {
            Fx::zero()
        } else {
            proof {
                assert(self.man as int * MAN_MIN as int <= 0xFFFF_FFFFi64 as int
                    * 0x8000_0000i64 as int) by (nonlinear_arith)
                    requires
                        self.man <= 0xFFFF_FFFFu64,
                ;
            }
            let num: u64 = self.man * MAN_MIN;
            let q: u64 = num / other.man;
            Fx::make(self.neg != other.neg, self.exp - other.exp - 31, q)
        }
    }

    /// Truncating square root; a negative operand yields zero.
    pub fn fsqrt(self) -> (r: Fx)
        requires
            self.wf(),
        ensures
            r == spec_fsqrt(self),
            r.wf(),
    {
        if self.neg || self.man == 0 {
            return Fx::zero();
        }
        let t: u64 = (self.exp - EXP_MIN) as u64;
        let odd = t % 2 == 1;
        proof {
            assert(self.exp as int == t as int + EXP_MIN as int);
            assert(odd == (self.exp as int % 2 != 0));
        }
        let (m2, e2): (u64, i64) = if odd {
            proof {
                assert(self.man as int * MAN_MIN as int <= 0xFFFF_FFFFi64 as int
                    * 0x8000_0000i64 as int) by (nonlinear_arith)
                    requires
                        self.man <= 0xFFFF_FFFFu64,
                ;
            }
            (self.man * MAN_MIN, self.exp - 31)
        } else {
            proof {
                assert(self.man as int * 0x4000_0000i64 as int <= 0xFFFF_FFFFi64 as int
                    * 0x4000_0000i64 as int) by (nonlinear_arith)
                    requires
                        self.man <= 0xFFFF_FFFFu64,
                ;
            }
            (self.man * 0x4000_0000u64, self.exp - 30)
        };
        let s: u64 = isqrt64(m2);
        let u: u64 = (e2 + 1_000_032) as u64;
        let half: i64 = (u / 2) as i64 - 500_016;
        proof {
            assert(u as int == e2 as int + 1_000_032);
            assert(e2 as int % 2 == 0);
            assert(half as int == e2 as int / 2);
        }
        Fx::make(false, half, s)
    }

    /// Value order: `self <= other`.
    pub fn fle(&self, other: &Fx) -> (r: bool)
        requires
            self.wf(),
            other.wf(),
        ensures
            r == spec_fle(*self, *other),
    {
        if self.neg && !other.neg {
            true
        } else if !self.neg && other.neg {
            false
        } else if !self.neg && !other.neg {
            if self.man == 0 {
                true
            } else if other.man == 0 {
                false
            } else {
                !Fx::mag_lt_exec(other, self)
            }
        } else {
            !Fx::mag_lt_exec(self, other)
        }
    }
}

proof fn lemma_isqrt_bounds(n: nat)
    ensures
        spec_isqrt(n) * spec_isqrt(n) <= n,
        n < (spec_isqrt(n) + 1) * (spec_isqrt(n) + 1),
    decreases n,
{
    if n == 0 {
        assert(spec_isqrt(0) == 0);
        assert((0nat + 1) * (0nat + 1) == 1) by (nonlinear_arith);
    } else {
        lemma_isqrt_bounds((n - 1) as nat);
        let r = spec_isqrt((n - 1) as nat);
        if (r + 1) * (r + 1) <= n {
            assert(spec_isqrt(n) == r + 1);
            assert(n < ((r + 1) + 1) * ((r + 1) + 1)) by (nonlinear_arith)
                requires
                    (n - 1) < (r + 1) * (r + 1),
                    (r + 1) * (r + 1) <= n,
            ;
        } else {
            assert(spec_isqrt(n) == r);
            assert(r * r <= n - 1);
        }
    }
}

proof fn lemma_isqrt_unique(n: nat, r1: nat, r2: nat)
    requires
        r1 * r1 <= n < (r1 + 1) * (r1 + 1),
        r2 * r2 <= n < (r2 + 1) * (r2 + 1),
    ensures
        r1 == r2,
{
    assert(r1 == r2) by (nonlinear_arith)
        requires
            r1 * r1 <= n < (r1 + 1) * (r1 + 1),
            r2 * r2 <= n < (r2 + 1) * (r2 + 1),
    ;
}

/// Integer square root by bisection.
fn isqrt64(n: u64) -> (r: u64)
    ensures
        r as nat == spec_isqrt(n as nat),
{
    let mut lo: u64 = 0;
    let mut hi: u64 = 0x1_0000_0000;
    proof {
        assert((0x1_0000_0000u64 as nat) * (0x1_0000_0000u64 as nat) > n as nat)
            by (nonlinear_arith)
            requires
                n <= 0xFFFF_FFFF_FFFF_FFFFu64,
        ;
    }
    while hi - lo > 1
        invariant
            lo < hi <= 0x1_0000_0000u64,
            (lo as nat) * (lo as nat) <= n as nat,
            (n as nat) < (hi as nat) * (hi as nat),
        decreases hi - lo,
    {
        let mid: u64 = lo + (hi - lo) / 2;
        proof {
            assert(mid as int * mid as int <= 0x1_0000_0000i128 as int
                * 0x1_0000_0000i128 as int) by (nonlinear_arith)
                requires
                    mid <= 0x1_0000_0000u64,
            ;
        }
        if (mid as u128) * (mid as u128) <= n as u128 {
            lo = mid;
        } else {
            hi = mid;
        }
    }
    proof {
        lemma_isqrt_bounds(n as nat);
        lemma_isqrt_unique(n as nat, lo as nat, spec_isqrt(n as nat));
    }
    lo
}

} // verus!
