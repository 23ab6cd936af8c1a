//! Laws of the integrator, stated and proved over the step function
//! that both storage layouts refine.

use vstd::prelude::*;

use crate::fx::Fx;
use crate::fx::lemma_fadd_zero;
use crate::fx::lemma_fmul_neg_both;
use crate::fx::lemma_fmul_neg_left;
use crate::fx::lemma_fsub_antisym;
use crate::fx::spec_fadd;
use crate::fx::spec_fdiv;
use crate::fx::spec_fmul;
use crate::fx::spec_fneg;
use crate::fx::spec_from_i64;
use crate::fx::spec_fsqrt;
use crate::fx::spec_fsub;
use crate::record::RecordUniverse;
use crate::universe::Body;
use crate::universe::Universe;
use crate::universe::all_dvs;
use crate::universe::commit_velocity;
use crate::universe::dv_pair;
use crate::universe::dv_prefix;
use crate::universe::dv_total;
use crate::universe::run_spec;
use crate::universe::seq_wf;
use crate::universe::spec_gravity;
use crate::universe::step_spec;
use crate::vec3::Vector3;

verus! {

/// Zero-force idempotence: a single isolated body receives no velocity
/// delta from the (empty) force kernel, so each step leaves its
/// velocity and mass unchanged and advances its position by exactly
/// velocity times duration.
pub proof fn lemma_zero_force_idempotence(s: Seq<Body>, duration: Fx)
    requires
        s.len() == 1,
        seq_wf(s),
    ensures
        step_spec(s, duration).len() == 1,
        step_spec(s, duration)[0].velocity == s[0].velocity,
        step_spec(s, duration)[0].position == Vector3::spec_vadd(
            s[0].position,
            Vector3::spec_smul(s[0].velocity, duration),
        ),
        step_spec(s, duration)[0].mass == s[0].mass,
{
    assert(dv_prefix(s, 0, duration, 1) == dv_prefix(s, 0, duration, 0));
    assert(dv_total(s, 0, duration) == Vector3::spec_zero());
    lemma_fadd_zero(s[0].velocity.x);
    lemma_fadd_zero(s[0].velocity.y);
    lemma_fadd_zero(s[0].velocity.z);
    let cv = commit_velocity(s, all_dvs(s, duration));
    assert(cv[0].velocity == s[0].velocity);
    assert(step_spec(s, duration)[0] == cv[0].spec_advance(duration));
}

/// Symmetry: for two bodies whose force magnitudes agree (the two
/// mass products truncate identically, as they always do for equal
/// masses), the velocity delta computed for body 1 from body 0 is the
/// exact negation of the one computed for body 0 from body 1.  When
/// the mass products truncate differently, the deltas are opposite
/// only up to the final truncation — the tolerance of the relaxed
/// arithmetic — and this law does not cover those inputs.
pub proof fn lemma_two_body_antisymmetry(s: Seq<Body>, duration: Fx)
    requires
        s.len() == 2,
        seq_wf(s),
        spec_fmul(spec_fmul(spec_gravity(), s[0].mass), s[1].mass) == spec_fmul(
            spec_fmul(spec_gravity(), s[1].mass),
            s[0].mass,
        ),
    ensures
        dv_total(s, 1, duration) == Vector3::spec_vneg(dv_total(s, 0, duration)),
{
    let p0 = s[0].position;
    let p1 = s[1].position;
    assert(dv_prefix(s, 0, duration, 0) == Vector3::spec_zero());
    assert(dv_prefix(s, 1, duration, 0) == Vector3::spec_zero());
    assert(dv_prefix(s, 0, duration, 1) == Vector3::spec_zero());
    assert(dv_prefix(s, 1, duration, 1) == Vector3::spec_vadd(
        Vector3::spec_zero(),
        dv_pair(s, 1, 0, duration),
    ));
    assert(dv_prefix(s, 1, duration, 1) == dv_pair(s, 1, 0, duration));
    assert(dv_total(s, 0, duration) == dv_pair(s, 0, 1, duration));
    assert(dv_total(s, 1, duration) == dv_pair(s, 1, 0, duration));

    let rx = spec_fsub(p0.x, p1.x);
    let ry = spec_fsub(p0.y, p1.y);
    let rz = spec_fsub(p0.z, p1.z);
    lemma_fsub_antisym(p0.x, p1.x);
    lemma_fsub_antisym(p0.y, p1.y);
    lemma_fsub_antisym(p0.z, p1.z);
    assert(spec_fsub(p1.x, p0.x) == spec_fneg(rx));
    assert(spec_fsub(p1.y, p0.y) == spec_fneg(ry));
    assert(spec_fsub(p1.z, p0.z) == spec_fneg(rz));

    lemma_fmul_neg_both(rx, rx);
    lemma_fmul_neg_both(ry, ry);
    lemma_fmul_neg_both(rz, rz);
    let rsq = spec_fadd(spec_fmul(rx, rx), spec_fadd(spec_fmul(ry, ry), spec_fmul(rz, rz)));
    let fg = spec_fdiv(spec_fmul(spec_fmul(spec_gravity(), s[0].mass), s[1].mass), rsq);
    let normal = spec_fdiv(spec_from_i64(1), spec_fsqrt(rsq));
    let nfd = spec_fmul(spec_fmul(normal, fg), duration);
    assert(dv_pair(s, 0, 1, duration) == (Vector3 {
        x: spec_fmul(rx, nfd),
        y: spec_fmul(ry, nfd),
        z: spec_fmul(rz, nfd),
    }));
    assert(dv_pair(s, 1, 0, duration) == (Vector3 {
        x: spec_fmul(spec_fneg(rx), nfd),
        y: spec_fmul(spec_fneg(ry), nfd),
        z: spec_fmul(spec_fneg(rz), nfd),
    }));

    lemma_fmul_neg_left(rx, nfd);
    lemma_fmul_neg_left(ry, nfd);
    lemma_fmul_neg_left(rz, nfd);
}

/// Layout equivalence: both storage layouts refine the same step
/// function (`Universe::step` and `RecordUniverse::step` each ensure
/// that the final view is `step_spec` of the old one), so identical
/// initial populations produce identical trajectories, step for step.
pub proof fn lemma_layout_equivalence(u: Universe, r: RecordUniverse, duration: Fx, n: nat)
    requires
        u@ == r@,
    ensures
        run_spec(u@, duration, n) == run_spec(r@, duration, n),
{
}

/// Determinism: a step is a pure function of the snapshot and the
/// duration, so two independent runs from equal populations with equal
/// parameters end in equal states after any number of steps.
pub proof fn lemma_determinism(s1: Seq<Body>, s2: Seq<Body>, duration: Fx, n: nat)
    requires
        s1 == s2,
    ensures
        run_spec(s1, duration, n) == run_spec(s2, duration, n),
{
}

/// Monotonic population invariant: the body count is constant across
/// any number of steps.
pub proof fn lemma_population_constant(s: Seq<Body>, duration: Fx, n: nat)
    ensures
        run_spec(s, duration, n).len() == s.len(),
    decreases n,
{
    if n > 0 {
        assert(step_spec(s, duration).len() == s.len());
        lemma_population_constant(step_spec(s, duration), duration, (n - 1) as nat);
    }
}

} // verus!
