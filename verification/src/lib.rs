//! Brute-force gravitational N-body integrator.
//!
//! A population of point masses is advanced through discrete time steps
//! under pairwise forces.  Each step has two phases: a read-only pass
//! that computes every body's velocity delta from a consistent snapshot,
//! then a serial commit that applies the deltas and advances positions.
//! Arithmetic is the relaxed-precision scalar of [`fx`]; two storage
//! layouts (parallel coordinate arrays and an array of body records)
//! provide the same behavior.

mod fx;
mod laws;
mod record;
mod universe;
mod vec3;

pub use fx::EXP_MAX;
pub use fx::EXP_MIN;
pub use fx::Fx;
pub use fx::MAN_LIM;
pub use fx::MAN_MIN;
pub use fx::lemma_fadd_comm;
pub use fx::lemma_fadd_neg;
pub use fx::lemma_fadd_zero;
pub use fx::lemma_fmul_neg_both;
pub use fx::lemma_fmul_neg_left;
pub use fx::lemma_fneg_involution;
pub use fx::lemma_fsub_antisym;
pub use fx::lemma_make_wf;
pub use laws::lemma_determinism;
pub use laws::lemma_layout_equivalence;
pub use laws::lemma_population_constant;
pub use laws::lemma_two_body_antisymmetry;
pub use laws::lemma_zero_force_idempotence;
pub use fx::mag_lt;
pub use fx::norm_down;
pub use fx::norm_up;
pub use fx::spec_fadd;
pub use fx::spec_fdiv;
pub use fx::spec_fle;
pub use fx::spec_fmul;
pub use fx::spec_fneg;
pub use fx::spec_from_i64;
pub use fx::spec_fsqrt;
pub use fx::spec_fsub;
pub use fx::spec_isqrt;
pub use fx::spec_make;
pub use record::RecordUniverse;
pub use universe::Body;
pub use universe::Universe;
pub use universe::V3v;
pub use universe::all_dvs;
pub use universe::commit_position;
pub use universe::commit_velocity;
pub use universe::dv_pair;
pub use universe::dv_pair_vals;
pub use universe::dv_prefix;
pub use universe::dv_total;
pub use universe::dvs_view;
pub use universe::gravitational_constant;
pub use universe::lemma_run_unfold;
pub use universe::run_spec;
pub use universe::seq_wf;
pub use universe::spec_gravity;
pub use universe::step_spec;
pub use universe::tuple_wf;
pub use vec3::Vector3;
