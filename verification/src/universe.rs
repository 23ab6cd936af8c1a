//! The universe store and the integration step.
//!
//! A universe is an index-stable population of bodies whose length is
//! fixed after construction.  One integration step has two phases: a
//! read-only pass computes, for every body, the net velocity delta
//! induced by every other body (each pair is evaluated independently
//! from both endpoints, so the per-body computations are independent of
//! one another), then a serial commit adds the deltas to the velocities
//! and finally advances every position by its updated velocity.
//!
//! Two storage layouts are provided: [`Universe`] keeps three parallel
//! coordinate arrays per attribute, [`RecordUniverse`] keeps an array of
//! [`Body`] records.  Both refine the same step function `step_spec`, so
//! their trajectories agree exactly.

use vstd::prelude::*;

use crate::fx::Fx;
use crate::fx::spec_fadd;
use crate::fx::spec_fdiv;
use crate::fx::spec_fmul;
use crate::fx::spec_from_i64;
use crate::fx::spec_fsqrt;
use crate::fx::spec_fsub;
use crate::vec3::Vector3;

verus! {

/// The per-particle state: position, velocity, mass.  Identity is the
/// index into the owning collection.
#[derive(Clone, Copy, Debug, PartialEq, Eq, Structural)]
pub struct Body {
    pub position: Vector3,
    pub velocity: Vector3,
    pub mass: Fx,
}

impl Body {
    pub open spec fn wf(self) -> bool {
        self.position.wf() && self.velocity.wf() && self.mass.wf()
    }

    /// Position advanced by velocity over a duration; velocity and mass
    /// unchanged.
    pub open spec fn spec_advance(self, duration: Fx) -> Body {
        Body {
            position: Vector3::spec_vadd(self.position, Vector3::spec_smul(self.velocity, duration)),
            ..self
        }
    }

    /// Advance the position by the velocity over `duration`.
    pub fn advance(&mut self, duration: Fx)
        requires
            old(self).wf(),
            duration.wf(),
        ensures
            *final(self) == old(self).spec_advance(duration),
            final(self).wf(),
    {
        self.position = self.position.vadd(self.velocity.smul(duration));
    }
}

/// All bodies of a snapshot are well-formed.
pub open spec fn seq_wf(s: Seq<Body>) -> bool {
    forall|i: int| 0 <= i < s.len() ==> s[i].wf()
}

/// All three components of a velocity-delta entry are well-formed.
pub open spec fn tuple_wf(t: (Fx, Fx, Fx)) -> bool {
    t.0.wf() && t.1.wf() && t.2.wf()
}

/// The gravitational constant, 6673 / 10^14.
pub open spec fn spec_gravity() -> Fx {
    spec_fdiv(
        spec_from_i64(6673),
        spec_fmul(spec_from_i64(10_000_000), spec_from_i64(10_000_000)),
    )
}

/// The gravitational constant as a scalar value.
pub fn gravitational_constant() -> (r: Fx)
    ensures
        r == spec_gravity(),
        r.wf(),
{
    Fx::from_i64(6673).fdiv(Fx::from_i64(10_000_000).fmul(Fx::from_i64(10_000_000)))
}

/// Velocity delta induced on a body at `p0` with mass `m0` by a body at
/// `p1` with mass `m1` during one step of length `duration`:
/// the separation `r = p0 - p1` points from the other body to this one;
/// `fg = G * m0 * m1 / |r|^2` scales the unit separation vector, so the
/// delta is `r * (1 / |r|) * fg * duration`, accumulated component-wise
/// in a fixed order.  Coincident positions make `|r|^2` zero and the
/// degenerate quotients collapse to a zero delta.
pub open spec fn dv_pair_vals(p0: Vector3, m0: Fx, p1: Vector3, m1: Fx, duration: Fx) -> Vector3 {
    let rx = spec_fsub(p0.x, p1.x);
    let ry = spec_fsub(p0.y, p1.y);
    let rz = spec_fsub(p0.z, p1.z);
    let rsq = spec_fadd(spec_fmul(rx, rx), spec_fadd(spec_fmul(ry, ry), spec_fmul(rz, rz)));
    let fg = spec_fdiv(spec_fmul(spec_fmul(spec_gravity(), m0), m1), rsq);
    let normal = spec_fdiv(spec_from_i64(1), spec_fsqrt(rsq));
    let nfd = spec_fmul(spec_fmul(normal, fg), duration);
    Vector3 { x: spec_fmul(rx, nfd), y: spec_fmul(ry, nfd), z: spec_fmul(rz, nfd) }
}

/// Velocity delta that body `j` induces on body `i`.
pub open spec fn dv_pair(s: Seq<Body>, i: int, j: int, duration: Fx) -> Vector3
    recommends
        0 <= i < s.len(),
        0 <= j < s.len(),
{
    dv_pair_vals(s[i].position, s[i].mass, s[j].position, s[j].mass, duration)
}

/// Velocity delta accumulated for body `i` from the bodies `j` in
/// `[0, k)` with `j != i`, in ascending order of `j`.
pub open spec fn dv_prefix(s: Seq<Body>, i: int, duration: Fx, k: int) -> Vector3
    decreases k,
{
    if k <= 0 {
        Vector3::spec_zero()
    } else if k - 1 == i {
        dv_prefix(s, i, duration, k - 1)
    } else {
        Vector3::spec_vadd(dv_prefix(s, i, duration, k - 1), dv_pair(s, i, k - 1, duration))
    }
}

/// Net velocity delta for body `i` from every other body.
pub open spec fn dv_total(s: Seq<Body>, i: int, duration: Fx) -> Vector3 {
    dv_prefix(s, i, duration, s.len() as int)
}

/// The whole compute phase: one delta per body, order-matched to index.
pub open spec fn all_dvs(s: Seq<Body>, duration: Fx) -> Seq<Vector3> {
    Seq::new(s.len(), |i: int| dv_total(s, i, duration))
}

/// Commit phase, velocities: add `dvs[i]` to the velocity of body `i`.
pub open spec fn commit_velocity(s: Seq<Body>, dvs: Seq<Vector3>) -> Seq<Body>
    recommends
        dvs.len() == s.len(),
{
    Seq::new(s.len(), |i: int| Body { velocity: Vector3::spec_vadd(s[i].velocity, dvs[i]), ..s[i] })
}

/// Commit phase, positions: advance every body by its own velocity.
pub open spec fn commit_position(s: Seq<Body>, duration: Fx) -> Seq<Body> {
    Seq::new(s.len(), |i: int| s[i].spec_advance(duration))
}

/// One full integration step: compute all deltas from the old snapshot,
/// commit them to the velocities, then advance the positions.
pub open spec fn step_spec(s: Seq<Body>, duration: Fx) -> Seq<Body> {
    commit_position(commit_velocity(s, all_dvs(s, duration)), duration)
}

/// `n` integration steps.
pub open spec fn run_spec(s: Seq<Body>, duration: Fx, n: nat) -> Seq<Body>
    decreases n,
{
    if n == 0 {
        s
    } else {
        run_spec(step_spec(s, duration), duration, (n - 1) as nat)
    }
}

/// Running one more step continues the run: `n + 1` steps are `n`
/// steps followed by one.
pub proof fn lemma_run_unfold(s: Seq<Body>, duration: Fx, n: nat)
    ensures
        run_spec(s, duration, n + 1) == step_spec(run_spec(s, duration, n), duration),
    decreases n,
{
    if n == 0 {
        assert(run_spec(s, duration, 1) == run_spec(step_spec(s, duration), duration, 0));
        assert(run_spec(step_spec(s, duration), duration, 0) == step_spec(s, duration));
        assert(run_spec(s, duration, 0) == s);
    } else {
        lemma_run_unfold(step_spec(s, duration), duration, (n - 1) as nat);
        assert(run_spec(s, duration, n + 1) == run_spec(step_spec(s, duration), duration, n));
        assert(run_spec(s, duration, n) == run_spec(step_spec(s, duration), duration, (n - 1) as nat));
    }
}

/// The velocity-delta buffer as vectors.
pub open spec fn dvs_view(dvs: Seq<(Fx, Fx, Fx)>) -> Seq<Vector3> {
    Seq::new(dvs.len(), |i: int| Vector3 { x: dvs[i].0, y: dvs[i].1, z: dvs[i].2 })
}

/// Three equal-length coordinate arrays, one per axis.
#[derive(Debug)]
pub struct V3v {
    pub x: Vec<Fx>,
    pub y: Vec<Fx>,
    pub z: Vec<Fx>,
}

impl V3v {
    pub open spec fn wf(self) -> bool {
        &&& self.x@.len() == self.y@.len()
        &&& self.x@.len() == self.z@.len()
        &&& forall|i: int| 0 <= i < self.x@.len() ==> self.x@[i].wf()
        &&& forall|i: int| 0 <= i < self.y@.len() ==> self.y@[i].wf()
        &&& forall|i: int| 0 <= i < self.z@.len() ==> self.z@[i].wf()
    }

    /// The vector stored at index `i`.
    pub open spec fn at(self, i: int) -> Vector3 {
        Vector3 { x: self.x@[i], y: self.y@[i], z: self.z@[i] }
    }

    pub fn new() -> (r: V3v)
        ensures
            r.x@.len() == 0,
            r.wf(),
    {
        V3v { x: Vec::new(), y: Vec::new(), z: Vec::new() }
    }
}

/// The parallel-array universe: three coordinate arrays for position,
/// three for velocity, one mass array, all describing body `i` through
/// the same index.  The view is the sequence of bodies; the length
/// never changes after population (no removal interface exists).
#[derive(Debug)]
pub struct Universe {
    pub position: V3v,
    pub velocity: V3v,
    pub mass: Vec<Fx>,
}

impl View for Universe {
    type V = Seq<Body>;

    open spec fn view(&self) -> Seq<Body> {
        Seq::new(
            self.mass@.len(),
            |i: int| Body { position: self.position.at(i), velocity: self.velocity.at(i), mass: self.mass@[i] },
        )
    }
}

impl Universe {
    /// All seven arrays have the same length and hold well-formed
    /// scalars.
    pub open spec fn wf(self) -> bool {
        &&& self.position.wf()
        &&& self.velocity.wf()
        &&& self.position.x@.len() == self.mass@.len()
        &&& self.velocity.x@.len() == self.mass@.len()
        &&& forall|i: int| 0 <= i < self.mass@.len() ==> self.mass@[i].wf()
    }

    pub fn new() -> (r: Universe)
        ensures
            r@.len() == 0,
            r.wf(),
    {
        Universe { position: V3v::new(), velocity: V3v::new(), mass: Vec::new() }
    }

    /// Append one body; the only way the population ever grows.
    pub fn push_body(&mut self, b: Body)
        requires
            old(self).wf(),
            b.wf(),
        ensures
            final(self)@ == old(self)@.push(b),
            final(self).wf(),
    {
        self.position.x.push(b.position.x);
        self.position.y.push(b.position.y);
        self.position.z.push(b.position.z);
        self.velocity.x.push(b.velocity.x);
        self.velocity.y.push(b.velocity.y);
        self.velocity.z.push(b.velocity.z);
        self.mass.push(b.mass);
        proof {
            assert(self@ =~= old(self)@.push(b));
        }
    }

    /// Number of bodies.
    pub fn len(&self) -> (n: usize)
        ensures
            n == self@.len(),
    {
        self.mass.len()
    }

    /// Consistent snapshot of body `i`.
    pub fn body(&self, i: usize) -> (b: Body)
        requires
            self.wf(),
            i < self@.len(),
        ensures
            b == self@[i as int],
            b.wf(),
    {
        Body {
            position: Vector3 { x: self.position.x[i], y: self.position.y[i], z: self.position.z[i] },
            velocity: Vector3 { x: self.velocity.x[i], y: self.velocity.y[i], z: self.velocity.z[i] },
            mass: self.mass[i],
        }
    }

    /// One pairwise contribution: the velocity delta induced by body
    /// `j` on a body at `(p0x, p0y, p0z)` with mass `m0`.
    pub fn compute_dv_step(
        &self,
        p0x: Fx,
        p0y: Fx,
        p0z: Fx,
        m0: Fx,
        j: usize,
        duration: Fx,
    ) -> (dv: (Fx, Fx, Fx))
        requires
            self.wf(),
            j < self@.len(),
            p0x.wf(),
            p0y.wf(),
            p0z.wf(),
            m0.wf(),
            duration.wf(),
        ensures
            (Vector3 { x: dv.0, y: dv.1, z: dv.2 }) == dv_pair_vals(
                Vector3 { x: p0x, y: p0y, z: p0z },
                m0,
                self@[j as int].position,
                self@[j as int].mass,
                duration,
            ),
            dv.0.wf(),
            dv.1.wf(),
            dv.2.wf(),
    {
        let p1x = self.position.x[j];
        let p1y = self.position.y[j];
        let p1z = self.position.z[j];
        let m1 = self.mass[j];
        let rx = p0x.fsub(p1x);
        let ry = p0y.fsub(p1y);
        let rz = p0z.fsub(p1z);
        let rsq = rx.fmul(rx).fadd(ry.fmul(ry).fadd(rz.fmul(rz)));
        let fg = gravitational_constant().fmul(m0).fmul(m1).fdiv(rsq);
        let normal = Fx::from_i64(1).fdiv(rsq.fsqrt());
        let nfd = normal.fmul(fg).fmul(duration);
        (rx.fmul(nfd), ry.fmul(nfd), rz.fmul(nfd))
    }

    /// The net velocity delta for body `i`: every other body's
    /// contribution, accumulated in ascending index order over the two
    /// ranges below and above `i` (the self-pair is skipped without a
    /// branch).
    #[verifier::rlimit(60)]
    pub fn compute_dv(&self, i: usize, duration: Fx) -> (dv: (Fx, Fx, Fx))
        requires
            self.wf(),
            i < self@.len(),
            duration.wf(),
        ensures
            (Vector3 { x: dv.0, y: dv.1, z: dv.2 }) == dv_total(self@, i as int, duration),
            dv.0.wf(),
            dv.1.wf(),
            dv.2.wf(),
    {
        let mut dvx = Fx::zero();
        let mut dvy = Fx::zero();
        let mut dvz = Fx::zero();
        let p0x = self.position.x[i];
        let p0y = self.position.y[i];
        let p0z = self.position.z[i];
        let m0 = self.mass[i];
        let ghost p0 = Vector3 { x: p0x, y: p0y, z: p0z };
        let n = self.mass.len();
        let mut j: usize = 0;
        while j < i
            invariant
                self.wf(),
                i < self@.len(),
                j <= i,
                duration.wf(),
                p0x.wf(),
                p0y.wf(),
                p0z.wf(),
                m0.wf(),
                p0 == (Vector3 { x: p0x, y: p0y, z: p0z }),
                p0 == self@[i as int].position,
                m0 == self@[i as int].mass,
                dvx.wf(),
                dvy.wf(),
                dvz.wf(),
                (Vector3 { x: dvx, y: dvy, z: dvz }) == dv_prefix(self@, i as int, duration, j as int),
            decreases i - j,
        {
            let (dx, dy, dz) = self.compute_dv_step(p0x, p0y, p0z, m0, j, duration);
            proof {
                assert(dv_prefix(self@, i as int, duration, j + 1) == Vector3::spec_vadd(
                    dv_prefix(self@, i as int, duration, j as int),
                    dv_pair(self@, i as int, j as int, duration),
                ));
            }
            dvx = dvx.fadd(dx);
            dvy = dvy.fadd(dy);
            dvz = dvz.fadd(dz);
            j = j + 1;
        }
        proof {
            assert(dv_prefix(self@, i as int, duration, i + 1) == dv_prefix(
                self@,
                i as int,
                duration,
                i as int,
            ));
        }
        let mut j: usize = i + 1;
        while j < n
            invariant
                self.wf(),
                i < self@.len(),
                n == self@.len(),
                i + 1 <= j <= n,
                duration.wf(),
                p0x.wf(),
                p0y.wf(),
                p0z.wf(),
                m0.wf(),
                p0 == (Vector3 { x: p0x, y: p0y, z: p0z }),
                p0 == self@[i as int].position,
                m0 == self@[i as int].mass,
                dvx.wf(),
                dvy.wf(),
                dvz.wf(),
                (Vector3 { x: dvx, y: dvy, z: dvz }) == dv_prefix(self@, i as int, duration, j as int),
            decreases n - j,
        {
            let (dx, dy, dz) = self.compute_dv_step(p0x, p0y, p0z, m0, j, duration);
            proof {
                assert(dv_prefix(self@, i as int, duration, j + 1) == Vector3::spec_vadd(
                    dv_prefix(self@, i as int, duration, j as int),
                    dv_pair(self@, i as int, j as int, duration),
                ));
            }
            dvx = dvx.fadd(dx);
            dvy = dvy.fadd(dy);
            dvz = dvz.fadd(dz);
            j = j + 1;
        }
        (dvx, dvy, dvz)
    }

    /// Commit phase for velocities: add `dvs[i]` to velocity `i`.
    /// Strictly serial, under exclusive access.
    pub fn commit_velocities(&mut self, dvs: &Vec<(Fx, Fx, Fx)>)
        requires
            old(self).wf(),
            dvs@.len() == old(self)@.len(),
            forall|k: int| 0 <= k < dvs@.len() ==> #[trigger] tuple_wf(dvs@[k]),
        ensures
            final(self)@ == commit_velocity(old(self)@, dvs_view(dvs@)),
            final(self).wf(),
    {
        let n = self.mass.len();
        let mut i: usize = 0;
        while i < n
            invariant
                self.wf(),
                n == self@.len(),
                i <= n,
                old(self)@.len() == n,
                dvs@.len() == n,
                forall|k: int| 0 <= k < dvs@.len() ==> #[trigger] tuple_wf(dvs@[k]),
                forall|k: int| i <= k < n ==> #[trigger] self@[k] == old(self)@[k],
                forall|k: int|
                    0 <= k < i ==> #[trigger] self@[k] == commit_velocity(
                        old(self)@,
                        dvs_view(dvs@),
                    )[k],
            decreases n - i,
        {
            let ghost pre = *self;
            let d = dvs[i];
            proof {
                assert(tuple_wf(dvs@[i as int]));
                assert(pre@[i as int] == old(self)@[i as int]);
            }
            let t0 = self.velocity.x[i].fadd(d.0);
            let t1 = self.velocity.y[i].fadd(d.1);
            let t2 = self.velocity.z[i].fadd(d.2);
            self.velocity.x[i] = t0;
            self.velocity.y[i] = t1;
            self.velocity.z[i] = t2;
            proof {
                let cv = commit_velocity(old(self)@, dvs_view(dvs@));
                assert(self@[i as int] == cv[i as int]);
                assert forall|k: int|
                    i as int + 1 <= k < n implies (#[trigger] self@[k]) == old(self)@[k] by {
                    assert(self.velocity.x@[k] == pre.velocity.x@[k]);
                    assert(self.velocity.y@[k] == pre.velocity.y@[k]);
                    assert(self.velocity.z@[k] == pre.velocity.z@[k]);
                    assert(pre@[k] == old(self)@[k]);
                    assert(self@[k] == pre@[k]);
                }
                assert forall|k: int| 0 <= k < i as int + 1 implies (#[trigger] self@[k]) == cv[k] by {
                    if k < i as int {
                        assert(self.velocity.x@[k] == pre.velocity.x@[k]);
                        assert(self.velocity.y@[k] == pre.velocity.y@[k]);
                        assert(self.velocity.z@[k] == pre.velocity.z@[k]);
                        assert(pre@[k] == cv[k]);
                        assert(self@[k] == pre@[k]);
                    }
                }
            }
            i = i + 1;
        }
        proof {
            assert(self@ =~= commit_velocity(old(self)@, dvs_view(dvs@)));
        }
    }

    /// Compute phase plus velocity commit: fill `dvs` with every body's
    /// net velocity delta from a consistent snapshot, then add the
    /// deltas to the velocities.  `dvs` is a reusable buffer whose old
    /// contents are discarded; entry `i` of the result corresponds to
    /// body `i`.
    pub fn update_velocities(&mut self, dvs: &mut Vec<(Fx, Fx, Fx)>, duration: Fx)
        requires
            old(self).wf(),
            duration.wf(),
        ensures
            final(self)@ == commit_velocity(old(self)@, all_dvs(old(self)@, duration)),
            final(self).wf(),
            dvs_view(final(dvs)@) == all_dvs(old(self)@, duration),
            final(dvs)@.len() == old(self)@.len(),
            forall|k: int| 0 <= k < final(dvs)@.len() ==> #[trigger] tuple_wf(final(dvs)@[k]),
    {
        let n = self.mass.len();
        dvs.clear();
        let mut i: usize = 0;
        while i < n
            invariant
                self.wf(),
                self == old(self),
                n == self@.len(),
                i <= n,
                duration.wf(),
                dvs@.len() == i,
                forall|k: int| 0 <= k < i ==> #[trigger] tuple_wf(dvs@[k]),
                forall|k: int|
                    0 <= k < i ==> (Vector3 { x: dvs@[k].0, y: dvs@[k].1, z: dvs@[k].2 })
                        == dv_total(self@, k, duration),
            decreases n - i,
        {
            let d = self.compute_dv(i, duration);
            dvs.push(d);
            i = i + 1;
        }
        proof {
            assert(dvs_view(dvs@) =~= all_dvs(self@, duration));
        }
        self.commit_velocities(dvs);
    }

    /// Commit phase for positions: advance every body's position by its
    /// updated velocity.  Strictly serial; order-independent across
    /// bodies.
    pub fn update_positions(&mut self, duration: Fx)
        requires
            old(self).wf(),
            duration.wf(),
        ensures
            final(self)@ == commit_position(old(self)@, duration),
            final(self).wf(),
    {
        let n = self.mass.len();
        let mut i: usize = 0;
        while i < n
            invariant
                self.wf(),
                n == self@.len(),
                i <= n,
                old(self)@.len() == n,
                duration.wf(),
                forall|k: int|
                    i <= k < n ==> #[trigger] self@[k] == old(self)@[k],
                forall|k: int|
                    0 <= k < i ==> #[trigger] self@[k] == commit_position(old(self)@, duration)[k],
            decreases n - i,
        {
            let ghost pre = *self;
            proof {
                assert(pre@[i as int] == old(self)@[i as int]);
            }
            let t0 = self.position.x[i].fadd(self.velocity.x[i].fmul(duration));
            let t1 = self.position.y[i].fadd(self.velocity.y[i].fmul(duration));
            let t2 = self.position.z[i].fadd(self.velocity.z[i].fmul(duration));
            self.position.x[i] = t0;
            self.position.y[i] = t1;
            self.position.z[i] = t2;
            proof {
                let cp = commit_position(old(self)@, duration);
                assert(self@[i as int] == cp[i as int]);
                assert forall|k: int|
                    i as int + 1 <= k < n implies (#[trigger] self@[k]) == old(self)@[k] by {
                    assert(self.position.x@[k] == pre.position.x@[k]);
                    assert(self.position.y@[k] == pre.position.y@[k]);
                    assert(self.position.z@[k] == pre.position.z@[k]);
                    assert(pre@[k] == old(self)@[k]);
                    assert(self@[k] == pre@[k]);
                }
                assert forall|k: int| 0 <= k < i as int + 1 implies (#[trigger] self@[k]) == cp[k] by {
                    if k < i as int {
                        assert(self.position.x@[k] == pre.position.x@[k]);
                        assert(self.position.y@[k] == pre.position.y@[k]);
                        assert(self.position.z@[k] == pre.position.z@[k]);
                        assert(pre@[k] == cp[k]);
                        assert(self@[k] == pre@[k]);
                    }
                }
            }
            i = i + 1;
        }
        proof {
            assert(self@ =~= commit_position(old(self)@, duration));
        }
    }

    /// One full integration step: compute, barrier, commit velocities,
    /// commit positions.  All-or-nothing from the caller's view.
    pub fn step(&mut self, dvs: &mut Vec<(Fx, Fx, Fx)>, duration: Fx)
        requires
            old(self).wf(),
            duration.wf(),
        ensures
            final(self)@ == step_spec(old(self)@, duration),
            final(self)@.len() == old(self)@.len(),
            final(self).wf(),
    {
        self.update_velocities(dvs, duration);
        self.update_positions(duration);
    }

    /// Advance the universe by `steps` full integration steps.  No two
    /// steps' mutations interleave: step `k + 1` starts from the state
    /// step `k` committed.
    pub fn run(&mut self, dvs: &mut Vec<(Fx, Fx, Fx)>, duration: Fx, steps: usize)
        requires
            old(self).wf(),
            duration.wf(),
        ensures
            final(self)@ == run_spec(old(self)@, duration, steps as nat),
            final(self)@.len() == old(self)@.len(),
            final(self).wf(),
    {
        let mut k: usize = 0;
        while k < steps
            invariant
                self.wf(),
                duration.wf(),
                k <= steps,
                self@ == run_spec(old(self)@, duration, k as nat),
            decreases steps - k,
        {
            self.step(dvs, duration);
            proof {
                lemma_run_unfold(old(self)@, duration, k as nat);
            }
            k = k + 1;
        }
        proof {
            crate::laws::lemma_population_constant(old(self)@, duration, steps as nat);
        }
    }
}

} // verus!
