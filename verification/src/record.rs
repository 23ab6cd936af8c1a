//! The array-of-records universe layout.
//!
//! Each body's full state is stored contiguously as a [`Body`] record.
//! Every operation refines the same step function as the
//! parallel-array layout ([`crate::universe::Universe`]), including the
//! accumulation order inside the force kernel, so the two layouts
//! produce identical trajectories from identical initial conditions.

use vstd::prelude::*;

use crate::fx::Fx;
use crate::universe::Body;
use crate::universe::all_dvs;
use crate::universe::commit_position;
use crate::universe::commit_velocity;
use crate::universe::dv_pair;
use crate::universe::dv_pair_vals;
use crate::universe::dv_prefix;
use crate::universe::dv_total;
use crate::universe::gravitational_constant;
use crate::universe::step_spec;
use crate::vec3::Vector3;

verus! {

/// The array-of-records universe: an index-stable vector of bodies
/// whose length is fixed after population.
#[derive(Debug)]
pub struct RecordUniverse {
    pub bodies: Vec<Body>,
}

impl View for RecordUniverse {
    type V = Seq<Body>;

    open spec fn view(&self) -> Seq<Body> {
        self.bodies@
    }
}

impl RecordUniverse {
    pub open spec fn wf(self) -> bool {
        forall|i: int| 0 <= i < self.bodies@.len() ==> self.bodies@[i].wf()
    }

    pub fn new() -> (r: RecordUniverse)
        ensures
            r@.len() == 0,
            r.wf(),
    {
        RecordUniverse { bodies: Vec::new() }
    }

    /// Append one body; the only way the population ever grows.
    pub fn push_body(&mut self, b: Body)
        requires
            old(self).wf(),
            b.wf(),
        ensures
            final(self)@ == old(self)@.push(b),
            final(self).wf(),
    {
        self.bodies.push(b);
    }

    /// Number of bodies.
    pub fn len(&self) -> (n: usize)
        ensures
            n == self@.len(),
    {
        self.bodies.len()
    }

    /// Consistent snapshot of body `i`.
    pub fn body(&self, i: usize) -> (b: Body)
        requires
            self.wf(),
            i < self@.len(),
        ensures
            b == self@[i as int],
            b.wf(),
    {
        self.bodies[i]
    }

    /// One pairwise contribution, computed with the vector primitives.
    /// The squared distance accumulates in the same order as the
    /// coordinate-array kernel, so both layouts agree exactly.
    fn pair_dv(&self, p0: Vector3, m0: Fx, j: usize, duration: Fx) -> (dv: Vector3)
        requires
            self.wf(),
            j < self@.len(),
            p0.wf(),
            m0.wf(),
            duration.wf(),
        ensures
            dv == dv_pair_vals(p0, m0, self@[j as int].position, self@[j as int].mass, duration),
            dv.wf(),
    {
        let b1 = self.bodies[j];
        let r = p0.vsub(b1.position);
        let rsq = r.x.fmul(r.x).fadd(r.y.fmul(r.y).fadd(r.z.fmul(r.z)));
        let fg = gravitational_constant().fmul(m0).fmul(b1.mass).fdiv(rsq);
        let normal = Fx::from_i64(1).fdiv(rsq.fsqrt());
        let nfd = normal.fmul(fg).fmul(duration);
        r.smul(nfd)
    }

    /// The net velocity delta for body `i`, accumulated in ascending
    /// index order over the two ranges below and above `i`.
    #[verifier::rlimit(60)]
    pub fn compute_dv(&self, i: usize, duration: Fx) -> (dv: Vector3)
        requires
            self.wf(),
            i < self@.len(),
            duration.wf(),
        ensures
            dv == dv_total(self@, i as int, duration),
            dv.wf(),
    {
        let mut acc = Vector3::zero();
        let p0 = self.bodies[i].position;
        let m0 = self.bodies[i].mass;
        let n = self.bodies.len();
        let mut j: usize = 0;
        while j < i
            invariant
                self.wf(),
                i < self@.len(),
                j <= i,
                duration.wf(),
                p0.wf(),
                m0.wf(),
                p0 == self@[i as int].position,
                m0 == self@[i as int].mass,
                acc.wf(),
                acc == dv_prefix(self@, i as int, duration, j as int),
            decreases i - j,
        {
            let d = self.pair_dv(p0, m0, j, duration);
            proof {
                assert(dv_prefix(self@, i as int, duration, j + 1) == Vector3::spec_vadd(
                    dv_prefix(self@, i as int, duration, j as int),
                    dv_pair(self@, i as int, j as int, duration),
                ));
            }
            acc = acc.vadd(d);
            j = j + 1;
        }
        proof {
            assert(dv_prefix(self@, i as int, duration, i + 1) == dv_prefix(
                self@,
                i as int,
                duration,
                i as int,
            ));
        }
        let mut j: usize = i + 1;
        while j < n
            invariant
                self.wf(),
                i < self@.len(),
                n == self@.len(),
                i + 1 <= j <= n,
                duration.wf(),
                p0.wf(),
                m0.wf(),
                p0 == self@[i as int].position,
                m0 == self@[i as int].mass,
                acc.wf(),
                acc == dv_prefix(self@, i as int, duration, j as int),
            decreases n - j,
        {
            let d = self.pair_dv(p0, m0, j, duration);
            proof {
                assert(dv_prefix(self@, i as int, duration, j + 1) == Vector3::spec_vadd(
                    dv_prefix(self@, i as int, duration, j as int),
                    dv_pair(self@, i as int, j as int, duration),
                ));
            }
            acc = acc.vadd(d);
            j = j + 1;
        }
        acc
    }

    /// Commit phase for velocities: add `dvs[i]` to velocity `i`.
    pub fn commit_velocities(&mut self, dvs: &Vec<Vector3>)
        requires
            old(self).wf(),
            dvs@.len() == old(self)@.len(),
            forall|k: int| 0 <= k < dvs@.len() ==> #[trigger] dvs@[k].wf(),
        ensures
            final(self)@ == commit_velocity(old(self)@, dvs@),
            final(self).wf(),
    {
        let n = self.bodies.len();
        let mut i: usize = 0;
        while i < n
            invariant
                self.wf(),
                n == self@.len(),
                i <= n,
                old(self)@.len() == n,
                dvs@.len() == n,
                forall|k: int| 0 <= k < dvs@.len() ==> #[trigger] dvs@[k].wf(),
                forall|k: int| i <= k < n ==> #[trigger] self@[k] == old(self)@[k],
                forall|k: int|
                    0 <= k < i ==> #[trigger] self@[k] == commit_velocity(old(self)@, dvs@)[k],
            decreases n - i,
        {
            let ghost pre = *self;
            let mut b = self.bodies[i];
            b.velocity = b.velocity.vadd(dvs[i]);
            self.bodies[i] = b;
            proof {
                let cv = commit_velocity(old(self)@, dvs@);
                assert(self@[i as int] == cv[i as int]);
                assert forall|k: int|
                    i as int + 1 <= k < n implies (#[trigger] self@[k]) == old(self)@[k] by {
                    assert(self@[k] == pre@[k]);
                    assert(pre@[k] == old(self)@[k]);
                }
                assert forall|k: int| 0 <= k < i as int + 1 implies (#[trigger] self@[k]) == cv[k] by {
                    if k < i as int {
                        assert(self@[k] == pre@[k]);
                        assert(pre@[k] == cv[k]);
                    }
                }
            }
            i = i + 1;
        }
        proof {
            assert(self@ =~= commit_velocity(old(self)@, dvs@));
        }
    }

    /// Compute phase plus velocity commit, as in the parallel-array
    /// layout.  `dvs` is a reusable buffer; entry `i` of the result
    /// corresponds to body `i`.
    pub fn update_velocities(&mut self, dvs: &mut Vec<Vector3>, duration: Fx)
        requires
            old(self).wf(),
            duration.wf(),
        ensures
            final(self)@ == commit_velocity(old(self)@, all_dvs(old(self)@, duration)),
            final(self).wf(),
            final(dvs)@ == all_dvs(old(self)@, duration),
    {
        let n = self.bodies.len();
        dvs.clear();
        let mut i: usize = 0;
        while i < n
            invariant
                self.wf(),
                self == old(self),
                n == self@.len(),
                i <= n,
                duration.wf(),
                dvs@.len() == i,
                forall|k: int| 0 <= k < i ==> #[trigger] dvs@[k].wf(),
                forall|k: int| 0 <= k < i ==> #[trigger] dvs@[k] == dv_total(self@, k, duration),
            decreases n - i,
        {
            let d = self.compute_dv(i, duration);
            dvs.push(d);
            i = i + 1;
        }
        proof {
            assert(dvs@ =~= all_dvs(self@, duration));
        }
        self.commit_velocities(dvs);
    }

    /// Commit phase for positions: advance every body by its own
    /// velocity.
    pub fn update_positions(&mut self, duration: Fx)
        requires
            old(self).wf(),
            duration.wf(),
        ensures
            final(self)@ == commit_position(old(self)@, duration),
            final(self).wf(),
    {
        let n = self.bodies.len();
        let mut i: usize = 0;
        while i < n
            invariant
                self.wf(),
                n == self@.len(),
                i <= n,
                old(self)@.len() == n,
                duration.wf(),
                forall|k: int| i <= k < n ==> #[trigger] self@[k] == old(self)@[k],
                forall|k: int|
                    0 <= k < i ==> #[trigger] self@[k] == commit_position(old(self)@, duration)[k],
            decreases n - i,
        {
            let ghost pre = *self;
            let mut b = self.bodies[i];
            b.advance(duration);
            self.bodies[i] = b;
            proof {
                let cp = commit_position(old(self)@, duration);
                assert(self@[i as int] == cp[i as int]);
                assert forall|k: int|
                    i as int + 1 <= k < n implies (#[trigger] self@[k]) == old(self)@[k] by {
                    assert(self@[k] == pre@[k]);
                    assert(pre@[k] == old(self)@[k]);
                }
                assert forall|k: int| 0 <= k < i as int + 1 implies (#[trigger] self@[k]) == cp[k] by {
                    if k < i as int {
                        assert(self@[k] == pre@[k]);
                        assert(pre@[k] == cp[k]);
                    }
                }
            }
            i = i + 1;
        }
        proof {
            assert(self@ =~= commit_position(old(self)@, duration));
        }
    }

    /// One full integration step, refining the same step function as
    /// the parallel-array layout.
    pub fn step(&mut self, dvs: &mut Vec<Vector3>, duration: Fx)
        requires
            old(self).wf(),
            duration.wf(),
        ensures
            final(self)@ == step_spec(old(self)@, duration),
            final(self)@.len() == old(self)@.len(),
            final(self).wf(),
    {
        self.update_velocities(dvs, duration);
        self.update_positions(duration);
    }
}

} // verus!
