//! Three-component vector arithmetic over the relaxed-precision scalar.
//!
//! All binary operators combine two vectors component-wise; the scalar
//! product scales all three components; the dot product accumulates the
//! component products left to right.  Value-returning operations and
//! their in-place variants have identical numeric semantics.

use vstd::prelude::*;

use crate::fx::Fx;
use crate::fx::spec_fadd;
use crate::fx::spec_fdiv;
use crate::fx::spec_fmul;
use crate::fx::spec_fneg;
use crate::fx::spec_fsqrt;
use crate::fx::spec_fsub;
use crate::fx::spec_from_i64;

verus! {

/// An immutable value type: three scalar components.
#[derive(Clone, Copy, Debug, PartialEq, Eq, Structural)]
pub struct Vector3 {
    pub x: Fx,
    pub y: Fx,
    pub z: Fx,
}

impl Vector3 {
    pub open spec fn wf(self) -> bool {
        self.x.wf() && self.y.wf() && self.z.wf()
    }

    pub open spec fn spec_zero() -> Vector3 {
        Vector3 { x: Fx::spec_zero(), y: Fx::spec_zero(), z: Fx::spec_zero() }
    }

    pub open spec fn spec_vadd(a: Vector3, b: Vector3) -> Vector3 {
        Vector3 { x: spec_fadd(a.x, b.x), y: spec_fadd(a.y, b.y), z: spec_fadd(a.z, b.z) }
    }

    pub open spec fn spec_vsub(a: Vector3, b: Vector3) -> Vector3 {
        Vector3 { x: spec_fsub(a.x, b.x), y: spec_fsub(a.y, b.y), z: spec_fsub(a.z, b.z) }
    }

    pub open spec fn spec_vmul(a: Vector3, b: Vector3) -> Vector3 {
        Vector3 { x: spec_fmul(a.x, b.x), y: spec_fmul(a.y, b.y), z: spec_fmul(a.z, b.z) }
    }

    pub open spec fn spec_vdiv(a: Vector3, b: Vector3) -> Vector3 {
        Vector3 { x: spec_fdiv(a.x, b.x), y: spec_fdiv(a.y, b.y), z: spec_fdiv(a.z, b.z) }
    }

    pub open spec fn spec_smul(a: Vector3, s: Fx) -> Vector3 {
        Vector3 { x: spec_fmul(a.x, s), y: spec_fmul(a.y, s), z: spec_fmul(a.z, s) }
    }

    pub open spec fn spec_vneg(a: Vector3) -> Vector3 {
        Vector3 { x: spec_fneg(a.x), y: spec_fneg(a.y), z: spec_fneg(a.z) }
    }

    /// Sum of the component products, accumulated left to right.
    pub open spec fn spec_dotp(a: Vector3, b: Vector3) -> Fx {
        spec_fadd(spec_fadd(spec_fmul(a.x, b.x), spec_fmul(a.y, b.y)), spec_fmul(a.z, b.z))
    }

    pub open spec fn spec_distance_squared(a: Vector3, b: Vector3) -> Fx {
        Vector3::spec_dotp(Vector3::spec_vsub(a, b), Vector3::spec_vsub(a, b))
    }

    pub open spec fn spec_distance(a: Vector3, b: Vector3) -> Fx {
        spec_fsqrt(Vector3::spec_distance_squared(a, b))
    }

    /// The vector scaled by the reciprocal of its own magnitude.  A
    /// zero vector has zero magnitude; the reciprocal degenerates to
    /// zero, so the result is the zero vector.
    pub open spec fn spec_normalized(a: Vector3) -> Vector3 {
        Vector3::spec_smul(
            a,
            spec_fdiv(spec_from_i64(1), spec_fsqrt(Vector3::spec_dotp(a, a))),
        )
    }

    pub open spec fn spec_direction(a: Vector3, b: Vector3) -> Vector3 {
        Vector3::spec_normalized(Vector3::spec_vsub(a, b))
    }

    pub fn new(x: Fx, y: Fx, z: Fx) -> (r: Vector3)
        ensures
            r == (Vector3 { x, y, z }),
    {
        Vector3 { x, y, z }
    }

    pub fn zero() -> (r: Vector3)
        ensures
            r == Vector3::spec_zero(),
            r.wf(),
    {
        Vector3 { x: Fx::zero(), y: Fx::zero(), z: Fx::zero() }
    }

    pub fn vadd(self, rhs: Vector3) -> (r: Vector3)
        requires
            self.wf(),
            rhs.wf(),
        ensures
            r == Vector3::spec_vadd(self, rhs),
            r.wf(),
    {
        Vector3 { x: self.x.fadd(rhs.x), y: self.y.fadd(rhs.y), z: self.z.fadd(rhs.z) }
    }

    pub fn vsub(self, rhs: Vector3) -> (r: Vector3)
        requires
            self.wf(),
            rhs.wf(),
        ensures
            r == Vector3::spec_vsub(self, rhs),
            r.wf(),
    {
        Vector3 { x: self.x.fsub(rhs.x), y: self.y.fsub(rhs.y), z: self.z.fsub(rhs.z) }
    }

    pub fn vmul(self, rhs: Vector3) -> (r: Vector3)
        requires
            self.wf(),
            rhs.wf(),
        ensures
            r == Vector3::spec_vmul(self, rhs),
            r.wf(),
    {
        Vector3 { x: self.x.fmul(rhs.x), y: self.y.fmul(rhs.y), z: self.z.fmul(rhs.z) }
    }

    pub fn vdiv(self, rhs: Vector3) -> (r: Vector3)
        requires
            self.wf(),
            rhs.wf(),
        ensures
            r == Vector3::spec_vdiv(self, rhs),
            r.wf(),
    {
        Vector3 { x: self.x.fdiv(rhs.x), y: self.y.fdiv(rhs.y), z: self.z.fdiv(rhs.z) }
    }

    pub fn smul(self, s: Fx) -> (r: Vector3)
        requires
            self.wf(),
            s.wf(),
        ensures
            r == Vector3::spec_smul(self, s),
            r.wf(),
    {
        Vector3 { x: self.x.fmul(s), y: self.y.fmul(s), z: self.z.fmul(s) }
    }

    pub fn vneg(self) -> (r: Vector3)
        requires
            self.wf(),
        ensures
            r == Vector3::spec_vneg(self),
            r.wf(),
    {
        Vector3 { x: self.x.fneg(), y: self.y.fneg(), z: self.z.fneg() }
    }

    pub fn vadd_assign(&mut self, rhs: Vector3)
        requires
            old(self).wf(),
            rhs.wf(),
        ensures
            *final(self) == Vector3::spec_vadd(*old(self), rhs),
            final(self).wf(),
    {
        *self = self.vadd(rhs);
    }

    pub fn vsub_assign(&mut self, rhs: Vector3)
        requires
            old(self).wf(),
            rhs.wf(),
        ensures
            *final(self) == Vector3::spec_vsub(*old(self), rhs),
            final(self).wf(),
    {
        *self = self.vsub(rhs);
    }

    pub fn vmul_assign(&mut self, rhs: Vector3)
        requires
            old(self).wf(),
            rhs.wf(),
        ensures
            *final(self) == Vector3::spec_vmul(*old(self), rhs),
            final(self).wf(),
    {
        *self = self.vmul(rhs);
    }

    pub fn vdiv_assign(&mut self, rhs: Vector3)
        requires
            old(self).wf(),
            rhs.wf(),
        ensures
            *final(self) == Vector3::spec_vdiv(*old(self), rhs),
            final(self).wf(),
    {
        *self = self.vdiv(rhs);
    }

    pub fn smul_assign(&mut self, s: Fx)
        requires
            old(self).wf(),
            s.wf(),
        ensures
            *final(self) == Vector3::spec_smul(*old(self), s),
            final(self).wf(),
    {
        *self = self.smul(s);
    }

    pub fn dotp(a: &Vector3, b: &Vector3) -> (r: Fx)
        requires
            a.wf(),
            b.wf(),
        ensures
            r == Vector3::spec_dotp(*a, *b),
            r.wf(),
    {
        a.x.fmul(b.x).fadd(a.y.fmul(b.y)).fadd(a.z.fmul(b.z))
    }

    pub fn distance_squared(a: &Vector3, b: &Vector3) -> (r: Fx)
        requires
            a.wf(),
            b.wf(),
        ensures
            r == Vector3::spec_distance_squared(*a, *b),
            r.wf(),
    {
        let d = a.vsub(*b);
        Vector3::dotp(&d, &d)
    }

    pub fn distance(a: &Vector3, b: &Vector3) -> (r: Fx)
        requires
            a.wf(),
            b.wf(),
        ensures
            r == Vector3::spec_distance(*a, *b),
            r.wf(),
    {
        Vector3::distance_squared(a, b).fsqrt()
    }

    pub fn normalized(self) -> (r: Vector3)
        requires
            self.wf(),
        ensures
            r == Vector3::spec_normalized(self),
            r.wf(),
    {
        let d = Vector3::dotp(&self, &self).fsqrt();
        self.smul(Fx::from_i64(1).fdiv(d))
    }

    pub fn normalize(&mut self)
        requires
            old(self).wf(),
        ensures
            *final(self) == Vector3::spec_normalized(*old(self)),
            final(self).wf(),
    {
        *self = self.normalized();
    }

    pub fn direction(a: Vector3, b: Vector3) -> (r: Vector3)
        requires
            a.wf(),
            b.wf(),
        ensures
            r == Vector3::spec_direction(a, b),
            r.wf(),
    {
        a.vsub(b).normalized()
    }
}

} // verus!
