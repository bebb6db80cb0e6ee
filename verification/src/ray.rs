//! Rays: an origin and a direction.

use crate::scalar::Scalar;
use crate::vec3::Vec3;
use vstd::prelude::*;

verus! {

/// A half-line of points `origin + direction * t`. The direction need not
/// have length one.
#[derive(Clone, Copy, Debug, PartialEq, Eq, Structural)]
pub struct Ray {
    pub origin: Vec3,
    pub direction: Vec3,
}

impl Ray {
    /// The point at parameter `t`.
    pub open spec fn spec_at(self, t: Scalar) -> Vec3 {
        self.origin.plus(self.direction.scaled(t))
    }

    pub fn new(origin: Vec3, direction: Vec3) -> (r: Ray)
        ensures
            r == (Ray { origin, direction }),
    {
        Ray { origin, direction }
    }

    pub fn origin(&self) -> (r: Vec3)
        ensures
            r == self.origin,
    {
        self.origin
    }

    pub fn direction(&self) -> (r: Vec3)
        ensures
            r == self.direction,
    {
        self.direction
    }

    pub fn at(&self, t: Scalar) -> (r: Vec3)
        ensures
            r == self.spec_at(t),
    {
        self.origin + self.direction * t
    }
}

} // verus!
