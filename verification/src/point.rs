//! Points in space.
use crate::scalar::Scalar;
use crate::vec::Vec3;
use vstd::prelude::*;

verus! {

/// A position in space.
#[derive(Clone, Copy, Debug, PartialEq, Eq, Structural)]
pub struct Point3(pub Vec3);

impl Point3 {
    pub fn new(e0: Scalar, e1: Scalar, e2: Scalar) -> (r: Point3)
        ensures
            r == Point3(Vec3 { x: e0, y: e1, z: e2 }),
    {
        Point3(Vec3::new(e0, e1, e2))
    }

    pub fn x(&self) -> (r: Scalar)
        ensures
            r == self.0.x,
    {
        self.0.x()
    }

    pub fn y(&self) -> (r: Scalar)
        ensures
            r == self.0.y,
    {
        self.0.y()
    }

    pub fn z(&self) -> (r: Scalar)
        ensures
            r == self.0.z,
    {
        self.0.z()
    }
}

impl Default for Point3 {
    /// The origin.
    fn default() -> (r: Point3)
        ensures
            r == Point3(
                Vec3 { x: Scalar { bits: 0 }, y: Scalar { bits: 0 }, z: Scalar { bits: 0 } },
            ),
    {
        Point3(Vec3::default())
    }
}

} // verus!
