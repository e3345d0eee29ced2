use vstd::prelude::*;

verus! {

/// A 3-component integer vector (fixed-point; the caller picks the scale).
#[derive(Clone, Copy, PartialEq, Eq, Structural, Debug)]
pub struct Vec3i {
    pub x: i64,
    pub y: i64,
    pub z: i64,
}

/// The mathematical (unbounded) value of a `Vec3i`.
pub ghost struct V3Model {
    pub x: int,
    pub y: int,
    pub z: int,
}

impl View for Vec3i {
    type V = V3Model;

    open spec fn view(&self) -> V3Model {
        V3Model { x: self.x as int, y: self.y as int, z: self.z as int }
    }
}

impl Vec3i {
    pub fn new(x: i64, y: i64, z: i64) -> (v: Vec3i)
        ensures
            v@ == (V3Model { x: x as int, y: y as int, z: z as int }),
    {
        Vec3i { x, y, z }
    }

    pub fn zero() -> (v: Vec3i)
        ensures
            v@ == (V3Model { x: 0int, y: 0int, z: 0int }),
    {
        Vec3i { x: 0, y: 0, z: 0 }
    }
}

} // verus!
