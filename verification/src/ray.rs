//! A ray: origin plus direction, both fixed-point vectors, immutable once
//! constructed.

use vstd::prelude::*;

verus! {

use crate::vec3::{Vec3, V3, v3_add, v3_scale, in_bound};

#[derive(Clone, Copy, PartialEq, Eq, Structural, Debug)]
pub struct Ray {
    pub origin: Vec3,
    pub direction: Vec3,
}

impl Ray {
    pub fn new(origin: Vec3, direction: Vec3) -> (r: Ray)
        ensures
            r.origin == origin,
            r.direction == direction,
    {
        Ray { origin, direction }
    }

    pub fn get_origin(&self) -> (r: Vec3)
        ensures
            r == self.origin,
    {
        self.origin
    }

    pub fn get_direction(&self) -> (r: Vec3)
        ensures
            r == self.direction,
    {
        self.direction
    }

    /// The point `origin + t * direction` for the fixed-point parameter `t`.
    pub fn point_at_paramater(&self, t: i64) -> (r: Vec3)
        requires
            in_bound(self.origin@, 0x1000_0000_0000_0000),
            in_bound(self.direction@, 0x4000_0000),
            -0x40_0000_0000 <= t <= 0x40_0000_0000,
        ensures
            r@ == v3_add(self.origin@, v3_scale(self.direction@, t as int)),
    {
        proof {
            crate::vec3::lemma_scale_component(self.direction@.x, t as int, 0x4000_0000, 0x40_0000_0000);
            crate::vec3::lemma_scale_component(self.direction@.y, t as int, 0x4000_0000, 0x40_0000_0000);
            crate::vec3::lemma_scale_component(self.direction@.z, t as int, 0x4000_0000, 0x40_0000_0000);
        }
        let step = self.direction.scale(t);
        self.origin.add(&step)
    }
}

} // verus!
