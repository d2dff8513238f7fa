//! The camera: maps normalized pixel coordinates `(u, v)` in `[0, 1]` to a
//! ray through a fixed axis-aligned frustum.

use vstd::prelude::*;

verus! {

use crate::vec3::{Vec3, V3, in_bound, v3_add, v3_sub, v3_scale, lemma_scale_component};
use crate::ray::Ray;

/// Mathematical view of a camera.
pub ghost struct CamModel {
    pub origin: V3,
    pub lower_left_corner: V3,
    pub vertical: V3,
    pub horizontal: V3,
}

/// Camera geometry within four world units of the origin.
pub open spec fn cam_wf(c: CamModel) -> bool {
    &&& in_bound(c.origin, 262144)
    &&& in_bound(c.lower_left_corner, 262144)
    &&& in_bound(c.vertical, 262144)
    &&& in_bound(c.horizontal, 262144)
}

/// The ray direction for normalized coordinates `(u, v)`:
/// `lower_left + u * horizontal + v * vertical - origin`.
pub open spec fn camera_ray_dir(c: CamModel, u: int, v: int) -> V3 {
    v3_sub(
        v3_add(v3_add(c.lower_left_corner, v3_scale(c.horizontal, u)), v3_scale(c.vertical, v)),
        c.origin,
    )
}

pub struct Camera {
    origin: Vec3,
    lower_left_corner: Vec3,
    vertical: Vec3,
    horizontal: Vec3,
}

impl View for Camera {
    type V = CamModel;

    closed spec fn view(&self) -> CamModel {
        CamModel {
            origin: self.origin@,
            lower_left_corner: self.lower_left_corner@,
            vertical: self.vertical@,
            horizontal: self.horizontal@,
        }
    }
}

impl Camera {
    /// A fixed axis-aligned frustum: two units wide and one high on each
    /// side, one unit in front of the origin.  The field-of-view and aspect
    /// parameters are accepted for interface stability and not yet used.
    pub fn new(_vfov: i64, _aspect: i64) -> (r: Camera)
        ensures
            r@ == (CamModel {
                origin: V3 { x: 0, y: 0, z: 0 },
                lower_left_corner: V3 { x: -131072, y: -65536, z: -65536 },
                vertical: V3 { x: 0, y: 131072, z: 0 },
                horizontal: V3 { x: 262144, y: 0, z: 0 },
            }),
            cam_wf(r@),
    {
        Camera {
            lower_left_corner: Vec3::new(-131072, -65536, -65536),
            horizontal: Vec3::new(262144, 0, 0),
            vertical: Vec3::new(0, 131072, 0),
            origin: Vec3::new(0, 0, 0),
        }
    }

    /// The ray through normalized pixel coordinates `(u, v)`.
    pub fn get_ray(&self, u: i64, v: i64) -> (r: Ray)
        requires
            cam_wf(self@),
            0 <= u <= 65536,
            0 <= v <= 65536,
        ensures
            r.origin@ == self@.origin,
            r.direction@ == camera_ray_dir(self@, u as int, v as int),
            in_bound(r.direction@, 1048576),
    {
        proof {
            lemma_scale_component(self@.horizontal.x, u as int, 262144, 65536);
            lemma_scale_component(self@.horizontal.y, u as int, 262144, 65536);
            lemma_scale_component(self@.horizontal.z, u as int, 262144, 65536);
            lemma_scale_component(self@.vertical.x, v as int, 262144, 65536);
            lemma_scale_component(self@.vertical.y, v as int, 262144, 65536);
            lemma_scale_component(self@.vertical.z, v as int, 262144, 65536);
        }
        let h = self.horizontal.scale(u);
        let w = self.vertical.scale(v);
        Ray::new(
            self.origin,
            self.lower_left_corner.add(&h).add(&w).sub(&self.origin),
        )
    }
}

} // verus!
