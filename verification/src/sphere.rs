//! The sphere primitive.  A negative radius gives an inverted (hollow) shell:
//! the division by the signed radius flips the outward normal.

use vstd::prelude::*;

verus! {

use crate::vec3::{Vec3, in_bound, lemma_mul_bound, lemma_dot_bound};
use crate::ray::Ray;
use crate::hitable::{
    HitRecord, ShellModel, shell_wf, shell_hit_spec, shell_disc, ray_args_ok,
    quadric_hit, WORLD_MAX, ORIGIN_MAX, DIR_MAX,
};

pub struct Sphere {
    center: Vec3,
    radius: i64,
    material_id: u32,
    radius_sqrd: i64,
    id: u32,
}

impl View for Sphere {
    type V = ShellModel;

    closed spec fn view(&self) -> ShellModel {
        ShellModel {
            center: self.center@,
            radius: self.radius as int,
            material_id: self.material_id,
            id: self.id,
        }
    }
}

impl Sphere {
    /// Well-formed: the view is a well-formed shell and the cached square of
    /// the radius is consistent.
    pub open spec fn inv(&self) -> bool {
        &&& shell_wf(self@)
        &&& self.cache_inv()
    }

    /// The cached square of the radius is consistent with the radius.
    pub closed spec fn cache_inv(&self) -> bool {
        self.radius_sqrd == self.radius * self.radius
    }

    pub fn new(center: Vec3, radius: i64, material_id: u32) -> (r: Sphere)
        requires
            in_bound(center@, WORLD_MAX as int),
            radius != 0,
            -WORLD_MAX <= radius <= WORLD_MAX,
        ensures
            r@ == (ShellModel {
                center: center@,
                radius: radius as int,
                material_id,
                id: 0,
            }),
            r.inv(),
    {
        proof {
            lemma_mul_bound(radius as int, radius as int, WORLD_MAX as int, WORLD_MAX as int);
        }
        Sphere { center, radius, material_id, radius_sqrd: radius * radius, id: 0 }
    }

    /// Nearest-root intersection over the open interval `(t_min, t_max)`.
    pub fn hit(&self, ray: &Ray, t_min: i64, t_max: i64, record: &mut HitRecord) -> (r: bool)
        requires
            self.inv(),
            ray_args_ok(ray.origin@, ray.direction@, t_min as int, t_max as int),
        ensures
            match shell_hit_spec(self@, ray.origin@, ray.direction@, t_min as int, t_max as int) {
                Some(h) => r == true && final(record)@ == h,
                None => r == false && *final(record) == *old(record),
            },
    {
        quadric_hit(
            &self.center,
            self.radius,
            self.radius_sqrd,
            self.material_id,
            self.id,
            ray,
            t_min,
            t_max,
            record,
        )
    }

    /// Discriminant-only probe: true exactly when the ray's carrier line
    /// crosses the shell.
    pub fn quick_hit(&self, ray: &Ray) -> (r: bool)
        requires
            self.inv(),
            in_bound(ray.origin@, ORIGIN_MAX as int),
            in_bound(ray.direction@, DIR_MAX as int),
        ensures
            r == (shell_disc(self@.center, self@.radius, ray.origin@, ray.direction@) > 0),
    {
        let dir = ray.get_direction();
        let oc = ray.get_origin().sub(&self.center);
        proof {
            lemma_dot_bound(dir@, dir@, DIR_MAX as int, DIR_MAX as int);
            lemma_dot_bound(oc@, dir@, 34426847232, DIR_MAX as int);
            lemma_dot_bound(oc@, oc@, 34426847232, 34426847232);
            lemma_mul_bound(self.radius as int, self.radius as int, WORLD_MAX as int, WORLD_MAX as int);
        }
        let a: i128 = dir.dot(&dir);
        let b: i128 = oc.dot(&dir);
        let cc: i128 = oc.dot(&oc) - (self.radius_sqrd as i128);
        proof {
            lemma_mul_bound(b as int, b as int, 1732759956630798336, 1732759956630798336);
            lemma_mul_bound(a as int, cc as int, 844424930131968, 3555627934606025555968);
        }
        let d: i128 = b * b - a * cc;
        d > 0
    }

    pub fn set_hitable_id(&mut self, id: u32)
        ensures
            final(self)@ == (ShellModel {
                center: old(self)@.center,
                radius: old(self)@.radius,
                material_id: old(self)@.material_id,
                id,
            }),
            old(self).inv() ==> final(self).inv(),
    {
        self.id = id;
    }

    pub fn get_center(&self) -> (r: Vec3)
        ensures
            r@ == self@.center,
    {
        self.center
    }

    pub fn get_radius(&self) -> (r: i64)
        ensures
            r == self@.radius,
    {
        self.radius
    }
}

} // verus!
