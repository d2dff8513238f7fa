//! Geometric primitives and the intersection contract.  A primitive is a
//! quadric shell (a sphere; a negative radius represents an inverted shell
//! whose outward normal points inward).  `hit` solves
//! `|O + t D - C|^2 = r^2` over fixed-point integers: the discriminant test
//! is exact, the parameter `t` is the truncated root, and a degenerate
//! direction or a non-positive discriminant is an ordinary miss.

use vstd::prelude::*;

verus! {

use crate::fixed::{
    tdiv, fx_div_spec, fx_div, clamp_spec, clamp_i64, isqrt_spec, isqrt, FX_ONE,
    lemma_isqrt_bounds,
};
use crate::vec3::{
    Vec3, V3, in_bound, v3_sub, v3_add, v3_scale, v3_dot, lemma_dot_bound,
    lemma_dot_self_nonneg, lemma_mul_bound, lemma_isqrt_upper,
    lemma_scale_component,
};
use crate::ray::Ray;

/// Largest magnitude of a scene coordinate or radius (1024.0 in world units).
pub const WORLD_MAX: i64 = 67108864;

/// Largest magnitude of a ray direction component handed to intersection.
pub const DIR_MAX: i64 = 16777216;

/// Largest magnitude of a ray origin component handed to intersection.
pub const ORIGIN_MAX: i64 = 34359738368;

/// Upper cap on the intersection interval: `t_max` never exceeds this.
pub const T_CAP: i64 = 4194304;

/// Largest magnitude of a hit position component: origin bound plus the
/// largest step `t_max * direction`.
pub const POS_MAX: i64 = 35433480192;

/// Computed surface normals are clamped to twice the unit scale per
/// component; in exact arithmetic a normal is a unit vector, so the clamp
/// only guards fixed-point rounding on thin shells.
pub const NORMAL_CAP: i64 = 131072;

/// A fatal configuration fault: the scene names a handle that the registry
/// it was built against does not hold.  Distinct from any per-ray outcome.
#[derive(Clone, Copy, PartialEq, Eq, Structural, Debug)]
pub enum RenderError {
    MissingHitable(u32),
    MissingMaterial(u32),
}

/// Mathematical view of a successful intersection.
pub ghost struct HitInfo {
    pub t: int,
    pub position: V3,
    pub normal: V3,
    pub material: u32,
    pub hitable: u32,
}

/// Result of a successful intersection; valid only when the intersection
/// call that filled it returned true.
#[derive(Clone, Copy, PartialEq, Eq, Structural, Debug)]
pub struct HitRecord {
    pub t: i64,
    pub position: Vec3,
    pub normal: Vec3,
    pub material: u32,
    pub hitable: u32,
}

impl View for HitRecord {
    type V = HitInfo;

    open spec fn view(&self) -> HitInfo {
        HitInfo {
            t: self.t as int,
            position: self.position@,
            normal: self.normal@,
            material: self.material,
            hitable: self.hitable,
        }
    }
}

impl HitRecord {
    pub fn empty() -> (r: HitRecord)
        ensures
            r@.t == 0,
            r@.position == (V3 { x: 0, y: 0, z: 0 }),
            r@.normal == (V3 { x: 0, y: 0, z: 0 }),
            r@.material == 0,
            r@.hitable == 0,
    {
        HitRecord {
            t: 0,
            position: Vec3 { x: 0, y: 0, z: 0 },
            normal: Vec3 { x: 0, y: 0, z: 0 },
            material: 0,
            hitable: 0,
        }
    }

    pub fn copy_over(&mut self, other: &HitRecord)
        ensures
            *final(self) == *other,
    {
        self.t = other.t;
        self.position = other.position;
        self.normal = other.normal;
        self.material = other.material;
        self.hitable = other.hitable;
    }
}

/// Mathematical view of a primitive: a shell with center, signed radius,
/// material handle and its own handle.
pub ghost struct ShellModel {
    pub center: V3,
    pub radius: int,
    pub material_id: u32,
    pub id: u32,
}

/// A well-formed shell: coordinates within the world bound and a nonzero
/// signed radius within it.
pub open spec fn shell_wf(m: ShellModel) -> bool {
    &&& in_bound(m.center, WORLD_MAX as int)
    &&& m.radius != 0
    &&& -(WORLD_MAX as int) <= m.radius <= WORLD_MAX as int
}

/// Arguments within the bounds the intersection routine is specified for.
pub open spec fn ray_args_ok(origin: V3, dir: V3, t_min: int, t_max: int) -> bool {
    &&& in_bound(origin, ORIGIN_MAX as int)
    &&& in_bound(dir, DIR_MAX as int)
    &&& 0 <= t_min
    &&& t_max <= T_CAP as int
}

/// The discriminant of the ray-shell quadratic, exactly.
pub open spec fn shell_disc(c: V3, radius: int, origin: V3, dir: V3) -> int {
    let oc = v3_sub(origin, c);
    let a = v3_dot(dir, dir);
    let b = v3_dot(oc, dir);
    let cc = v3_dot(oc, oc) - radius * radius;
    b * b - a * cc
}

/// The outward normal at `pos`: `(pos - center) / radius`, clamped.
pub open spec fn shell_normal(pos: V3, c: V3, radius: int) -> V3 {
    V3 {
        x: clamp_spec(fx_div_spec(pos.x - c.x, radius), -(NORMAL_CAP as int), NORMAL_CAP as int),
        y: clamp_spec(fx_div_spec(pos.y - c.y, radius), -(NORMAL_CAP as int), NORMAL_CAP as int),
        z: clamp_spec(fx_div_spec(pos.z - c.z, radius), -(NORMAL_CAP as int), NORMAL_CAP as int),
    }
}

/// The record produced for a hit at parameter `t`.
pub open spec fn shell_hit_at(m: ShellModel, origin: V3, dir: V3, t: int) -> HitInfo {
    let pos = v3_add(origin, v3_scale(dir, t));
    HitInfo {
        t,
        position: pos,
        normal: shell_normal(pos, m.center, m.radius),
        material: m.material_id,
        hitable: m.id,
    }
}

/// The full intersection contract: a positive discriminant, then the smaller
/// truncated root if it lies strictly inside `(t_min, t_max)`, else the
/// larger, else a miss.
pub open spec fn shell_hit_spec(m: ShellModel, origin: V3, dir: V3, t_min: int, t_max: int)
    -> Option<HitInfo> {
    let oc = v3_sub(origin, m.center);
    let a = v3_dot(dir, dir);
    let b = v3_dot(oc, dir);
    let d = shell_disc(m.center, m.radius, origin, dir);
    if d > 0 {
        let s = isqrt_spec(d as nat) as int;
        let t1 = tdiv((-b - s) * 65536, a);
        if t_min < t1 < t_max {
            Some(shell_hit_at(m, origin, dir, t1))
        } else {
            let t2 = tdiv((-b + s) * 65536, a);
            if t_min < t2 < t_max {
                Some(shell_hit_at(m, origin, dir, t2))
            } else {
                None
            }
        }
    } else {
        None
    }
}

/// A successful intersection yields a bounded record: the parameter inside
/// the interval, the position one step beyond the origin bound, the normal
/// clamped.
pub proof fn lemma_shell_hit_bounds(
    m: ShellModel,
    origin: V3,
    dir: V3,
    t_min: int,
    t_max: int,
    ob: int,
)
    requires
        ray_args_ok(origin, dir, t_min, t_max),
        in_bound(origin, ob),
        0 <= ob,
    ensures
        match shell_hit_spec(m, origin, dir, t_min, t_max) {
            Some(h) => in_bound(h.position, ob + 1073741824) && in_bound(
                h.normal,
                NORMAL_CAP as int,
            ) && 0 < h.t <= T_CAP as int && h.material == m.material_id && h.hitable == m.id,
            None => true,
        },
{
    if shell_hit_spec(m, origin, dir, t_min, t_max) is Some {
        let h = shell_hit_spec(m, origin, dir, t_min, t_max).unwrap();
        lemma_scale_component(dir.x, h.t, DIR_MAX as int, T_CAP as int);
        lemma_scale_component(dir.y, h.t, DIR_MAX as int, T_CAP as int);
        lemma_scale_component(dir.z, h.t, DIR_MAX as int, T_CAP as int);
    }
}

/// A hit record names the material and the handle of the shell that
/// produced it.
pub proof fn lemma_shell_hit_handles(m: ShellModel, origin: V3, dir: V3, t_min: int, t_max: int)
    ensures
        match shell_hit_spec(m, origin, dir, t_min, t_max) {
            Some(h) => h.material == m.material_id && h.hitable == m.id,
            None => true,
        },
{
}

/// A successful intersection always lies strictly inside the interval.
pub proof fn lemma_shell_hit_range(m: ShellModel, origin: V3, dir: V3, t_min: int, t_max: int)
    ensures
        match shell_hit_spec(m, origin, dir, t_min, t_max) {
            Some(h) => t_min < h.t < t_max,
            None => true,
        },
{
}

/// A ray exactly tangent to a shell (discriminant zero) is a well-defined
/// miss.  Together with the exact `hit` contracts this also gives stability:
/// the outcome is a pure function of the inputs, so repeated calls with the
/// same arguments agree.
pub proof fn lemma_tangent_is_miss(m: ShellModel, origin: V3, dir: V3, t_min: int, t_max: int)
    requires
        shell_disc(m.center, m.radius, origin, dir) == 0,
    ensures
        shell_hit_spec(m, origin, dir, t_min, t_max) is None,
{
}

/// A ray whose direction runs from an origin outside a shell of positive
/// radius straight to its center hits the shell.  The direction's length is
/// the distance to the center, so the exact parameter is
/// `(dist - radius) / dist`; the returned `t` is its fixed-point truncation,
/// pinned here by the two bracketing inequalities: `s` brackets
/// `dist * radius` (the square root of the exact discriminant), and `a * t`
/// brackets `(a - s) * 65536`.
pub proof fn lemma_aimed_at_center_hits(m: ShellModel, origin: V3, t_min: int, t_max: int)
    requires
        m.radius > 0,
        0 <= t_min,
        65536 < t_max,
        ({
            let dir = v3_sub(m.center, origin);
            let a = v3_dot(dir, dir);
            let c = a - m.radius * m.radius;
            c > 0 && c * 65536 >= 2 * ((t_min + 1) * a)
        }),
    ensures
        ({
            let dir = v3_sub(m.center, origin);
            let a = v3_dot(dir, dir);
            let s = isqrt_spec((a * (m.radius * m.radius)) as nat) as int;
            match shell_hit_spec(m, origin, dir, t_min, t_max) {
                Some(h) => {
                    &&& h.t == tdiv((a - s) * 65536, a)
                    &&& a * h.t <= (a - s) * 65536 < a * (h.t + 1)
                    &&& s * s <= a * (m.radius * m.radius) < (s + 1) * (s + 1)
                },
                None => false,
            }
        }),
{
    let dir = v3_sub(m.center, origin);
    let oc = v3_sub(origin, m.center);
    let a = v3_dot(dir, dir);
    let b = v3_dot(oc, dir);
    let r = m.radius;
    let cc = v3_dot(oc, oc) - r * r;
    let c = a - r * r;
    assert(b == -a && v3_dot(oc, oc) == a) by (nonlinear_arith)
        requires
            oc.x == -dir.x && oc.y == -dir.y && oc.z == -dir.z,
            a == dir.x * dir.x + dir.y * dir.y + dir.z * dir.z,
            b == oc.x * dir.x + oc.y * dir.y + oc.z * dir.z,
            v3_dot(oc, oc) == oc.x * oc.x + oc.y * oc.y + oc.z * oc.z;
    let d = shell_disc(m.center, m.radius, origin, dir);
    assert(d == a * (r * r)) by (nonlinear_arith)
        requires
            d == b * b - a * cc,
            b == -a,
            cc == a - r * r;
    assert(r * r > 0) by (nonlinear_arith)
        requires
            r > 0;
    assert(a > 0);
    assert(d > 0) by (nonlinear_arith)
        requires
            d == a * (r * r),
            a > 0,
            r * r > 0;
    lemma_isqrt_bounds(d as nat);
    let s = isqrt_spec(d as nat) as int;
    assert(2 * s <= a + r * r) by (nonlinear_arith)
        requires
            s * s <= a * (r * r),
            0 <= s,
            0 < a,
            0 < r * r;
    // hence a - s >= c / 2, so the smaller root clears t_min
    assert(2 * ((a - s) * 65536) >= c * 65536);
    assert((a - s) * 65536 >= (t_min + 1) * a);
    let t1 = tdiv((a - s) * 65536, a);
    assert(a - s > 0);
    vstd::arithmetic::div_mod::lemma_div_is_ordered((t_min + 1) * a, (a - s) * 65536, a);
    vstd::arithmetic::div_mod::lemma_div_by_multiple(t_min + 1, a);
    assert(t1 >= t_min + 1);
    vstd::arithmetic::div_mod::lemma_div_is_ordered((a - s) * 65536, a * 65536, a);
    vstd::arithmetic::div_mod::lemma_div_multiples_vanish(65536, a);
    assert(t1 <= 65536);
    vstd::arithmetic::div_mod::lemma_fundamental_div_mod((a - s) * 65536, a);
    assert(a * t1 <= (a - s) * 65536 < a * (t1 + 1)) by (nonlinear_arith)
        requires
            (a - s) * 65536 == a * t1 + ((a - s) * 65536) % a,
            0 <= ((a - s) * 65536) % a < a;
}
/// discriminant forces a positive leading coefficient.
proof fn lemma_disc_pos_implies_a_pos(c: V3, radius: int, origin: V3, dir: V3)
    requires
        shell_disc(c, radius, origin, dir) > 0,
    ensures
        v3_dot(dir, dir) > 0,
{
    lemma_dot_self_nonneg(dir);
    let a = v3_dot(dir, dir);
    if a == 0 {
        assert(dir.x == 0 && dir.y == 0 && dir.z == 0) by (nonlinear_arith)
            requires
                dir.x * dir.x + dir.y * dir.y + dir.z * dir.z == 0;
        let oc = v3_sub(origin, c);
        let b = v3_dot(oc, dir);
        assert(b == 0) by (nonlinear_arith)
            requires
                dir.x == 0 && dir.y == 0 && dir.z == 0,
                b == oc.x * dir.x + oc.y * dir.y + oc.z * dir.z;
        let cc = v3_dot(oc, oc) - radius * radius;
        assert(b * b - a * cc == 0) by (nonlinear_arith)
            requires
                a == 0,
                b == 0;
    }
}

/// Shared intersection routine for quadric shells.
pub(crate) fn quadric_hit(
    center: &Vec3,
    radius: i64,
    radius_sqrd: i64,
    material_id: u32,
    id: u32,
    ray: &Ray,
    t_min: i64,
    t_max: i64,
    record: &mut HitRecord,
) -> (r: bool)
    requires
        in_bound(center@, WORLD_MAX as int),
        radius != 0,
        -(WORLD_MAX as int) <= radius <= WORLD_MAX as int,
        radius_sqrd == radius * radius,
        ray_args_ok(ray.origin@, ray.direction@, t_min as int, t_max as int),
    ensures
        ({
            let m = ShellModel {
                center: center@,
                radius: radius as int,
                material_id,
                id,
            };
            match shell_hit_spec(m, ray.origin@, ray.direction@, t_min as int, t_max as int) {
                Some(h) => r == true && final(record)@ == h,
                None => r == false && *final(record) == *old(record),
            }
        }),
{
    let ghost m = ShellModel { center: center@, radius: radius as int, material_id, id };
    let dir = ray.get_direction();
    let oc = ray.get_origin().sub(center);
    proof {
        lemma_dot_bound(dir@, dir@, DIR_MAX as int, DIR_MAX as int);
        lemma_dot_bound(oc@, dir@, 34426847232, DIR_MAX as int);
        lemma_dot_bound(oc@, oc@, 34426847232, 34426847232);
        lemma_mul_bound(radius as int, radius as int, WORLD_MAX as int, WORLD_MAX as int);
    }
    let a: i128 = dir.dot(&dir);
    let b: i128 = oc.dot(&dir);
    let cc: i128 = oc.dot(&oc) - (radius_sqrd as i128);
    proof {
        lemma_mul_bound(b as int, b as int, 1732759956630798336, 1732759956630798336);
        lemma_mul_bound(a as int, cc as int, 844424930131968, 3555627934606025555968);
    }
    let d: i128 = b * b - a * cc;
    if d > 0 {
        proof {
            lemma_disc_pos_implies_a_pos(center@, radius as int, ray.origin@, ray.direction@);
        }
        let s: u128 = isqrt(d as u128);
        proof {
            lemma_isqrt_upper((d as u128) as nat, 9223372036854775808);
        }
        let si: i128 = s as i128;
        let t1: i128 = crate::fixed::tdiv128((-b - si) * 65536, a);
        if t1 > (t_min as i128) && t1 < (t_max as i128) {
            self_fill(record, center, radius, material_id, id, ray, t1 as i64);
            return true;
        }
        let t2: i128 = crate::fixed::tdiv128((-b + si) * 65536, a);
        if t2 > (t_min as i128) && t2 < (t_max as i128) {
            self_fill(record, center, radius, material_id, id, ray, t2 as i64);
            return true;
        }
        false
    } else {
        false
    }
}

/// Populate the record for a hit of the given shell at parameter `t`.
fn self_fill(
    record: &mut HitRecord,
    center: &Vec3,
    radius: i64,
    material_id: u32,
    id: u32,
    ray: &Ray,
    t: i64,
)
    requires
        in_bound(center@, WORLD_MAX as int),
        radius != 0,
        -(WORLD_MAX as int) <= radius <= WORLD_MAX as int,
        in_bound(ray.origin@, ORIGIN_MAX as int),
        in_bound(ray.direction@, DIR_MAX as int),
        0 <= t <= T_CAP,
    ensures
        final(record)@ == shell_hit_at(
            ShellModel { center: center@, radius: radius as int, material_id, id },
            ray.origin@,
            ray.direction@,
            t as int,
        ),
{
    record.material = material_id;
    record.t = t;
    record.position = ray.point_at_paramater(t);
    proof {
        lemma_scale_component(ray.direction@.x, t as int, DIR_MAX as int, T_CAP as int);
        lemma_scale_component(ray.direction@.y, t as int, DIR_MAX as int, T_CAP as int);
        lemma_scale_component(ray.direction@.z, t as int, DIR_MAX as int, T_CAP as int);
        lemma_normal_div_fits(record.position@.x - center@.x, radius as int);
        lemma_normal_div_fits(record.position@.y - center@.y, radius as int);
        lemma_normal_div_fits(record.position@.z - center@.z, radius as int);
    }
    let pc = record.position.sub(center);
    record.normal = Vec3 {
        x: clamp_i64(fx_div(pc.x, radius), -131072, 131072),
        y: clamp_i64(fx_div(pc.y, radius), -131072, 131072),
        z: clamp_i64(fx_div(pc.z, radius), -131072, 131072),
    };
    record.hitable = id;
}

/// The closed set of primitive kinds a registry can hold; both kinds share
/// the shell intersection contract, so they share the mathematical view.
pub enum Hitable {
    Sphere(crate::sphere::Sphere),
    Cube(crate::cube::Cube),
}

impl View for Hitable {
    type V = ShellModel;

    open spec fn view(&self) -> ShellModel {
        match self {
            Hitable::Sphere(s) => s@,
            Hitable::Cube(c) => c@,
        }
    }
}

impl Hitable {
    pub open spec fn inv(&self) -> bool {
        match self {
            Hitable::Sphere(s) => s.inv(),
            Hitable::Cube(c) => c.inv(),
        }
    }

    /// Nearest-root intersection over the open interval `(t_min, t_max)`.
    pub fn hit(&self, ray: &Ray, t_min: i64, t_max: i64, record: &mut HitRecord) -> (r: bool)
        requires
            self.inv(),
            ray_args_ok(ray.origin@, ray.direction@, t_min as int, t_max as int),
        ensures
            match shell_hit_spec(self@, ray.origin@, ray.direction@, t_min as int, t_max as int) {
                Some(h) => r == true && final(record)@ == h,
                None => r == false && *final(record) == *old(record),
            },
    {
        match self {
            Hitable::Sphere(s) => s.hit(ray, t_min, t_max, record),
            Hitable::Cube(c) => c.hit(ray, t_min, t_max, record),
        }
    }

    pub fn set_hitable_id(&mut self, id: u32)
        ensures
            final(self)@ == (ShellModel {
                center: old(self)@.center,
                radius: old(self)@.radius,
                material_id: old(self)@.material_id,
                id,
            }),
            old(self).inv() ==> final(self).inv(),
    {
        match self {
            Hitable::Sphere(s) => s.set_hitable_id(id),
            Hitable::Cube(c) => c.set_hitable_id(id),
        }
    }

    pub fn get_center(&self) -> (r: Vec3)
        ensures
            r@ == self@.center,
    {
        match self {
            Hitable::Sphere(s) => s.get_center(),
            Hitable::Cube(c) => c.get_center(),
        }
    }

    pub fn get_radius(&self) -> (r: i64)
        ensures
            r == self@.radius,
    {
        match self {
            Hitable::Sphere(s) => s.get_radius(),
            Hitable::Cube(c) => c.get_radius(),
        }
    }
}

/// The fixed-point quotient that yields a normal component stays inside i64.
proof fn lemma_normal_div_fits(p: int, radius: int)
    requires
        radius != 0,
        -0x9_0000_0000 <= p <= 0x9_0000_0000,
    ensures
        i64::MIN < fx_div_spec(p, radius) <= i64::MAX,
{
    let f = 65536 as int;
    let fp = (FX_ONE as int);
    assert(-(0x9_0000_0000 * f) <= p * f <= 0x9_0000_0000 * f) by (nonlinear_arith)
        requires
            -0x9_0000_0000 <= p <= 0x9_0000_0000,
            f == 65536;
    assert(fp == f);
    if radius > 0 {
        crate::fixed::lemma_div_shrinks_abs(p * f, 0x9_0000_0000 * f, radius);
    } else {
        crate::fixed::lemma_div_shrinks_abs(p * f, 0x9_0000_0000 * f, -radius);
    }
}

} // verus!
