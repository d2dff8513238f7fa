//! The material system: a closed set of scattering behaviours and the
//! registry that hands them out by integer handle.  Every scatter decision is
//! an exact function of the material, the incoming ray, the hit record and
//! the generator state.

use vstd::prelude::*;

verus! {

use crate::fixed::{FX_ONE, tdiv, fx_mul_spec, fx_mul, fx_div_spec, fx_div, clamp_spec, clamp_i64, tdiv128};
use crate::vec3::{
    Vec3, V3, in_bound, color_ok, v3_add, v3_neg, v3_dot, v3_scale, v3_reflect, v3_norm,
    v3_len, v3_refract, reflect, refract, lemma_scale_component,
};
use crate::vec3::lemma_tdiv_mag_monotone;
use crate::ray::Ray;
use crate::rng::{RngState, rng_step, rng_mix, rng_skip, sample_in_unit_sphere_spec, random_in_unit_sphere};
use crate::hitable::{HitRecord, POS_MAX, NORMAL_CAP, DIR_MAX};

pub type MaterialID = u32;

/// What one scatter call yields, mathematically: whether the path continues,
/// the attenuation applied to it, the outgoing ray, and the generator state
/// left behind.
pub ghost struct ScatterModel {
    pub result: bool,
    pub attenuation: V3,
    pub origin: V3,
    pub direction: V3,
    pub rng_after: u64,
}

/// Mathematical view of a material.
pub ghost enum MatModel {
    Lambertian { albedo: V3 },
    CheckerBoard { albedo: V3, metal_albedo: V3 },
    Metal { albedo: V3, fuzz: int },
    Sky,
    Deilectric { ref_index: int },
}

/// Valid material parameters: colors are colors, fuzz lies in `[0, 1]`, the
/// refractive index in `[0.125, 8]`.
pub open spec fn mat_wf(m: MatModel) -> bool {
    match m {
        MatModel::Lambertian { albedo } => color_ok(albedo),
        MatModel::CheckerBoard { albedo, metal_albedo } => color_ok(albedo) && color_ok(
            metal_albedo,
        ),
        MatModel::Metal { albedo, fuzz } => color_ok(albedo) && 0 <= fuzz <= FX_ONE as int,
        MatModel::Sky => true,
        MatModel::Deilectric { ref_index } => 8192 <= ref_index <= 524288,
    }
}

/// Diffuse bounce: the surface normal plus a random point in the unit ball.
pub open spec fn lambertian_scatter_dir(normal: V3, s0: u64) -> V3 {
    v3_add(normal, sample_in_unit_sphere_spec(s0))
}

/// Specular bounce: mirror reflection of the normalized incoming direction,
/// perturbed by `fuzz` times a random point in the unit ball.
pub open spec fn metal_scatter_dir(din: V3, normal: V3, fuzz: int, s0: u64) -> V3 {
    v3_add(
        v3_reflect(v3_norm(din), normal),
        v3_scale(sample_in_unit_sphere_spec(s0), fuzz),
    )
}

/// The parity cell of a position on the unit lattice; the offset keeps the
/// dividend nonnegative for any reachable position.
pub open spec fn checker_even(p: V3) -> bool {
    ((p.x + 0x4000_0000_0000) / 65536 + (p.y + 0x4000_0000_0000) / 65536 + (p.z
        + 0x4000_0000_0000) / 65536) % 2 == 0
}

/// The angle cosine the dielectric feeds to the reflectance estimate.
pub open spec fn dielectric_cosine(din: V3, normal: V3, ref_index: int) -> int {
    let d = v3_dot(din, normal);
    let l = v3_len(din);
    if l > 0 {
        if d > 0 {
            fx_mul_spec(ref_index, tdiv(d, l))
        } else {
            -tdiv(d, l)
        }
    } else {
        0
    }
}

/// Schlick's approximation of the reflectance probability.
pub open spec fn schlick_spec(cosine: int, ref_index: int) -> int {
    let f = FX_ONE as int;
    let r0 = fx_div_spec(f - ref_index, f + ref_index);
    let r02 = fx_mul_spec(r0, r0);
    let e = f - cosine;
    let p2 = fx_mul_spec(e, e);
    let p4 = fx_mul_spec(p2, p2);
    let p5 = fx_mul_spec(p4, e);
    r02 + fx_mul_spec(f - r02, p5)
}

/// Refractive scatter: pick the side, attempt refraction, and choose between
/// reflection and refraction by one random draw against the reflectance
/// probability; total internal reflection always reflects.
pub open spec fn dielectric_scatter_spec(ref_index: int, din: V3, pos: V3, normal: V3, s0: u64)
    -> ScatterModel {
    let reflected = v3_reflect(v3_norm(din), normal);
    let d = v3_dot(din, normal);
    let outward = if d > 0 {
        v3_neg(normal)
    } else {
        normal
    };
    let ni = if d > 0 {
        ref_index
    } else {
        fx_div_spec(FX_ONE as int, ref_index)
    };
    let cosine = dielectric_cosine(din, normal, ref_index);
    let u = rng_mix(rng_step(s0)) % 65536;
    let dirn = match v3_refract(din, outward, ni) {
        Some(refracted) => if u < schlick_spec(cosine, ref_index) {
            reflected
        } else {
            refracted
        },
        None => reflected,
    };
    ScatterModel {
        result: true,
        attenuation: V3 { x: FX_ONE as int, y: FX_ONE as int, z: FX_ONE as int },
        origin: pos,
        direction: dirn,
        rng_after: rng_step(s0),
    }
}

/// The scatter contract of the whole material system.
pub open spec fn material_scatter_spec(m: MatModel, din: V3, pos: V3, normal: V3, s0: u64)
    -> ScatterModel {
    match m {
        MatModel::Lambertian { albedo } => ScatterModel {
            result: true,
            attenuation: albedo,
            origin: pos,
            direction: lambertian_scatter_dir(normal, s0),
            rng_after: rng_skip(s0, 4),
        },
        MatModel::CheckerBoard { albedo, metal_albedo } => ScatterModel {
            result: true,
            attenuation: if checker_even(pos) {
                albedo
            } else {
                metal_albedo
            },
            origin: pos,
            direction: lambertian_scatter_dir(normal, s0),
            rng_after: rng_skip(s0, 4),
        },
        MatModel::Metal { albedo, fuzz } => {
            let dir = metal_scatter_dir(din, normal, fuzz, s0);
            ScatterModel {
                result: v3_dot(dir, normal) > 0,
                attenuation: albedo,
                origin: pos,
                direction: dir,
                rng_after: rng_skip(s0, 4),
            }
        },
        MatModel::Sky => ScatterModel {
            result: false,
            attenuation: V3 { x: FX_ONE as int, y: FX_ONE as int, z: FX_ONE as int },
            origin: V3 { x: 0, y: 0, z: 0 },
            direction: V3 { x: FX_ONE as int, y: 0, z: 0 },
            rng_after: s0,
        },
        MatModel::Deilectric { ref_index } => dielectric_scatter_spec(
            ref_index,
            din,
            pos,
            normal,
            s0,
        ),
    }
}

/// The executable scatter result together with the final generator state
/// agrees with the model.
pub open spec fn scatter_matches(r: ScatterHit, s_after: u64, sp: ScatterModel) -> bool {
    &&& r.result == sp.result
    &&& r.attenuation@ == sp.attenuation
    &&& r.scattered.origin@ == sp.origin
    &&& r.scattered.direction@ == sp.direction
    &&& s_after == sp.rng_after
}

/// Arguments a scatter call is specified for: the fields a hit record filled
/// by intersection can hold, and a bounded incoming direction.
pub open spec fn scatter_args_ok(din: V3, pos: V3, normal: V3) -> bool {
    &&& in_bound(din, DIR_MAX as int)
    &&& in_bound(pos, POS_MAX as int)
    &&& in_bound(normal, NORMAL_CAP as int)
}

#[derive(Clone, Copy, PartialEq, Eq, Structural, Debug)]
pub struct ScatterHit {
    pub result: bool,
    pub attenuation: Vec3,
    pub scattered: Ray,
}

impl ScatterHit {
    pub fn new(result: bool, attenuation: Vec3, scattered: Ray) -> (r: ScatterHit)
        ensures
            r.result == result,
            r.attenuation == attenuation,
            r.scattered == scattered,
    {
        ScatterHit { result, attenuation, scattered }
    }
}

pub struct Lambertian {
    pub albedo: Vec3,
}

impl Lambertian {
    pub fn new(albedo: Vec3) -> (r: Lambertian)
        requires
            color_ok(albedo@),
        ensures
            r.albedo == albedo,
    {
        Lambertian { albedo }
    }

    /// Always scatters diffusely; the attenuation is the albedo.
    pub fn scatter(&self, _ray_in: &Ray, record: &HitRecord, rng: &mut RngState) -> (r: ScatterHit)
        requires
            in_bound(record@.position, POS_MAX as int),
            in_bound(record@.normal, NORMAL_CAP as int),
        ensures
            r.result == true,
            r.attenuation == self.albedo,
            r.scattered.origin == record.position,
            r.scattered.direction@ == lambertian_scatter_dir(record@.normal, old(rng)@),
            final(rng)@ == rng_skip(old(rng)@, 4),
            in_bound(r.scattered.direction@, 196608),
    {
        let sample = random_in_unit_sphere(rng);
        let target = record.position.add(&record.normal).add(&sample);
        ScatterHit::new(
            true,
            self.albedo,
            Ray::new(record.position, target.sub(&record.position)),
        )
    }

    /// The base reflective color of the surface.
    pub fn color(&self, _record: &HitRecord) -> (r: Vec3)
        ensures
            r == self.albedo,
    {
        self.albedo
    }
}

pub struct CheckerBoard {
    pub albedo: Vec3,
    pub metal_material: Metal,
}

impl CheckerBoard {
    pub fn new(albedo: Vec3) -> (r: CheckerBoard)
        requires
            color_ok(albedo@),
        ensures
            r.albedo == albedo,
            r.metal_material.albedo@ == (V3 { x: 19661, y: 28312, z: 45875 }),
            r.metal_material.fuzz == 0,
    {
        CheckerBoard { albedo, metal_material: Metal::new(Vec3::new(19661, 28312, 45875), 0) }
    }

    /// Diffuse scatter whose attenuation alternates between the own albedo
    /// and the companion metal's albedo on a unit checker lattice.
    pub fn scatter(&self, _ray_in: &Ray, record: &HitRecord, rng: &mut RngState) -> (r: ScatterHit)
        requires
            in_bound(record@.position, POS_MAX as int),
            in_bound(record@.normal, NORMAL_CAP as int),
        ensures
            r.result == true,
            r.attenuation == if checker_even(record@.position) {
                self.albedo
            } else {
                self.metal_material.albedo
            },
            r.scattered.origin == record.position,
            r.scattered.direction@ == lambertian_scatter_dir(record@.normal, old(rng)@),
            final(rng)@ == rng_skip(old(rng)@, 4),
            in_bound(r.scattered.direction@, 196608),
    {
        let sample = random_in_unit_sphere(rng);
        let target = record.position.add(&record.normal).add(&sample);
        let attenuation = if Self::cell_even(&record.position) {
            self.albedo
        } else {
            self.metal_material.albedo
        };
        ScatterHit::new(
            true,
            attenuation,
            Ray::new(record.position, target.sub(&record.position)),
        )
    }

    /// The pattern color at the hit position: the own albedo on even cells,
    /// the companion metal's on odd ones.
    pub fn color(&self, record: &HitRecord) -> (r: Vec3)
        requires
            in_bound(record@.position, POS_MAX as int),
        ensures
            r == if checker_even(record@.position) {
                self.albedo
            } else {
                self.metal_material.albedo
            },
    {
        if Self::cell_even(&record.position) {
            self.albedo
        } else {
            self.metal_material.albedo
        }
    }

    /// Which cell of the checker lattice a position falls into.
    fn cell_even(p: &Vec3) -> (r: bool)
        requires
            in_bound(p@, POS_MAX as int),
        ensures
            r == checker_even(p@),
    {
        let cx: u64 = ((p.x + 0x4000_0000_0000) as u64) / 65536;
        let cy: u64 = ((p.y + 0x4000_0000_0000) as u64) / 65536;
        let cz: u64 = ((p.z + 0x4000_0000_0000) as u64) / 65536;
        (cx + cy + cz) % 2 == 0
    }
}

pub struct Metal {
    pub albedo: Vec3,
    pub fuzz: i64,
}

impl Metal {
    /// Fuzz is clamped into `[0, 1]` at construction.
    pub fn new(albedo: Vec3, fuzz: i64) -> (r: Metal)
        requires
            color_ok(albedo@),
        ensures
            r.albedo == albedo,
            r.fuzz == clamp_spec(fuzz as int, 0, FX_ONE as int),
    {
        Metal { albedo, fuzz: clamp_i64(fuzz, 0, 65536) }
    }

    /// Specular scatter; the ray is absorbed (result false) exactly when the
    /// perturbed reflection points into the surface.
    pub fn scatter(&self, ray_in: &Ray, record: &HitRecord, rng: &mut RngState) -> (r: ScatterHit)
        requires
            0 <= self.fuzz <= FX_ONE,
            scatter_args_ok(ray_in.direction@, record@.position, record@.normal),
        ensures
            ({
                let dir = metal_scatter_dir(
                    ray_in.direction@,
                    record@.normal,
                    self.fuzz as int,
                    old(rng)@,
                );
                &&& r.result == (v3_dot(dir, record@.normal) > 0)
                &&& r.attenuation == self.albedo
                &&& r.scattered.origin == record.position
                &&& r.scattered.direction@ == dir
                &&& in_bound(r.scattered.direction@, 3342336)
            }),
            final(rng)@ == rng_skip(old(rng)@, 4),
    {
        let unit_dir = ray_in.get_direction().normalize();
        let reflected = reflect(&unit_dir, &record.normal);
        let sample = random_in_unit_sphere(rng);
        proof {
            lemma_scale_component(sample@.x, self.fuzz as int, 65536, 65536);
            lemma_scale_component(sample@.y, self.fuzz as int, 65536, 65536);
            lemma_scale_component(sample@.z, self.fuzz as int, 65536, 65536);
        }
        let offset = sample.scale(self.fuzz);
        let scattered_dir = reflected.add(&offset);
        let scattered = Ray::new(record.position, scattered_dir);
        let attenuation = self.albedo;
        let result = scattered_dir.dot(&record.normal) > 0;
        ScatterHit::new(result, attenuation, scattered)
    }

    /// The base reflective color of the surface.
    pub fn color(&self, _record: &HitRecord) -> (r: Vec3)
        ensures
            r == self.albedo,
    {
        self.albedo
    }
}

pub struct Sky {
}

impl Sky {
    pub fn new() -> (r: Sky) {
        Sky {  }
    }

    /// The sky never scatters; its color is the background gradient, used
    /// when a ray misses all geometry.
    pub fn scatter(&self, _ray_in: &Ray, _record: &HitRecord, rng: &mut RngState) -> (r: ScatterHit)
        ensures
            r.result == false,
            r.attenuation@ == (V3 { x: FX_ONE as int, y: FX_ONE as int, z: FX_ONE as int }),
            r.scattered.origin@ == (V3 { x: 0, y: 0, z: 0 }),
            r.scattered.direction@ == (V3 { x: FX_ONE as int, y: 0, z: 0 }),
            final(rng)@ == old(rng)@,
    {
        ScatterHit::new(
            false,
            Vec3::new(65536, 65536, 65536),
            Ray::new(Vec3::new(0, 0, 0), Vec3::new(65536, 0, 0)),
        )
    }

    /// The background gradient for a ray flying in the given direction.
    pub fn color(&self, direction: &Vec3) -> (r: Vec3)
        requires
            in_bound(direction@, 0x100_0000_0000),
        ensures
            r@ == crate::render::background_spec(direction@),
    {
        crate::render::background_color(direction)
    }
}

pub struct Deilectric {
    ref_index: i64,
}

impl View for Deilectric {
    type V = int;

    closed spec fn view(&self) -> int {
        self.ref_index as int
    }
}

impl Deilectric {
    /// The refractive index is kept within `[0.125, 8]`.
    pub fn new(ref_index: i64) -> (r: Deilectric)
        requires
            8192 <= ref_index <= 524288,
        ensures
            r@ == ref_index as int,
    {
        Deilectric { ref_index }
    }

    /// Refractive scatter; always continues the path (total internal
    /// reflection reflects), attenuation is pure white.
    pub fn scatter(&self, ray_in: &Ray, record: &HitRecord, rng: &mut RngState) -> (r: ScatterHit)
        requires
            8192 <= self@ <= 524288,
            scatter_args_ok(ray_in.direction@, record@.position, record@.normal),
        ensures
            scatter_matches(
                r,
                final(rng)@,
                dielectric_scatter_spec(
                    self@,
                    ray_in.direction@,
                    record@.position,
                    record@.normal,
                    old(rng)@,
                ),
            ),
            in_bound(r.scattered.direction@, DIR_MAX as int),
    {
        let unit_dir = ray_in.get_direction().normalize();
        let reflected = reflect(&unit_dir, &record.normal);
        let dotdn: i128 = ray_in.get_direction().dot(&record.normal);
        let len = ray_in.get_direction().length();
        proof {
            crate::vec3::lemma_dot_bound(
                ray_in.direction@,
                record@.normal,
                DIR_MAX as int,
                NORMAL_CAP as int,
            );
            lemma_cosine_bound(ray_in.direction@, record@.normal, v3_len(ray_in.direction@));
        }
        let cos_base: i64 = if len > 0 {
            tdiv128(dotdn, len as i128) as i64
        } else {
            0
        };
        let outward_normal: Vec3;
        let ni_over_nt: i64;
        let cosine: i64;
        if dotdn > 0 {
            outward_normal = record.normal.neg();
            ni_over_nt = self.ref_index;
            proof {
                lemma_scale_component(self@, cos_base as int, 524288, 393216);
            }
            cosine = if len > 0 {
                fx_mul(self.ref_index, cos_base)
            } else {
                0
            };
        } else {
            outward_normal = record.normal;
            proof {
                lemma_inverse_index_bounds(self@);
            }
            ni_over_nt = fx_div(65536, self.ref_index);
            cosine = -cos_base;
        }
        let refraction_test = refract(&ray_in.get_direction(), &outward_normal, ni_over_nt);
        let reflect_prob: i64;
        let mut refracted = Vec3::new(0, 0, 0);
        match refraction_test {
            Some(val) => {
                reflect_prob = schlick(cosine, self.ref_index);
                refracted = val;
            },
            None => {
                reflect_prob = 65536;
            },
        }
        let u = rng.next_below(65536);
        let scattered = if reflect_prob > 0 && u < (reflect_prob as u64) {
            Ray::new(record.position, reflected)
        } else {
            Ray::new(record.position, refracted)
        };
        ScatterHit::new(true, Vec3::new(65536, 65536, 65536), scattered)
    }

    /// Glass does not tint: pure white.
    pub fn color(&self, _record: &HitRecord) -> (r: Vec3)
        ensures
            r@ == (V3 { x: FX_ONE as int, y: FX_ONE as int, z: FX_ONE as int }),
    {
        Vec3::new(65536, 65536, 65536)
    }
}

/// The closed set of materials a registry can hold.
pub enum Material {
    Lambertian(Lambertian),
    CheckerBoard(CheckerBoard),
    Metal(Metal),
    Sky(Sky),
    Deilectric(Deilectric),
}

impl View for Material {
    type V = MatModel;

    open spec fn view(&self) -> MatModel {
        match self {
            Material::Lambertian(m) => MatModel::Lambertian { albedo: m.albedo@ },
            Material::CheckerBoard(m) => MatModel::CheckerBoard {
                albedo: m.albedo@,
                metal_albedo: m.metal_material.albedo@,
            },
            Material::Metal(m) => MatModel::Metal { albedo: m.albedo@, fuzz: m.fuzz as int },
            Material::Sky(_) => MatModel::Sky,
            Material::Deilectric(m) => MatModel::Deilectric { ref_index: m@ },
        }
    }
}

impl Material {
    /// Dispatch to the variant's scatter; the result is the model's word on
    /// this material, incoming ray, hit record and generator state.
    pub fn scatter(&self, ray_in: &Ray, record: &HitRecord, rng: &mut RngState) -> (r: ScatterHit)
        requires
            mat_wf(self@),
            scatter_args_ok(ray_in.direction@, record@.position, record@.normal),
        ensures
            scatter_matches(
                r,
                final(rng)@,
                material_scatter_spec(
                    self@,
                    ray_in.direction@,
                    record@.position,
                    record@.normal,
                    old(rng)@,
                ),
            ),
            color_ok(r.attenuation@),
            in_bound(r.scattered.direction@, DIR_MAX as int),
    {
        match self {
            Material::Lambertian(m) => m.scatter(ray_in, record, rng),
            Material::CheckerBoard(m) => m.scatter(ray_in, record, rng),
            Material::Metal(m) => m.scatter(ray_in, record, rng),
            Material::Sky(m) => m.scatter(ray_in, record, rng),
            Material::Deilectric(m) => m.scatter(ray_in, record, rng),
        }
    }
}

/// Registry lookup: handles run from 1 to the number of entries.
pub open spec fn material_lookup(lib: Seq<MatModel>, id: u32) -> Option<MatModel> {
    if 1 <= id && id <= lib.len() {
        Some(lib[id - 1])
    } else {
        None
    }
}

/// The material registry: an arena addressed by integer handles, populated
/// before rendering and read-only afterwards.  Handle 0 means "none".
pub struct MaterialLibrary {
    library: Vec<Material>,
}

impl View for MaterialLibrary {
    type V = Seq<MatModel>;

    closed spec fn view(&self) -> Seq<MatModel> {
        self.library@.map_values(|m: Material| m@)
    }
}

impl MaterialLibrary {
    /// Every stored material is well-formed.
    pub closed spec fn inv(&self) -> bool {
        &&& forall|i: int|
            0 <= i < self.library@.len() ==> mat_wf((#[trigger] self.library@[i])@)
        &&& self.library@.len() < 0xFFFF_FFFF
    }

    pub fn new() -> (r: MaterialLibrary)
        ensures
            r@ == Seq::<MatModel>::empty(),
            r.inv(),
    {
        let r = MaterialLibrary { library: Vec::new() };
        proof {
            assert(r@ =~= Seq::<MatModel>::empty());
        }
        r
    }

    /// Register a material; it receives the next handle, which is returned.
    pub fn add_new(&mut self, material: Material) -> (id: MaterialID)
        requires
            old(self).inv(),
            mat_wf(material@),
            old(self)@.len() < 0xFFFF_FFFE,
        ensures
            final(self).inv(),
            id == old(self)@.len() + 1,
            final(self)@ == old(self)@.push(material@),
    {
        let id: MaterialID = (self.library.len() as u32) + 1;
        let ghost model = material@;
        self.library.push(material);
        proof {
            assert(self@ =~= old(self)@.push(model));
        }
        id
    }

    /// Fetch a material by handle; `None` exactly when the handle was never
    /// assigned.
    pub fn checkout_material(&self, material_id: MaterialID) -> (r: Option<&Material>)
        requires
            self.inv(),
        ensures
            match r {
                Some(m) => material_lookup(self@, material_id) == Some(m@) && mat_wf(m@),
                None => material_lookup(self@, material_id) is None,
            },
    {
        if material_id >= 1 && (material_id as usize) <= self.library.len() {
            Some(&self.library[(material_id - 1) as usize])
        } else {
            None
        }
    }

    /// Number of registered materials.
    pub fn len(&self) -> (r: usize)
        ensures
            r == self@.len(),
    {
        self.library.len()
    }

    /// Every stored model is well-formed.
    pub proof fn lemma_inv_models(&self)
        requires
            self.inv(),
        ensures
            forall|i: int| 0 <= i < self@.len() ==> mat_wf(#[trigger] self@[i]),
    {
        assert forall|i: int| 0 <= i < self@.len() implies mat_wf(#[trigger] self@[i]) by {
            assert(self@[i] == self.library@[i]@);
        }
    }
}

/// The reflectance probability estimate, exactly as `schlick_spec`.
pub fn schlick(cosine: i64, ref_index: i64) -> (r: i64)
    requires
        8192 <= ref_index <= 524288,
        -3145728 <= cosine <= 3145728,
    ensures
        r == schlick_spec(cosine as int, ref_index as int),
{
    proof {
        lemma_schlick_bounds(cosine as int, ref_index as int);
    }
    let r0 = fx_div(65536 - ref_index, 65536 + ref_index);
    let r02 = fx_mul(r0, r0);
    let e = 65536 - cosine;
    let p2 = fx_mul(e, e);
    let p4 = fx_mul(p2, p2);
    let p5 = fx_mul(p4, e);
    r02 + fx_mul(65536 - r02, p5)
}

/// Every intermediate of the reflectance estimate stays within machine
/// bounds.
proof fn lemma_schlick_bounds(cosine: int, ref_index: int)
    requires
        8192 <= ref_index <= 524288,
        -3145728 <= cosine <= 3145728,
    ensures
        ({
            let f = FX_ONE as int;
            let r0 = fx_div_spec(f - ref_index, f + ref_index);
            let r02 = fx_mul_spec(r0, r0);
            let e = f - cosine;
            let p2 = fx_mul_spec(e, e);
            let p4 = fx_mul_spec(p2, p2);
            let p5 = fx_mul_spec(p4, e);
            &&& -589824 <= r0 <= 589824
            &&& 0 <= r02 <= 5308416
            &&& 0 <= p2 <= 157351936
            &&& 0 <= p4 <= 377801998336
            &&& -18512297918464 <= p5 <= 18512297918464
            &&& -2000000000000000000 <= r02 + fx_mul_spec(f - r02, p5) <= 2000000000000000000
        }),
{
    let f = FX_ONE as int;
    let num = f - ref_index;
    assert(-589824 * (f + ref_index) <= num * f <= 589824 * (f + ref_index)) by (nonlinear_arith)
        requires
            8192 <= ref_index <= 524288,
            num == f - ref_index,
            f == 65536;
    crate::fixed::lemma_div_shrinks_abs(num * f, 589824 * (f + ref_index), f + ref_index);
    lemma_div_factor_cancel(589824, f + ref_index);
    let r0 = fx_div_spec(f - ref_index, f + ref_index);
    lemma_scale_component(r0, r0, 589824, 589824);
    let r02 = fx_mul_spec(r0, r0);
    assert(r02 >= 0) by {
        assert(r0 * r0 >= 0) by (nonlinear_arith);
    }
    let e = f - cosine;
    lemma_scale_component(e, e, 3211264, 3211264);
    let p2 = fx_mul_spec(e, e);
    assert(p2 >= 0) by {
        assert(e * e >= 0) by (nonlinear_arith);
    }
    lemma_scale_component(p2, p2, 157351936, 157351936);
    let p4 = fx_mul_spec(p2, p2);
    assert(p4 >= 0) by {
        assert(p2 * p2 >= 0) by (nonlinear_arith);
    }
    lemma_scale_component(p4, e, 377801998336, 3211264);
    let p5 = fx_mul_spec(p4, e);
    lemma_scale_component(f - r02, p5, 5308416, 18512297918464);
}

/// `(k * d) / d == k` for the magnitude transfer in `lemma_schlick_bounds`.
proof fn lemma_div_factor_cancel(k: int, d: int)
    requires
        0 <= k,
        0 < d,
    ensures
        (k * d) / d == k,
{
    vstd::arithmetic::div_mod::lemma_div_by_multiple(k, d);
}

/// The inverse refractive index stays within the bounds refraction needs.
proof fn lemma_inverse_index_bounds(ref_index: int)
    requires
        8192 <= ref_index <= 524288,
    ensures
        1 <= fx_div_spec(FX_ONE as int, ref_index) <= 524288,
{
    let f = FX_ONE as int;
    assert(fx_div_spec(f, ref_index) == (f * f) / ref_index);
    vstd::arithmetic::div_mod::lemma_div_is_ordered_by_denominator(f * f, 8192, ref_index);
    assert((f * f) / 8192 == 524288);
    vstd::arithmetic::div_mod::lemma_div_is_ordered_by_denominator(f * f, ref_index, 524288);
    assert((f * f) / 524288 == 8192);
}

/// The cosine term of the dielectric is bounded by six units.
proof fn lemma_cosine_bound(d: V3, n: V3, l: int)
    requires
        in_bound(n, NORMAL_CAP as int),
        l == v3_len(d),
        -l <= d.x <= l,
        -l <= d.y <= l,
        -l <= d.z <= l,
    ensures
        l > 0 ==> -393216 <= tdiv(v3_dot(d, n), l) <= 393216,
{
    if l > 0 {
        assert(-(l * 393216) <= v3_dot(d, n) <= l * 393216) by (nonlinear_arith)
            requires
                -131072 <= n.x <= 131072,
                -131072 <= n.y <= 131072,
                -131072 <= n.z <= 131072,
                -l <= d.x <= l,
                -l <= d.y <= l,
                -l <= d.z <= l,
                0 < l,
                v3_dot(d, n) == d.x * n.x + d.y * n.y + d.z * n.z;
        lemma_tdiv_mag_monotone(v3_dot(d, n), l * 393216, l);
        vstd::arithmetic::div_mod::lemma_div_by_multiple(393216, l);
        assert(l * 393216 == 393216 * l) by (nonlinear_arith);
    }
}

} // verus!
