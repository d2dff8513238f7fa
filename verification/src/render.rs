//! The recursive radiance integrator and the frame scheduler.  `cast_ray`
//! follows one stochastic light path: depth-capped recursion, nearest
//! intersection, material scatter, attenuation product; a miss yields the
//! background gradient.  The frame functions turn per-pixel sampling into a
//! row-major buffer of packed colors, each slot a pure function of the scene,
//! the camera, the frame seed and the slot's own index.

use vstd::prelude::*;

verus! {

use crate::fixed::{FX_ONE, fx_mul_spec, clamp_spec, lemma_tdiv_cancel};
use crate::vec3::{Vec3, V3, in_bound, color_ok, v3_add, v3_mul, v3_scale, v3_norm};
use crate::ray::Ray;
use crate::rng::RngState;
use crate::camera::{Camera, CamModel, cam_wf, camera_ray_dir};
use crate::hitable::{RenderError, HitRecord, ShellModel, DIR_MAX};
use crate::hitable_list::{
    HitableList, world_hit_spec, lemma_world_hit_bounds, lemma_world_hit_wf,
};
use crate::hitable_library::HitableLibrary;
use crate::material::{MaterialLibrary, MatModel, material_lookup, material_scatter_spec};

/// Recursion cap of the integrator.
pub const MAX_DEPTH: u32 = 10;

/// Lower end of the intersection interval: a small bias (about 0.001) away
/// from the scattered ray's own origin.
pub const T_EPS: i64 = 66;

/// Upper end of the intersection interval (64 world units).
pub const T_FAR: i64 = 4194304;

/// How far a ray origin can drift from the camera after `depth` bounces.
pub open spec fn origin_limit(depth: int) -> int {
    262144 + depth * 1073741824
}

/// The vertical background gradient evaluated on a ray direction:
/// `(1 - t) * white + t * skyblue` with `t = (normalized.y + 1) / 2`.
pub open spec fn background_spec(dir: V3) -> V3 {
    let t = (v3_norm(dir).y + FX_ONE as int) / 2;
    v3_add(
        v3_scale(V3 { x: FX_ONE as int, y: FX_ONE as int, z: FX_ONE as int }, FX_ONE as int - t),
        v3_scale(V3 { x: 32768, y: 45875, z: FX_ONE as int }, t),
    )
}

/// A fixed-point product of two color channels stays within the first
/// factor's unit range and below the second factor.
pub proof fn lemma_fx_mul_color(a: int, k: int)
    requires
        0 <= a <= FX_ONE as int,
        0 <= k,
    ensures
        0 <= fx_mul_spec(a, k) <= k,
{
    let f = FX_ONE as int;
    assert(0 <= a * k <= f * k) by (nonlinear_arith)
        requires
            0 <= a <= f,
            0 <= k;
    vstd::arithmetic::div_mod::lemma_div_pos_is_pos(a * k, f);
    vstd::arithmetic::div_mod::lemma_div_is_ordered(a * k, f * k, f);
    vstd::arithmetic::div_mod::lemma_div_multiples_vanish(k, f);
}

/// The product of two colors is a color.
pub proof fn lemma_color_mul(c: V3, a: V3)
    requires
        color_ok(c),
        color_ok(a),
    ensures
        color_ok(v3_mul(c, a)),
{
    lemma_fx_mul_color(c.x, a.x);
    lemma_fx_mul_color(c.y, a.y);
    lemma_fx_mul_color(c.z, a.z);
}

/// The background gradient is a color, and its blue channel is always full:
/// the gradient never returns black.
pub proof fn lemma_background_color(dir: V3)
    ensures
        color_ok(background_spec(dir)),
        background_spec(dir).z == FX_ONE as int,
        background_spec(dir).z > 0,
{
    let f = FX_ONE as int;
    let u = v3_norm(dir);
    crate::vec3::lemma_norm_unit(dir);
    assert(-f <= u.y <= f);
    let t = (u.y + f) / 2;
    assert(0 <= t <= f);
    lemma_fx_mul_color(f, f - t);
    lemma_fx_mul_color(32768, t);
    lemma_fx_mul_color(45875, t);
    lemma_fx_mul_color(f, t);
    lemma_tdiv_cancel(f - t, f);
    lemma_tdiv_cancel(t, f);
}

/// The background gradient on a ray direction.
pub fn background_color(dir: &Vec3) -> (r: Vec3)
    requires
        in_bound(dir@, 0x100_0000_0000),
    ensures
        r@ == background_spec(dir@),
        color_ok(r@),
{
    proof {
        lemma_background_color(dir@);
    }
    let u = dir.normalize();
    let t: i64 = (((u.y + 65536) as u64) / 2) as i64;
    proof {
        crate::vec3::lemma_scale_component(65536, 65536 - t as int, 65536, 65536);
        crate::vec3::lemma_scale_component(65536, t as int, 65536, 65536);
        crate::vec3::lemma_scale_component(32768, t as int, 65536, 65536);
        crate::vec3::lemma_scale_component(45875, t as int, 65536, 65536);
    }
    let white = Vec3::new(65536, 65536, 65536);
    let blue = Vec3::new(32768, 45875, 65536);
    let a = white.scale(65536 - t);
    let b = blue.scale(t);
    a.add(&b)
}

/// The light-transport recursion, mathematically: the color of the path and
/// the generator state it leaves behind, or the first dangling handle met.
#[verifier::opaque]
pub open spec fn trace_spec(
    ids: Seq<u32>,
    hlib: Seq<ShellModel>,
    mlib: Seq<MatModel>,
    origin: V3,
    dir: V3,
    depth: int,
    s0: u64,
) -> Result<(V3, u64), RenderError>
    decreases MAX_DEPTH - depth,
{
    if depth >= MAX_DEPTH {
        Ok((V3 { x: 0, y: 0, z: 0 }, s0))
    } else {
        match world_hit_spec(ids, hlib, origin, dir, T_EPS as int, T_FAR as int) {
            Err(e) => Err(e),
            Ok(None) => Ok((background_spec(dir), s0)),
            Ok(Some(h)) => match material_lookup(mlib, h.material) {
                None => Err(RenderError::MissingMaterial(h.material)),
                Some(m) => {
                    let sc = material_scatter_spec(m, dir, h.position, h.normal, s0);
                    if sc.result {
                        match trace_spec(
                            ids,
                            hlib,
                            mlib,
                            sc.origin,
                            sc.direction,
                            depth + 1,
                            sc.rng_after,
                        ) {
                            Err(e) => Err(e),
                            Ok((c, s1)) => Ok((v3_mul(c, sc.attenuation), s1)),
                        }
                    } else {
                        Ok((V3 { x: 0, y: 0, z: 0 }, sc.rng_after))
                    }
                },
            },
        }
    }
}

/// One stochastic light path.  At the depth cap the result is black; on a
/// miss it is exactly the background gradient; on a hit whose material
/// declines to scatter it is black; otherwise it is the scattered path's
/// color multiplied by the attenuation.  The color and the generator state
/// are the model's, exactly.
pub fn cast_ray(
    ray: &Ray,
    world: &HitableList,
    material_library: &MaterialLibrary,
    depth: u32,
    hitable_library: &HitableLibrary,
    rng: &mut RngState,
) -> (res: Result<Vec3, RenderError>)
    requires
        material_library.inv(),
        hitable_library.inv(),
        depth <= MAX_DEPTH,
        in_bound(ray.origin@, origin_limit(depth as int)),
        in_bound(ray.direction@, DIR_MAX as int),
    ensures
        match trace_spec(
            world@,
            hitable_library@,
            material_library@,
            ray.origin@,
            ray.direction@,
            depth as int,
            old(rng)@,
        ) {
            Ok((c, s)) => res matches Ok(v) && v@ == c && final(rng)@ == s && color_ok(c),
            Err(e) => res == Err::<Vec3, RenderError>(e),
        },
    decreases MAX_DEPTH - depth,
{
    proof {
        reveal(trace_spec);
    }
    if depth >= MAX_DEPTH {
        return Ok(Vec3::new(0, 0, 0));
    }
    let mut record = HitRecord::empty();
    let cast = world.cast_ray_into_world(ray, T_EPS, T_FAR, &mut record, hitable_library);
    proof {
        lemma_world_hit_bounds(
            world@,
            hitable_library@,
            ray.origin@,
            ray.direction@,
            T_EPS as int,
            T_FAR as int,
            origin_limit(depth as int),
        );
    }
    match cast {
        Err(e) => Err(e),
        Ok(false) => Ok(background_color(&ray.get_direction())),
        Ok(true) => {
            match material_library.checkout_material(record.material) {
                None => Err(RenderError::MissingMaterial(record.material)),
                Some(mat) => {
                    let scatter_hit = mat.scatter(ray, &record, rng);
                    if scatter_hit.result {
                        match cast_ray(
                            &scatter_hit.scattered,
                            world,
                            material_library,
                            depth + 1,
                            hitable_library,
                            rng,
                        ) {
                            Err(e) => Err(e),
                            Ok(c) => {
                                proof {
                                    lemma_color_mul(c@, scatter_hit.attenuation@);
                                }
                                Ok(c.mul_comp(&scatter_hit.attenuation))
                            },
                        }
                    } else {
                        Ok(Vec3::new(0, 0, 0))
                    }
                },
            }
        },
    }
}

/// At the recursion cap the integrator returns exactly black, whatever the
/// scene holds, and leaves the generator untouched.
pub proof fn lemma_trace_depth_cap(
    ids: Seq<u32>,
    hlib: Seq<ShellModel>,
    mlib: Seq<MatModel>,
    origin: V3,
    dir: V3,
    s0: u64,
)
    ensures
        trace_spec(ids, hlib, mlib, origin, dir, MAX_DEPTH as int, s0) == Ok::<
            (V3, u64),
            RenderError,
        >((V3 { x: 0, y: 0, z: 0 }, s0)),
{
    reveal(trace_spec);
}

/// A ray that intersects nothing gets exactly the background gradient,
/// which is never black: its blue channel is always full.
pub proof fn lemma_trace_miss_background(
    ids: Seq<u32>,
    hlib: Seq<ShellModel>,
    mlib: Seq<MatModel>,
    origin: V3,
    dir: V3,
    depth: int,
    s0: u64,
)
    requires
        0 <= depth < MAX_DEPTH,
        world_hit_spec(ids, hlib, origin, dir, T_EPS as int, T_FAR as int) == Ok::<
            Option<crate::hitable::HitInfo>,
            RenderError,
        >(None),
    ensures
        trace_spec(ids, hlib, mlib, origin, dir, depth, s0) == Ok::<(V3, u64), RenderError>(
            (background_spec(dir), s0),
        ),
        background_spec(dir).z == FX_ONE as int,
{
    reveal(trace_spec);
    lemma_background_color(dir);
}

/// Scene well-formedness: the scene names only registered primitives, and
/// every registered primitive names a registered material.  Built this way,
/// a frame can never meet a dangling handle.
pub open spec fn scene_wf(ids: Seq<u32>, hlib: Seq<ShellModel>, mlib: Seq<MatModel>) -> bool {
    &&& forall|k: int| 0 <= k < ids.len() ==> 1 <= #[trigger] ids[k] <= hlib.len()
    &&& forall|j: int| 0 <= j < hlib.len() ==> 1 <= (#[trigger] hlib[j]).material_id <= mlib.len()
}

/// A well-formed scene never faults: the light-transport recursion always
/// returns a color.
pub proof fn lemma_trace_ok(
    ids: Seq<u32>,
    hlib: Seq<ShellModel>,
    mlib: Seq<MatModel>,
    origin: V3,
    dir: V3,
    depth: int,
    s0: u64,
)
    requires
        scene_wf(ids, hlib, mlib),
        0 <= depth <= MAX_DEPTH,
    ensures
        trace_spec(ids, hlib, mlib, origin, dir, depth, s0) is Ok,
    decreases MAX_DEPTH - depth,
{
    reveal(trace_spec);
    if depth >= MAX_DEPTH {
    } else {
        lemma_world_hit_wf(ids, hlib, mlib.len() as int, origin, dir, T_EPS as int, T_FAR as int);
        match world_hit_spec(ids, hlib, origin, dir, T_EPS as int, T_FAR as int) {
            Err(_) => {},
            Ok(None) => {},
            Ok(Some(h)) => {
                let m = material_lookup(mlib, h.material).unwrap();
                let sc = material_scatter_spec(m, dir, h.position, h.normal, s0);
                if sc.result {
                    lemma_trace_ok(ids, hlib, mlib, sc.origin, sc.direction, depth + 1, sc.rng_after);
                }
            },
        }
    }
}

/// The starting generator state of the pixel at buffer index `idx`.
pub open spec fn pixel_seed(seed: u64, idx: u64) -> u64 {
    crate::rng::rng_mix(vstd::wrapping::u64_specs::wrapping_add(seed, idx))
}

/// One sample of a pixel: jitter the coordinates by two draws, build the
/// camera ray, trace the path.
#[verifier::opaque]
pub open spec fn sample_spec(
    ids: Seq<u32>,
    hlib: Seq<ShellModel>,
    mlib: Seq<MatModel>,
    cam: CamModel,
    x: int,
    y: int,
    w: int,
    h: int,
    s0: u64,
) -> Result<(V3, u64), RenderError> {
    let s1 = crate::rng::rng_step(s0);
    let ju = crate::rng::rng_mix(s1) % 65536;
    let s2 = crate::rng::rng_step(s1);
    let jv = crate::rng::rng_mix(s2) % 65536;
    let u = (x * 65536 + ju) / w;
    let v = (y * 65536 + jv) / h;
    trace_spec(ids, hlib, mlib, cam.origin, camera_ray_dir(cam, u, v), 0, s2)
}

/// The running color sum of the first `n` samples of a pixel, with the
/// generator state after them.
#[verifier::opaque]
pub open spec fn accumulate_spec(
    ids: Seq<u32>,
    hlib: Seq<ShellModel>,
    mlib: Seq<MatModel>,
    cam: CamModel,
    x: int,
    y: int,
    w: int,
    h: int,
    n: nat,
    s0: u64,
) -> Result<(V3, u64), RenderError>
    decreases n,
{
    if n == 0 {
        Ok((V3 { x: 0, y: 0, z: 0 }, s0))
    } else {
        match accumulate_spec(ids, hlib, mlib, cam, x, y, w, h, (n - 1) as nat, s0) {
            Err(e) => Err(e),
            Ok((acc, s)) => match sample_spec(ids, hlib, mlib, cam, x, y, w, h, s) {
                Err(e) => Err(e),
                Ok((c, s2)) => Ok((v3_add(acc, c), s2)),
            },
        }
    }
}

/// One averaged, clamped color channel scaled to a byte.
pub open spec fn channel_byte(sum: int, samples: int) -> int {
    clamp_spec(((sum / samples) * 255) / 65536, 0, 255)
}

/// Red in bits 23 to 16, green in 15 to 8, blue in 7 to 0; the top byte is
/// zero.
pub open spec fn pack_rgb(r: int, g: int, b: int) -> int {
    r * 65536 + g * 256 + b
}

/// The color of one pixel: the average of `samples` stochastic trials,
/// scaled to bytes and packed.
pub open spec fn render_pixel_spec(
    ids: Seq<u32>,
    hlib: Seq<ShellModel>,
    mlib: Seq<MatModel>,
    cam: CamModel,
    x: int,
    y: int,
    w: int,
    h: int,
    samples: int,
    s0: u64,
) -> Result<int, RenderError> {
    match accumulate_spec(ids, hlib, mlib, cam, x, y, w, h, samples as nat, s0) {
        Err(e) => Err(e),
        Ok((acc, _)) => Ok(
            pack_rgb(
                channel_byte(acc.x, samples),
                channel_byte(acc.y, samples),
                channel_byte(acc.z, samples),
            ),
        ),
    }
}

/// The pixel a frame buffer holds at `idx`: row-major, top row first, its
/// generator seeded from the frame seed and its own index.
pub open spec fn frame_pixel_spec(
    ids: Seq<u32>,
    hlib: Seq<ShellModel>,
    mlib: Seq<MatModel>,
    cam: CamModel,
    w: int,
    h: int,
    samples: int,
    seed: u64,
    idx: int,
) -> Result<int, RenderError> {
    render_pixel_spec(
        ids,
        hlib,
        mlib,
        cam,
        idx % w,
        h - 1 - idx / w,
        w,
        h,
        samples,
        pixel_seed(seed, idx as u64),
    )
}

/// A buffer is a correct frame: dense, row-major, each slot the pure
/// function of scene, camera, seed and slot index.
pub open spec fn frame_ok(
    buf: Seq<u32>,
    ids: Seq<u32>,
    hlib: Seq<ShellModel>,
    mlib: Seq<MatModel>,
    cam: CamModel,
    w: int,
    h: int,
    samples: int,
    seed: u64,
) -> bool {
    &&& buf.len() == w * h
    &&& forall|idx: int|
        0 <= idx < w * h ==> frame_pixel_spec(ids, hlib, mlib, cam, w, h, samples, seed, idx)
            == Ok::<int, RenderError>(buf[idx] as int)
}

/// Index-addressed determinism: any two complete frame buffers of the same
/// scene, camera, sample count and seed are identical, however the pixels
/// were scheduled across workers.
pub proof fn lemma_schedule_independent(
    b1: Seq<u32>,
    b2: Seq<u32>,
    ids: Seq<u32>,
    hlib: Seq<ShellModel>,
    mlib: Seq<MatModel>,
    cam: CamModel,
    w: int,
    h: int,
    samples: int,
    seed: u64,
)
    requires
        frame_ok(b1, ids, hlib, mlib, cam, w, h, samples, seed),
        frame_ok(b2, ids, hlib, mlib, cam, w, h, samples, seed),
    ensures
        b1 == b2,
{
    assert forall|idx: int| 0 <= idx < b1.len() implies b1[idx] == b2[idx] by {
        assert(frame_pixel_spec(ids, hlib, mlib, cam, w, h, samples, seed, idx)
            == Ok::<int, RenderError>(b1[idx] as int));
        assert(frame_pixel_spec(ids, hlib, mlib, cam, w, h, samples, seed, idx)
            == Ok::<int, RenderError>(b2[idx] as int));
    }
    assert(b1 =~= b2);
}

/// Once one sample faults, the whole accumulation faults the same way.
proof fn lemma_accumulate_err(
    ids: Seq<u32>,
    hlib: Seq<ShellModel>,
    mlib: Seq<MatModel>,
    cam: CamModel,
    x: int,
    y: int,
    w: int,
    h: int,
    i: nat,
    n: nat,
    s0: u64,
    acc: V3,
    s: u64,
    e: RenderError,
)
    requires
        i < n,
        accumulate_spec(ids, hlib, mlib, cam, x, y, w, h, i, s0) == Ok::<(V3, u64), RenderError>(
            (acc, s),
        ),
        sample_spec(ids, hlib, mlib, cam, x, y, w, h, s) == Err::<(V3, u64), RenderError>(e),
    ensures
        accumulate_spec(ids, hlib, mlib, cam, x, y, w, h, n, s0) == Err::<(V3, u64), RenderError>(
            e,
        ),
    decreases n,
{
    reveal(accumulate_spec);
    if n == i + 1 {
    } else {
        lemma_accumulate_err(ids, hlib, mlib, cam, x, y, w, h, i, (n - 1) as nat, s0, acc, s, e);
    }
}

/// A well-formed scene renders every pixel.
pub proof fn lemma_pixel_ok(
    ids: Seq<u32>,
    hlib: Seq<ShellModel>,
    mlib: Seq<MatModel>,
    cam: CamModel,
    x: int,
    y: int,
    w: int,
    h: int,
    n: nat,
    s0: u64,
)
    requires
        scene_wf(ids, hlib, mlib),
    ensures
        accumulate_spec(ids, hlib, mlib, cam, x, y, w, h, n, s0) is Ok,
        render_pixel_spec(ids, hlib, mlib, cam, x, y, w, h, n as int, s0) is Ok,
    decreases n,
{
    reveal(accumulate_spec);
    reveal(sample_spec);
    if n == 0 {
    } else {
        lemma_pixel_ok(ids, hlib, mlib, cam, x, y, w, h, (n - 1) as nat, s0);
        match accumulate_spec(ids, hlib, mlib, cam, x, y, w, h, (n - 1) as nat, s0) {
            Err(_) => {},
            Ok((acc, s)) => {
                let s2 = crate::rng::rng_step(crate::rng::rng_step(s));
                lemma_trace_ok(
                    ids,
                    hlib,
                    mlib,
                    cam.origin,
                    camera_ray_dir(
                        cam,
                        (x * 65536 + crate::rng::rng_mix(crate::rng::rng_step(s)) % 65536) / w,
                        (y * 65536 + crate::rng::rng_mix(s2) % 65536) / h,
                    ),
                    0,
                    s2,
                );
            },
        }
    }
}

/// Normalized jitter coordinates stay inside `[0, 1)`.
proof fn lemma_jitter_coord(x: int, j: int, w: int)
    requires
        0 <= x < w,
        0 <= j < 65536,
        1 <= w,
    ensures
        0 <= (x * 65536 + j) / w <= 65535,
{
    vstd::arithmetic::div_mod::lemma_div_pos_is_pos(x * 65536 + j, w);
    assert(x * 65536 + j <= w * 65535 + (w - 1)) by (nonlinear_arith)
        requires
            x <= w - 1,
            0 <= j <= 65535,
            1 <= w;
    vstd::arithmetic::div_mod::lemma_div_is_ordered(x * 65536 + j, w * 65535 + (w - 1), w);
    vstd::arithmetic::div_mod::lemma_div_multiples_vanish_fancy(65535, w - 1, w);
}

/// One averaged, clamped, byte-scaled channel.
fn channel_byte_of(sum: i64, samples: u32) -> (r: u32)
    requires
        1 <= samples <= 65536,
        0 <= sum,
        sum <= samples * 65536,
    ensures
        r == channel_byte(sum as int, samples as int),
        r <= 255,
{
    proof {
        vstd::arithmetic::div_mod::lemma_div_pos_is_pos(sum as int, samples as int);
        vstd::arithmetic::div_mod::lemma_div_is_ordered(
            sum as int,
            (samples as int) * 65536,
            samples as int,
        );
        vstd::arithmetic::div_mod::lemma_div_multiples_vanish(65536, samples as int);
        vstd::arithmetic::div_mod::lemma_div_pos_is_pos(
            ((sum as int) / (samples as int)) * 255,
            65536,
        );
        vstd::arithmetic::div_mod::lemma_div_is_ordered(
            ((sum as int) / (samples as int)) * 255,
            (65536 * 255) as int,
            65536,
        );
        assert(((sum as int) / (samples as int)) * 255 <= 65536 * 255) by (nonlinear_arith)
            requires
                0 <= (sum as int) / (samples as int) <= 65536;
        vstd::arithmetic::div_mod::lemma_div_multiples_vanish(255, 65536);
    }
    let q: u64 = (sum as u64) / (samples as u64);
    let c: u64 = (q * 255) / 65536;
    if c > 255 {
        255
    } else {
        c as u32
    }
}

/// One stochastic trial of one pixel: jitter, camera ray, trace.
fn sample_pixel(
    world: &HitableList,
    material_library: &MaterialLibrary,
    hitable_library: &HitableLibrary,
    camera: &Camera,
    x: usize,
    y: usize,
    width: usize,
    height: usize,
    rng: &mut RngState,
) -> (res: Result<Vec3, RenderError>)
    requires
        material_library.inv(),
        hitable_library.inv(),
        cam_wf(camera@),
        x < width,
        y < height,
        width <= 65536,
        height <= 65536,
    ensures
        match sample_spec(
            world@,
            hitable_library@,
            material_library@,
            camera@,
            x as int,
            y as int,
            width as int,
            height as int,
            old(rng)@,
        ) {
            Ok((c, s)) => res matches Ok(v) && v@ == c && final(rng)@ == s && color_ok(c),
            Err(e) => res == Err::<Vec3, RenderError>(e),
        },
{
    proof {
        reveal(sample_spec);
    }
    let ju: u64 = rng.next_below(65536);
    let jv: u64 = rng.next_below(65536);
    proof {
        lemma_jitter_coord(x as int, ju as int, width as int);
        lemma_jitter_coord(y as int, jv as int, height as int);
    }
    let u: i64 = (((x as u64) * 65536 + ju) / (width as u64)) as i64;
    let v: i64 = (((y as u64) * 65536 + jv) / (height as u64)) as i64;
    let r = camera.get_ray(u, v);
    cast_ray(&r, world, material_library, 0, hitable_library, rng)
}

/// One pixel: average `samples` stochastic trials from the given generator
/// state, scale to bytes, pack.  The result is a pure function of the
/// arguments; a dangling handle met along any path is reported instead.
#[verifier::rlimit(100)]
pub fn render_pixel(
    world: &HitableList,
    material_library: &MaterialLibrary,
    hitable_library: &HitableLibrary,
    camera: &Camera,
    x: usize,
    y: usize,
    width: usize,
    height: usize,
    samples: u32,
    state: u64,
) -> (res: Result<u32, RenderError>)
    requires
        material_library.inv(),
        hitable_library.inv(),
        cam_wf(camera@),
        x < width,
        y < height,
        width <= 65536,
        height <= 65536,
        1 <= samples <= 65536,
    ensures
        match render_pixel_spec(
            world@,
            hitable_library@,
            material_library@,
            camera@,
            x as int,
            y as int,
            width as int,
            height as int,
            samples as int,
            state,
        ) {
            Ok(p) => res matches Ok(c) && c == p,
            Err(e) => res == Err::<u32, RenderError>(e),
        },
        scene_wf(world@, hitable_library@, material_library@) ==> res is Ok,
{
    proof {
        reveal(accumulate_spec);
        if scene_wf(world@, hitable_library@, material_library@) {
            lemma_pixel_ok(
                world@,
                hitable_library@,
                material_library@,
                camera@,
                x as int,
                y as int,
                width as int,
                height as int,
                samples as nat,
                state,
            );
        }
    }
    let mut rng = RngState::new(state);
    let mut acc = Vec3::new(0, 0, 0);
    let mut i: u32 = 0;
    while i < samples
        invariant
            material_library.inv(),
            hitable_library.inv(),
            cam_wf(camera@),
            x < width,
            y < height,
            width <= 65536,
            height <= 65536,
            1 <= samples <= 65536,
            i <= samples,
            accumulate_spec(
                world@,
                hitable_library@,
                material_library@,
                camera@,
                x as int,
                y as int,
                width as int,
                height as int,
                i as nat,
                state,
            ) == Ok::<(V3, u64), RenderError>((acc@, rng@)),
            0 <= acc@.x <= i * 65536,
            0 <= acc@.y <= i * 65536,
            0 <= acc@.z <= i * 65536,
        decreases samples - i,
    {
        proof {
            reveal(accumulate_spec);
        }
        let ghost s_start = rng@;
        match sample_pixel(
            world,
            material_library,
            hitable_library,
            camera,
            x,
            y,
            width,
            height,
            &mut rng,
        ) {
            Err(e) => {
                proof {
                    if scene_wf(world@, hitable_library@, material_library@) {
                        lemma_pixel_ok(
                            world@,
                            hitable_library@,
                            material_library@,
                            camera@,
                            x as int,
                            y as int,
                            width as int,
                            height as int,
                            samples as nat,
                            state,
                        );
                    }
                    lemma_accumulate_err(
                        world@,
                        hitable_library@,
                        material_library@,
                        camera@,
                        x as int,
                        y as int,
                        width as int,
                        height as int,
                        i as nat,
                        samples as nat,
                        state,
                        acc@,
                        s_start,
                        e,
                    );
                }
                return Err(e);
            },
            Ok(c) => {
                acc = acc.add(&c);
            },
        }
        i = i + 1;
    }
    let red = channel_byte_of(acc.x, samples);
    let green = channel_byte_of(acc.y, samples);
    let blue = channel_byte_of(acc.z, samples);
    Ok(red * 65536 + green * 256 + blue)
}

/// A computed pixel color together with the buffer slot it belongs to, so
/// that a collector can write it by index whatever order results arrive in.
#[derive(Clone, Copy, PartialEq, Eq, Structural, Debug)]
pub struct PixelColor {
    pub color: u32,
    pub index: usize,
}

/// The pixel at buffer index `index`, computed independently of every other
/// pixel: its color is the frame's pure per-slot function, and the result
/// carries the index it must be written to.
pub fn render_pixel_at(
    world: &HitableList,
    material_library: &MaterialLibrary,
    hitable_library: &HitableLibrary,
    camera: &Camera,
    width: usize,
    height: usize,
    samples: u32,
    seed: u64,
    index: usize,
) -> (res: Result<PixelColor, RenderError>)
    requires
        material_library.inv(),
        hitable_library.inv(),
        cam_wf(camera@),
        index < width * height,
        1 <= width <= 65536,
        height <= 65536,
        (width as int) * (height as int) <= 1073741824,
        1 <= samples <= 65536,
    ensures
        match res {
            Ok(p) => p.index == index && frame_pixel_spec(
                world@,
                hitable_library@,
                material_library@,
                camera@,
                width as int,
                height as int,
                samples as int,
                seed,
                index as int,
            ) == Ok::<int, RenderError>(p.color as int),
            Err(e) => frame_pixel_spec(
                world@,
                hitable_library@,
                material_library@,
                camera@,
                width as int,
                height as int,
                samples as int,
                seed,
                index as int,
            ) == Err::<int, RenderError>(e),
        },
        scene_wf(world@, hitable_library@, material_library@) ==> res is Ok,
{
    let x: usize = index % width;
    let row: usize = index / width;
    proof {
        vstd::arithmetic::div_mod::lemma_fundamental_div_mod(index as int, width as int);
        assert((index as int) / (width as int) < height as int) by (nonlinear_arith)
            requires
                index as int == (width as int) * ((index as int) / (width as int)) + (
                index as int) % (width as int),
                0 <= (index as int) % (width as int),
                (index as int) < (width as int) * (height as int),
                0 < width as int;
    }
    let y: usize = height - 1 - row;
    let state: u64 = pixel_state(seed, index as u64);
    match render_pixel(
        world,
        material_library,
        hitable_library,
        camera,
        x,
        y,
        width,
        height,
        samples,
        state,
    ) {
        Err(e) => Err(e),
        Ok(color) => Ok(PixelColor { color, index }),
    }
}

/// The generator state the scheduler hands the pixel at buffer index
/// `idx`: a mix of the frame seed and the index, so every pixel's randomness
/// is private and independent of scheduling.
pub fn pixel_state(seed: u64, idx: u64) -> (r: u64)
    ensures
        r == pixel_seed(seed, idx),
{
    crate::rng::mix_u64(seed.wrapping_add(idx))
}

/// One scene row of pixels, left to right; scene row `y` lands at buffer
/// row `height - 1 - y` (the top of the image is the highest `y`).  Each
/// pixel's generator is seeded from the frame seed and the pixel's own
/// buffer index.
pub fn render_row(
    world: &HitableList,
    material_library: &MaterialLibrary,
    hitable_library: &HitableLibrary,
    camera: &Camera,
    y: usize,
    width: usize,
    height: usize,
    samples: u32,
    seed: u64,
) -> (res: Result<Vec<u32>, RenderError>)
    requires
        material_library.inv(),
        hitable_library.inv(),
        cam_wf(camera@),
        y < height,
        1 <= width <= 65536,
        height <= 65536,
        (width as int) * (height as int) <= 1073741824,
        1 <= samples <= 65536,
    ensures
        match res {
            Ok(row) => {
                &&& row@.len() == width as int
                &&& forall|x: int|
                    0 <= x < width ==> frame_pixel_spec(
                        world@,
                        hitable_library@,
                        material_library@,
                        camera@,
                        width as int,
                        height as int,
                        samples as int,
                        seed,
                        (height - 1 - y) * width + x,
                    ) == Ok::<int, RenderError>(row@[x] as int)
            },
            Err(e) => exists|idx: int|
                0 <= idx < (width as int) * (height as int) && frame_pixel_spec(
                    world@,
                    hitable_library@,
                    material_library@,
                    camera@,
                    width as int,
                    height as int,
                    samples as int,
                    seed,
                    idx,
                ) == Err::<int, RenderError>(e),
        },
        scene_wf(world@, hitable_library@, material_library@) ==> res is Ok,
{
    proof {
        assert(((height - 1 - y) as int) * (width as int) + width <= (height as int) * (
        width as int)) by (nonlinear_arith)
            requires
                y < height,
                0 < width;
        assert((height as int) * (width as int) == (width as int) * (height as int))
            by (nonlinear_arith);
    }
    let base: usize = (height - 1 - y) * width;
    let mut row: Vec<u32> = Vec::new();
    let mut x: usize = 0;
    while x < width
        invariant
            material_library.inv(),
            hitable_library.inv(),
            cam_wf(camera@),
            y < height,
            1 <= width <= 65536,
            height <= 65536,
            (width as int) * (height as int) <= 1073741824,
            1 <= samples <= 65536,
            x <= width,
            row@.len() == x as int,
            base == (height - 1 - y) * width,
            base + width <= (width as int) * (height as int),
            forall|j: int|
                0 <= j < x ==> frame_pixel_spec(
                    world@,
                    hitable_library@,
                    material_library@,
                    camera@,
                    width as int,
                    height as int,
                    samples as int,
                    seed,
                    base + j,
                ) == Ok::<int, RenderError>(row@[j] as int),
        decreases width - x,
    {
        let idx: usize = base + x;
        let state: u64 = pixel_state(seed, idx as u64);
        proof {
            vstd::arithmetic::div_mod::lemma_fundamental_div_mod_converse(
                idx as int,
                width as int,
                (height - 1 - y) as int,
                x as int,
            );
        }
        match render_pixel(
            world,
            material_library,
            hitable_library,
            camera,
            x,
            y,
            width,
            height,
            samples,
            state,
        ) {
            Err(e) => {
                proof {
                    assert(frame_pixel_spec(
                        world@,
                        hitable_library@,
                        material_library@,
                        camera@,
                        width as int,
                        height as int,
                        samples as int,
                        seed,
                        idx as int,
                    ) == Err::<int, RenderError>(e));
                }
                return Err(e);
            },
            Ok(c) => {
                row.push(c);
            },
        }
        x = x + 1;
    }
    Ok(row)
}

/// A whole frame: a dense row-major buffer recomputed from scratch, top
/// image row first.  Each slot holds the pure per-pixel function of scene,
/// camera, seed and index, so the buffer is independent of how the rows were
/// scheduled; a well-formed scene always yields a buffer.
pub fn render_frame(
    world: &HitableList,
    material_library: &MaterialLibrary,
    hitable_library: &HitableLibrary,
    camera: &Camera,
    width: usize,
    height: usize,
    samples: u32,
    seed: u64,
) -> (res: Result<Vec<u32>, RenderError>)
    requires
        material_library.inv(),
        hitable_library.inv(),
        cam_wf(camera@),
        1 <= width <= 65536,
        1 <= height <= 65536,
        (width as int) * (height as int) <= 1073741824,
        1 <= samples <= 65536,
    ensures
        match res {
            Ok(buf) => frame_ok(
                buf@,
                world@,
                hitable_library@,
                material_library@,
                camera@,
                width as int,
                height as int,
                samples as int,
                seed,
            ),
            Err(e) => exists|idx: int|
                0 <= idx < (width as int) * (height as int) && frame_pixel_spec(
                    world@,
                    hitable_library@,
                    material_library@,
                    camera@,
                    width as int,
                    height as int,
                    samples as int,
                    seed,
                    idx,
                ) == Err::<int, RenderError>(e),
        },
        scene_wf(world@, hitable_library@, material_library@) ==> res is Ok,
{
    let mut buffer: Vec<u32> = Vec::new();
    let mut row_i: usize = 0;
    while row_i < height
        invariant
            material_library.inv(),
            hitable_library.inv(),
            cam_wf(camera@),
            1 <= width <= 65536,
            1 <= height <= 65536,
            (width as int) * (height as int) <= 1073741824,
            1 <= samples <= 65536,
            row_i <= height,
            buffer@.len() == (row_i as int) * (width as int),
            forall|idx: int|
                0 <= idx < (row_i as int) * (width as int) ==> frame_pixel_spec(
                    world@,
                    hitable_library@,
                    material_library@,
                    camera@,
                    width as int,
                    height as int,
                    samples as int,
                    seed,
                    idx,
                ) == Ok::<int, RenderError>(buffer@[idx] as int),
        decreases height - row_i,
    {
        proof {
            assert((row_i as int) * (width as int) + width <= (height as int) * (width as int))
                by (nonlinear_arith)
                requires
                    row_i < height,
                    0 < width;
        }
        let y = height - 1 - row_i;
        match render_row(
            world,
            material_library,
            hitable_library,
            camera,
            y,
            width,
            height,
            samples,
            seed,
        ) {
            Err(e) => {
                return Err(e);
            },
            Ok(mut rowv) => {
                let ghost old_buf = buffer@;
                let ghost rv = rowv@;
                buffer.append(&mut rowv);
                proof {
                    assert((row_i + 1) as int * (width as int) == (row_i as int) * (width as int)
                        + width) by (nonlinear_arith);
                    assert forall|idx: int|
                        0 <= idx < ((row_i + 1) as int) * (width as int) implies frame_pixel_spec(
                        world@,
                        hitable_library@,
                        material_library@,
                        camera@,
                        width as int,
                        height as int,
                        samples as int,
                        seed,
                        idx,
                    ) == Ok::<int, RenderError>(buffer@[idx] as int) by {
                        if idx < (row_i as int) * (width as int) {
                            assert(buffer@[idx] == old_buf[idx]);
                        } else {
                            let j = idx - (row_i as int) * (width as int);
                            assert(0 <= j < width);
                            assert(buffer@[idx] == rv[j]);
                            assert((height - 1 - y) * width == (row_i as int) * (width as int));
                        }
                    }
                }
            },
        }
        row_i = row_i + 1;
    }
    proof {
        assert((height as int) * (width as int) == (width as int) * (height as int))
            by (nonlinear_arith);
    }
    Ok(buffer)
}

} // verus!
