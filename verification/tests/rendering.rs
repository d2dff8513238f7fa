use ray_tracer_core::camera::Camera;
use ray_tracer_core::hitable::{Hitable, RenderError};
use ray_tracer_core::hitable_library::HitableLibrary;
use ray_tracer_core::hitable_list::HitableList;
use ray_tracer_core::material::{Deilectric, Lambertian, Material, MaterialLibrary, Metal};
use ray_tracer_core::ray::Ray;
use ray_tracer_core::render::{background_color, cast_ray, render_frame, render_pixel, render_row};
use ray_tracer_core::rng::RngState;
use ray_tracer_core::sphere::Sphere;
use ray_tracer_core::vec3::Vec3;

fn empty_scene() -> (HitableList, MaterialLibrary, HitableLibrary) {
    (
        HitableList::new_with_hitable_id_list(Vec::new()),
        MaterialLibrary::new(),
        HitableLibrary::new(),
    )
}

// The scene of the recorded baseline: one small diffuse sphere in front of
// the camera and a huge diffuse ground sphere below it.
fn demo_scene() -> (HitableList, MaterialLibrary, HitableLibrary) {
    let mut materials = MaterialLibrary::new();
    let red = materials.add_new(Material::Lambertian(Lambertian::new(Vec3::new(
        52429, 19661, 19661,
    ))));
    let ground = materials.add_new(Material::Lambertian(Lambertian::new(Vec3::new(
        52429, 6554, 0,
    ))));
    let mut hitables = HitableLibrary::new();
    let ids = vec![
        hitables.add_hitable_to_library(Hitable::Sphere(Sphere::new(
            Vec3::new(0, 0, -65536),
            32768,
            red,
        ))),
        hitables.add_hitable_to_library(Hitable::Sphere(Sphere::new(
            Vec3::new(0, -6586368, -65536),
            6553600,
            ground,
        ))),
    ];
    (HitableList::new_with_hitable_id_list(ids), materials, hitables)
}

// A ray that intersects nothing returns exactly the background gradient:
// for a level direction the blend is half white, half sky blue, and the
// blue channel is full; never black.
#[test]
fn miss_returns_background_gradient() {
    let (world, materials, hitables) = empty_scene();
    let ray = Ray::new(Vec3::new(0, 0, 0), Vec3::new(0, 0, -65536));
    let mut rng = RngState::new(1);
    let color = cast_ray(&ray, &world, &materials, 0, &hitables, &mut rng).unwrap();
    assert_eq!(color, Vec3::new(49152, 55705, 65536));
    let direct = background_color(&Vec3::new(0, 0, -65536));
    assert_eq!(color, direct);
    // straight up: pure sky blue; straight down: pure white
    assert_eq!(
        background_color(&Vec3::new(0, 65536, 0)),
        Vec3::new(32768, 45875, 65536)
    );
    assert_eq!(
        background_color(&Vec3::new(0, -65536, 0)),
        Vec3::new(65536, 65536, 65536)
    );
}

// At the recursion cap the integrator returns black whatever the scene.
#[test]
fn depth_cap_returns_black() {
    let (world, materials, hitables) = demo_scene();
    let ray = Ray::new(Vec3::new(0, 0, 0), Vec3::new(0, 0, -65536));
    let mut rng = RngState::new(1);
    let color = cast_ray(&ray, &world, &materials, 10, &hitables, &mut rng).unwrap();
    assert_eq!(color, Vec3::new(0, 0, 0));
}

// A scene handle with no primitive behind it is a fatal configuration
// fault, reported distinctly.
#[test]
fn dangling_hitable_handle_faults() {
    let world = HitableList::new_with_hitable_id_list(vec![5]);
    let materials = MaterialLibrary::new();
    let hitables = HitableLibrary::new();
    let ray = Ray::new(Vec3::new(0, 0, 0), Vec3::new(0, 0, -65536));
    let mut rng = RngState::new(1);
    let res = cast_ray(&ray, &world, &materials, 0, &hitables, &mut rng);
    assert_eq!(res, Err(RenderError::MissingHitable(5)));
}

// A primitive whose material handle is absent from the registry faults
// distinctly as well.
#[test]
fn dangling_material_handle_faults() {
    let mut hitables = HitableLibrary::new();
    let id = hitables.add_hitable_to_library(Hitable::Sphere(Sphere::new(
        Vec3::new(0, 0, -131072),
        32768,
        7,
    )));
    let world = HitableList::new_with_hitable_id_list(vec![id]);
    let materials = MaterialLibrary::new();
    let ray = Ray::new(Vec3::new(0, 0, 0), Vec3::new(0, 0, -65536));
    let mut rng = RngState::new(1);
    let res = cast_ray(&ray, &world, &materials, 0, &hitables, &mut rng);
    assert_eq!(res, Err(RenderError::MissingMaterial(7)));
}

// Pixel colors are written by index, so a frame is a pure function of the
// scene, the camera, the sample count and the seed: rendering twice, or
// row by row in any order, reassembles the identical buffer.
#[test]
fn frame_is_deterministic_and_index_addressed() {
    let (world, materials, hitables) = demo_scene();
    let camera = Camera::new(5898240, 98304);
    let a = render_frame(&world, &materials, &hitables, &camera, 4, 3, 2, 99).unwrap();
    let b = render_frame(&world, &materials, &hitables, &camera, 4, 3, 2, 99).unwrap();
    assert_eq!(a, b);
    assert_eq!(a.len(), 12);
    // assemble the same frame from rows gathered in reverse order
    let mut rows: Vec<Vec<u32>> = Vec::new();
    for row_i in (0..3usize).rev() {
        let y = 3 - 1 - row_i;
        rows.push(render_row(&world, &materials, &hitables, &camera, y, 4, 3, 2, 99).unwrap());
    }
    let mut assembled: Vec<u32> = Vec::new();
    for row in rows.into_iter().rev() {
        assembled.extend(row);
    }
    assert_eq!(assembled, a);
    // a different seed gives a different picture
    let c = render_frame(&world, &materials, &hitables, &camera, 4, 3, 2, 100).unwrap();
    assert_ne!(a, c);
}

// Each pixel depends only on its own index-derived seed, not on which
// worker computed it: recomputing a single pixel reproduces its slot.
#[test]
fn single_pixel_matches_frame_slot() {
    let (world, materials, hitables) = demo_scene();
    let camera = Camera::new(5898240, 98304);
    let frame = render_frame(&world, &materials, &hitables, &camera, 4, 3, 2, 7).unwrap();
    for idx in 0..12usize {
        let x = idx % 4;
        let y = 3 - 1 - idx / 4;
        let state = ray_tracer_core::render::pixel_state(7, idx as u64);
        let pixel =
            render_pixel(&world, &materials, &hitables, &camera, x, y, 4, 3, 2, state).unwrap();
        assert_eq!(pixel, frame[idx]);
    }
}

// The packed layout: red in bits 23:16, green in 15:8, blue in 7:0, top
// byte zero.  A miss-only frame of one sample shows the background packing.
#[test]
fn packed_channels_have_documented_layout() {
    let (world, materials, hitables) = empty_scene();
    let camera = Camera::new(5898240, 98304);
    let frame = render_frame(&world, &materials, &hitables, &camera, 2, 2, 1, 1).unwrap();
    for &px in frame.iter() {
        let red = (px >> 16) & 0xFF;
        let green = (px >> 8) & 0xFF;
        let blue = px & 0xFF;
        assert_eq!(px >> 24, 0);
        // background: blue is always full, and the gradient orders the rest
        assert_eq!(blue, 255);
        assert!(red <= green && green <= blue);
    }
}

// A frame over a scene with every material kind renders without fault and
// reproducibly: diffuse, metal and dielectric paths all execute.
#[test]
fn full_material_scene_renders() {
    let mut materials = MaterialLibrary::new();
    let diffuse = materials.add_new(Material::Lambertian(Lambertian::new(Vec3::new(
        6554, 45875, 19661,
    ))));
    let ground = materials.add_new(Material::Lambertian(Lambertian::new(Vec3::new(
        52429, 6554, 0,
    ))));
    let metal = materials.add_new(Material::Metal(Metal::new(
        Vec3::new(52429, 39322, 13107),
        19661,
    )));
    let glass = materials.add_new(Material::Deilectric(Deilectric::new(98304)));
    let mut hitables = HitableLibrary::new();
    let ids = vec![
        hitables.add_hitable_to_library(Hitable::Sphere(Sphere::new(
            Vec3::new(0, 0, -65536),
            32768,
            diffuse,
        ))),
        hitables.add_hitable_to_library(Hitable::Sphere(Sphere::new(
            Vec3::new(0, -6586368, -65536),
            6553600,
            ground,
        ))),
        hitables.add_hitable_to_library(Hitable::Sphere(Sphere::new(
            Vec3::new(65536, 0, -65536),
            32768,
            metal,
        ))),
        hitables.add_hitable_to_library(Hitable::Sphere(Sphere::new(
            Vec3::new(-65536, 0, -65536),
            -29491,
            glass,
        ))),
    ];
    let world = HitableList::new_with_hitable_id_list(ids);
    let camera = Camera::new(5898240, 98304);
    let a = render_frame(&world, &materials, &hitables, &camera, 6, 4, 2, 77).unwrap();
    let b = render_frame(&world, &materials, &hitables, &camera, 6, 4, 2, 77).unwrap();
    assert_eq!(a.len(), 24);
    assert_eq!(a, b);
    for &px in a.iter() {
        assert_eq!(px >> 24, 0);
    }
}

// A frame over a scene with a dangling material handle reports the fault
// instead of a buffer.
#[test]
fn frame_reports_configuration_fault() {
    let mut hitables = HitableLibrary::new();
    let id = hitables.add_hitable_to_library(Hitable::Sphere(Sphere::new(
        Vec3::new(0, 0, -65536),
        32768,
        3,
    )));
    let world = HitableList::new_with_hitable_id_list(vec![id]);
    let materials = MaterialLibrary::new();
    let camera = Camera::new(5898240, 98304);
    let res = render_frame(&world, &materials, &hitables, &camera, 4, 4, 1, 0);
    assert_eq!(res, Err(RenderError::MissingMaterial(3)));
}

// End-to-end baseline: the demo scene at 2 by 2 with one sample per pixel
// and a fixed seed reproduces a recorded buffer (and raises no fault).
#[test]
fn baseline_frame_is_reproduced() {
    let (world, materials, hitables) = demo_scene();
    let camera = Camera::new(5898240, 98304);
    let frame = render_frame(&world, &materials, &hitables, &camera, 2, 2, 1, 42).unwrap();
    assert_eq!(frame, vec![10799359, 11259135, 5375232, 8062464]);
}
