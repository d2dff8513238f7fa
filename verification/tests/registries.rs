use ray_tracer_core::cube::Cube;
use ray_tracer_core::hitable::{Hitable, HitRecord, RenderError};
use ray_tracer_core::hitable_library::HitableLibrary;
use ray_tracer_core::hitable_list::HitableList;
use ray_tracer_core::material::{Lambertian, Material, MaterialLibrary};
use ray_tracer_core::ray::Ray;
use ray_tracer_core::render::render_pixel_at;
use ray_tracer_core::rng::RngState;
use ray_tracer_core::sphere::Sphere;
use ray_tracer_core::vec3::Vec3;

// Primitives receive their handle at registration, exactly once, and the
// handle is copied into every record they produce.
#[test]
fn hitable_registry_assigns_handles() {
    let mut library = HitableLibrary::new();
    let first = library.add_hitable_to_library(Hitable::Sphere(Sphere::new(
        Vec3::new(0, 0, -131072),
        32768,
        1,
    )));
    let second = library.add_hitable_to_library(Hitable::Cube(Cube::new(
        Vec3::new(0, 0, -262144),
        32768,
        1,
    )));
    assert_eq!(first, 1);
    assert_eq!(second, 2);
    assert_eq!(library.len(), 2);
    assert!(library.checkout_hitable(0).is_none());
    assert!(library.checkout_hitable(3).is_none());
    let ray = Ray::new(Vec3::new(0, 0, 0), Vec3::new(0, 0, -131072));
    let mut record = HitRecord::empty();
    let stored = library.checkout_hitable(1).unwrap();
    assert!(stored.hit(&ray, 66, 4194304, &mut record));
    assert_eq!(record.hitable, 1);
    assert_eq!(stored.get_center(), Vec3::new(0, 0, -131072));
    assert_eq!(stored.get_radius(), 32768);
}

// The cube primitive shares the shell intersection behaviour.
#[test]
fn cube_intersects_like_a_shell() {
    let cube = Cube::new(Vec3::new(0, 0, -131072), 32768, 4);
    let ray = Ray::new(Vec3::new(0, 0, 0), Vec3::new(0, 0, -131072));
    let mut record = HitRecord::empty();
    assert!(cube.hit(&ray, 66, 4194304, &mut record));
    assert_eq!(record.t, 49152);
    assert_eq!(record.material, 4);
}

// The nearest member of the scene wins, regardless of registration order.
#[test]
fn scene_keeps_nearest_hit() {
    let mut materials = MaterialLibrary::new();
    let m = materials.add_new(Material::Lambertian(Lambertian::new(Vec3::new(1, 1, 1))));
    let mut hitables = HitableLibrary::new();
    let far = hitables.add_hitable_to_library(Hitable::Sphere(Sphere::new(
        Vec3::new(0, 0, -393216),
        32768,
        m,
    )));
    let near = hitables.add_hitable_to_library(Hitable::Sphere(Sphere::new(
        Vec3::new(0, 0, -131072),
        32768,
        m,
    )));
    let world = HitableList::new_with_hitable_id_list(vec![far, near]);
    let ray = Ray::new(Vec3::new(0, 0, 0), Vec3::new(0, 0, -65536));
    let mut record = HitRecord::empty();
    let hit = world
        .cast_ray_into_world(&ray, 66, 4194304, &mut record, &hitables)
        .unwrap();
    assert!(hit);
    assert_eq!(record.hitable, near);
    assert_eq!(record.t, 98304);

    // reversed order finds the same nearest hit
    let world_rev = HitableList::new_with_hitable_id_list(vec![near, far]);
    let mut record_rev = HitRecord::empty();
    assert!(world_rev
        .cast_ray_into_world(&ray, 66, 4194304, &mut record_rev, &hitables)
        .unwrap());
    assert_eq!(record_rev, record);
}

// A miss leaves the record untouched; a dangling handle is reported.
#[test]
fn scene_miss_and_fault_paths() {
    let hitables = HitableLibrary::new();
    let world = HitableList::new_with_hitable_id_list(Vec::new());
    let ray = Ray::new(Vec3::new(0, 0, 0), Vec3::new(0, 0, -65536));
    let mut record = HitRecord::empty();
    assert_eq!(
        world.cast_ray_into_world(&ray, 66, 4194304, &mut record, &hitables),
        Ok(false)
    );
    let dangling = HitableList::new_with_hitable_id_list(vec![9]);
    assert_eq!(
        dangling.cast_ray_into_world(&ray, 66, 4194304, &mut record, &hitables),
        Err(RenderError::MissingHitable(9))
    );
    assert_eq!(record, HitRecord::empty());
}

// A record can be copied over wholesale.
#[test]
fn copy_over_replaces_every_field() {
    let mut a = HitRecord::empty();
    let mut b = HitRecord::empty();
    b.t = 7;
    b.position = Vec3::new(1, 2, 3);
    b.normal = Vec3::new(4, 5, 6);
    b.material = 8;
    b.hitable = 9;
    a.copy_over(&b);
    assert_eq!(a, b);
}

// A pixel computed alone carries its destination index and matches the
// per-slot function wherever it is computed.
#[test]
fn indexed_pixel_carries_destination() {
    let mut materials = MaterialLibrary::new();
    let m = materials.add_new(Material::Lambertian(Lambertian::new(Vec3::new(
        52429, 19661, 19661,
    ))));
    let mut hitables = HitableLibrary::new();
    let id = hitables.add_hitable_to_library(Hitable::Sphere(Sphere::new(
        Vec3::new(0, 0, -65536),
        32768,
        m,
    )));
    let world = HitableList::new_with_hitable_id_list(vec![id]);
    let camera = ray_tracer_core::camera::Camera::new(5898240, 98304);
    let frame = ray_tracer_core::render::render_frame(
        &world, &materials, &hitables, &camera, 3, 2, 1, 5,
    )
    .unwrap();
    for idx in 0..6usize {
        let pixel = render_pixel_at(&world, &materials, &hitables, &camera, 3, 2, 1, 5, idx)
            .unwrap();
        assert_eq!(pixel.index, idx);
        assert_eq!(pixel.color, frame[idx]);
    }
}

// Scattering advances the caller's generator, so consecutive diffuse
// bounces from one generator differ while reruns from equal seeds agree.
#[test]
fn scatter_streams_are_reproducible() {
    let material = Lambertian::new(Vec3::new(32768, 32768, 32768));
    let mut record = HitRecord::empty();
    record.position = Vec3::new(0, 0, -65536);
    record.normal = Vec3::new(0, 0, 65536);
    let ray = Ray::new(Vec3::new(0, 0, 0), Vec3::new(0, 0, -65536));
    let mut rng1 = RngState::new(123);
    let first = material.scatter(&ray, &record, &mut rng1);
    let second = material.scatter(&ray, &record, &mut rng1);
    assert_ne!(first.scattered.direction, second.scattered.direction);
    let mut rng2 = RngState::new(123);
    let replay = material.scatter(&ray, &record, &mut rng2);
    assert_eq!(replay.scattered.direction, first.scattered.direction);
}
