use ray_tracer_core::hitable::HitRecord;
use ray_tracer_core::ray::Ray;
use ray_tracer_core::sphere::Sphere;
use ray_tracer_core::vec3::Vec3;

// A ray from the origin aimed at the center of a sphere two units away with
// radius one half: the direction's length is the distance, so the expected
// parameter is (2.0 - 0.5) / 2.0 = 0.75, exactly 49152 in fixed point.
#[test]
fn aimed_at_center_hits_at_distance_minus_radius() {
    let sphere = Sphere::new(Vec3::new(0, 0, -131072), 32768, 1);
    let ray = Ray::new(Vec3::new(0, 0, 0), Vec3::new(0, 0, -131072));
    let mut record = HitRecord::empty();
    let hit = sphere.hit(&ray, 66, 4194304, &mut record);
    assert!(hit);
    assert_eq!(record.t, 49152);
    // position = origin + t * direction = (0, 0, -1.5)
    assert_eq!(record.position, Vec3::new(0, 0, -98304));
    // normal = (position - center) / radius = (0, 0, 1.0)
    assert_eq!(record.normal, Vec3::new(0, 0, 65536));
    assert_eq!(record.material, 1);
}

// A ray tangent to a sphere has discriminant exactly zero; the outcome is a
// well-defined miss, stable across repeated calls.
#[test]
fn tangent_ray_is_stable_miss() {
    let sphere = Sphere::new(Vec3::new(32768, 0, -131072), 32768, 1);
    let ray = Ray::new(Vec3::new(0, 0, 0), Vec3::new(0, 0, -65536));
    let mut record = HitRecord::empty();
    let first = sphere.hit(&ray, 66, 4194304, &mut record);
    let second = sphere.hit(&ray, 66, 4194304, &mut record);
    assert!(!first);
    assert!(!second);
    // the record was never written
    assert_eq!(record.t, 0);
    assert_eq!(record.material, 0);
}

// A negative radius describes an inverted shell: same intersection, but the
// outward normal points toward the center.
#[test]
fn negative_radius_flips_normal() {
    let sphere = Sphere::new(Vec3::new(0, 0, -131072), -32768, 2);
    let ray = Ray::new(Vec3::new(0, 0, 0), Vec3::new(0, 0, -131072));
    let mut record = HitRecord::empty();
    let hit = sphere.hit(&ray, 66, 4194304, &mut record);
    assert!(hit);
    assert_eq!(record.t, 49152);
    assert_eq!(record.normal, Vec3::new(0, 0, -65536));
}

#[test]
fn quick_hit_is_discriminant_only() {
    let sphere = Sphere::new(Vec3::new(0, 0, -131072), 32768, 1);
    let toward = Ray::new(Vec3::new(0, 0, 0), Vec3::new(0, 0, -131072));
    let away = Ray::new(Vec3::new(0, 0, 0), Vec3::new(0, 131072, 0));
    let tangent = Ray::new(Vec3::new(32768, 0, 0), Vec3::new(0, 0, -65536));
    assert!(sphere.quick_hit(&toward));
    assert!(!sphere.quick_hit(&away));
    // discriminant exactly zero counts as a miss
    assert!(!sphere.quick_hit(&tangent));
}

// A degenerate (zero) direction is an ordinary miss, not a fault.
#[test]
fn zero_direction_misses() {
    let sphere = Sphere::new(Vec3::new(0, 0, -131072), 32768, 1);
    let ray = Ray::new(Vec3::new(0, 0, 0), Vec3::new(0, 0, 0));
    let mut record = HitRecord::empty();
    assert!(!sphere.hit(&ray, 66, 4194304, &mut record));
}

// Nearer intersections win: entering the sphere front surface first.
#[test]
fn nearest_root_is_preferred() {
    // origin inside interval reach, sphere straight ahead: the smaller root
    // (front surface at 1.5 units) is returned, not the back one at 2.5.
    let sphere = Sphere::new(Vec3::new(0, 0, -131072), 32768, 1);
    let ray = Ray::new(Vec3::new(0, 0, 0), Vec3::new(0, 0, -65536));
    let mut record = HitRecord::empty();
    assert!(sphere.hit(&ray, 66, 4194304, &mut record));
    // direction has unit length, so t is the plain distance 1.5
    assert_eq!(record.t, 98304);
}

// When the near root is below t_min the far root is used: a ray starting
// at the center exits through the shell at half a unit.
#[test]
fn far_root_used_when_near_root_excluded() {
    let sphere = Sphere::new(Vec3::new(0, 0, -131072), 32768, 1);
    let ray = Ray::new(Vec3::new(0, 0, -131072), Vec3::new(0, 0, -65536));
    let mut record = HitRecord::empty();
    assert!(sphere.hit(&ray, 66, 4194304, &mut record));
    assert_eq!(record.t, 32768);
}

#[test]
fn point_at_paramater_walks_the_ray() {
    let ray = Ray::new(Vec3::new(65536, 0, 0), Vec3::new(0, 0, -65536));
    let p = ray.point_at_paramater(32768);
    assert_eq!(p, Vec3::new(65536, 0, -32768));
    assert_eq!(ray.get_origin(), Vec3::new(65536, 0, 0));
    assert_eq!(ray.get_direction(), Vec3::new(0, 0, -65536));
}

#[test]
fn vector_operations_are_exact() {
    let a = Vec3::new(65536, -131072, 32768);
    let b = Vec3::new(65536, 65536, 65536);
    assert_eq!(a.add(&b), Vec3::new(131072, -65536, 98304));
    assert_eq!(a.sub(&b), Vec3::new(0, -196608, -32768));
    assert_eq!(a.dot(&b), (65536i128 - 131072 + 32768) * 65536);
    // scaling by one half truncates toward zero
    assert_eq!(Vec3::new(3, -3, 7).scale(32768), Vec3::new(1, -1, 3));
    assert_eq!(Vec3::new(0, -196608, 0).normalize(), Vec3::new(0, -65536, 0));
    assert_eq!(Vec3::new(0, 0, 0).normalize(), Vec3::new(0, 0, 0));
    // length of (3, 4, 0) scaled is 5 scaled
    assert_eq!(Vec3::new(3 * 65536, 4 * 65536, 0).length(), 5 * 65536);
}

#[test]
fn reflection_mirrors_about_the_normal() {
    let incoming = Vec3::new(0, 0, -65536);
    let normal = Vec3::new(0, 0, 65536);
    let reflected = ray_tracer_core::vec3::reflect(&incoming, &normal);
    assert_eq!(reflected, Vec3::new(0, 0, 65536));
    // a grazing component parallel to the surface is kept
    let slanted = Vec3::new(65536, 0, -65536);
    let r2 = ray_tracer_core::vec3::reflect(&slanted, &normal);
    assert_eq!(r2, Vec3::new(65536, 0, 65536));
}

#[test]
fn refraction_with_unit_ratio_keeps_direction() {
    let incoming = Vec3::new(0, 0, -131072);
    let normal = Vec3::new(0, 0, 65536);
    let refracted = ray_tracer_core::vec3::refract(&incoming, &normal, 65536);
    assert_eq!(refracted, Some(Vec3::new(0, 0, -65536)));
}

#[test]
fn total_internal_reflection_returns_none() {
    // grazing exit from a dense medium: ratio 8.0 has no real solution
    let incoming = Vec3::new(65536, 0, -6554);
    let normal = Vec3::new(0, 0, 65536);
    assert_eq!(ray_tracer_core::vec3::refract(&incoming, &normal, 524288), None);
}
