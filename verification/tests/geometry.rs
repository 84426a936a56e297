//! Sphere intersection and the scene composite on concrete geometry.

use raytrace::hittable::{Hittable, Scene};
use raytrace::interval::Interval;
use raytrace::material::{Lambertain, MaterialEnum};
use raytrace::ray::Ray;
use raytrace::sphere::Sphere;
use raytrace::vec3::Vec3;

fn gray() -> MaterialEnum {
    MaterialEnum::Lambertain(Lambertain::new(Vec3::new(32768, 32768, 32768)))
}

#[test]
fn ray_through_center_hits_near_surface() {
    // Sphere of radius 0.5 at (0, 0, -1); ray from the origin through
    // the center. The near surface is half a unit away: t == 0.5, and
    // the outward normal is the exact unit +z vector.
    let s = Sphere::new(Vec3::new(0, 0, -65536), 32768, gray());
    let r = Ray::new(Vec3::new(0, 0, 0), Vec3::new(0, 0, -65536));
    let hit = s.hit(&r, Interval::new(65, i64::MAX)).expect("must hit");
    assert_eq!(hit.t, 32768);
    assert_eq!(hit.p, Vec3::new(0, 0, -32768));
    assert_eq!(hit.normal, Vec3::new(0, 0, 65536));
    assert!(hit.front_face);
}

#[test]
fn tangent_ray_has_one_root() {
    // Unit sphere at the origin; a ray grazing it at (0, 1, 0). The
    // discriminant vanishes and both candidate roots coincide at t == 2.
    let s = Sphere::new(Vec3::new(0, 0, 0), 65536, gray());
    let r = Ray::new(Vec3::new(-131072, 65536, 0), Vec3::new(65536, 0, 0));
    let hit = s.hit(&r, Interval::new(65, i64::MAX)).expect("tangent must hit");
    assert_eq!(hit.t, 131072);
    assert_eq!(hit.p, Vec3::new(0, 65536, 0));
    // Grazing incidence: the direction is orthogonal to the outward
    // normal, which the record orients as a back face.
    assert!(!hit.front_face);
    assert_eq!(hit.normal, Vec3::new(0, -65536, 0));
}

#[test]
fn missing_ray_returns_nothing() {
    let s = Sphere::new(Vec3::new(0, 0, 0), 65536, gray());
    let r = Ray::new(Vec3::new(-131072, 131072, 0), Vec3::new(65536, 0, 0));
    assert!(s.hit(&r, Interval::new(65, i64::MAX)).is_none());
}

#[test]
fn degenerate_direction_cannot_hit() {
    let s = Sphere::new(Vec3::new(0, 0, -65536), 32768, gray());
    let r = Ray::new(Vec3::new(0, 0, 0), Vec3::new(0, 0, 0));
    assert!(s.hit(&r, Interval::new(65, i64::MAX)).is_none());
}

#[test]
fn scene_returns_nearest_hit_regardless_of_order() {
    // Two spheres on the ray's path, nearer one at z = -2 (t == 1.5),
    // farther at z = -4 (t == 3.5); either insertion order returns the
    // nearer hit.
    let near = Sphere::new(Vec3::new(0, 0, -131072), 32768, gray());
    let far = Sphere::new(Vec3::new(0, 0, -262144), 32768, gray());
    let r = Ray::new(Vec3::new(0, 0, 0), Vec3::new(0, 0, -65536));

    let mut scene_a = Scene::new();
    scene_a.add(near);
    scene_a.add(far);
    let mut scene_b = Scene::new();
    scene_b.add(far);
    scene_b.add(near);

    let ha = scene_a.hit(&r, Interval::new(65, i64::MAX)).expect("hit");
    let hb = scene_b.hit(&r, Interval::new(65, i64::MAX)).expect("hit");
    assert_eq!(ha.t, 98304);
    assert_eq!(hb.t, 98304);
    assert_eq!(ha, hb);
}

#[test]
fn scene_narrowing_respects_lower_bound() {
    // With the lower bound past the first sphere, only the far one can
    // be reported.
    let near = Sphere::new(Vec3::new(0, 0, -131072), 32768, gray());
    let far = Sphere::new(Vec3::new(0, 0, -262144), 32768, gray());
    let r = Ray::new(Vec3::new(0, 0, 0), Vec3::new(0, 0, -65536));
    let mut scene = Scene::new();
    scene.add(near);
    scene.add(far);
    let hit = scene.hit(&r, Interval::new(3 * 65536, i64::MAX)).expect("hit");
    assert_eq!(hit.t, 229376);
}

#[test]
fn empty_scene_misses() {
    let scene = Scene::new();
    let r = Ray::new(Vec3::new(0, 0, 0), Vec3::new(0, 0, -65536));
    assert!(scene.hit(&r, Interval::new(65, i64::MAX)).is_none());
}

#[test]
fn flat_estimator_shades_normals_and_sky() {
    // The early estimator: a hit is 0.5 * (normal + white); a miss is
    // the sky gradient.
    let s = Sphere::new(Vec3::new(0, 0, -65536), 32768, gray());
    let mut scene = Scene::new();
    scene.add(s);
    let hit_ray = Ray::new(Vec3::new(0, 0, 0), Vec3::new(0, 0, -65536));
    let c = raytrace::ray::ray_color(&hit_ray, &scene);
    // normal (0,0,1): 0.5 * (1, 1, 2) == (0.5, 0.5, 1).
    assert_eq!(c, Vec3::new(32768, 32768, 65536));

    let miss_ray = Ray::new(Vec3::new(0, 0, 0), Vec3::new(0, 65536, 0));
    let c2 = raytrace::ray::ray_color(&miss_ray, &scene);
    assert_eq!(c2, Vec3::new(32768, 45875, 65536));
}
