//! The radiance estimator, pixel encoding, and an end-to-end render.

use raytrace::camera::Camera;
use raytrace::color::write_color;
use raytrace::hittable::Scene;
use raytrace::material::{Lambertain, MaterialEnum};
use raytrace::rand_src::RandSource;
use raytrace::ray::Ray;
use raytrace::sphere::Sphere;
use raytrace::vec3::Vec3;

fn one_sphere_scene() -> Scene {
    let mat = MaterialEnum::Lambertain(Lambertain::new(Vec3::new(32768, 32768, 32768)));
    let mut scene = Scene::new();
    scene.add(Sphere::new(Vec3::new(0, 0, -65536), 32768, mat));
    scene
}

#[test]
fn depth_zero_is_black_hit_or_miss() {
    let scene = one_sphere_scene();
    let mut rng = RandSource::from_seed(1);
    let hit_ray = Ray::new(Vec3::new(0, 0, 0), Vec3::new(0, 0, -65536));
    let miss_ray = Ray::new(Vec3::new(0, 0, 0), Vec3::new(0, 65536, 0));
    assert_eq!(Camera::ray_color(&hit_ray, 0, &scene, &mut rng), Vec3::new(0, 0, 0));
    assert_eq!(Camera::ray_color(&miss_ray, 0, &scene, &mut rng), Vec3::new(0, 0, 0));
}

#[test]
fn background_gradient_endpoints() {
    // The gradient blends white at the bottom (unit y == -1) to sky
    // blue at the top (unit y == +1); straight ahead is the midpoint.
    let scene = Scene::new();
    let mut rng = RandSource::from_seed(1);
    let up = Ray::new(Vec3::new(0, 0, 0), Vec3::new(0, 65536, 0));
    let down = Ray::new(Vec3::new(0, 0, 0), Vec3::new(0, -65536, 0));
    let level = Ray::new(Vec3::new(0, 0, 0), Vec3::new(65536, 0, 0));
    assert_eq!(Camera::ray_color(&up, 1, &scene, &mut rng), Vec3::new(32768, 45875, 65536));
    assert_eq!(Camera::ray_color(&down, 1, &scene, &mut rng), Vec3::new(65536, 65536, 65536));
    assert_eq!(Camera::ray_color(&level, 1, &scene, &mut rng), Vec3::new(49152, 55705, 65536));
}

#[test]
fn absorbing_bounce_is_black_at_depth_one() {
    // Depth one on a hit: the scatter recursion bottoms out at black,
    // and the attenuated result stays black.
    let scene = one_sphere_scene();
    let mut rng = RandSource::from_seed(1);
    let hit_ray = Ray::new(Vec3::new(0, 0, 0), Vec3::new(0, 0, -65536));
    assert_eq!(Camera::ray_color(&hit_ray, 1, &scene, &mut rng), Vec3::new(0, 0, 0));
}

#[test]
fn write_color_encodes_and_quantizes() {
    // Full white, one sample: every channel clamps to 0.999 and
    // quantizes to 255.
    assert_eq!(write_color(Vec3::new(65536, 65536, 65536), 1), (255, 255, 255));
    // Quarter gray: gamma-2 lifts 0.25 to 0.5, hence byte 128.
    assert_eq!(write_color(Vec3::new(16384, 16384, 16384), 1), (128, 128, 128));
    // Averaging: 2.0 accumulated over two samples is full red.
    assert_eq!(write_color(Vec3::new(131072, 0, 0), 2), (255, 0, 0));
    // Negative radiance clamps to zero rather than wrapping.
    assert_eq!(write_color(Vec3::new(-65536, 0, 0), 1), (0, 0, 0));
}

#[test]
fn default_camera_is_valid() {
    let cam = Camera::new();
    assert_eq!(cam.width, 100);
    assert_eq!(cam.samples_per_pixel, 10);
    assert_eq!(cam.max_depth, 10);
    assert!(cam.config_ok());
    assert_eq!(cam.image_height(), 100);
}

#[test]
fn invalid_configurations_are_refused() {
    let mut cam = Camera::new();
    cam.samples_per_pixel = 0;
    assert!(!cam.config_ok());
    let mut cam2 = Camera::new();
    cam2.lookat = cam2.lookfrom;
    assert!(!cam2.config_ok());
    let mut cam3 = Camera::new();
    cam3.width = 0;
    assert!(!cam3.config_ok());
    // A gaze vector shorter than the documented margin (a quarter unit
    // of squared length) is refused: normalization would be too coarse.
    let mut cam4 = Camera::new();
    cam4.lookfrom = Vec3::new(0, 0, -362);
    assert!(!cam4.config_ok());
    // So is an oversampled configuration whose per-sample weight would
    // floor to nothing.
    let mut cam5 = Camera::new();
    cam5.samples_per_pixel = 65537;
    assert!(!cam5.config_ok());
}

fn golden_camera() -> Camera {
    let mut cam = Camera::new();
    cam.aspect_ratio = 65536;
    cam.width = 16;
    cam.samples_per_pixel = 1;
    cam.max_depth = 1;
    cam.vfov = 5898240;
    cam.lookfrom = Vec3::new(0, 0, 0);
    cam.lookat = Vec3::new(0, 0, -65536);
    cam.vup = Vec3::new(0, 65536, 0);
    cam.defocus_angle = 0;
    cam.focus_dist = 65536;
    cam
}

#[test]
fn seeded_render_is_reproducible() {
    // A single sphere straight ahead, one sample, one bounce, and a
    // fixed seed: the whole pixel buffer is a deterministic function of
    // the seed.
    let scene = one_sphere_scene();
    let cam = golden_camera();
    assert!(cam.config_ok());
    let mut rng_a = RandSource::from_seed(7);
    let mut rng_b = RandSource::from_seed(7);
    let buf_a = cam.render(&scene, &mut rng_a);
    let buf_b = golden_camera().render(&scene, &mut rng_b);
    assert_eq!(buf_a.len(), 256);
    assert_eq!(buf_a, buf_b);
}

#[test]
fn render_shades_sphere_and_sky() {
    // The sphere subtends 30 degrees around the view axis while the
    // corner rays leave at over 50, so with any jitter the center
    // pixel hits (one diffuse bounce at depth one: black) and the
    // corner pixel misses (sky gradient: not black).
    let scene = one_sphere_scene();
    let cam = golden_camera();
    let mut rng = RandSource::from_seed(21);
    let buf = cam.render(&scene, &mut rng);
    assert_eq!(buf.len(), 256);
    let center = buf[8 * 16 + 8];
    let corner = buf[0];
    assert_eq!(center, (0, 0, 0));
    assert_ne!(corner, (0, 0, 0));
}
