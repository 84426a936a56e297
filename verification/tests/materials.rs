//! Scattering behavior of the three materials on concrete hits.

use raytrace::hittable::HitRecord;
use raytrace::material::{reflectance, Dielectric, Lambertain, Material, MaterialEnum, Metal};
use raytrace::rand_src::RandSource;
use raytrace::ray::Ray;
use raytrace::vec3::Vec3;

fn record(mat: MaterialEnum, front_face: bool) -> HitRecord {
    HitRecord {
        p: Vec3::new(0, 0, -32768),
        normal: Vec3::new(0, 0, 65536),
        mat,
        t: 32768,
        front_face,
    }
}

#[test]
fn lambertian_scatter_never_degenerates() {
    let albedo = Vec3::new(45875, 13107, 6553);
    let mat = Lambertain::new(albedo);
    let rec = record(MaterialEnum::Lambertain(mat), true);
    let r_in = Ray::new(Vec3::new(0, 0, 0), Vec3::new(0, 0, -65536));
    let mut rng = RandSource::from_seed(9);
    for _ in 0..50 {
        let (attenuation, scattered) = mat.scatter(&r_in, &rec, &mut rng).expect("always Some");
        assert_eq!(attenuation, albedo);
        assert_eq!(scattered.origin, rec.p);
        assert!(!scattered.direction.near_zero());
    }
}

#[test]
fn metal_scatter_reflects_about_the_normal() {
    let albedo = Vec3::new(58982, 52428, 45875);
    // Fuzz zero: the scattered direction is the pure mirror image.
    let mat = Metal::new(albedo, 0);
    let rec = record(MaterialEnum::Metal(mat), true);
    let r_in = Ray::new(Vec3::new(-65536, 0, 0), Vec3::new(65536, 0, -65536));
    let mut rng = RandSource::from_seed(2);
    let (attenuation, scattered) = mat.scatter(&r_in, &rec, &mut rng).expect("always Some");
    assert_eq!(attenuation, albedo);
    let unit_in = r_in.direction.unit_vector();
    assert_eq!(scattered.direction, Vec3::reflect(unit_in, rec.normal));
    // The mirrored direction leaves the surface.
    assert!(scattered.direction.dot(rec.normal) > 0);
}

#[test]
fn dielectric_with_unit_index_goes_straight() {
    // Head-on incidence at refraction index one: the scattered ray
    // continues along the incoming unit direction, whatever the draw.
    let mat = Dielectric::new(65536);
    let rec = record(MaterialEnum::Dielectric(mat), true);
    let r_in = Ray::new(Vec3::new(0, 0, 0), Vec3::new(0, 0, -131072));
    let mut rng = RandSource::from_seed(4);
    for _ in 0..20 {
        let (attenuation, scattered) = mat.scatter(&r_in, &rec, &mut rng).expect("always Some");
        assert_eq!(attenuation, Vec3::new(65536, 65536, 65536));
        assert_eq!(scattered.origin, rec.p);
        assert_eq!(scattered.direction, Vec3::new(0, 0, -65536));
    }
}

#[test]
fn dielectric_attenuation_is_always_white() {
    let mat = Dielectric::new(98304);
    let rec = record(MaterialEnum::Dielectric(mat), true);
    let r_in = Ray::new(Vec3::new(0, 0, 0), Vec3::new(0, 0, -65536));
    let mut rng = RandSource::from_seed(12);
    for _ in 0..20 {
        let (attenuation, _) = mat.scatter(&r_in, &rec, &mut rng).expect("always Some");
        assert_eq!(attenuation, Vec3::new(65536, 65536, 65536));
    }
}

#[test]
fn dielectric_total_internal_reflection_forces_mirror() {
    // Leaving a dense medium (back face, ratio 1.5) at 45 degrees:
    // ratio * sin exceeds one, so every draw must reflect.
    let mat = Dielectric::new(98304);
    let rec = HitRecord {
        p: Vec3::new(0, 0, 0),
        normal: Vec3::new(0, 65536, 0),
        mat: MaterialEnum::Dielectric(mat),
        t: 65536,
        front_face: false,
    };
    let r_in = Ray::new(Vec3::new(-65536, 65536, 0), Vec3::new(65536, -65536, 0));
    let unit_in = r_in.direction.unit_vector();
    let mirrored = Vec3::reflect(unit_in, rec.normal);
    let mut rng = RandSource::from_seed(33);
    for _ in 0..50 {
        let (_, scattered) = mat.scatter(&r_in, &rec, &mut rng).expect("always Some");
        assert_eq!(scattered.direction, mirrored);
    }
}

#[test]
fn schlick_reflectance_endpoints() {
    // Normal incidence equals r0: for index 1.5, r0 floors to 2621.
    assert_eq!(reflectance(65536, 98304), 2621);
    // Grazing incidence saturates to one, for any index.
    assert_eq!(reflectance(0, 98304), 65536);
    assert_eq!(reflectance(0, 65536), 65536);
    // Unit index has r0 == 0.
    assert_eq!(reflectance(65536, 65536), 0);
}

#[test]
fn material_enum_dispatches() {
    let albedo = Vec3::new(32768, 32768, 32768);
    let m = MaterialEnum::Lambertain(Lambertain::new(albedo));
    let rec = record(m, true);
    let r_in = Ray::new(Vec3::new(0, 0, 0), Vec3::new(0, 0, -65536));
    let mut rng = RandSource::from_seed(1);
    let (attenuation, _) = m.scatter(&r_in, &rec, &mut rng).expect("always Some");
    assert_eq!(attenuation, albedo);
}
