//! The camera: viewport and thin-lens geometry derived once from the
//! configuration, jittered per-pixel ray generation, and the recursive,
//! depth-bounded radiance estimator.

use vstd::prelude::*;

verus! {

use vstd::arithmetic::div_mod::lemma_fundamental_div_mod_converse;

use crate::color::spec_write_color;
use crate::color::write_color;
use crate::fx::SCALE;
use crate::fx::cos_fx;
use crate::fx::cos_val;
use crate::fx::div_fx;
use crate::fx::lemma_div_nonneg;
use crate::fx::mul_fx;
use crate::fx::s_div;
use crate::fx::s_mul;
use crate::fx::tan_fx;
use crate::fx::tan_val;
use crate::hittable::Hittable;
use crate::hittable::Scene;
use crate::hittable::lemma_scene_hit_loop_props;
use crate::interval::Interval;
use crate::material::Material;
use crate::rand_src::RandSource;
use crate::ray::Ray;
use crate::ray::background;
use crate::ray::bg_color;
use crate::ray::black;
use crate::vec3::Vec3;
use crate::vec3::v_add;
use crate::vec3::v_cross;
use crate::vec3::v_div_scalar;
use crate::vec3::v_ls;
use crate::vec3::v_mul;
use crate::vec3::v_neg;
use crate::vec3::v_scale;
use crate::vec3::v_sub;
use crate::vec3::v_unit;

/// One degree in radians, in raw units (rounded to nearest).
pub const DEG2RAD: i64 = 1144;

/// The lower bound of the render interval: a small positive epsilon
/// (about 0.001) that suppresses self-intersection after a bounce.
pub const T_MIN: i64 = 65;

/// The interval the estimator queries the scene with.
pub open spec fn render_interval() -> Interval {
    Interval { min: T_MIN, max: i64::MAX }
}

#[derive(Clone, Copy, Debug, PartialEq, Eq, Structural)]
pub struct Camera {
    pub aspect_ratio: i64,
    pub width: i64,
    pub samples_per_pixel: i64,
    pub max_depth: i64,
    pub vfov: i64,
    pub lookfrom: Vec3,
    pub lookat: Vec3,
    pub vup: Vec3,
    pub defocus_angle: i64,
    pub focus_dist: i64,
    pub height: i64,
    pub center: Vec3,
    pub pixel00_loc: Vec3,
    pub pixel_delta_u: Vec3,
    pub pixel_delta_v: Vec3,
    pub defocus_disk_u: Vec3,
    pub defocus_disk_v: Vec3,
}

/// The image height the configuration derives: the width over the
/// aspect ratio, floored to whole pixels, and at least 1.
pub open spec fn spec_height(c: Camera) -> int {
    let h = s_div(c.width * SCALE as int, c.aspect_ratio as int) / (SCALE as int);
    if h < 1 {
        1
    } else {
        h
    }
}

/// Half the vertical field of view, in radians.
pub open spec fn half_fov_rad(vfov: int) -> int {
    s_mul(s_mul(vfov, DEG2RAD as int), 32768)
}

/// Half the defocus cone angle, in radians.
pub open spec fn half_defocus_rad(defocus_angle: int) -> int {
    s_mul(s_mul(defocus_angle, 32768), DEG2RAD as int)
}

/// The configuration the core accepts: positive sizes within the raster
/// bounds, angles within the range the tangent series covers, and view
/// vectors that span a frame. The squared lengths of the gaze and of
/// its cross with the up vector must reach a quarter unit, so that
/// fixed-point normalization stays within a few raw units of unit
/// components. The assembling collaborator validates these before
/// rendering; `config_ok` evaluates them at run time.
pub open spec fn valid_config(c: Camera) -> bool {
    &&& 1 <= c.width <= 4096
    &&& c.aspect_ratio >= 1
    &&& 1 <= spec_height(c) <= 4096
    &&& 1 <= c.samples_per_pixel <= 65536
    &&& 0 <= c.max_depth <= 10000
    &&& 0 < c.vfov <= 90 * SCALE
    &&& cos_val(half_fov_rad(c.vfov as int)) >= 1
    &&& 0 <= c.defocus_angle <= 90 * SCALE
    &&& cos_val(half_defocus_rad(c.defocus_angle as int)) >= 1
    &&& c.focus_dist > 0
    &&& 16384 <= v_ls(v_sub(c.lookfrom, c.lookat)) < 0x7fffffffffffffff
    &&& 16384 <= v_ls(v_cross(c.vup, v_unit(v_sub(c.lookfrom, c.lookat)))) < 0x7fffffffffffffff
}

/// The normalized gaze axis of the camera frame.
pub open spec fn camera_w(c: Camera) -> Vec3 {
    v_unit(v_sub(c.lookfrom, c.lookat))
}

/// The normalized horizontal basis vector of the camera frame.
pub open spec fn camera_u(c: Camera) -> Vec3 {
    v_unit(v_cross(c.vup, camera_w(c)))
}

/// Every component within four raw units of one in magnitude.
pub open spec fn near_unit_components(v: Vec3) -> bool {
    &&& -(SCALE as int + 4) <= v.x as int <= SCALE as int + 4
    &&& -(SCALE as int + 4) <= v.y as int <= SCALE as int + 4
    &&& -(SCALE as int + 4) <= v.z as int <= SCALE as int + 4
}

/// Under the configuration margins the two normalized basis vectors of
/// the camera frame have near-unit components: the derived frame
/// cannot blow up. Sharper orthonormality bounds are not exactly
/// statable over the floored operations; the margins keep each
/// component's deviation to a few raw units.
pub proof fn lemma_camera_basis_bounded(c: Camera)
    requires
        valid_config(c),
    ensures
        near_unit_components(camera_w(c)),
        near_unit_components(camera_u(c)),
{
    crate::vec3::lemma_unit_near_unit(v_sub(c.lookfrom, c.lookat));
    crate::vec3::lemma_unit_near_unit(v_cross(c.vup, camera_w(c)));
}

/// The derived state `initialize` computes, field for field.
pub open spec fn spec_initialize(c: Camera) -> Camera {
    let height = spec_height(c);
    let center = c.lookfrom;
    let theta = s_mul(c.vfov as int, DEG2RAD as int);
    let h = tan_val(s_mul(theta, 32768));
    let viewport_height = s_mul(s_mul(2 * SCALE as int, h), c.focus_dist as int);
    let viewport_width = s_mul(c.aspect_ratio as int, viewport_height);
    let w = v_unit(v_sub(c.lookfrom, c.lookat));
    let u = v_unit(v_cross(c.vup, w));
    let v = v_cross(w, u);
    let viewport_u = v_scale(viewport_width, u);
    let viewport_v = v_scale(viewport_height, v_neg(v));
    let pixel_delta_u = v_div_scalar(viewport_u, c.width * SCALE as int);
    let pixel_delta_v = v_div_scalar(viewport_v, height * SCALE as int);
    let viewport_upper_left = v_sub(
        v_sub(v_sub(center, v_scale(c.focus_dist as int, w)), v_div_scalar(viewport_u, 2 * SCALE as int)),
        v_div_scalar(viewport_v, 2 * SCALE as int),
    );
    let pixel00_loc = v_add(viewport_upper_left, v_scale(32768, v_add(pixel_delta_u, pixel_delta_v)));
    let defocus_radius = s_mul(
        c.focus_dist as int,
        tan_val(half_defocus_rad(c.defocus_angle as int)),
    );
    Camera {
        height: height as i64,
        center,
        pixel00_loc,
        pixel_delta_u,
        pixel_delta_v,
        defocus_disk_u: v_scale(defocus_radius, u),
        defocus_disk_v: v_scale(defocus_radius, v),
        ..c
    }
}

/// The ray the camera builds for pixel `(x, y)` given the jitter
/// offsets and the lens-disk sample actually drawn.
pub open spec fn spec_get_ray(cam: Camera, x: int, y: int, px: int, py: int, dp: Vec3) -> Ray {
    let pixel_center = v_add(
        v_add(cam.pixel00_loc, v_scale(x * SCALE as int, cam.pixel_delta_u)),
        v_scale(y * SCALE as int, cam.pixel_delta_v),
    );
    let pixel_sample = v_add(
        pixel_center,
        v_add(v_scale(px, cam.pixel_delta_u), v_scale(py, cam.pixel_delta_v)),
    );
    let ray_origin = if cam.defocus_angle <= 0 {
        cam.center
    } else {
        v_add(
            cam.center,
            v_add(v_scale(dp.x as int, cam.defocus_disk_u), v_scale(dp.y as int, cam.defocus_disk_v)),
        )
    };
    Ray { origin: ray_origin, direction: v_sub(pixel_sample, ray_origin) }
}

/// The depth-bounded radiance relation: it holds exactly of the colors
/// the estimator can return for a ray at a depth. Exhausted depth is
/// black; a miss is the background gradient (black for a direction too
/// short to normalize); a hit is the attenuation of an admissible
/// scatter times a color the relation admits for the scattered ray one
/// level down.
#[verifier::opaque]
pub open spec fn radiance_rel(r: Ray, depth: int, world: Scene, c: Vec3) -> bool
    decreases depth,
{
    if depth <= 0 {
        c == black()
    } else {
        match world.spec_hit(r, render_interval()) {
            Some(rec) => exists|att: Vec3, sc: Ray, sub: Vec3|
                rec.mat.valid_scatter(r, rec, att, sc) && radiance_rel(sc, depth - 1, world, sub)
                    && c == v_mul(att, sub),
            None => if v_ls(r.direction) >= 1 {
                c == bg_color(r)
            } else {
                c == black()
            },
        }
    }
}

/// One admissible sample for pixel `(x, y)`: some in-bounds jitter and
/// lens-disk point, and a radiance estimate the relation admits for the
/// ray they determine, at the camera's depth bound.
#[verifier::opaque]
pub open spec fn pixel_sample_rel(cam: Camera, x: int, y: int, world: Scene, sample: Vec3) -> bool {
    exists|px: int, py: int, dp: Vec3|
        -32768 <= px < 32768 && -32768 <= py < 32768 && dp.z == 0 && v_ls(dp) < SCALE
            && radiance_rel(spec_get_ray(cam, x, y, px, py, dp), cam.max_depth as int, world, sample)
}

/// The accumulated radiance of `k` admissible samples for pixel
/// `(x, y)`: black for none, else a previous accumulation plus one more
/// admissible sample.
#[verifier::opaque]
pub open spec fn accum_rel(cam: Camera, x: int, y: int, world: Scene, k: int, acc: Vec3) -> bool
    decreases k,
{
    if k <= 0 {
        acc == black()
    } else {
        exists|prev: Vec3, sample: Vec3|
            accum_rel(cam, x, y, world, k - 1, prev) && pixel_sample_rel(cam, x, y, world, sample)
                && acc == v_add(prev, sample)
    }
}

/// What the raster owes for pixel `(x, y)`: the encoding, at the
/// camera's sample count, of an accumulation of exactly that many
/// admissible samples for that pixel.
#[verifier::opaque]
pub open spec fn pixel_ok(cam: Camera, world: Scene, pix: (u8, u8, u8), x: int, y: int) -> bool {
    exists|acc: Vec3|
        accum_rel(cam, x, y, world, cam.samples_per_pixel as int, acc) && (
        pix.0 as int,
        pix.1 as int,
        pix.2 as int,
        ) == spec_write_color(acc, cam.samples_per_pixel as int)
}

impl Camera {
    /// The default configuration: a square hundred-pixel image, ten
    /// samples a pixel, ten bounces, a 90-degree field of view, looking
    /// from just in front of the origin back at it.
    pub fn new() -> (r: Camera)
        ensures
            r == (Camera {
                aspect_ratio: 65536,
                width: 100,
                samples_per_pixel: 10,
                max_depth: 10,
                vfov: 5898240,
                lookfrom: Vec3 { x: 0, y: 0, z: -65536i64 },
                lookat: Vec3 { x: 0, y: 0, z: 0 },
                vup: Vec3 { x: 0, y: 65536, z: 0 },
                defocus_angle: 0,
                focus_dist: 655360,
                height: 100,
                center: Vec3 { x: 0, y: 0, z: 0 },
                pixel00_loc: Vec3 { x: 0, y: 0, z: 0 },
                pixel_delta_u: Vec3 { x: 0, y: 0, z: 0 },
                pixel_delta_v: Vec3 { x: 0, y: 0, z: 0 },
                defocus_disk_u: Vec3 { x: 0, y: 0, z: 0 },
                defocus_disk_v: Vec3 { x: 0, y: 0, z: 0 },
            }),
    {
        Camera {
            aspect_ratio: 65536,
            width: 100,
            samples_per_pixel: 10,
            max_depth: 10,
            vfov: 5898240,
            lookfrom: Vec3::new(0, 0, -65536),
            lookat: Vec3::new(0, 0, 0),
            vup: Vec3::new(0, 65536, 0),
            defocus_angle: 0,
            focus_dist: 655360,
            height: 100,
            center: Vec3::new(0, 0, 0),
            pixel00_loc: Vec3::new(0, 0, 0),
            pixel_delta_u: Vec3::new(0, 0, 0),
            pixel_delta_v: Vec3::new(0, 0, 0),
            defocus_disk_u: Vec3::new(0, 0, 0),
            defocus_disk_v: Vec3::new(0, 0, 0),
        }
    }

    /// The derived image height, available before rendering.
    pub fn image_height(&self) -> (h: i64)
        requires
            valid_config(*self),
        ensures
            h as int == spec_height(*self),
    {
        let width_fx = self.width * SCALE;
        let height_fx = div_fx(width_fx, self.aspect_ratio);
        proof {
            lemma_div_nonneg(width_fx as int, self.aspect_ratio as int);
        }
        let h = ((height_fx as u64) / 65536) as i64;
        if h < 1 {
            1
        } else {
            h
        }
    }

    /// Evaluate `valid_config` at run time, for the assembling caller.
    pub fn config_ok(&self) -> (r: bool)
        ensures
            r == valid_config(*self),
    {
        if !(1 <= self.width && self.width <= 4096) {
            return false;
        }
        if !(self.aspect_ratio >= 1) {
            return false;
        }
        let width_fx = self.width * SCALE;
        let height_fx = div_fx(width_fx, self.aspect_ratio);
        proof {
            lemma_div_nonneg(width_fx as int, self.aspect_ratio as int);
        }
        let h0 = ((height_fx as u64) / 65536) as i64;
        let h: i64 = if h0 < 1 {
            1
        } else {
            h0
        };
        if !(1 <= h && h <= 4096) {
            return false;
        }
        if !(1 <= self.samples_per_pixel && self.samples_per_pixel <= 65536) {
            return false;
        }
        if !(0 <= self.max_depth && self.max_depth <= 10000) {
            return false;
        }
        if !(0 < self.vfov && self.vfov <= 90 * SCALE) {
            return false;
        }
        if cos_fx(mul_fx(mul_fx(self.vfov, DEG2RAD), 32768)) < 1 {
            return false;
        }
        if !(0 <= self.defocus_angle && self.defocus_angle <= 90 * SCALE) {
            return false;
        }
        if cos_fx(mul_fx(mul_fx(self.defocus_angle, 32768), DEG2RAD)) < 1 {
            return false;
        }
        if !(self.focus_dist > 0) {
            return false;
        }
        let gaze = self.lookfrom.sub(self.lookat);
        let gaze_ls = gaze.length_squared();
        if gaze_ls < 16384 || gaze_ls >= i64::MAX {
            return false;
        }
        let w = gaze.unit_vector();
        let span_ls = self.vup.cross(w).length_squared();
        if span_ls < 16384 || span_ls >= i64::MAX {
            return false;
        }
        true
    }

    /// Derive the viewport and lens geometry from the configuration.
    pub fn initialize(&mut self)
        requires
            valid_config(*old(self)),
        ensures
            *final(self) == spec_initialize(*old(self)),
    {
        let width_fx = self.width * SCALE;
        let height_fx = div_fx(width_fx, self.aspect_ratio);
        proof {
            lemma_div_nonneg(width_fx as int, self.aspect_ratio as int);
        }
        let h0 = ((height_fx as u64) / 65536) as i64;
        self.height = if h0 < 1 {
            1
        } else {
            h0
        };

        self.center = self.lookfrom;

        // Determine viewport dimensions.
        let theta = mul_fx(self.vfov, DEG2RAD);
        let h = tan_fx(mul_fx(theta, 32768));
        let viewport_height = mul_fx(mul_fx(2 * SCALE, h), self.focus_dist);
        let viewport_width = mul_fx(self.aspect_ratio, viewport_height);

        // The camera frame basis.
        let w = self.lookfrom.sub(self.lookat).unit_vector();
        let u = self.vup.cross(w).unit_vector();
        let v = w.cross(u);

        // Viewport edge vectors and per-pixel deltas.
        let viewport_u = u.scale(viewport_width);
        let viewport_v = v.neg().scale(viewport_height);
        self.pixel_delta_u = viewport_u.div_scalar(width_fx);
        self.pixel_delta_v = viewport_v.div_scalar(self.height * SCALE);

        // The upper-left pixel center.
        let viewport_upper_left = self
            .center
            .sub(w.scale(self.focus_dist))
            .sub(viewport_u.div_scalar(2 * SCALE))
            .sub(viewport_v.div_scalar(2 * SCALE));
        self.pixel00_loc = viewport_upper_left.add(
            self.pixel_delta_u.add(self.pixel_delta_v).scale(32768),
        );

        // The lens disk basis.
        let defocus_radius = mul_fx(
            self.focus_dist,
            tan_fx(mul_fx(mul_fx(self.defocus_angle, 32768), DEG2RAD)),
        );
        self.defocus_disk_u = u.scale(defocus_radius);
        self.defocus_disk_v = v.scale(defocus_radius);
    }

    /// One jittered, lens-sampled ray through pixel `(x, y)`. Whatever
    /// the source yields, the result is the ray the drawn offsets and
    /// disk point determine.
    fn get_ray(&self, x: i64, y: i64, rng: &mut RandSource) -> (r: Ray)
        requires
            0 <= x <= 4096,
            0 <= y <= 4096,
        ensures
            exists|px: int, py: int, dp: Vec3|
                -32768 <= px < 32768 && -32768 <= py < 32768 && dp.z == 0 && v_ls(dp) < SCALE
                    && r == spec_get_ray(*self, x as int, y as int, px, py, dp),
    {
        let pixel_center = self
            .pixel00_loc
            .add(self.pixel_delta_u.scale(x * SCALE))
            .add(self.pixel_delta_v.scale(y * SCALE));
        let px = rng.next_in(-32768, 32768);
        let py = rng.next_in(-32768, 32768);
        let pixel_sample = pixel_center.add(
            self.pixel_delta_u.scale(px).add(self.pixel_delta_v.scale(py)),
        );

        let ghost mut dp_used = Vec3 { x: 0, y: 0, z: 0 };
        let ray_origin = if self.defocus_angle <= 0 {
            self.center
        } else {
            let dp = Vec3::random_in_unit_disk(rng);
            proof {
                dp_used = dp;
            }
            self.center.add(self.defocus_disk_u.scale(dp.x).add(self.defocus_disk_v.scale(dp.y)))
        };
        let ray_direction = pixel_sample.sub(ray_origin);
        let r = Ray::new(ray_origin, ray_direction);
        proof {
            assert(v_ls(dp_used) < SCALE) by {
                if self.defocus_angle <= 0 {
                    assert(v_ls(Vec3 { x: 0, y: 0, z: 0 }) == 0);
                }
            }
            assert(r == spec_get_ray(*self, x as int, y as int, px as int, py as int, dp_used));
        }
        r
    }

    /// The depth-bounded radiance estimator. Exhausted depth is black;
    /// a miss is the background gradient (black for a direction too
    /// short to normalize); a hit scatters and attenuates whatever the
    /// recursion returns.
    pub fn ray_color(r: &Ray, depth: i64, world: &Scene, rng: &mut RandSource) -> (c: Vec3)
        requires
            world.wf(),
        ensures
            radiance_rel(*r, depth as int, *world, c),
            depth <= 0 ==> c == black(),
            depth > 0 && world.spec_hit(*r, render_interval()) is None && v_ls(r.direction) >= 1
                ==> c == bg_color(*r),
            depth > 0 && world.spec_hit(*r, render_interval()) is None && v_ls(r.direction) < 1
                ==> c == black(),
        decreases depth,
    {
        proof {
            reveal(radiance_rel);
        }
        if depth <= 0 {
            return Vec3::new(0, 0, 0);
        }
        let interval = Interval::new(T_MIN, i64::MAX);
        match world.hit(r, interval) {
            Some(rec) => {
                proof {
                    lemma_scene_hit_loop_props(
                        world.objects@,
                        *r,
                        interval.min,
                        interval.max,
                        None,
                    );
                }
                match rec.mat.scatter(r, &rec, rng) {
                    Some((attenuation, scattered)) => {
                        let sub = Self::ray_color(&scattered, depth - 1, world, rng);
                        let c = attenuation.mul(sub);
                        proof {
                            assert(rec.mat.valid_scatter(*r, rec, attenuation, scattered)
                                && radiance_rel(scattered, depth - 1, *world, sub) && c == v_mul(
                                attenuation,
                                sub,
                            ));
                            assert(exists|att: Vec3, sc: Ray, s2: Vec3|
                                rec.mat.valid_scatter(*r, rec, att, sc) && radiance_rel(
                                    sc,
                                    depth - 1,
                                    *world,
                                    s2,
                                ) && c == v_mul(att, s2));
                        }
                        c
                    },
                    None => {
                        proof {
                            assert(false);
                        }
                        Vec3::new(0, 0, 0)
                    },
                }
            },
            None => {
                if r.direction.length_squared() >= 1 {
                    background(r)
                } else {
                    Vec3::new(0, 0, 0)
                }
            },
        }
    }

    /// Render the scene: derive the geometry, estimate radiance for
    /// every pixel with jittered samples, average, encode, and hand the
    /// raster back in row-major order. Each entry of the raster is the
    /// encoding of an accumulation of exactly `samples_per_pixel`
    /// admissible per-draw estimates for its own pixel, the pixel at
    /// index `i` being column `i % width` of row `i / width`.
    #[verifier::rlimit(80)]
    pub fn render(self, world: &Scene, rng: &mut RandSource) -> (buf: Vec<(u8, u8, u8)>)
        requires
            valid_config(self),
            world.wf(),
        ensures
            buf@.len() == spec_initialize(self).height * spec_initialize(self).width,
            forall|i: int|
                0 <= i < buf@.len() ==> #[trigger] pixel_ok(
                    spec_initialize(self),
                    *world,
                    buf@[i],
                    i % (spec_initialize(self).width as int),
                    i / (spec_initialize(self).width as int),
                ),
    {
        let ghost orig = self;
        let mut cam = self;
        cam.initialize();
        proof {
            assert(spec_initialize(orig).width == orig.width);
            assert(1 <= spec_initialize(orig).height <= 4096);
        }
        let ghost w = cam.width as int;
        let mut buf: Vec<(u8, u8, u8)> = Vec::new();
        let mut y: i64 = 0;
        while y < cam.height
            invariant
                cam == spec_initialize(orig),
                valid_config(orig),
                world.wf(),
                0 <= y <= cam.height,
                cam.height == spec_initialize(orig).height,
                cam.width == orig.width,
                w == cam.width as int,
                buf@.len() == y * cam.width,
                forall|i: int|
                    0 <= i < buf@.len() ==> #[trigger] pixel_ok(cam, *world, buf@[i], i % w, i / w),
            decreases cam.height - y,
        {
            let mut x: i64 = 0;
            while x < cam.width
                invariant
                    cam == spec_initialize(orig),
                    valid_config(orig),
                    world.wf(),
                    0 <= y < cam.height,
                    0 <= x <= cam.width,
                    cam.width == orig.width,
                    w == cam.width as int,
                    buf@.len() == y * cam.width + x,
                    forall|i: int|
                        0 <= i < buf@.len() ==> #[trigger] pixel_ok(
                            cam,
                            *world,
                            buf@[i],
                            i % w,
                            i / w,
                        ),
                decreases cam.width - x,
            {
                let mut pixel_color = Vec3::new(0, 0, 0);
                let mut s: i64 = 0;
                proof {
                    reveal(accum_rel);
                }
                while s < cam.samples_per_pixel
                    invariant
                        world.wf(),
                        0 <= x <= 4096,
                        0 <= y <= 4096,
                        0 <= s <= cam.samples_per_pixel,
                        accum_rel(cam, x as int, y as int, *world, s as int, pixel_color),
                    decreases cam.samples_per_pixel - s,
                {
                    let r = cam.get_ray(x, y, rng);
                    let sample = Self::ray_color(&r, cam.max_depth, world, rng);
                    proof {
                        reveal(pixel_sample_rel);
                        let (px, py, dp) = choose|px: int, py: int, dp: Vec3|
                            -32768 <= px < 32768 && -32768 <= py < 32768 && dp.z == 0 && v_ls(dp)
                                < SCALE && r == spec_get_ray(cam, x as int, y as int, px, py, dp);
                        assert(radiance_rel(
                            spec_get_ray(cam, x as int, y as int, px, py, dp),
                            cam.max_depth as int,
                            *world,
                            sample,
                        ));
                        assert(pixel_sample_rel(cam, x as int, y as int, *world, sample));
                    }
                    let ghost prev_color = pixel_color;
                    let ghost s0 = s as int;
                    pixel_color = pixel_color.add(sample);
                    s = s + 1;
                    proof {
                        reveal(accum_rel);
                        assert(accum_rel(cam, x as int, y as int, *world, s0, prev_color)
                            && pixel_sample_rel(cam, x as int, y as int, *world, sample)
                            && pixel_color == v_add(prev_color, sample));
                        assert(accum_rel(cam, x as int, y as int, *world, s0 + 1, pixel_color));
                    }
                }
                let rgb = write_color(pixel_color, cam.samples_per_pixel);
                proof {
                    reveal(pixel_ok);
                    let i0 = buf@.len() as int;
                    lemma_fundamental_div_mod_converse(i0, w, y as int, x as int);
                    assert(pixel_ok(cam, *world, rgb, i0 % w, i0 / w));
                }
                buf.push(rgb);
                x = x + 1;
            }
            proof {
                assert((y + 1) * cam.width == y * cam.width + cam.width) by (nonlinear_arith);
            }
            y = y + 1;
        }
        buf
    }
}

} // verus!
