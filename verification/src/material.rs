//! Material scattering: diffuse (Lambertian), metal with fuzz, and
//! dielectric with Schlick-approximated reflectance.
//!
//! Scattering draws randomness, so each `scatter` contract states what
//! holds of every sample the source can yield: the attenuation, the
//! scattered origin, and the exact shape of the scattered direction as a
//! function of the drawn sample.

use vstd::prelude::*;

verus! {

use crate::fx::SCALE;
use crate::fx::add_fx;
use crate::fx::div_fx;
use crate::fx::mul_fx;
use crate::fx::min_fx;
use crate::fx::s_add;
use crate::fx::s_div;
use crate::fx::s_min;
use crate::fx::s_mul;
use crate::fx::s_sqrt;
use crate::fx::s_sub;
use crate::fx::sqrt_fx;
use crate::fx::sub_fx;
use crate::fx::lemma_isqrt_bounds;
use crate::fx::lemma_isqrt_unique;
use crate::fx::lemma_s_mul_monotone;
use vstd::arithmetic::div_mod::lemma_div_is_ordered;
use vstd::arithmetic::div_mod::lemma_div_multiples_vanish;
use crate::hittable::HitRecord;
use crate::rand_src::RandSource;
use crate::ray::Ray;
use crate::vec3::Vec3;
use crate::vec3::v_add;
use crate::vec3::v_dot;
use crate::vec3::v_ls;
use crate::vec3::v_near_zero;
use crate::vec3::v_neg;
use crate::vec3::v_reflect;
use crate::vec3::v_refract;
use crate::vec3::v_scale;
use crate::vec3::v_unit;

/// A sample the unit-vector sampler can yield.
pub open spec fn is_unit_sample(u: Vec3) -> bool {
    exists|p: Vec3| 0 < v_ls(p) < SCALE && u == v_unit(p)
}

/// A sample the unit-ball sampler can yield.
pub open spec fn is_ball_sample(f: Vec3) -> bool {
    0 < v_ls(f) < SCALE
}

/// The scattering contract: parameters must be well formed, and every
/// scattered sample satisfies the material's `valid_scatter` relation.
pub trait Material: Sized {
    /// Well-formed material parameters.
    spec fn wf(&self) -> bool;

    /// What any scattered sample must satisfy, whatever the random
    /// source yielded.
    spec fn valid_scatter(&self, r_in: Ray, rec: HitRecord, attenuation: Vec3, scattered: Ray)
        -> bool;

    fn scatter(&self, r_in: &Ray, rec: &HitRecord, rng: &mut RandSource) -> (res: Option<
        (Vec3, Ray),
    >)
        requires
            self.wf(),
            v_ls(r_in.direction) >= 1,
        ensures
            res is Some,
            res matches Some((attenuation, scattered)) ==> self.valid_scatter(
                *r_in,
                *rec,
                attenuation,
                scattered,
            ),
    ;
}

#[derive(Clone, Copy, Debug, PartialEq, Eq, Structural)]
pub struct Lambertain {
    pub albedo: Vec3,
}

impl Lambertain {
    pub fn new(albedo: Vec3) -> (r: Self)
        ensures
            r == (Lambertain { albedo }),
    {
        Lambertain { albedo }
    }
}

/// The direction a Lambertian surface scatters into for the unit sample
/// `u`: the offset normal, or the normal itself when the sample cancels
/// it to a degenerate direction.
pub open spec fn lambertian_dir(normal: Vec3, u: Vec3) -> Vec3 {
    if v_near_zero(v_add(normal, u)) {
        normal
    } else {
        v_add(normal, u)
    }
}

impl Material for Lambertain {
    open spec fn wf(&self) -> bool {
        &&& 0 <= self.albedo.x <= SCALE
        &&& 0 <= self.albedo.y <= SCALE
        &&& 0 <= self.albedo.z <= SCALE
    }

    open spec fn valid_scatter(&self, r_in: Ray, rec: HitRecord, attenuation: Vec3, scattered: Ray)
        -> bool {
        &&& attenuation == self.albedo
        &&& scattered.origin == rec.p
        &&& exists|u: Vec3| is_unit_sample(u) && scattered.direction == lambertian_dir(rec.normal, u)
        &&& (!v_near_zero(rec.normal) ==> !v_near_zero(scattered.direction))
    }

    fn scatter(&self, r_in: &Ray, rec: &HitRecord, rng: &mut RandSource) -> (res: Option<
        (Vec3, Ray),
    >) {
        let u = Vec3::random_unit_vector(rng);
        let candidate = rec.normal.add(u);
        let scatter_direction = if candidate.near_zero() {
            rec.normal
        } else {
            candidate
        };
        proof {
            assert(is_unit_sample(u));
            assert(scatter_direction == lambertian_dir(rec.normal, u));
            assert(exists|w: Vec3|
                is_unit_sample(w) && scatter_direction == lambertian_dir(rec.normal, w));
        }
        Some((self.albedo, Ray::new(rec.p, scatter_direction)))
    }
}

#[derive(Clone, Copy, Debug, PartialEq, Eq, Structural)]
pub struct Metal {
    pub albedo: Vec3,
    pub fuzz: i64,
}

impl Metal {
    pub fn new(albedo: Vec3, fuzz: i64) -> (r: Self)
        ensures
            r == (Metal { albedo, fuzz }),
    {
        Metal { albedo, fuzz }
    }
}

impl Material for Metal {
    open spec fn wf(&self) -> bool {
        &&& 0 <= self.albedo.x <= SCALE
        &&& 0 <= self.albedo.y <= SCALE
        &&& 0 <= self.albedo.z <= SCALE
        &&& 0 <= self.fuzz <= SCALE
    }

    open spec fn valid_scatter(&self, r_in: Ray, rec: HitRecord, attenuation: Vec3, scattered: Ray)
        -> bool {
        &&& attenuation == self.albedo
        &&& scattered.origin == rec.p
        &&& exists|f: Vec3|
            is_ball_sample(f) && scattered.direction == v_add(
                v_reflect(v_unit(r_in.direction), rec.normal),
                v_scale(self.fuzz as int, f),
            )
    }

    fn scatter(&self, r_in: &Ray, rec: &HitRecord, rng: &mut RandSource) -> (res: Option<
        (Vec3, Ray),
    >) {
        let reflected = Vec3::reflect(r_in.direction.unit_vector(), rec.normal);
        let f = Vec3::random_in_unit_sphere(rng);
        let direction = reflected.add(f.scale(self.fuzz));
        proof {
            assert(is_ball_sample(f) && direction == v_add(
                v_reflect(v_unit(r_in.direction), rec.normal),
                v_scale(self.fuzz as int, f),
            ));
            assert(exists|w: Vec3|
                is_ball_sample(w) && direction == v_add(
                    v_reflect(v_unit(r_in.direction), rec.normal),
                    v_scale(self.fuzz as int, w),
                ));
        }
        Some((self.albedo, Ray::new(rec.p, direction)))
    }
}

#[derive(Clone, Copy, Debug, PartialEq, Eq, Structural)]
pub struct Dielectric {
    pub refraction_index: i64,
}

impl Dielectric {
    pub fn new(refraction_index: i64) -> (r: Self)
        ensures
            r == (Dielectric { refraction_index }),
    {
        Dielectric { refraction_index }
    }
}

/// Schlick's normal-incidence reflectance `r0 = ((1 - n) / (1 + n))^2`.
pub open spec fn schlick_r0(ref_idx: int) -> int {
    let r0_sqrt = s_div(s_sub(SCALE as int, ref_idx), s_add(SCALE as int, ref_idx));
    s_mul(r0_sqrt, r0_sqrt)
}

/// Schlick's reflectance approximation:
/// `r0 + (1 - r0) * (1 - cosine)^5` with `r0 = ((1 - n) / (1 + n))^2`.
pub open spec fn schlick(cosine: int, ref_idx: int) -> int {
    let r0 = schlick_r0(ref_idx);
    s_add(r0, s_mul(s_sub(SCALE as int, r0), pow5(s_sub(SCALE as int, cosine))))
}

pub open spec fn pow5(x: int) -> int {
    s_mul(s_mul(s_mul(s_mul(x, x), x), x), x)
}

/// The dielectric's per-draw decision: reflect when total internal
/// reflection forces it or the Schlick threshold exceeds the uniform
/// draw, else refract.
pub open spec fn dielectric_dir(
    u: Vec3,
    normal: Vec3,
    eta: int,
    cos_theta: int,
    sin_theta: int,
    draw: int,
) -> Vec3 {
    if s_mul(eta, sin_theta) > SCALE as int || schlick(cos_theta, eta) > draw {
        v_reflect(u, normal)
    } else {
        v_refract(u, normal, eta)
    }
}

/// Schlick's reflectance, evaluated exactly over the fixed-point model.
pub fn reflectance(cosine: i64, ref_idx: i64) -> (r: i64)
    requires
        ref_idx >= 0,
    ensures
        r as int == schlick(cosine as int, ref_idx as int),
{
    let r0_sqrt = div_fx(sub_fx(SCALE, ref_idx), add_fx(SCALE, ref_idx));
    let r0 = mul_fx(r0_sqrt, r0_sqrt);
    let base = sub_fx(SCALE, cosine);
    let b2 = mul_fx(base, base);
    let b3 = mul_fx(b2, base);
    let b4 = mul_fx(b3, base);
    let b5 = mul_fx(b4, base);
    add_fx(r0, mul_fx(sub_fx(SCALE, r0), b5))
}

/// The relative refraction ratio a dielectric uses for a hit.
pub open spec fn dielectric_ratio(ir: int, front_face: bool) -> int {
    if front_face {
        s_div(SCALE as int, ir)
    } else {
        ir
    }
}

/// The sine recovered from the clamped cosine; negative squares (possible
/// only for non-unit inputs) are treated as grazing incidence.
pub open spec fn sin_from_cos(cos_theta: int) -> int {
    let sin_sq = s_sub(SCALE as int, s_mul(cos_theta, cos_theta));
    if sin_sq < 0 {
        0
    } else {
        s_sqrt(sin_sq)
    }
}

impl Material for Dielectric {
    open spec fn wf(&self) -> bool {
        self.refraction_index > 0
    }

    open spec fn valid_scatter(&self, r_in: Ray, rec: HitRecord, attenuation: Vec3, scattered: Ray)
        -> bool {
        let eta = dielectric_ratio(self.refraction_index as int, rec.front_face);
        let u = v_unit(r_in.direction);
        let cos_theta = s_min(v_dot(v_neg(u), rec.normal), SCALE as int);
        let sin_theta = sin_from_cos(cos_theta);
        &&& attenuation == (Vec3 { x: SCALE, y: SCALE, z: SCALE })
        &&& scattered.origin == rec.p
        &&& exists|draw: int|
            0 <= draw < SCALE && scattered.direction == #[trigger] dielectric_dir(
                u,
                rec.normal,
                eta,
                cos_theta,
                sin_theta,
                draw,
            )
        &&& (s_mul(eta, sin_theta) > SCALE as int ==> scattered.direction == v_reflect(
            u,
            rec.normal,
        ))
        &&& (s_mul(eta, sin_theta) <= SCALE as int && schlick(cos_theta, eta) <= 0
            ==> scattered.direction == v_refract(u, rec.normal, eta))
    }

    fn scatter(&self, r_in: &Ray, rec: &HitRecord, rng: &mut RandSource) -> (res: Option<
        (Vec3, Ray),
    >) {
        let refraction_ratio = if rec.front_face {
            div_fx(SCALE, self.refraction_index)
        } else {
            self.refraction_index
        };
        proof {
            crate::fx::lemma_div_nonneg(SCALE as int, self.refraction_index as int);
        }
        let unit_direction = r_in.direction.unit_vector();
        let cos_theta = min_fx(unit_direction.neg().dot(rec.normal), SCALE);
        let sin_sq = sub_fx(SCALE, mul_fx(cos_theta, cos_theta));
        let sin_theta = if sin_sq < 0 {
            0
        } else {
            sqrt_fx(sin_sq)
        };
        let cannot_refract = mul_fx(refraction_ratio, sin_theta) > SCALE;
        let ghost mut draw_used: int = 0;
        let direction = if cannot_refract {
            Vec3::reflect(unit_direction, rec.normal)
        } else {
            let draw = rng.next_in(0, SCALE);
            proof {
                draw_used = draw as int;
            }
            if reflectance(cos_theta, refraction_ratio) > draw {
                Vec3::reflect(unit_direction, rec.normal)
            } else {
                Vec3::refract(unit_direction, rec.normal, refraction_ratio)
            }
        };
        proof {
            let eta = dielectric_ratio(self.refraction_index as int, rec.front_face);
            let u = v_unit(r_in.direction);
            let cs = s_min(v_dot(v_neg(u), rec.normal), SCALE as int);
            let sn = sin_from_cos(cs);
            assert(0 <= draw_used < SCALE);
            assert(direction == dielectric_dir(u, rec.normal, eta, cs, sn, draw_used));
            assert(exists|draw: int|
                0 <= draw < SCALE && direction == #[trigger] dielectric_dir(
                    u,
                    rec.normal,
                    eta,
                    cs,
                    sn,
                    draw,
                ));
        }
        Some((Vec3::new(SCALE, SCALE, SCALE), Ray::new(rec.p, direction)))
    }
}

/// The diffuse fallback: whatever unit sample was drawn, the scattered
/// direction is never the degenerate zero vector when the normal is
/// not.
pub proof fn lemma_lambertian_never_zero(normal: Vec3, u: Vec3)
    requires
        !v_near_zero(normal),
    ensures
        !v_near_zero(lambertian_dir(normal, u)),
{
}

/// At normal incidence (`cos = 1`) Schlick's reflectance is exactly
/// `r0`: the angular term vanishes.
pub proof fn lemma_schlick_normal_incidence(ref_idx: int)
    ensures
        schlick(SCALE as int, ref_idx) == schlick_r0(ref_idx),
{
    assert(pow5(s_sub(SCALE as int, SCALE as int)) == 0);
}

/// At grazing incidence (`cos = 0`) Schlick's reflectance is exactly
/// one, for any nonnegative index.
pub proof fn lemma_schlick_grazing(ref_idx: int)
    requires
        0 <= ref_idx <= i64::MAX as int,
    ensures
        schlick(0, ref_idx) == SCALE as int,
{
    lemma_schlick_r0_bounds(ref_idx);
    let r0 = schlick_r0(ref_idx);
    // (1 - 0)^5 is exactly one.
    assert(s_mul(SCALE as int, SCALE as int) == SCALE as int) by {
        lemma_div_multiples_vanish(SCALE as int, SCALE as int);
    }
    assert(pow5(SCALE as int) == SCALE as int);
    // (1 - r0) * 1 is exactly 1 - r0.
    assert(s_mul(s_sub(SCALE as int, r0), SCALE as int) == s_sub(SCALE as int, r0)) by {
        assert(((SCALE as int - r0) * SCALE as int) / (SCALE as int) == SCALE as int - r0) by {
            vstd::arithmetic::mul::lemma_mul_is_commutative(SCALE as int - r0, SCALE as int);
            lemma_div_multiples_vanish(SCALE as int - r0, SCALE as int);
        }
    }
}

/// Schlick's `r0` lies in `[0, 1]` for any nonnegative index.
pub proof fn lemma_schlick_r0_bounds(ref_idx: int)
    requires
        0 <= ref_idx <= i64::MAX as int,
    ensures
        0 <= schlick_r0(ref_idx) <= SCALE as int,
{
    let a = s_sub(SCALE as int, ref_idx);
    let b = s_add(SCALE as int, ref_idx);
    assert(b >= SCALE as int);
    assert(-b <= a <= b);
    let q = s_div(a, b);
    assert(-(SCALE as int) <= q <= SCALE as int) by {
        lemma_div_is_ordered(a * (SCALE as int), b * (SCALE as int), b);
        lemma_div_is_ordered(-b * (SCALE as int), a * (SCALE as int), b);
        assert((b * (SCALE as int)) / b == SCALE as int) by {
            lemma_div_multiples_vanish(SCALE as int, b);
        }
        assert((-b * (SCALE as int)) / b == -(SCALE as int)) by {
            vstd::arithmetic::mul::lemma_mul_is_commutative(b, -(SCALE as int));
            lemma_div_multiples_vanish(-(SCALE as int), b);
        }
        assert(a * (SCALE as int) <= b * (SCALE as int)) by (nonlinear_arith)
            requires
                a <= b,
        ;
        assert(-b * (SCALE as int) <= a * (SCALE as int)) by (nonlinear_arith)
            requires
                -b <= a,
        ;
    }
    assert(0 <= q * q <= (SCALE as int) * (SCALE as int)) by (nonlinear_arith)
        requires
            -(SCALE as int) <= q <= SCALE as int,
    ;
    lemma_div_is_ordered(q * q, (SCALE as int) * (SCALE as int), SCALE as int);
    vstd::arithmetic::div_mod::lemma_div_pos_is_pos(q * q, SCALE as int);
    assert(((SCALE as int) * (SCALE as int)) / (SCALE as int) == SCALE as int) by {
        lemma_div_multiples_vanish(SCALE as int, SCALE as int);
    }
}

/// Raising a nonnegative base raises its fifth power.
pub proof fn lemma_pow5_monotone(x1: int, x2: int)
    requires
        0 <= x2 <= x1,
    ensures
        0 <= pow5(x2) <= pow5(x1),
{
    lemma_s_mul_monotone(x1, x2, x1, x2);
    lemma_s_mul_monotone(s_mul(x1, x1), s_mul(x2, x2), x1, x2);
    lemma_s_mul_monotone(s_mul(s_mul(x1, x1), x1), s_mul(s_mul(x2, x2), x2), x1, x2);
    lemma_s_mul_monotone(
        s_mul(s_mul(s_mul(x1, x1), x1), x1),
        s_mul(s_mul(s_mul(x2, x2), x2), x2),
        x1,
        x2,
    );
}

/// The Schlick threshold never increases as the incidence cosine
/// grows: a grazing ray reflects at least as often as a steeper one,
/// for any nonnegative index.
pub proof fn lemma_schlick_monotone(c1: int, c2: int, ref_idx: int)
    requires
        c1 <= c2 <= SCALE as int,
        0 <= ref_idx <= i64::MAX as int,
    ensures
        schlick(c1, ref_idx) >= schlick(c2, ref_idx),
{
    lemma_schlick_r0_bounds(ref_idx);
    let r0 = schlick_r0(ref_idx);
    let b1 = s_sub(SCALE as int, c1);
    let b2 = s_sub(SCALE as int, c2);
    crate::fx::lemma_sat_monotone(SCALE as int - c2, SCALE as int - c1);
    assert(0 <= b2 <= b1);
    lemma_pow5_monotone(b1, b2);
    lemma_s_mul_monotone(s_sub(SCALE as int, r0), s_sub(SCALE as int, r0), pow5(b1), pow5(b2));
    crate::fx::lemma_sat_monotone(
        r0 + s_mul(s_sub(SCALE as int, r0), pow5(b2)),
        r0 + s_mul(s_sub(SCALE as int, r0), pow5(b1)),
    );
}

/// With a unit refraction index the relative ratio is exactly one on
/// either face.
pub proof fn lemma_dielectric_unit_ratio(front_face: bool)
    ensures
        dielectric_ratio(SCALE as int, front_face) == SCALE as int,
{
    assert(s_div(SCALE as int, SCALE as int) == SCALE as int) by {
        lemma_div_multiples_vanish(SCALE as int, SCALE as int);
    }
}

/// The recovered sine never exceeds one, so a unit ratio never forces
/// total internal reflection: the dielectric with index one may always
/// refract.
pub proof fn lemma_unit_ratio_no_tir(cos_theta: int)
    ensures
        0 <= sin_from_cos(cos_theta) <= SCALE as int,
        s_mul(SCALE as int, sin_from_cos(cos_theta)) <= SCALE as int,
{
    let csq = s_mul(cos_theta, cos_theta);
    assert(csq >= 0) by {
        assert(cos_theta * cos_theta >= 0) by (nonlinear_arith);
        vstd::arithmetic::div_mod::lemma_div_pos_is_pos(cos_theta * cos_theta, SCALE as int);
    }
    let sin_sq = s_sub(SCALE as int, csq);
    assert(sin_sq <= SCALE as int);
    let sin = sin_from_cos(cos_theta);
    if sin_sq < 0 {
        assert(sin == 0);
    } else {
        lemma_isqrt_bounds(sin_sq * (SCALE as int));
        assert(sin_sq * (SCALE as int) <= (SCALE as int) * (SCALE as int)) by (nonlinear_arith)
            requires
                sin_sq <= SCALE as int,
        ;
        if sin > SCALE as int {
            assert(sin * sin > (SCALE as int) * (SCALE as int)) by (nonlinear_arith)
                requires
                    sin > SCALE as int,
            ;
        }
    }
    assert(s_mul(SCALE as int, sin) == sin) by {
        lemma_div_multiples_vanish(sin, SCALE as int);
    }
}

/// Head-on incidence at unit ratio: refraction continues the incoming
/// unit direction unchanged, the fixed-point shadow of "no bend".
pub proof fn lemma_refract_head_on(n: Vec3)
    requires
        -0x10000000000 <= n.x <= 0x10000000000,
        -0x10000000000 <= n.y <= 0x10000000000,
        -0x10000000000 <= n.z <= 0x10000000000,
        v_dot(n, n) >= SCALE as int,
    ensures
        v_refract(v_neg(n), n, SCALE as int) == v_neg(n),
{
    let uv = v_neg(n);
    assert(v_neg(uv) == n);
    let cos = crate::fx::s_min(v_dot(v_neg(uv), n), SCALE as int);
    assert(cos == SCALE as int);
    assert(v_scale(SCALE as int, n) == n) by {
        lemma_div_multiples_vanish(n.x as int, SCALE as int);
        lemma_div_multiples_vanish(n.y as int, SCALE as int);
        lemma_div_multiples_vanish(n.z as int, SCALE as int);
    }
    let mid = v_add(uv, v_scale(cos, n));
    assert(mid == (Vec3 { x: 0, y: 0, z: 0 }));
    let r_out_perp = v_scale(SCALE as int, mid);
    assert(r_out_perp == (Vec3 { x: 0, y: 0, z: 0 }));
    assert(v_ls(r_out_perp) == 0);
    assert(s_sqrt(crate::fx::s_abs(s_sub(SCALE as int, 0))) == SCALE as int) by {
        lemma_isqrt_unique((SCALE as int) * (SCALE as int), SCALE as int);
    }
    assert(v_neg(v_scale(SCALE as int, n)) == uv);
}

/// The dielectric law at unit index, assembled: for a head-on hit,
/// where the unit incoming direction exactly opposes a unit-or-longer
/// normal, every scatter the contract admits keeps the full white
/// attenuation and continues the incoming direction unchanged — no
/// bend, and reflection is never chosen.
pub proof fn lemma_dielectric_head_on(
    d: Dielectric,
    r_in: Ray,
    rec: HitRecord,
    att: Vec3,
    sc: Ray,
)
    requires
        d.refraction_index == SCALE,
        -0x10000000000 <= rec.normal.x <= 0x10000000000,
        -0x10000000000 <= rec.normal.y <= 0x10000000000,
        -0x10000000000 <= rec.normal.z <= 0x10000000000,
        v_unit(r_in.direction) == v_neg(rec.normal),
        v_dot(rec.normal, rec.normal) >= SCALE as int,
        d.valid_scatter(r_in, rec, att, sc),
    ensures
        att == (Vec3 { x: SCALE, y: SCALE, z: SCALE }),
        sc.direction == v_unit(r_in.direction),
{
    let n = rec.normal;
    let u = v_unit(r_in.direction);
    assert(v_neg(u) == n);
    lemma_dielectric_unit_ratio(rec.front_face);
    let eta = dielectric_ratio(d.refraction_index as int, rec.front_face);
    assert(eta == SCALE as int);
    let cos = s_min(v_dot(v_neg(u), n), SCALE as int);
    assert(cos == SCALE as int);
    lemma_unit_ratio_no_tir(cos);
    lemma_schlick_normal_incidence(SCALE as int);
    assert(schlick_r0(SCALE as int) == 0);
    lemma_refract_head_on(n);
    assert(sc.direction == v_refract(u, n, SCALE as int));
}

/// The closed set of materials a scene can hold, dispatched by matching.
#[derive(Clone, Copy, Debug, PartialEq, Eq, Structural)]
pub enum MaterialEnum {
    Lambertain(Lambertain),
    Metal(Metal),
    Dielectric(Dielectric),
}

impl Material for MaterialEnum {
    open spec fn wf(&self) -> bool {
        match *self {
            MaterialEnum::Lambertain(m) => m.wf(),
            MaterialEnum::Metal(m) => m.wf(),
            MaterialEnum::Dielectric(m) => m.wf(),
        }
    }

    open spec fn valid_scatter(&self, r_in: Ray, rec: HitRecord, attenuation: Vec3, scattered: Ray)
        -> bool {
        match *self {
            MaterialEnum::Lambertain(m) => m.valid_scatter(r_in, rec, attenuation, scattered),
            MaterialEnum::Metal(m) => m.valid_scatter(r_in, rec, attenuation, scattered),
            MaterialEnum::Dielectric(m) => m.valid_scatter(r_in, rec, attenuation, scattered),
        }
    }

    fn scatter(&self, r_in: &Ray, rec: &HitRecord, rng: &mut RandSource) -> (res: Option<
        (Vec3, Ray),
    >) {
        match self {
            MaterialEnum::Lambertain(m) => m.scatter(r_in, rec, rng),
            MaterialEnum::Metal(m) => m.scatter(r_in, rec, rng),
            MaterialEnum::Dielectric(m) => m.scatter(r_in, rec, rng),
        }
    }
}

} // verus!
