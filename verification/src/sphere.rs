//! Analytic ray–sphere intersection in the half-coefficient form.

use vstd::prelude::*;

verus! {

use crate::fx::add_fx;
use crate::fx::div_fx;
use crate::fx::mul_fx;
use crate::fx::neg_fx;
use crate::fx::s_add;
use crate::fx::s_div;
use crate::fx::s_mul;
use crate::fx::s_neg;
use crate::fx::s_sqrt;
use crate::fx::s_sub;
use crate::fx::sqrt_fx;
use crate::fx::sub_fx;
use crate::hittable::HitRecord;
use crate::hittable::Hittable;
use crate::hittable::hr_new;
use crate::interval::Interval;
use crate::material::Material;
use crate::material::MaterialEnum;
use crate::ray::Ray;
use crate::ray::ray_at;
use crate::vec3::Vec3;
use crate::fx::lemma_isqrt_bounds;
use crate::fx::lemma_isqrt_unique;
use vstd::arithmetic::div_mod::lemma_fundamental_div_mod_converse;
use crate::vec3::v_div_scalar;
use crate::vec3::v_dot;
use crate::vec3::v_neg;
use crate::vec3::v_ls;
use crate::vec3::v_sub;

#[derive(Clone, Copy, Debug, PartialEq, Eq, Structural)]
pub struct Sphere {
    pub center: Vec3,
    pub radius: i64,
    pub mat: MaterialEnum,
}

/// The quadratic's coefficients in half-coefficient form, and its two
/// candidate roots, the smaller first.
pub open spec fn sphere_a(s: Sphere, r: Ray) -> int {
    v_ls(r.direction)
}

pub open spec fn sphere_half_b(s: Sphere, r: Ray) -> int {
    v_dot(v_sub(r.origin, s.center), r.direction)
}

pub open spec fn sphere_c(s: Sphere, r: Ray) -> int {
    s_sub(v_ls(v_sub(r.origin, s.center)), s_mul(s.radius as int, s.radius as int))
}

pub open spec fn sphere_disc(s: Sphere, r: Ray) -> int {
    s_sub(
        s_mul(sphere_half_b(s, r), sphere_half_b(s, r)),
        s_mul(sphere_a(s, r), sphere_c(s, r)),
    )
}

pub open spec fn sphere_root1(s: Sphere, r: Ray) -> int {
    s_div(s_sub(s_neg(sphere_half_b(s, r)), s_sqrt(sphere_disc(s, r))), sphere_a(s, r))
}

pub open spec fn sphere_root2(s: Sphere, r: Ray) -> int {
    s_div(s_add(s_neg(sphere_half_b(s, r)), s_sqrt(sphere_disc(s, r))), sphere_a(s, r))
}

/// The record a hit at parameter `root` produces: the point along the
/// ray, and the outward normal scaled down by the radius, oriented by
/// the record constructor.
pub open spec fn sphere_record(s: Sphere, r: Ray, root: int) -> HitRecord {
    let point = ray_at(r, root);
    let outward_normal = v_div_scalar(v_sub(point, s.center), s.radius as int);
    hr_new(point, root as i64, r, outward_normal, s.mat)
}

/// The intersection, if any, of a ray with a sphere on an interval:
/// solve the half-coefficient quadratic, take the smaller root when the
/// interval strictly surrounds it, otherwise the larger, otherwise none.
/// A direction too short to measure (squared length zero) cannot be
/// traced and yields no hit.
pub open spec fn sphere_spec_hit(s: Sphere, r: Ray, ray_t: Interval) -> Option<HitRecord> {
    if sphere_a(s, r) <= 0 {
        None
    } else if sphere_disc(s, r) < 0 {
        None
    } else {
        let root1 = sphere_root1(s, r);
        let root2 = sphere_root2(s, r);
        if ray_t.min < root1 && root1 < ray_t.max {
            Some(sphere_record(s, r, root1))
        } else if ray_t.min < root2 && root2 < ray_t.max {
            Some(sphere_record(s, r, root2))
        } else {
            None
        }
    }
}

impl Sphere {
    pub fn new(center: Vec3, radius: i64, mat: MaterialEnum) -> (r: Self)
        requires
            radius > 0,
        ensures
            r == (Sphere { center, radius, mat }),
    {
        Sphere { center, radius, mat }
    }
}

impl Hittable for Sphere {
    open spec fn wf(&self) -> bool {
        self.radius > 0 && self.mat.wf()
    }

    open spec fn spec_hit(&self, r: Ray, ray_t: Interval) -> Option<HitRecord> {
        sphere_spec_hit(*self, r, ray_t)
    }

    fn hit(&self, r: &Ray, ray_t: Interval) -> (res: Option<HitRecord>) {
        let oc = r.origin.sub(self.center);
        let a = r.direction.length_squared();
        let half_b = oc.dot(r.direction);
        let c = sub_fx(oc.length_squared(), mul_fx(self.radius, self.radius));
        let discriminant = sub_fx(mul_fx(half_b, half_b), mul_fx(a, c));
        if a <= 0 {
            return None;
        }
        if discriminant < 0 {
            return None;
        }
        let sqrtd = sqrt_fx(discriminant);
        let mut root = div_fx(sub_fx(neg_fx(half_b), sqrtd), a);
        if !ray_t.surronds(root) {
            root = div_fx(add_fx(neg_fx(half_b), sqrtd), a);
            if !ray_t.surronds(root) {
                return None;
            }
        }
        let point = r.at(root);
        let outward_normal = point.sub(self.center).div_scalar(self.radius);
        Some(HitRecord::new(point, root, r, outward_normal, self.mat))
    }
}

/// Any hit a sphere yields carries the sphere's material, lies strictly
/// inside the query interval, evaluates the ray at its parameter, and
/// can only have come from a ray with a usable direction.
pub proof fn lemma_sphere_hit_props(s: Sphere, r: Ray, ray_t: Interval)
    ensures
        sphere_spec_hit(s, r, ray_t) matches Some(rec) ==> rec.mat == s.mat && v_ls(r.direction)
            >= 1 && ray_t.min < rec.t < ray_t.max && rec.p == ray_at(r, rec.t as int),
{
}

/// The normal a hit reports is the offset of the hit point from the
/// center, scaled down by the radius, oriented against the incoming
/// ray — the fixed-point form of "parallel to `hit_point - center`".
pub proof fn lemma_sphere_hit_normal(s: Sphere, r: Ray, ray_t: Interval)
    ensures
        sphere_spec_hit(s, r, ray_t) matches Some(rec) ==> {
            let outward = v_div_scalar(v_sub(rec.p, s.center), s.radius as int);
            rec.normal == if v_dot(r.direction, outward) < 0 {
                outward
            } else {
                v_neg(outward)
            }
        },
{
}

/// The smaller candidate root never exceeds the larger.
pub proof fn lemma_sphere_roots_ordered(s: Sphere, r: Ray)
    requires
        sphere_a(s, r) >= 1,
        sphere_disc(s, r) >= 0,
    ensures
        sphere_root1(s, r) <= sphere_root2(s, r),
{
    let hb = sphere_half_b(s, r);
    let d = sphere_disc(s, r);
    lemma_isqrt_bounds(d * 65536);
    let sq = s_sqrt(d);
    assert(sq >= 0);
    crate::fx::lemma_sat_monotone(s_neg(hb) - sq, s_neg(hb) + sq);
    crate::fx::lemma_s_div_ordered(s_sub(s_neg(hb), sq), s_add(s_neg(hb), sq), sphere_a(s, r));
}

/// A vanishing discriminant collapses the two candidate roots: a
/// tangent ray has exactly one root, and the hit, when the interval
/// admits it, is that root.
pub proof fn lemma_sphere_tangent(s: Sphere, r: Ray, ray_t: Interval)
    requires
        sphere_a(s, r) >= 1,
        sphere_disc(s, r) == 0,
    ensures
        sphere_root1(s, r) == sphere_root2(s, r),
        ray_t.min < sphere_root1(s, r) < ray_t.max ==> sphere_spec_hit(s, r, ray_t) == Some(
            sphere_record(s, r, sphere_root1(s, r)),
        ),
        !(ray_t.min < sphere_root1(s, r) < ray_t.max) ==> sphere_spec_hit(s, r, ray_t) is None,
{
    assert(s_sqrt(0) == 0) by {
        lemma_isqrt_unique(0, 0);
    }
}

/// How squaring interacts with negation under flooring, for operands
/// small enough that nothing saturates: the square is nonnegative,
/// negation inside the product costs at most one raw unit, and the
/// square of the negation is the square.
proof fn lemma_mul_neg_self(x: int)
    requires
        -0x4000000 <= x <= 0x4000000,
    ensures
        0 <= s_mul(x, x) <= 0x1000000000,
        s_mul(-x, -x) == s_mul(x, x),
        -s_mul(x, x) - 1 <= s_mul(-x, x) <= -s_mul(x, x),
    decreases 0int,
{
    assert(0 <= x * x <= 0x10000000000000) by (nonlinear_arith)
        requires
            -0x4000000 <= x <= 0x4000000,
    ;
    vstd::arithmetic::div_mod::lemma_div_pos_is_pos(x * x, 65536);
    vstd::arithmetic::div_mod::lemma_div_is_ordered(x * x, 0x10000000000000, 65536);
    assert((-x) * (-x) == x * x) by (nonlinear_arith);
    assert((-x) * x == -(x * x)) by (nonlinear_arith);
    let v = x * x;
    vstd::arithmetic::div_mod::lemma_fundamental_div_mod(v, 65536);
    let q = v / 65536;
    let rem = v % 65536;
    if rem == 0 {
        lemma_fundamental_div_mod_converse(-v, 65536, -q, 0);
    } else {
        assert(-v == (-q - 1) * 65536 + (65536 - rem)) by (nonlinear_arith)
            requires
                v == 65536 * q + rem,
        ;
        lemma_fundamental_div_mod_converse(-v, 65536, -q - 1, 65536 - rem);
    }
}

/// A ray whose direction is the exact offset from its origin to the
/// center of a sphere it starts outside of always hits, at the near
/// root, provided coordinates are moderate (so nothing saturates), the
/// sphere is not vanishingly small against its distance, and the
/// interval spans the forward unit of travel. Inputs outside those
/// margins can lose the whole discriminant to flooring.
pub proof fn lemma_ray_through_center_hits(s: Sphere, r: Ray, ray_t: Interval)
    requires
        r.direction == v_sub(s.center, r.origin),
        -0x2000000 <= r.origin.x <= 0x2000000,
        -0x2000000 <= r.origin.y <= 0x2000000,
        -0x2000000 <= r.origin.z <= 0x2000000,
        -0x2000000 <= s.center.x <= 0x2000000,
        -0x2000000 <= s.center.y <= 0x2000000,
        256 <= s.radius <= 0x2000000,
        -0x2000000 <= s.center.z <= 0x2000000,
        v_ls(v_sub(r.origin, s.center)) > s_mul(s.radius as int, s.radius as int),
        v_ls(v_sub(r.origin, s.center)) * s_mul(s.radius as int, s.radius as int) >= 2 * 65536,
        ray_t.min < 0,
        ray_t.max > 4 * 65536,
    ensures
        sphere_spec_hit(s, r, ray_t) == Some(sphere_record(s, r, sphere_root1(s, r))),
        0 <= sphere_root1(s, r) <= 4 * 65536,
{
    let o = r.origin;
    let ct = s.center;
    let d = r.direction;
    let oc = v_sub(o, ct);
    assert(oc.x as int == -(d.x as int) && oc.y as int == -(d.y as int) && oc.z as int == -(d.z
        as int));

    lemma_mul_neg_self(d.x as int);
    lemma_mul_neg_self(d.y as int);
    lemma_mul_neg_self(d.z as int);

    let mx = s_mul(d.x as int, d.x as int);
    let my = s_mul(d.y as int, d.y as int);
    let mz = s_mul(d.z as int, d.z as int);
    let a = sphere_a(s, r);
    assert(a == mx + my + mz);
    assert(v_ls(oc) == a);

    let h = sphere_half_b(s, r);
    assert(-a - 3 <= h <= -a);

    lemma_mul_neg_self(s.radius as int);
    let r2 = s_mul(s.radius as int, s.radius as int);
    assert((s.radius as int) * (s.radius as int) >= 65536) by (nonlinear_arith)
        requires
            s.radius >= 256,
    ;
    vstd::arithmetic::div_mod::lemma_div_is_ordered(
        65536,
        (s.radius as int) * (s.radius as int),
        65536,
    );
    assert(1 <= r2 <= 0x1000000000);
    let c = sphere_c(s, r);
    assert(c == a - r2);
    assert(c >= 1);
    assert(a >= r2 + 1);

    // The discriminant survives the flooring: disc * 65536 exceeds
    // a * r2 - 65536, which the margin keeps above 65536.
    let hh = s_mul(h, h);
    let ac = s_mul(a, c);
    assert(0 <= h * h <= 0x10000000000000000000) by (nonlinear_arith)
        requires
            -0x4000000000 <= h <= 0,
    ;
    assert(0 <= a * c <= 0x10000000000000000000) by (nonlinear_arith)
        requires
            0 <= a <= 0x4000000000,
            0 <= c <= a,
    ;
    vstd::arithmetic::div_mod::lemma_div_pos_is_pos(h * h, 65536);
    vstd::arithmetic::div_mod::lemma_div_is_ordered(h * h, 0x10000000000000000000, 65536);
    vstd::arithmetic::div_mod::lemma_div_pos_is_pos(a * c, 65536);
    vstd::arithmetic::div_mod::lemma_div_is_ordered(a * c, 0x10000000000000000000, 65536);
    assert(hh == (h * h) / 65536 && ac == (a * c) / 65536);
    vstd::arithmetic::div_mod::lemma_fundamental_div_mod(h * h, 65536);
    vstd::arithmetic::div_mod::lemma_fundamental_div_mod(a * c, 65536);
    assert(65536 * hh > h * h - 65536);
    assert(65536 * ac <= a * c);
    assert(h * h >= a * a) by (nonlinear_arith)
        requires
            h <= -a,
            a >= 0,
    ;
    assert(a * c == a * a - a * r2) by (nonlinear_arith)
        requires
            c == a - r2,
    ;
    let disc = sphere_disc(s, r);
    assert(disc == hh - ac);
    assert(65536 * disc == 65536 * hh - 65536 * ac) by (nonlinear_arith)
        requires
            disc == hh - ac,
    ;
    assert(65536 * disc > a * r2 - 65536);
    assert(a * r2 >= 2 * 65536);
    assert(65536 * disc > 65536);
    assert(disc >= 2);

    // The rooted discriminant stays below the linear half-coefficient,
    // so the near root is nonnegative.
    let sq = s_sqrt(disc);
    lemma_isqrt_bounds(disc * 65536);
    assert(sq * sq <= disc * 65536);
    assert(disc * 65536 <= hh * 65536) by (nonlinear_arith)
        requires
            disc <= hh,
    ;
    assert(hh * 65536 <= h * h);
    if sq > -h {
        assert(sq * sq > h * h) by (nonlinear_arith)
            requires
                sq >= -h + 1,
                h <= 0,
        ;
        assert(false);
    }
    assert(0 <= sq <= -h);

    // The near root lies in [0, 4], far inside the interval.
    let nm = s_sub(s_neg(h), sq);
    assert(nm == -h - sq);
    assert(0 <= nm <= a + 3);
    let root1 = sphere_root1(s, r);
    assert(root1 == s_div(nm, a));
    vstd::arithmetic::div_mod::lemma_div_pos_is_pos(nm * 65536, a);
    assert(nm * 65536 <= (a + 3) * 65536) by (nonlinear_arith)
        requires
            nm <= a + 3,
    ;
    vstd::arithmetic::div_mod::lemma_div_is_ordered(nm * 65536, (a + 3) * 65536, a);
    assert(((a + 3) * 65536) / a <= 4 * 65536) by {
        assert((a + 3) * 65536 <= a * (4 * 65536)) by (nonlinear_arith)
            requires
                a >= 1,
        ;
        vstd::arithmetic::div_mod::lemma_div_is_ordered((a + 3) * 65536, a * (4 * 65536), a);
        assert((a * (4 * 65536)) / a == 4 * 65536) by {
            vstd::arithmetic::mul::lemma_mul_is_commutative(a, 262144int);
            vstd::arithmetic::div_mod::lemma_div_multiples_vanish(262144int, a);
        }
    }
    assert(0 <= root1 <= 4 * 65536);
    assert(ray_t.min < root1 && root1 < ray_t.max);
}

/// A negative discriminant is a miss, not an error.
pub proof fn lemma_sphere_miss(s: Sphere, r: Ray, ray_t: Interval)
    requires
        sphere_disc(s, r) < 0,
    ensures
        sphere_spec_hit(s, r, ray_t) is None,
{
}

} // verus!
