//! Three-component fixed-point vectors, used interchangeably as points,
//! directions and linear-light colors. Every executable operation is
//! specified exactly by a spec twin over the fixed-point semantics.

use vstd::prelude::*;

verus! {

use crate::fx::SCALE;
use crate::fx::abs_fx;
use crate::fx::add_fx;
use crate::fx::div_fx;
use crate::fx::mul_fx;
use crate::fx::neg_fx;
use crate::fx::s_abs;
use crate::fx::s_add;
use crate::fx::s_div;
use crate::fx::s_mul;
use crate::fx::s_neg;
use crate::fx::s_sqrt;
use crate::fx::s_sub;
use crate::fx::sqrt_fx;
use crate::fx::sub_fx;
use crate::fx::isqrt;
use crate::fx::lemma_isqrt_bounds;
use crate::rand_src::RandSource;

/// Below this many raw units in every component a vector counts as
/// degenerate. One raw unit is the smallest representable magnitude, so
/// the test degenerates to exact zero, the fixed-point shadow of the
/// usual tiny floating-point threshold.
pub const NEAR_EPS: i64 = 1;

#[derive(Clone, Copy, Debug, PartialEq, Eq, Structural)]
pub struct Vec3 {
    pub x: i64,
    pub y: i64,
    pub z: i64,
}

pub open spec fn v_add(a: Vec3, b: Vec3) -> Vec3 {
    Vec3 {
        x: s_add(a.x as int, b.x as int) as i64,
        y: s_add(a.y as int, b.y as int) as i64,
        z: s_add(a.z as int, b.z as int) as i64,
    }
}

pub open spec fn v_sub(a: Vec3, b: Vec3) -> Vec3 {
    Vec3 {
        x: s_sub(a.x as int, b.x as int) as i64,
        y: s_sub(a.y as int, b.y as int) as i64,
        z: s_sub(a.z as int, b.z as int) as i64,
    }
}

/// Componentwise product, used for color attenuation.
pub open spec fn v_mul(a: Vec3, b: Vec3) -> Vec3 {
    Vec3 {
        x: s_mul(a.x as int, b.x as int) as i64,
        y: s_mul(a.y as int, b.y as int) as i64,
        z: s_mul(a.z as int, b.z as int) as i64,
    }
}

pub open spec fn v_neg(a: Vec3) -> Vec3 {
    Vec3 {
        x: s_neg(a.x as int) as i64,
        y: s_neg(a.y as int) as i64,
        z: s_neg(a.z as int) as i64,
    }
}

/// Scalar times vector.
pub open spec fn v_scale(k: int, a: Vec3) -> Vec3 {
    Vec3 {
        x: s_mul(k, a.x as int) as i64,
        y: s_mul(k, a.y as int) as i64,
        z: s_mul(k, a.z as int) as i64,
    }
}

/// Vector divided by a positive scalar.
pub open spec fn v_div_scalar(a: Vec3, k: int) -> Vec3 {
    Vec3 {
        x: s_div(a.x as int, k) as i64,
        y: s_div(a.y as int, k) as i64,
        z: s_div(a.z as int, k) as i64,
    }
}

pub open spec fn v_dot(a: Vec3, b: Vec3) -> int {
    s_add(
        s_add(s_mul(a.x as int, b.x as int), s_mul(a.y as int, b.y as int)),
        s_mul(a.z as int, b.z as int),
    )
}

pub open spec fn v_cross(a: Vec3, b: Vec3) -> Vec3 {
    Vec3 {
        x: s_sub(s_mul(a.y as int, b.z as int), s_mul(a.z as int, b.y as int)) as i64,
        y: s_sub(s_mul(a.z as int, b.x as int), s_mul(a.x as int, b.z as int)) as i64,
        z: s_sub(s_mul(a.x as int, b.y as int), s_mul(a.y as int, b.x as int)) as i64,
    }
}

pub open spec fn v_ls(a: Vec3) -> int {
    v_dot(a, a)
}

pub open spec fn v_len(a: Vec3) -> int {
    s_sqrt(v_ls(a))
}

pub open spec fn v_unit(a: Vec3) -> Vec3 {
    v_div_scalar(a, v_len(a))
}

pub open spec fn v_near_zero(a: Vec3) -> bool {
    s_abs(a.x as int) < NEAR_EPS && s_abs(a.y as int) < NEAR_EPS && s_abs(a.z as int) < NEAR_EPS
}

/// Mirror reflection of `v` about the normal `n`.
pub open spec fn v_reflect(v: Vec3, n: Vec3) -> Vec3 {
    v_sub(v, v_scale(s_mul(2 * SCALE as int, v_dot(v, n)), n))
}

/// Snell refraction of the unit direction `uv` at normal `n` with
/// relative index ratio `eta`, split into perpendicular and parallel
/// components.
pub open spec fn v_refract(uv: Vec3, n: Vec3, eta: int) -> Vec3 {
    let cos_theta = crate::fx::s_min(v_dot(v_neg(uv), n), SCALE as int);
    let r_out_perp = v_scale(eta, v_add(uv, v_scale(cos_theta, n)));
    let r_out_parallel = v_neg(v_scale(s_sqrt(s_abs(s_sub(SCALE as int, v_ls(r_out_perp)))), n));
    v_add(r_out_perp, r_out_parallel)
}

/// A squared length is a saturated sum of floored squares, hence never
/// negative.
pub proof fn lemma_ls_nonneg(a: Vec3)
    ensures
        v_ls(a) >= 0,
{
    assert((a.x as int) * (a.x as int) >= 0) by (nonlinear_arith);
    assert((a.y as int) * (a.y as int) >= 0) by (nonlinear_arith);
    assert((a.z as int) * (a.z as int) >= 0) by (nonlinear_arith);
}

/// A vector whose squared length reaches one raw unit has a length of at
/// least one raw unit.
pub proof fn lemma_len_pos(a: Vec3)
    requires
        v_ls(a) >= 1,
    ensures
        v_len(a) >= 1,
{
    lemma_isqrt_bounds(v_ls(a) * (SCALE as int));
    assert(isqrt(v_ls(a) * (SCALE as int)) >= 1) by {
        let n = v_ls(a) * (SCALE as int);
        assert(n >= 65536);
        if isqrt(n) < 1 {
            lemma_isqrt_bounds(n);
            assert(n < (isqrt(n) + 1) * (isqrt(n) + 1));
            assert((isqrt(n) + 1) * (isqrt(n) + 1) <= 1) by (nonlinear_arith)
                requires
                    0 <= isqrt(n) < 1,
            ;
        }
    }
}

/// One component of a normalized vector, bounded: once the squared
/// length reaches a quarter (16384 raw units), flooring in the square
/// root and in the division can push a component at most four raw
/// units past one.
proof fn lemma_unit_comp_bound(c: int, ls: int)
    requires
        16384 <= ls < 0x7fffffffffffffff,
        s_mul(c, c) <= ls,
    ensures
        -(SCALE as int + 4) <= s_div(c, s_sqrt(ls)) <= SCALE as int + 4,
{
    let len = isqrt(ls * 65536);
    lemma_isqrt_bounds(ls * 65536);
    assert(len >= 32768) by {
        if len < 32768 {
            assert((len + 1) * (len + 1) <= 32768 * 32768) by (nonlinear_arith)
                requires
                    0 <= len < 32768,
            ;
        }
    }
    // The squared component cannot exceed (len + 2)^2.
    assert(c * c < (ls + 1) * 65536) by {
        vstd::arithmetic::div_mod::lemma_fundamental_div_mod(c * c, 65536);
        assert(c * c >= 0) by (nonlinear_arith);
        assert((c * c) / 65536 <= ls);
        assert(65536 * ((c * c) / 65536) + 65536 > c * c);
        assert(65536 * ls + 65536 == (ls + 1) * 65536) by (nonlinear_arith);
        assert(65536 * ((c * c) / 65536) <= 65536 * ls) by (nonlinear_arith)
            requires
                (c * c) / 65536 <= ls,
        ;
    }
    assert(ls * 65536 <= len * len + 2 * len) by (nonlinear_arith)
        requires
            ls * 65536 < (len + 1) * (len + 1),
            len >= 0,
    ;
    assert(c * c < (len + 2) * (len + 2)) by (nonlinear_arith)
        requires
            c * c < ls * 65536 + 65536,
            ls * 65536 <= len * len + 2 * len,
            len >= 32768,
    ;
    assert(-(len + 2) < c < len + 2) by (nonlinear_arith)
        requires
            c * c < (len + 2) * (len + 2),
            len + 2 > 0,
    ;
    // Divide through by the length.
    assert(c * 65536 <= len * (65536 + 4)) by (nonlinear_arith)
        requires
            c <= len + 2,
            len >= 32768,
    ;
    assert(-(len * (65536 + 4)) <= c * 65536) by (nonlinear_arith)
        requires
            -(len + 2) <= c,
            len >= 32768,
    ;
    vstd::arithmetic::div_mod::lemma_div_is_ordered(c * 65536, len * 65540, len);
    vstd::arithmetic::div_mod::lemma_div_is_ordered(-(len * 65540), c * 65536, len);
    assert((len * 65540) / len == 65540) by {
        vstd::arithmetic::div_mod::lemma_div_multiples_vanish(65540, len);
    }
    assert((-(len * 65540)) / len == -65540) by {
        assert(-(len * 65540) == len * (-65540)) by (nonlinear_arith);
        vstd::arithmetic::div_mod::lemma_div_multiples_vanish(-65540, len);
    }
}

/// Normalization keeps every component within four raw units of one,
/// once the squared length reaches a quarter. For shorter vectors the
/// floored square root is too coarse and a component of the quotient
/// can overshoot far past one.
pub proof fn lemma_unit_near_unit(a: Vec3)
    requires
        16384 <= v_ls(a) < 0x7fffffffffffffff,
    ensures
        -(SCALE as int + 4) <= v_unit(a).x as int <= SCALE as int + 4,
        -(SCALE as int + 4) <= v_unit(a).y as int <= SCALE as int + 4,
        -(SCALE as int + 4) <= v_unit(a).z as int <= SCALE as int + 4,
{
    lemma_ls_nonneg(a);
    let mx = s_mul(a.x as int, a.x as int);
    let my = s_mul(a.y as int, a.y as int);
    let mz = s_mul(a.z as int, a.z as int);
    assert(mx >= 0 && my >= 0 && mz >= 0) by {
        assert((a.x as int) * (a.x as int) >= 0) by (nonlinear_arith);
        assert((a.y as int) * (a.y as int) >= 0) by (nonlinear_arith);
        assert((a.z as int) * (a.z as int) >= 0) by (nonlinear_arith);
        vstd::arithmetic::div_mod::lemma_div_pos_is_pos((a.x as int) * (a.x as int), 65536);
        vstd::arithmetic::div_mod::lemma_div_pos_is_pos((a.y as int) * (a.y as int), 65536);
        vstd::arithmetic::div_mod::lemma_div_pos_is_pos((a.z as int) * (a.z as int), 65536);
    }
    assert(mx <= v_ls(a) && my <= v_ls(a) && mz <= v_ls(a));
    lemma_unit_comp_bound(a.x as int, v_ls(a));
    lemma_unit_comp_bound(a.y as int, v_ls(a));
    lemma_unit_comp_bound(a.z as int, v_ls(a));
}

impl Vec3 {
    pub fn new(x: i64, y: i64, z: i64) -> (r: Self)
        ensures
            r == (Vec3 { x, y, z }),
    {
        Vec3 { x, y, z }
    }

    pub fn add(self, rhs: Self) -> (r: Self)
        ensures
            r == v_add(self, rhs),
    {
        Vec3 { x: add_fx(self.x, rhs.x), y: add_fx(self.y, rhs.y), z: add_fx(self.z, rhs.z) }
    }

    pub fn sub(self, rhs: Self) -> (r: Self)
        ensures
            r == v_sub(self, rhs),
    {
        Vec3 { x: sub_fx(self.x, rhs.x), y: sub_fx(self.y, rhs.y), z: sub_fx(self.z, rhs.z) }
    }

    /// Componentwise product, used for color attenuation.
    pub fn mul(self, rhs: Self) -> (r: Self)
        ensures
            r == v_mul(self, rhs),
    {
        Vec3 { x: mul_fx(self.x, rhs.x), y: mul_fx(self.y, rhs.y), z: mul_fx(self.z, rhs.z) }
    }

    pub fn neg(self) -> (r: Self)
        ensures
            r == v_neg(self),
    {
        Vec3 { x: neg_fx(self.x), y: neg_fx(self.y), z: neg_fx(self.z) }
    }

    /// Componentwise quotient; the fixed-point divisions ask for
    /// positive divisors.
    pub fn div(self, rhs: Self) -> (r: Self)
        requires
            rhs.x > 0,
            rhs.y > 0,
            rhs.z > 0,
        ensures
            r == (Vec3 {
                x: s_div(self.x as int, rhs.x as int) as i64,
                y: s_div(self.y as int, rhs.y as int) as i64,
                z: s_div(self.z as int, rhs.z as int) as i64,
            }),
    {
        Vec3 { x: div_fx(self.x, rhs.x), y: div_fx(self.y, rhs.y), z: div_fx(self.z, rhs.z) }
    }

    pub fn scale(self, k: i64) -> (r: Self)
        ensures
            r == v_scale(k as int, self),
    {
        Vec3 { x: mul_fx(k, self.x), y: mul_fx(k, self.y), z: mul_fx(k, self.z) }
    }

    pub fn div_scalar(self, k: i64) -> (r: Self)
        requires
            k > 0,
        ensures
            r == v_div_scalar(self, k as int),
    {
        Vec3 { x: div_fx(self.x, k), y: div_fx(self.y, k), z: div_fx(self.z, k) }
    }

    pub fn dot(self, rhs: Self) -> (r: i64)
        ensures
            r as int == v_dot(self, rhs),
    {
        add_fx(add_fx(mul_fx(self.x, rhs.x), mul_fx(self.y, rhs.y)), mul_fx(self.z, rhs.z))
    }

    pub fn cross(self, rhs: Self) -> (r: Self)
        ensures
            r == v_cross(self, rhs),
    {
        Vec3 {
            x: sub_fx(mul_fx(self.y, rhs.z), mul_fx(self.z, rhs.y)),
            y: sub_fx(mul_fx(self.z, rhs.x), mul_fx(self.x, rhs.z)),
            z: sub_fx(mul_fx(self.x, rhs.y), mul_fx(self.y, rhs.x)),
        }
    }

    pub fn length_squared(self) -> (r: i64)
        ensures
            r as int == v_ls(self),
            r >= 0,
    {
        proof {
            lemma_ls_nonneg(self);
        }
        self.dot(self)
    }

    pub fn length(self) -> (r: i64)
        ensures
            r as int == v_len(self),
            r >= 0,
    {
        let ls = self.length_squared();
        sqrt_fx(ls)
    }

    pub fn unit_vector(self) -> (r: Self)
        requires
            v_ls(self) >= 1,
        ensures
            r == v_unit(self),
    {
        proof {
            lemma_len_pos(self);
        }
        let len = self.length();
        self.div_scalar(len)
    }

    pub fn near_zero(self) -> (r: bool)
        ensures
            r == v_near_zero(self),
    {
        abs_fx(self.x) < NEAR_EPS && abs_fx(self.y) < NEAR_EPS && abs_fx(self.z) < NEAR_EPS
    }

    pub fn reflect(v: Self, n: Self) -> (r: Self)
        ensures
            r == v_reflect(v, n),
    {
        let d = v.dot(n);
        v.sub(n.scale(mul_fx(2 * SCALE, d)))
    }

    pub fn refract(uv: Self, n: Self, eta: i64) -> (r: Self)
        ensures
            r == v_refract(uv, n, eta as int),
    {
        let cos_theta = crate::fx::min_fx(uv.neg().dot(n), SCALE);
        let r_out_perp = uv.add(n.scale(cos_theta)).scale(eta);
        let r_out_parallel = n.scale(sqrt_fx(abs_fx(sub_fx(SCALE, r_out_perp.length_squared())))).neg();
        r_out_perp.add(r_out_parallel)
    }

    /// A sample with every component in `[0, 1)`.
    pub fn random(rng: &mut RandSource) -> (r: Self)
        ensures
            0 <= r.x < SCALE,
            0 <= r.y < SCALE,
            0 <= r.z < SCALE,
    {
        Vec3 { x: rng.next_in(0, SCALE), y: rng.next_in(0, SCALE), z: rng.next_in(0, SCALE) }
    }

    /// A sample with every component in `[min, max)`.
    pub fn random_range(rng: &mut RandSource, min: i64, max: i64) -> (r: Self)
        requires
            min < max,
        ensures
            min <= r.x < max,
            min <= r.y < max,
            min <= r.z < max,
    {
        Vec3 {
            x: rng.next_in(min, max),
            y: rng.next_in(min, max),
            z: rng.next_in(min, max),
        }
    }

    /// Rejection sampling in the enclosing cube for a point strictly
    /// inside the unit ball. The exact zero vector is rejected as well,
    /// so the result can always be normalized.
    /// The number of draws is bounded so that the sampler provably
    /// terminates; the chance of exhausting the bound is negligible, and
    /// a fixed interior point stands in when it happens.
    pub(crate) fn random_in_unit_sphere(rng: &mut RandSource) -> (r: Self)
        ensures
            0 < v_ls(r) < SCALE,
    {
        let mut tries: u32 = 0;
        while tries < 64
            decreases 64 - tries,
        {
            let p = Self::random_range(rng, -SCALE, SCALE);
            let ls = p.length_squared();
            if 0 < ls && ls < SCALE {
                return p;
            }
            tries = tries + 1;
        }
        let q = Vec3 { x: 32768, y: 0, z: 0 };
        proof {
            assert(v_ls(q) == 16384);
        }
        q
    }

    /// A unit-length sample: a ball sample, normalized.
    pub fn random_unit_vector(rng: &mut RandSource) -> (r: Self)
        ensures
            exists|p: Vec3| 0 < v_ls(p) < SCALE && r == v_unit(p),
    {
        let p = Self::random_in_unit_sphere(rng);
        let u = p.unit_vector();
        proof {
            assert(0 < v_ls(p) < SCALE && u == v_unit(p));
        }
        u
    }

    /// Rejection sampling in the enclosing square for a point strictly
    /// inside the unit disk; the third component stays zero. The number
    /// of draws is bounded as in the ball sampler, with the center
    /// standing in when the bound is exhausted.
    pub fn random_in_unit_disk(rng: &mut RandSource) -> (r: Self)
        ensures
            r.z == 0,
            v_ls(r) < SCALE,
    {
        let mut tries: u32 = 0;
        while tries < 64
            decreases 64 - tries,
        {
            let x = rng.next_in(-SCALE, SCALE);
            let y = rng.next_in(-SCALE, SCALE);
            let p = Vec3 { x, y, z: 0 };
            let ls = p.length_squared();
            if ls < SCALE {
                return p;
            }
            tries = tries + 1;
        }
        let q = Vec3 { x: 0, y: 0, z: 0 };
        proof {
            assert(v_ls(q) == 0);
        }
        q
    }
}

} // verus!
