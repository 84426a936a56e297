//! A ray: origin plus direction, with evaluation along the parameter.

use vstd::prelude::*;

verus! {

use crate::fx::s_add;
use crate::fx::s_mul;
use crate::fx::s_sub;
use crate::hittable::Hittable;
use crate::hittable::Scene;
use crate::interval::Interval;
use crate::vec3::Vec3;
use crate::vec3::v_add;
use crate::vec3::v_ls;
use crate::vec3::v_scale;
use crate::vec3::v_unit;

#[derive(Clone, Copy, Debug, PartialEq, Eq, Structural)]
pub struct Ray {
    pub origin: Vec3,
    pub direction: Vec3,
}

/// The point a parameter `t` selects along a ray.
pub open spec fn ray_at(r: Ray, t: int) -> Vec3 {
    v_add(r.origin, v_scale(t, r.direction))
}

impl Ray {
    pub fn new(origin: Vec3, direction: Vec3) -> (r: Self)
        ensures
            r == (Ray { origin, direction }),
    {
        Ray { origin, direction }
    }

    pub fn at(&self, t: i64) -> (r: Vec3)
        ensures
            r == ray_at(*self, t as int),
    {
        self.origin.add(self.direction.scale(t))
    }
}

pub open spec fn white() -> Vec3 {
    Vec3 { x: 65536, y: 65536, z: 65536 }
}

/// Sky blue, `(0.5, 0.7, 1.0)` in raw units (0.7 floors to 45875).
pub open spec fn sky_blue() -> Vec3 {
    Vec3 { x: 32768, y: 45875, z: 65536 }
}

pub open spec fn black() -> Vec3 {
    Vec3 { x: 0, y: 0, z: 0 }
}

/// The background gradient: blend white to sky blue by
/// `t = 0.5 * (unit_direction.y + 1)`.
pub open spec fn bg_color(r: Ray) -> Vec3 {
    let unit_direction = v_unit(r.direction);
    let t = s_mul(32768, s_add(unit_direction.y as int, 65536));
    v_add(v_scale(s_sub(65536, t), white()), v_scale(t, sky_blue()))
}

/// Evaluate the background gradient for a ray that misses everything.
pub fn background(r: &Ray) -> (c: Vec3)
    requires
        v_ls(r.direction) >= 1,
    ensures
        c == bg_color(*r),
{
    let unit_direction = r.direction.unit_vector();
    let t = crate::fx::mul_fx(32768, crate::fx::add_fx(unit_direction.y, 65536));
    let w = Vec3::new(65536, 65536, 65536);
    let s = Vec3::new(32768, 45875, 65536);
    w.scale(crate::fx::sub_fx(65536, t)).add(s.scale(t))
}

/// The gradient's anchor points, for any ray: a unit direction whose
/// vertical component is -1 blends to pure white, +1 to pure sky blue,
/// and 0 to their exact midpoint.
pub proof fn lemma_bg_endpoints(r: Ray)
    ensures
        v_unit(r.direction).y == -65536 ==> bg_color(r) == white(),
        v_unit(r.direction).y == 65536 ==> bg_color(r) == sky_blue(),
        v_unit(r.direction).y == 0 ==> bg_color(r) == (Vec3 { x: 49152, y: 55705, z: 65536 }),
{
}

/// A flat, non-recursive shading of a single ray: a hit is shaded by
/// its oriented normal, a miss by the background gradient. The full
/// depth-bounded estimator lives with the camera.
pub fn ray_color(r: &Ray, world: &Scene) -> (c: Vec3)
    requires
        world.wf(),
        v_ls(r.direction) >= 1,
    ensures
        c == match world.spec_hit(*r, Interval { min: 0, max: i64::MAX }) {
            Some(rec) => v_scale(32768, v_add(rec.normal, white())),
            None => bg_color(*r),
        },
{
    match world.hit(r, Interval::new(0, i64::MAX)) {
        Some(rec) => rec.normal.add(Vec3::new(65536, 65536, 65536)).scale(32768),
        None => background(r),
    }
}

} // verus!
