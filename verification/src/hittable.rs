//! The intersection contract, hit records, and the scene composite that
//! selects the nearest valid hit by narrowing the search interval.

use vstd::prelude::*;

verus! {

use crate::interval::Interval;
use crate::material::Material;
use crate::material::MaterialEnum;
use crate::ray::Ray;
use crate::sphere::Sphere;
use crate::sphere::lemma_sphere_hit_props;
use crate::sphere::lemma_sphere_roots_ordered;
use crate::sphere::sphere_a;
use crate::sphere::sphere_disc;
use crate::sphere::sphere_record;
use crate::sphere::sphere_root1;
use crate::sphere::sphere_root2;
use crate::sphere::sphere_spec_hit;
use crate::vec3::Vec3;
use crate::vec3::v_dot;
use crate::vec3::v_ls;
use crate::vec3::v_neg;

#[derive(Clone, Copy, Debug, PartialEq, Eq, Structural)]
pub struct HitRecord {
    pub p: Vec3,
    pub normal: Vec3,
    pub mat: MaterialEnum,
    pub t: i64,
    pub front_face: bool,
}

/// The record an intersection at parameter `t` produces: the normal is
/// oriented against the incoming ray, and `front_face` says whether the
/// outward-facing side was struck.
pub open spec fn hr_new(p: Vec3, t: i64, r: Ray, outward_normal: Vec3, mat: MaterialEnum)
    -> HitRecord {
    let front_face = v_dot(r.direction, outward_normal) < 0;
    HitRecord {
        p,
        t,
        front_face,
        mat,
        normal: if front_face {
            outward_normal
        } else {
            v_neg(outward_normal)
        },
    }
}

impl HitRecord {
    pub fn new(p: Vec3, t: i64, r: &Ray, outward_normal: Vec3, mat: MaterialEnum) -> (res:
        HitRecord)
        ensures
            res == hr_new(p, t, *r, outward_normal, mat),
    {
        let front_face = r.direction.dot(outward_normal) < 0;
        HitRecord {
            p,
            t,
            front_face,
            mat,
            normal: if front_face {
                outward_normal
            } else {
                outward_normal.neg()
            },
        }
    }
}

/// The intersection capability: `hit` returns exactly what the impl's
/// deterministic `spec_hit` describes.
pub trait Hittable: Sized {
    /// Well-formed geometry and materials.
    spec fn wf(&self) -> bool;

    /// The hit, if any, this object yields for the ray on the interval.
    spec fn spec_hit(&self, r: Ray, ray_t: Interval) -> Option<HitRecord>;

    fn hit(&self, r: &Ray, ray_t: Interval) -> (res: Option<HitRecord>)
        requires
            self.wf(),
        ensures
            res == self.spec_hit(*r, ray_t),
    ;
}

/// An ordered collection of spheres, tested as a whole.
pub struct Scene {
    pub objects: Vec<Sphere>,
}

/// The composite scan: each member is tested against the interval with
/// the upper bound narrowed to the best parameter so far, so a later
/// member replaces the current best only by hitting strictly closer.
pub open spec fn scene_hit_loop(
    objs: Seq<Sphere>,
    r: Ray,
    t_min: i64,
    closest: i64,
    best: Option<HitRecord>,
) -> Option<HitRecord>
    decreases objs.len(),
{
    if objs.len() == 0 {
        best
    } else {
        match sphere_spec_hit(objs[0], r, Interval { min: t_min, max: closest }) {
            Some(rec) => scene_hit_loop(objs.drop_first(), r, t_min, rec.t, Some(rec)),
            None => scene_hit_loop(objs.drop_first(), r, t_min, closest, best),
        }
    }
}

impl Scene {
    pub fn new() -> (r: Scene)
        ensures
            r.objects@.len() == 0,
    {
        Scene { objects: Vec::new() }
    }

    pub fn add(&mut self, s: Sphere)
        ensures
            final(self).objects@ == old(self).objects@.push(s),
    {
        self.objects.push(s);
    }
}

impl Hittable for Scene {
    open spec fn wf(&self) -> bool {
        forall|i: int| 0 <= i < self.objects@.len() ==> #[trigger] self.objects@[i].wf()
    }

    open spec fn spec_hit(&self, r: Ray, ray_t: Interval) -> Option<HitRecord> {
        scene_hit_loop(self.objects@, r, ray_t.min, ray_t.max, None)
    }

    fn hit(&self, r: &Ray, ray_t: Interval) -> (res: Option<HitRecord>) {
        let ghost all = self.objects@;
        let mut closest_t = ray_t.max;
        let mut closest_hit: Option<HitRecord> = None;
        let n = self.objects.len();
        let mut i: usize = 0;
        proof {
            assert(all.skip(0) =~= all);
        }
        while i < n
            invariant
                n == all.len(),
                all == self.objects@,
                i <= n,
                self.wf(),
                scene_hit_loop(all, *r, ray_t.min, ray_t.max, None) == scene_hit_loop(
                    all.skip(i as int),
                    *r,
                    ray_t.min,
                    closest_t,
                    closest_hit,
                ),
            decreases n - i,
        {
            let interval = Interval::new(ray_t.min, closest_t);
            let sphere = self.objects[i];
            proof {
                assert(all.skip(i as int)[0] == all[i as int]);
                assert(all.skip(i as int).drop_first() =~= all.skip(i as int + 1));
            }
            match sphere.hit(r, interval) {
                Some(rec) => {
                    closest_t = rec.t;
                    closest_hit = Some(rec);
                },
                None => {},
            }
            i = i + 1;
        }
        proof {
            assert(all.skip(n as int).len() == 0);
        }
        closest_hit
    }
}

/// Any hit the composite yields carries a well-formed material, lies
/// strictly inside the query interval, and can only have come from a ray
/// with a usable direction.
pub proof fn lemma_scene_hit_loop_props(
    objs: Seq<Sphere>,
    r: Ray,
    t_min: i64,
    closest: i64,
    best: Option<HitRecord>,
)
    requires
        forall|i: int| 0 <= i < objs.len() ==> #[trigger] objs[i].wf(),
        best matches Some(b) ==> b.mat.wf() && v_ls(r.direction) >= 1 && t_min < b.t,
    ensures
        scene_hit_loop(objs, r, t_min, closest, best) matches Some(rec) ==> rec.mat.wf() && v_ls(
            r.direction,
        ) >= 1 && t_min < rec.t,
    decreases objs.len(),
{
    if objs.len() > 0 {
        let head = objs[0];
        assert(head.wf());
        let sub = Interval { min: t_min, max: closest };
        lemma_sphere_hit_props(head, r, sub);
        assert(forall|i: int|
            0 <= i < objs.drop_first().len() ==> #[trigger] objs.drop_first()[i].wf());
        match sphere_spec_hit(head, r, sub) {
            Some(rec) => {
                lemma_scene_hit_loop_props(objs.drop_first(), r, t_min, rec.t, Some(rec));
            },
            None => {
                lemma_scene_hit_loop_props(objs.drop_first(), r, t_min, closest, best);
            },
        }
    }
}

/// A sphere that yields a hit on the full interval yields no hit once
/// the interval's upper bound has been narrowed to or below that hit's
/// parameter: both candidate roots fall outside the narrowed interval.
proof fn lemma_sphere_hit_narrowed_none(s: Sphere, r: Ray, t: Interval, rec: HitRecord, m: i64)
    requires
        sphere_spec_hit(s, r, t) == Some(rec),
        m <= rec.t,
    ensures
        sphere_spec_hit(s, r, Interval { min: t.min, max: m }) is None,
{
    lemma_sphere_roots_ordered(s, r);
    let ra = sphere_root1(s, r);
    let rb = sphere_root2(s, r);
    if t.min < ra && ra < t.max {
        assert(rec == sphere_record(s, r, ra));
        assert(rec.t == ra as i64);
    } else {
        assert(rec == sphere_record(s, r, rb));
        assert(rec.t == rb as i64);
        assert(ra <= t.min);
    }
}

/// A sphere that yields a hit on the full interval yields the same hit
/// on an interval narrowed to any bound strictly above that hit's
/// parameter.
proof fn lemma_sphere_hit_narrowed_same(s: Sphere, r: Ray, t: Interval, rec: HitRecord, m: i64)
    requires
        sphere_spec_hit(s, r, t) == Some(rec),
        rec.t < m,
        m <= t.max,
    ensures
        sphere_spec_hit(s, r, Interval { min: t.min, max: m }) == Some(rec),
{
    lemma_sphere_roots_ordered(s, r);
    let ra = sphere_root1(s, r);
    let rb = sphere_root2(s, r);
    if t.min < ra && ra < t.max {
        assert(rec == sphere_record(s, r, ra));
        assert(rec.t == ra as i64);
    } else {
        assert(rec == sphere_record(s, r, rb));
        assert(rec.t == rb as i64);
        assert(ra <= t.min);
    }
}

/// Two spheres both hit by a ray on the same interval: the composite
/// returns the hit with the strictly smaller parameter, whichever order
/// the spheres stand in.
#[verifier::rlimit(80)]
#[verifier::spinoff_prover]
pub proof fn lemma_scene_two_nearest(
    s1: Sphere,
    s2: Sphere,
    r: Ray,
    t: Interval,
    rec1: HitRecord,
    rec2: HitRecord,
)
    requires
        sphere_spec_hit(s1, r, t) == Some(rec1),
        sphere_spec_hit(s2, r, t) == Some(rec2),
        rec1.t < rec2.t,
    ensures
        scene_hit_loop(seq![s1, s2], r, t.min, t.max, None) == Some(rec1),
        scene_hit_loop(seq![s2, s1], r, t.min, t.max, None) == Some(rec1),
{
    lemma_sphere_hit_props(s1, r, t);
    lemma_sphere_hit_props(s2, r, t);
    assert(t == (Interval { min: t.min, max: t.max }));

    // Near sphere first: the narrowed query on the far sphere finds
    // nothing, and the near hit stands.
    let a12 = seq![s1, s2];
    assert(a12[0] == s1);
    assert(a12.drop_first() =~= seq![s2]);
    assert(seq![s2][0] == s2);
    assert(seq![s2].drop_first() =~= Seq::<Sphere>::empty());
    lemma_sphere_hit_narrowed_none(s2, r, t, rec2, rec1.t);
    assert(scene_hit_loop(a12, r, t.min, t.max, None) == scene_hit_loop(
        seq![s2],
        r,
        t.min,
        rec1.t,
        Some(rec1),
    ));
    assert(scene_hit_loop(seq![s2], r, t.min, rec1.t, Some(rec1)) == scene_hit_loop(
        Seq::<Sphere>::empty(),
        r,
        t.min,
        rec1.t,
        Some(rec1),
    ));
    assert(scene_hit_loop(Seq::<Sphere>::empty(), r, t.min, rec1.t, Some(rec1)) == Some(rec1));

    // Far sphere first: the narrowed query on the near sphere returns
    // the same nearer hit, which replaces the far one.
    let a21 = seq![s2, s1];
    assert(a21[0] == s2);
    assert(a21.drop_first() =~= seq![s1]);
    assert(seq![s1][0] == s1);
    assert(seq![s1].drop_first() =~= Seq::<Sphere>::empty());
    lemma_sphere_hit_narrowed_same(s1, r, t, rec1, rec2.t);
    assert(scene_hit_loop(a21, r, t.min, t.max, None) == scene_hit_loop(
        seq![s1],
        r,
        t.min,
        rec2.t,
        Some(rec2),
    ));
    assert(scene_hit_loop(seq![s1], r, t.min, rec2.t, Some(rec2)) == scene_hit_loop(
        Seq::<Sphere>::empty(),
        r,
        t.min,
        rec1.t,
        Some(rec1),
    ));
    assert(scene_hit_loop(Seq::<Sphere>::empty(), r, t.min, rec1.t, Some(rec1)) == Some(rec1));
}

} // verus!
