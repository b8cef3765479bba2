//! Intersection records and the scene aggregate.

use vstd::prelude::*;
use crate::material::Material;
use crate::material::material_wf;
use crate::ray::Ray;
use crate::ray::at_spec;
use crate::ray::ray_wf;
use crate::sphere::Sphere;
use crate::sphere::lemma_hit_window;
use crate::sphere::sphere_hit_record_spec;
use crate::sphere::sphere_hit_t_spec;
use crate::sphere::sphere_wf;
use crate::vec::Point3;
use crate::vec::Vec3;
use crate::vec::dot_spec;
use crate::vec::in_range;
use crate::vec::lemma_dot_comm;
use crate::vec::lemma_dot_neg;
use crate::vec::neg_spec;

verus! {

/// The result of a successful intersection.  The normal always
/// opposes the incoming ray; `front_face` records whether the
/// geometric (outward) normal already did.
#[derive(Clone, Copy, PartialEq, Eq, Structural, Debug)]
pub struct HitRecord {
    pub p: Point3,
    pub normal: Vec3,
    pub material: Material,
    pub t: i64,
    pub front_face: bool,
}

impl HitRecord {
    /// Build a record at parameter `t`, orienting the normal against
    /// the ray.
    pub fn new(r: &Ray, t: i64, outward_normal: Vec3, material: Material) -> (h: HitRecord)
        requires
            ray_wf(*r),
            in_range(outward_normal),
        ensures
            h.p == at_spec(*r, t as int),
            h.t == t,
            h.material == material,
            h.front_face == (dot_spec(r.direction, outward_normal) < 0),
            h.front_face ==> h.normal == outward_normal,
            !h.front_face ==> h.normal == neg_spec(outward_normal),
            dot_spec(h.normal, r.direction) <= 0,
            in_range(h.normal),
            in_range(h.p),
    {
        let p: Point3 = r.at(t);
        let front_face: bool = r.direction().dot(outward_normal) < 0;
        let normal: Vec3 = if front_face {
            proof {
                lemma_dot_comm(r.direction, outward_normal);
            }
            outward_normal
        } else {
            let nv: Vec3 = outward_normal.neg();
            proof {
                lemma_dot_comm(r.direction, outward_normal);
                lemma_dot_neg(outward_normal, r.direction, nv);
            }
            nv
        };
        HitRecord { p, normal, material, t, front_face }
    }
}

/// A scene: the collection of intersectable objects, scanned linearly
/// for the nearest hit.
pub struct World {
    pub objects: Vec<Sphere>,
}

/// Validity of a scene: every sphere and every material is
/// well-formed.
pub open spec fn world_wf(w: World) -> bool {
    forall|i: int|
        0 <= i < w.objects@.len() ==> sphere_wf(#[trigger] w.objects@[i]) && material_wf(
            w.objects@[i].material,
        )
}

impl World {
    pub fn new() -> (w: World)
        ensures
            w.objects@.len() == 0,
    {
        World { objects: Vec::new() }
    }

    /// Append an object; order of insertion does not affect which
    /// intersection is reported.
    pub fn add(&mut self, s: Sphere)
        ensures
            final(self).objects@ == old(self).objects@.push(s),
    {
        self.objects.push(s);
    }

    /// The closest hit across all objects within `[t_min, t_max]`,
    /// or none.  The scan shrinks its upper bound to the nearest hit
    /// found so far, so the result is the globally nearest
    /// intersection regardless of insertion order; at exactly equal
    /// parameters the earliest-inserted object wins.
    pub fn hit(&self, r: &Ray, t_min: i64, t_max: i64) -> (res: Option<HitRecord>)
        requires
            ray_wf(*r),
            world_wf(*self),
        ensures
            (match res {
                Some(h) => {
                    &&& exists|i: int|
                        0 <= i < self.objects@.len() && #[trigger] sphere_hit_record_spec(
                            self.objects@[i],
                            *r,
                            t_min as int,
                            t_max as int,
                            h,
                        ) && (forall|j: int|
                            0 <= j < i ==> (#[trigger] sphere_hit_t_spec(
                                self.objects@[j],
                                *r,
                                t_min as int,
                                t_max as int,
                            ) matches Some(t2) ==> h.t < t2))
                    &&& material_wf(h.material)
                    &&& forall|j: int|
                        0 <= j < self.objects@.len() ==> (#[trigger] sphere_hit_t_spec(
                            self.objects@[j],
                            *r,
                            t_min as int,
                            t_max as int,
                        ) matches Some(t2) ==> h.t <= t2)
                },
                None => forall|j: int|
                    0 <= j < self.objects@.len() ==> #[trigger] sphere_hit_t_spec(
                        self.objects@[j],
                        *r,
                        t_min as int,
                        t_max as int,
                    ) is None,
            }),
    {
        let mut tmp_rec: Option<HitRecord> = None;
        let mut closest_so_far: i64 = t_max;
        let mut k: usize = 0;
        let n: usize = self.objects.len();
        while k < n
            invariant
                n == self.objects@.len(),
                k <= n,
                ray_wf(*r),
                world_wf(*self),
                closest_so_far <= t_max,
                (match tmp_rec {
                    Some(h) => {
                        &&& closest_so_far == h.t
                        &&& exists|i: int|
                            0 <= i < k && #[trigger] sphere_hit_record_spec(
                                self.objects@[i],
                                *r,
                                t_min as int,
                                t_max as int,
                                h,
                            ) && (forall|j: int|
                                0 <= j < i ==> (#[trigger] sphere_hit_t_spec(
                                    self.objects@[j],
                                    *r,
                                    t_min as int,
                                    t_max as int,
                                ) matches Some(t2) ==> h.t < t2))
                        &&& material_wf(h.material)
                        &&& forall|j: int|
                            0 <= j < k ==> (#[trigger] sphere_hit_t_spec(
                                self.objects@[j],
                                *r,
                                t_min as int,
                                t_max as int,
                            ) matches Some(t2) ==> h.t <= t2)
                    },
                    None => {
                        &&& closest_so_far == t_max
                        &&& forall|j: int|
                            0 <= j < k ==> #[trigger] sphere_hit_t_spec(
                                self.objects@[j],
                                *r,
                                t_min as int,
                                t_max as int,
                            ) is None
                    },
                }),
            decreases n - k,
        {
            let obj: &Sphere = &self.objects[k];
            let result: Option<HitRecord> = obj.hit(r, t_min, closest_so_far);
            proof {
                lemma_hit_window(*obj, *r, t_min as int, closest_so_far as int, t_max as int);
            }
            match result {
                Some(rec) => {
                    // A hit at exactly the current closest parameter
                    // does not displace the earlier-inserted winner.
                    if tmp_rec.is_none() || rec.t < closest_so_far {
                        proof {
                            assert(sphere_hit_record_spec(
                                self.objects@[k as int],
                                *r,
                                t_min as int,
                                t_max as int,
                                rec,
                            ));
                        }
                        closest_so_far = rec.t;
                        tmp_rec = Some(rec);
                    }
                },
                None => {},
            }
            k = k + 1;
        }
        tmp_rec
    }
}

} // verus!
