//! The sphere primitive and its closed-form ray intersection.

use vstd::prelude::*;
use crate::fixed::FP_MAX;
use crate::fixed::SCALE;
use crate::fixed::fp_add;
use crate::fixed::fp_add_spec;
use crate::fixed::fp_div;
use crate::fixed::fp_div_spec;
use crate::fixed::fp_mul;
use crate::fixed::fp_mul_spec;
use crate::fixed::fp_neg;
use crate::fixed::fp_neg_spec;
use crate::fixed::fp_sqrt;
use crate::fixed::fp_sqrt_spec;
use crate::fixed::fp_sub;
use crate::fixed::fp_sub_spec;
use crate::fixed::dot_sum_spec;
use crate::fixed::is_isqrt;
use crate::fixed::lemma_fp_div_monotone;
use crate::fixed::lemma_isqrt_exists;
use crate::fixed::lemma_isqrt_unique;
use crate::fixed::tdiv;
use vstd::arithmetic::div_mod::lemma_div_multiples_vanish;
use vstd::arithmetic::div_mod::lemma_fundamental_div_mod;
use crate::hit::HitRecord;
use crate::material::Material;
use crate::ray::Ray;
use crate::ray::at_spec;
use crate::ray::ray_wf;
use crate::vec::Point3;
use crate::vec::Vec3;
use crate::vec::dot_spec;
use crate::vec::in_range;
use crate::vec::lemma_dot_self_nonneg;
use crate::vec::neg_spec;
use crate::vec::sub_spec;

verus! {

/// A sphere: center, radius and the material shading its surface.
/// A negative radius flips the reported normals inward, the mechanism
/// for hollow glass shells; the intersection geometry itself only
/// sees the squared radius.
#[derive(Clone, Copy, PartialEq, Eq, Structural, Debug)]
pub struct Sphere {
    pub center: Point3,
    pub radius: i64,
    pub material: Material,
}

/// Validity: a representable center and a representable nonzero
/// radius (the normal is a quotient by the radius).
pub open spec fn sphere_wf(s: Sphere) -> bool {
    &&& in_range(s.center)
    &&& -FP_MAX <= s.radius <= FP_MAX
    &&& s.radius != 0
}

impl Sphere {
    pub fn new(center: Point3, radius: i64, material: Material) -> (s: Sphere)
        requires
            in_range(center),
            -FP_MAX <= radius <= FP_MAX,
            radius != 0,
        ensures
            s.center == center,
            s.radius == radius,
            s.material == material,
            sphere_wf(s),
    {
        Sphere { center, radius, material }
    }
}

/// Ray origin relative to the sphere's center.
pub open spec fn sphere_oc_spec(s: Sphere, r: Ray) -> Vec3 {
    sub_spec(r.origin, s.center)
}

/// Quadratic coefficient `a`: the squared length of the direction.
pub open spec fn sphere_a_spec(r: Ray) -> int {
    dot_spec(r.direction, r.direction)
}

/// Half of the linear coefficient, `oc . direction`.
pub open spec fn sphere_half_b_spec(s: Sphere, r: Ray) -> int {
    dot_spec(sphere_oc_spec(s, r), r.direction)
}

/// Constant coefficient `|oc|^2 - radius^2`.
pub open spec fn sphere_c_spec(s: Sphere, r: Ray) -> int {
    fp_sub_spec(
        dot_spec(sphere_oc_spec(s, r), sphere_oc_spec(s, r)),
        fp_mul_spec(s.radius as int, s.radius as int),
    )
}

/// Discriminant of the half-b quadratic, `half_b^2 - a c`.
pub open spec fn sphere_disc_spec(s: Sphere, r: Ray) -> int {
    fp_sub_spec(
        fp_mul_spec(sphere_half_b_spec(s, r), sphere_half_b_spec(s, r)),
        fp_mul_spec(sphere_a_spec(r), sphere_c_spec(s, r)),
    )
}

/// The nearer root `(-half_b - sqrt(disc)) / a`.
pub open spec fn sphere_root1_spec(s: Sphere, r: Ray) -> int {
    fp_div_spec(
        fp_sub_spec(fp_neg_spec(sphere_half_b_spec(s, r)), fp_sqrt_spec(sphere_disc_spec(s, r))),
        sphere_a_spec(r),
    )
}

/// The farther root `(-half_b + sqrt(disc)) / a`.
pub open spec fn sphere_root2_spec(s: Sphere, r: Ray) -> int {
    fp_div_spec(
        fp_add_spec(fp_neg_spec(sphere_half_b_spec(s, r)), fp_sqrt_spec(sphere_disc_spec(s, r))),
        sphere_a_spec(r),
    )
}

/// The parameter of the hit a sphere reports for a window: the nearer
/// root if it lies inside `[t_min, t_max]`, else the farther root if
/// it does, else nothing.  A negative discriminant or a degenerate
/// zero-length direction reports nothing.
pub open spec fn sphere_hit_t_spec(s: Sphere, r: Ray, t_min: int, t_max: int) -> Option<int> {
    if sphere_disc_spec(s, r) < 0 || sphere_a_spec(r) == 0 {
        None
    } else {
        let root1 = sphere_root1_spec(s, r);
        if t_min <= root1 <= t_max {
            Some(root1)
        } else {
            let root2 = sphere_root2_spec(s, r);
            if t_min <= root2 <= t_max {
                Some(root2)
            } else {
                None
            }
        }
    }
}

/// The outward geometric normal at parameter `t`:
/// `(p - center) / radius`.
pub open spec fn sphere_outward_spec(s: Sphere, r: Ray, t: int) -> Vec3 {
    let d = sub_spec(at_spec(r, t), s.center);
    Vec3 {
        x: fp_div_spec(d.x as int, s.radius as int) as i64,
        y: fp_div_spec(d.y as int, s.radius as int) as i64,
        z: fp_div_spec(d.z as int, s.radius as int) as i64,
    }
}

/// Everything a successful intersection of one sphere promises: the
/// reported parameter is the one the window selects, the hit point
/// lies on the ray at that parameter, and the record's normal is the
/// sphere's outward normal there, flipped if needed so that it
/// opposes the incoming ray.
pub open spec fn sphere_hit_record_spec(
    s: Sphere,
    r: Ray,
    t_min: int,
    t_max: int,
    h: HitRecord,
) -> bool {
    &&& sphere_hit_t_spec(s, r, t_min, t_max) == Some(h.t as int)
    &&& t_min <= h.t <= t_max
    &&& h.material == s.material
    &&& h.p == at_spec(r, h.t as int)
    &&& h.front_face == (dot_spec(r.direction, sphere_outward_spec(s, r, h.t as int)) < 0)
    &&& (h.front_face ==> h.normal == sphere_outward_spec(s, r, h.t as int))
    &&& (!h.front_face ==> h.normal == neg_spec(sphere_outward_spec(s, r, h.t as int)))
    &&& dot_spec(h.normal, r.direction) <= 0
    &&& in_range(h.normal)
    &&& in_range(h.p)
}

/// With a nonnegative discriminant and a nondegenerate direction the
/// nearer root does not exceed the farther one.
pub proof fn lemma_sphere_roots_ordered(s: Sphere, r: Ray)
    requires
        sphere_disc_spec(s, r) >= 0,
        sphere_a_spec(r) != 0,
    ensures
        sphere_root1_spec(s, r) <= sphere_root2_spec(s, r),
{
    let disc = sphere_disc_spec(s, r);
    let nh = fp_neg_spec(sphere_half_b_spec(s, r));
    assert(disc * SCALE >= 0) by (nonlinear_arith)
        requires
            disc >= 0,
    ;
    lemma_isqrt_exists(disc * SCALE);
    let sq = fp_sqrt_spec(disc);
    assert(sq >= 0);
    lemma_dot_self_nonneg(r.direction);
    lemma_fp_div_monotone(fp_sub_spec(nh, sq), fp_add_spec(nh, sq), sphere_a_spec(r));
}

/// Narrowing the window cannot skip past a nearer hit: if the narrow
/// query answers, the full-window query answers the same; if the
/// narrow query is empty, any full-window hit lies beyond the narrow
/// bound.
pub proof fn lemma_hit_window(s: Sphere, r: Ray, t_min: int, c: int, t_max: int)
    requires
        c <= t_max,
    ensures
        sphere_hit_t_spec(s, r, t_min, c) is Some ==> sphere_hit_t_spec(s, r, t_min, t_max)
            == sphere_hit_t_spec(s, r, t_min, c),
        sphere_hit_t_spec(s, r, t_min, c) is None && sphere_hit_t_spec(s, r, t_min, t_max)
            is Some ==> sphere_hit_t_spec(s, r, t_min, t_max)->0 > c,
{
    if !(sphere_disc_spec(s, r) < 0 || sphere_a_spec(r) == 0) {
        lemma_sphere_roots_ordered(s, r);
    }
}

/// For a sphere centered at the origin and a ray approaching it along
/// an axis from distance `d > rad`, the reported hit parameter is
/// exactly `d - rad`.  The grid condition (`d` and `rad` multiples of
/// a thousandth) keeps every intermediate product exactly divisible
/// by the scale, so no rounding enters; off that grid the parameter
/// can land one raw unit short.
pub proof fn lemma_axis_ray_hit(s: Sphere, r: Ray, d: int, rad: int, t_min: int, t_max: int)
    requires
        s.center.x == 0 && s.center.y == 0 && s.center.z == 0,
        s.radius == rad,
        0 < rad < d <= 1_000_000_000,
        rad % 1000 == 0,
        d % 1000 == 0,
        r.origin.x == 0 && r.origin.y == 0 && r.origin.z == d,
        r.direction.x == 0 && r.direction.y == 0 && r.direction.z == -SCALE,
        t_min <= d - rad <= t_max,
    ensures
        sphere_hit_t_spec(s, r, t_min, t_max) == Some(d - rad),
{
    let sc = SCALE as int;
    let k = d / 1000;
    let m = rad / 1000;
    lemma_fundamental_div_mod(d, 1000);
    lemma_fundamental_div_mod(rad, 1000);
    assert(d == 1000 * k && rad == 1000 * m);
    assert(0 < m < k <= 1_000_000) by (nonlinear_arith)
        requires
            d == 1000 * k && rad == 1000 * m,
            0 < rad < d <= 1_000_000_000,
    ;
    assert(d * d == sc * (k * k) && rad * rad == sc * (m * m) && (-d) * (-d) == sc * (k * k))
        by (nonlinear_arith)
        requires
            d == 1000 * k && rad == 1000 * m,
            sc == 1_000_000,
    ;
    assert(0 < m * m < k * k <= 1_000_000_000_000) by (nonlinear_arith)
        requires
            0 < m < k <= 1_000_000,
    ;
    let oc = sphere_oc_spec(s, r);
    assert(oc.x == 0 && oc.y == 0 && oc.z == d);

    // a = |direction|^2 = 1, exactly.
    lemma_div_multiples_vanish(sc, sc);
    assert(dot_sum_spec(0, 0, -sc, 0, 0, -sc) == sc * sc) by (nonlinear_arith);
    assert(sphere_a_spec(r) == sc);

    // half_b = oc . direction = -d, exactly.
    lemma_div_multiples_vanish(d, sc);
    assert(dot_sum_spec(0, 0, d, 0, 0, -sc) == -(sc * d)) by (nonlinear_arith);
    assert(tdiv(-(sc * d), sc) == -d);
    assert(sphere_half_b_spec(s, r) == -d);

    // |oc|^2 = d^2 and radius^2, exactly.
    lemma_div_multiples_vanish(k * k, sc);
    lemma_div_multiples_vanish(m * m, sc);
    assert(dot_sum_spec(0, 0, d, 0, 0, d) == sc * (k * k)) by (nonlinear_arith)
        requires
            d * d == sc * (k * k),
    ;
    assert(dot_spec(oc, oc) == k * k);
    assert(tdiv(rad * rad, sc) == m * m);
    assert(sphere_c_spec(s, r) == k * k - m * m);

    // discriminant = half_b^2 - a c = rad^2 / SCALE, exactly.
    assert((-d) * (-d) == sc * (k * k));
    assert(fp_mul_spec(-d, -d) == k * k);
    lemma_div_multiples_vanish(k * k - m * m, sc);
    assert(sc * (k * k - m * m) == sc * (k * k) - sc * (m * m)) by (nonlinear_arith);
    assert(fp_mul_spec(sc, k * k - m * m) == k * k - m * m);
    assert(sphere_disc_spec(s, r) == m * m);

    // sqrt(discriminant) recovers the radius exactly.
    assert((m * m) * sc == rad * rad) by (nonlinear_arith)
        requires
            rad * rad == sc * (m * m),
    ;
    assert(rad * rad < (rad + 1) * (rad + 1)) by (nonlinear_arith)
        requires
            rad > 0,
    ;
    assert(is_isqrt(rad * rad, rad));
    lemma_isqrt_unique(rad * rad, rad);
    assert(fp_sqrt_spec(sphere_disc_spec(s, r)) == rad);

    // root = (-half_b - sqrtd) / a = d - rad, exactly.
    assert(fp_neg_spec(-d) == d);
    assert(fp_sub_spec(d, rad) == d - rad);
    lemma_div_multiples_vanish(d - rad, sc);
    assert((d - rad) * sc == sc * (d - rad)) by (nonlinear_arith);
    assert(sphere_root1_spec(s, r) == d - rad);
}

/// A ray that passes the sphere at a perpendicular offset beyond the
/// radius reports no hit: the discriminant is negative.  The same
/// grid condition as in the exact-hit law excludes rounding.
pub proof fn lemma_axis_ray_miss(s: Sphere, r: Ray, d: int, h: int, rad: int, t_min: int, t_max: int)
    requires
        s.center.x == 0 && s.center.y == 0 && s.center.z == 0,
        s.radius == rad,
        0 < rad < h <= 1_000_000_000,
        0 <= d <= 1_000_000_000,
        rad % 1000 == 0,
        h % 1000 == 0,
        d % 1000 == 0,
        r.origin.x == 0 && r.origin.y == h && r.origin.z == d,
        r.direction.x == 0 && r.direction.y == 0 && r.direction.z == -SCALE,
    ensures
        sphere_hit_t_spec(s, r, t_min, t_max) is None,
{
    let sc = SCALE as int;
    let k = d / 1000;
    let g = h / 1000;
    let m = rad / 1000;
    lemma_fundamental_div_mod(d, 1000);
    lemma_fundamental_div_mod(h, 1000);
    lemma_fundamental_div_mod(rad, 1000);
    assert(d == 1000 * k && h == 1000 * g && rad == 1000 * m);
    assert(0 <= k <= 1_000_000 && 0 < m < g <= 1_000_000) by (nonlinear_arith)
        requires
            d == 1000 * k && h == 1000 * g && rad == 1000 * m,
            0 < rad < h <= 1_000_000_000,
            0 <= d <= 1_000_000_000,
    ;
    assert(d * d == sc * (k * k) && h * h == sc * (g * g) && rad * rad == sc * (m * m) && (-d) * (
    -d) == sc * (k * k)) by (nonlinear_arith)
        requires
            d == 1000 * k && h == 1000 * g && rad == 1000 * m,
            sc == 1_000_000,
    ;
    assert(0 <= k * k <= 1_000_000_000_000 && 0 < m * m < g * g <= 1_000_000_000_000)
        by (nonlinear_arith)
        requires
            0 <= k <= 1_000_000,
            0 < m < g <= 1_000_000,
    ;
    let oc = sphere_oc_spec(s, r);
    assert(oc.x == 0 && oc.y == h && oc.z == d);

    lemma_div_multiples_vanish(sc, sc);
    assert(dot_sum_spec(0, 0, -sc, 0, 0, -sc) == sc * sc) by (nonlinear_arith);
    assert(sphere_a_spec(r) == sc);

    lemma_div_multiples_vanish(d, sc);
    assert(dot_sum_spec(0, h, d, 0, 0, -sc) == -(sc * d)) by (nonlinear_arith);
    assert(tdiv(-(sc * d), sc) == -d);
    assert(sphere_half_b_spec(s, r) == -d);

    lemma_div_multiples_vanish(g * g + k * k, sc);
    assert(dot_sum_spec(0, h, d, 0, h, d) == sc * (g * g + k * k)) by (nonlinear_arith)
        requires
            h * h == sc * (g * g),
            d * d == sc * (k * k),
    ;
    assert(dot_spec(oc, oc) == g * g + k * k);
    lemma_div_multiples_vanish(m * m, sc);
    assert(tdiv(rad * rad, sc) == m * m);
    assert(sphere_c_spec(s, r) == g * g + k * k - m * m);

    assert((-d) * (-d) == sc * (k * k));
    lemma_div_multiples_vanish(k * k, sc);
    assert(fp_mul_spec(-d, -d) == k * k);
    lemma_div_multiples_vanish(g * g + k * k - m * m, sc);
    assert(sc * (g * g + k * k - m * m) == sc * (g * g) + sc * (k * k) - sc * (m * m))
        by (nonlinear_arith);
    assert(fp_mul_spec(sc, g * g + k * k - m * m) == g * g + k * k - m * m);
    assert(sphere_disc_spec(s, r) == k * k - (g * g + k * k - m * m));
    assert(sphere_disc_spec(s, r) < 0);
}

impl Sphere {
    /// Closed-form ray-sphere intersection over `[t_min, t_max]`.
    /// The reported normal always opposes the incoming ray.
    pub fn hit(&self, r: &Ray, t_min: i64, t_max: i64) -> (res: Option<HitRecord>)
        requires
            ray_wf(*r),
            sphere_wf(*self),
        ensures
            (match res {
                Some(h) => sphere_hit_record_spec(*self, *r, t_min as int, t_max as int, h),
                None => sphere_hit_t_spec(*self, *r, t_min as int, t_max as int) is None,
            }),
    {
        let oc: Vec3 = r.origin().sub(self.center);
        let a: i64 = r.direction().dot(r.direction());
        let half_b: i64 = oc.dot(r.direction());
        let c: i64 = fp_sub(oc.dot(oc), fp_mul(self.radius, self.radius));
        let discriminant: i64 = fp_sub(fp_mul(half_b, half_b), fp_mul(a, c));
        if discriminant < 0 {
            return None;
        }
        if a == 0 {
            // Degenerate zero-length direction: report no hit rather
            // than divide by zero.
            return None;
        }
        let sqrtd: i64 = fp_sqrt(discriminant);
        let mut root: i64 = fp_div(fp_sub(fp_neg(half_b), sqrtd), a);
        if root < t_min || t_max < root {
            root = fp_div(fp_add(fp_neg(half_b), sqrtd), a);
            if root < t_min || t_max < root {
                return None;
            }
        }
        let p: Point3 = r.at(root);
        let outward_normal: Vec3 = p.sub(self.center).div_scalar(self.radius);
        Some(HitRecord::new(r, root, outward_normal, self.material))
    }
}

} // verus!

