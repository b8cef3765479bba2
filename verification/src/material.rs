//! Surface materials: diffuse, specular with roughness, and
//! refractive glass, as a closed set of variants.

use vstd::prelude::*;
use crate::fixed::FP_MAX;
use crate::fixed::SCALE;
use crate::fixed::fp_add;
use crate::fixed::fp_add_spec;
use crate::fixed::fp_div;
use crate::fixed::fp_div_spec;
use crate::fixed::fp_mul;
use crate::fixed::fp_mul_spec;
use crate::fixed::fp_sqrt;
use crate::fixed::fp_sqrt_spec;
use crate::fixed::fp_sub;
use crate::fixed::fp_sub_spec;
use crate::hit::HitRecord;
use crate::ray::Ray;
use crate::ray::ray_wf;
use crate::rng::RandomSource;
use crate::vec::Color;
use crate::vec::Vec3;
use crate::vec::add_spec;
use crate::vec::dot_spec;
use crate::vec::in_range;
use crate::vec::neg_spec;
use crate::vec::normalized_spec;
use crate::vec::reflect_spec;
use crate::vec::refract_spec;
use crate::vec::scale_spec;

verus! {

/// Albedo components are fractions of reflected light.
pub open spec fn color_wf(c: Color) -> bool {
    &&& 0 <= c.x <= SCALE
    &&& 0 <= c.y <= SCALE
    &&& 0 <= c.z <= SCALE
}

/// A diffuse surface.
#[derive(Clone, Copy, PartialEq, Eq, Structural, Debug)]
pub struct Lambertian {
    pub albedo: Color,
}

/// A reflective surface with a roughness factor.
#[derive(Clone, Copy, PartialEq, Eq, Structural, Debug)]
pub struct Metal {
    pub albedo: Color,
    pub fuzz: i64,
}

/// A transparent surface with a refractive index.
#[derive(Clone, Copy, PartialEq, Eq, Structural, Debug)]
pub struct Dielectric {
    pub index_of_refraction: i64,
}

/// The closed set of surface behaviours.
#[derive(Clone, Copy, PartialEq, Eq, Structural, Debug)]
pub enum Material {
    Lambertian(Lambertian),
    Metal(Metal),
    Dielectric(Dielectric),
}

/// Validity of a material's parameters: albedo components and fuzz in
/// `[0, 1]`, refractive index positive.
pub open spec fn material_wf(m: Material) -> bool {
    match m {
        Material::Lambertian(l) => color_wf(l.albedo),
        Material::Metal(mt) => color_wf(mt.albedo) && 0 <= mt.fuzz <= SCALE,
        Material::Dielectric(d) => 0 < d.index_of_refraction <= FP_MAX,
    }
}

/// The diffuse scatter direction: the surface normal plus a random
/// unit offset, falling back to the bare normal when the sum
/// degenerates to zero.
pub open spec fn lambertian_dir_spec(normal: Vec3, unit: Vec3) -> Vec3 {
    let d = add_spec(normal, unit);
    if d.x == 0 && d.y == 0 && d.z == 0 {
        normal
    } else {
        d
    }
}

/// The metallic scatter direction: the unit incoming direction
/// mirrored about the normal, perturbed by `fuzz` times a random
/// in-sphere vector.
pub open spec fn metal_dir_spec(ray_dir: Vec3, normal: Vec3, fuzz: int, fv: Vec3) -> Vec3 {
    add_spec(reflect_spec(normalized_spec(ray_dir), normal), scale_spec(fv, fuzz))
}

/// A polished metal (fuzz zero) scatters along the bare reflection:
/// the perturbation term vanishes exactly.
pub proof fn lemma_metal_zero_fuzz(ray_dir: Vec3, normal: Vec3, fv: Vec3)
    ensures
        metal_dir_spec(ray_dir, normal, 0, fv) == reflect_spec(normalized_spec(ray_dir), normal),
{
    vstd::arithmetic::div_mod::lemma_div_of0(SCALE as int);
    let reflected = reflect_spec(normalized_spec(ray_dir), normal);
    assert(scale_spec(fv, 0) == (Vec3 { x: 0i64, y: 0i64, z: 0i64 }));
    assert(add_spec(reflected, Vec3 { x: 0i64, y: 0i64, z: 0i64 }) == reflected);
}

/// Index ratio at the interface: inverted when entering front-face.
pub open spec fn dielectric_ratio_spec(ior: int, front_face: bool) -> int {
    if front_face {
        fp_div_spec(SCALE as int, ior)
    } else {
        ior
    }
}

/// Cosine of the angle between the reversed unit direction and the
/// normal, capped at one.
pub open spec fn dielectric_cos_spec(unit: Vec3, normal: Vec3) -> int {
    let m = dot_spec(neg_spec(unit), normal);
    if m < SCALE {
        m
    } else {
        SCALE as int
    }
}

/// Sine from the cosine; the squared remainder is floored at zero
/// before the square root so the value is always defined.
pub open spec fn dielectric_sin_spec(cos: int) -> int {
    let s2 = fp_sub_spec(SCALE as int, fp_mul_spec(cos, cos));
    if s2 < 0 {
        0
    } else {
        fp_sqrt_spec(s2)
    }
}

/// Schlick's approximation of Fresnel reflectance:
/// `r0 + (1 - r0) (1 - cos)^5` with `r0 = ((1 - k)/(1 + k))^2`.
pub open spec fn reflectance_spec(cosine: int, refraction_ratio: int) -> int {
    let r0a = fp_div_spec(
        fp_sub_spec(SCALE as int, refraction_ratio),
        fp_add_spec(SCALE as int, refraction_ratio),
    );
    let r0 = fp_mul_spec(r0a, r0a);
    let omc = fp_sub_spec(SCALE as int, cosine);
    let p2 = fp_mul_spec(omc, omc);
    let p4 = fp_mul_spec(p2, p2);
    let p5 = fp_mul_spec(p4, omc);
    fp_add_spec(r0, fp_mul_spec(fp_sub_spec(SCALE as int, r0), p5))
}

/// The dielectric scatter direction for the uniform draw `u`:
/// reflect on total internal reflection or when `u` falls below the
/// reflectance, refract otherwise.
pub open spec fn dielectric_dir_spec(
    ior: int,
    ray_dir: Vec3,
    normal: Vec3,
    front_face: bool,
    u: int,
) -> Vec3 {
    let ratio = dielectric_ratio_spec(ior, front_face);
    let unit = normalized_spec(ray_dir);
    let cos = dielectric_cos_spec(unit, normal);
    let sin = dielectric_sin_spec(cos);
    let cannot_refract = fp_mul_spec(ratio, sin) > SCALE;
    let will_reflect = u < reflectance_spec(cos, ratio);
    if cannot_refract || will_reflect {
        reflect_spec(unit, normal)
    } else {
        refract_spec(unit, normal, ratio)
    }
}

/// What a scattering material multiplies the incoming light by.
pub open spec fn attenuation_spec(m: Material) -> Color {
    match m {
        Material::Lambertian(l) => l.albedo,
        Material::Metal(mt) => mt.albedo,
        Material::Dielectric(_) => Color { x: SCALE, y: SCALE, z: SCALE },
    }
}

impl Lambertian {
    pub fn new(albedo: Color) -> (r: Lambertian)
        requires
            color_wf(albedo),
        ensures
            r.albedo == albedo,
            material_wf(Material::Lambertian(r)),
    {
        Lambertian { albedo }
    }

    /// Diffuse scattering with the random unit offset supplied by the
    /// caller, so the result is an exact function of the arguments.
    pub fn scatter_with(&self, hit: &HitRecord, unit: Vec3) -> (out: (Color, Ray))
        requires
            in_range(hit.normal),
            in_range(hit.p),
            in_range(unit),
        ensures
            out.0 == self.albedo,
            out.1.origin == hit.p,
            out.1.direction == lambertian_dir_spec(hit.normal, unit),
            ray_wf(out.1),
    {
        let mut scatter_direction: Vec3 = hit.normal.add(unit);
        if scatter_direction.near_zero() {
            scatter_direction = hit.normal;
        }
        (self.albedo, Ray::new(hit.p, scatter_direction))
    }

    /// Diffuse scattering, drawing the random offset itself.  Diffuse
    /// surfaces never absorb.
    pub fn scatter(&self, _ray: &Ray, hit: &HitRecord, rng: &mut RandomSource) -> (out: Option<
        (Color, Ray),
    >)
        requires
            in_range(hit.normal),
            in_range(hit.p),
        ensures
            (out matches Some(o) ==> {
                &&& o.0 == self.albedo
                &&& o.1.origin == hit.p
                &&& ray_wf(o.1)
                &&& exists|u: Vec3|
                    in_range(u) && o.1.direction == lambertian_dir_spec(hit.normal, u)
            }),
            out is Some,
    {
        let unit: Vec3 = Vec3::random_in_unit_sphere(rng).normalized();
        let out: (Color, Ray) = self.scatter_with(hit, unit);
        proof {
            assert(in_range(unit) && out.1.direction == lambertian_dir_spec(hit.normal, unit));
        }
        Some(out)
    }
}

impl Metal {
    pub fn new(albedo: Color, fuzz: i64) -> (r: Metal)
        requires
            color_wf(albedo),
            0 <= fuzz <= SCALE,
        ensures
            r.albedo == albedo,
            r.fuzz == fuzz,
            material_wf(Material::Metal(r)),
    {
        Metal { albedo, fuzz }
    }

    /// Specular scattering with the random perturbation supplied by
    /// the caller: absorbs exactly when the perturbed reflection
    /// points into the surface.
    pub fn scatter_with(&self, ray: &Ray, hit: &HitRecord, fv: Vec3) -> (out: Option<(Color, Ray)>)
        requires
            ray_wf(*ray),
            in_range(hit.normal),
            in_range(hit.p),
            in_range(fv),
        ensures
            (out matches Some(o) ==> {
                &&& o.0 == self.albedo
                &&& o.1.origin == hit.p
                &&& o.1.direction == metal_dir_spec(ray.direction, hit.normal, self.fuzz as int, fv)
                &&& dot_spec(o.1.direction, hit.normal) > 0
                &&& ray_wf(o.1)
            }),
            out is None <==> dot_spec(
                metal_dir_spec(ray.direction, hit.normal, self.fuzz as int, fv),
                hit.normal,
            ) <= 0,
    {
        let reflected: Vec3 = ray.direction().normalized().reflect(hit.normal);
        let scattered_dir: Vec3 = reflected.add(fv.scale(self.fuzz));
        let scattered: Ray = Ray::new(hit.p, scattered_dir);
        if scattered.direction().dot(hit.normal) > 0 {
            Some((self.albedo, scattered))
        } else {
            None
        }
    }

    /// Specular scattering, drawing the perturbation itself.  A
    /// polished metal facing the reflection outward always scatters;
    /// absorption happens exactly when the drawn perturbation tips
    /// the reflection into the surface.
    pub fn scatter(&self, ray: &Ray, hit: &HitRecord, rng: &mut RandomSource) -> (out: Option<
        (Color, Ray),
    >)
        requires
            ray_wf(*ray),
            in_range(hit.normal),
            in_range(hit.p),
        ensures
            (out matches Some(o) ==> {
                &&& o.0 == self.albedo
                &&& o.1.origin == hit.p
                &&& dot_spec(o.1.direction, hit.normal) > 0
                &&& ray_wf(o.1)
                &&& exists|fv: Vec3|
                    in_range(fv) && o.1.direction == metal_dir_spec(
                        ray.direction,
                        hit.normal,
                        self.fuzz as int,
                        fv,
                    )
            }),
            self.fuzz == 0 && dot_spec(
                reflect_spec(normalized_spec(ray.direction), hit.normal),
                hit.normal,
            ) > 0 ==> out is Some,
            out is None ==> exists|fv: Vec3|
                in_range(fv) && crate::vec::length_spec(fv) < SCALE && dot_spec(
                    metal_dir_spec(ray.direction, hit.normal, self.fuzz as int, fv),
                    hit.normal,
                ) <= 0,
    {
        let fv: Vec3 = Vec3::random_in_unit_sphere(rng);
        let out: Option<(Color, Ray)> = self.scatter_with(ray, hit, fv);
        proof {
            if self.fuzz == 0 {
                lemma_metal_zero_fuzz(ray.direction, hit.normal, fv);
            }
            match out {
                Some(o) => {
                    assert(in_range(fv) && o.1.direction == metal_dir_spec(
                        ray.direction,
                        hit.normal,
                        self.fuzz as int,
                        fv,
                    ));
                },
                None => {
                    assert(in_range(fv) && crate::vec::length_spec(fv) < SCALE && dot_spec(
                        metal_dir_spec(ray.direction, hit.normal, self.fuzz as int, fv),
                        hit.normal,
                    ) <= 0);
                },
            }
        }
        out
    }
}

impl Dielectric {
    pub fn new(index_of_refraction: i64) -> (r: Dielectric)
        requires
            0 < index_of_refraction <= FP_MAX,
        ensures
            r.index_of_refraction == index_of_refraction,
            material_wf(Material::Dielectric(r)),
    {
        Dielectric { index_of_refraction }
    }

    /// Schlick's approximation of the Fresnel reflectance.
    fn reflectance(cosine: i64, refraction_ratio: i64) -> (r: i64)
        requires
            0 <= refraction_ratio,
        ensures
            r == reflectance_spec(cosine as int, refraction_ratio as int),
    {
        let denom: i64 = fp_add(SCALE, refraction_ratio);
        let r0a: i64 = fp_div(fp_sub(SCALE, refraction_ratio), denom);
        let r0: i64 = fp_mul(r0a, r0a);
        let omc: i64 = fp_sub(SCALE, cosine);
        let p2: i64 = fp_mul(omc, omc);
        let p4: i64 = fp_mul(p2, p2);
        let p5: i64 = fp_mul(p4, omc);
        fp_add(r0, fp_mul(fp_sub(SCALE, r0), p5))
    }

    /// Refractive scattering with the uniform draw supplied by the
    /// caller: an exact function of the arguments.  Glass never
    /// absorbs and does not tint, so the attenuation is white.
    pub fn scatter_with(&self, ray: &Ray, hit: &HitRecord, u: i64) -> (out: (Color, Ray))
        requires
            ray_wf(*ray),
            in_range(hit.normal),
            in_range(hit.p),
            0 < self.index_of_refraction,
        ensures
            out.0 == (Color { x: SCALE, y: SCALE, z: SCALE }),
            out.1.origin == hit.p,
            out.1.direction == dielectric_dir_spec(
                self.index_of_refraction as int,
                ray.direction,
                hit.normal,
                hit.front_face,
                u as int,
            ),
            ray_wf(out.1),
    {
        let refraction_ratio: i64 = if hit.front_face {
            fp_div(SCALE, self.index_of_refraction)
        } else {
            self.index_of_refraction
        };
        let unit_direction: Vec3 = ray.direction().normalized();
        let mcos: i64 = unit_direction.neg().dot(hit.normal);
        let cos_theta: i64 = if mcos < SCALE {
            mcos
        } else {
            SCALE
        };
        let s2: i64 = fp_sub(SCALE, fp_mul(cos_theta, cos_theta));
        let sin_theta: i64 = if s2 < 0 {
            0
        } else {
            fp_sqrt(s2)
        };
        let cannot_refract: bool = fp_mul(refraction_ratio, sin_theta) > SCALE;
        let will_reflect: bool = u < Dielectric::reflectance(cos_theta, refraction_ratio);
        let direction: Vec3 = if cannot_refract || will_reflect {
            unit_direction.reflect(hit.normal)
        } else {
            unit_direction.refract(hit.normal, refraction_ratio)
        };
        (Color { x: SCALE, y: SCALE, z: SCALE }, Ray::new(hit.p, direction))
    }

    /// Refractive scattering, drawing the reflect-or-refract sample
    /// itself.  Glass never absorbs.
    pub fn scatter(&self, ray: &Ray, hit: &HitRecord, rng: &mut RandomSource) -> (out: Option<
        (Color, Ray),
    >)
        requires
            ray_wf(*ray),
            in_range(hit.normal),
            in_range(hit.p),
            0 < self.index_of_refraction,
        ensures
            (out matches Some(o) ==> {
                &&& o.0 == (Color { x: SCALE, y: SCALE, z: SCALE })
                &&& o.1.origin == hit.p
                &&& ray_wf(o.1)
                &&& exists|u: int|
                    0 <= u < SCALE && o.1.direction == dielectric_dir_spec(
                        self.index_of_refraction as int,
                        ray.direction,
                        hit.normal,
                        hit.front_face,
                        u,
                    )
            }),
            out is Some,
    {
        let u: i64 = rng.next_unit();
        let out: (Color, Ray) = self.scatter_with(ray, hit, u);
        proof {
            assert(0 <= (u as int) && (u as int) < SCALE && out.1.direction == dielectric_dir_spec(
                self.index_of_refraction as int,
                ray.direction,
                hit.normal,
                hit.front_face,
                u as int,
            ));
        }
        Some(out)
    }
}

/// Compositing with a pure white albedo is the identity: a material
/// with attenuation one in every channel (a Lambertian with albedo
/// one, or glass) filters nothing, so one bounce into the sky yields
/// exactly the sky's own color.
pub proof fn lemma_white_attenuation_identity(c: Color)
    requires
        in_range(c),
    ensures
        crate::vec::mul_spec(Color { x: SCALE, y: SCALE, z: SCALE }, c) == c,
{
    crate::fixed::lemma_scale_identity(c.x as int);
    crate::fixed::lemma_scale_identity(c.y as int);
    crate::fixed::lemma_scale_identity(c.z as int);
}

/// Energy non-amplification: attenuating a nonnegative radiance by
/// albedo components in `[0, 1]` never increases any channel, so
/// repeated scattering is monotone non-increasing per channel.
pub proof fn lemma_attenuation_never_amplifies(albedo: Color, c: Color)
    requires
        color_wf(albedo),
        0 <= c.x <= FP_MAX,
        0 <= c.y <= FP_MAX,
        0 <= c.z <= FP_MAX,
    ensures
        0 <= crate::vec::mul_spec(albedo, c).x <= c.x,
        0 <= crate::vec::mul_spec(albedo, c).y <= c.y,
        0 <= crate::vec::mul_spec(albedo, c).z <= c.z,
{
    crate::fixed::lemma_attenuation_bound(albedo.x as int, c.x as int);
    crate::fixed::lemma_attenuation_bound(albedo.y as int, c.y as int);
    crate::fixed::lemma_attenuation_bound(albedo.z as int, c.z as int);
}

impl Material {
    /// Decide whether light is absorbed or scattered at a hit, and in
    /// which direction with what attenuation.  The random draws are
    /// made here; every caller is verified for every outcome.
    pub fn scatter(&self, ray: &Ray, hit: &HitRecord, rng: &mut RandomSource) -> (out: Option<
        (Color, Ray),
    >)
        requires
            ray_wf(*ray),
            in_range(hit.normal),
            in_range(hit.p),
            material_wf(*self),
        ensures
            (out matches Some(o) ==> {
                &&& o.0 == attenuation_spec(*self)
                &&& color_wf(o.0)
                &&& o.1.origin == hit.p
                &&& ray_wf(o.1)
            }),
            *self matches Material::Lambertian(_) ==> out is Some,
            *self matches Material::Dielectric(_) ==> out is Some,
            *self matches Material::Metal(_) ==> (out matches Some(o) ==> dot_spec(
                o.1.direction,
                hit.normal,
            ) > 0),
            *self matches Material::Metal(mt) ==> (mt.fuzz == 0 && dot_spec(
                reflect_spec(normalized_spec(ray.direction), hit.normal),
                hit.normal,
            ) > 0 ==> out is Some),
            *self matches Material::Metal(mt) ==> (out is None ==> exists|fv: Vec3|
                in_range(fv) && crate::vec::length_spec(fv) < SCALE && dot_spec(
                    metal_dir_spec(ray.direction, hit.normal, mt.fuzz as int, fv),
                    hit.normal,
                ) <= 0),
    {
        match self {
            Material::Lambertian(l) => l.scatter(ray, hit, rng),
            Material::Metal(m) => m.scatter(ray, hit, rng),
            Material::Dielectric(d) => d.scatter(ray, hit, rng),
        }
    }
}

} // verus!
