//! The Monte-Carlo path-tracing evaluator: recursive radiance
//! estimation, the per-pixel sampling loop, and 8-bit quantization.

use vstd::prelude::*;
use vstd::arithmetic::div_mod::lemma_fundamental_div_mod_converse;
use crate::camera::Camera;
use crate::camera::camera_wf;
use crate::camera::get_ray_dir_spec;
use crate::fixed::FP_MAX;
use crate::fixed::fp_div_spec;
use crate::fixed::fp_sqrt_spec;
use crate::fixed::is_isqrt;
use crate::fixed::lemma_isqrt_unique;
use crate::material::attenuation_spec;
use crate::sphere::sphere_hit_record_spec;
use crate::sphere::sphere_hit_t_spec;
use crate::vec::mul_spec;
use crate::fixed::SCALE;
use crate::fixed::fp_add;
use crate::fixed::fp_add_spec;
use crate::fixed::fp_mul;
use crate::fixed::fp_mul_spec;
use crate::fixed::fp_sub;
use crate::fixed::fp_sub_spec;
use crate::fixed::lemma_attenuation_bound;
use crate::fixed::lemma_fp_sqrt_le_one;
use crate::fixed::sat;
use crate::fixed::saturate_quotient;
use crate::fixed::tdiv;
use crate::hit::World;
use crate::hit::world_wf;
use crate::ray::Ray;
use crate::ray::ray_wf;
use crate::rng::RandomSource;
use crate::size::Size;
use crate::size::size_wf;
use crate::vec::Color;
use crate::vec::Vec3;
use crate::vec::add_spec;
use crate::vec::in_range;
use crate::vec::normalized_spec;
use crate::vec::scale_spec;

verus! {

/// Lower intersection bound for scattered rays, excluding
/// self-intersection at the scatter origin (shadow acne).
pub const SHADOW_ACNE_MIN: i64 = 1_000;

/// One half, in fixed point.
pub const HALF: i64 = 500_000;

/// Channels clamp here (0.999) before scaling to 8 bits.
pub const QUANT_CLAMP_MAX: i64 = 999_000;

/// Every channel lies in the unit interval `[0, 1]`.
pub open spec fn color_in_unit(c: Color) -> bool {
    &&& 0 <= c.x <= SCALE
    &&& 0 <= c.y <= SCALE
    &&& 0 <= c.z <= SCALE
}

pub open spec fn clamp_unit_spec(x: int) -> int {
    if x < 0 {
        0
    } else if x > SCALE {
        SCALE as int
    } else {
        x
    }
}

/// The background gradient: linear interpolation from white at the
/// horizon to sky blue at the zenith, parametrized by the normalized
/// direction's height, and clamped to the unit cube against rounding
/// drift on degenerate directions.
pub open spec fn sky_color_spec(dir: Vec3) -> Color {
    let unit = normalized_spec(dir);
    let t = fp_mul_spec(HALF as int, fp_add_spec(unit.y as int, SCALE as int));
    let raw = add_spec(
        scale_spec(Vec3 { x: SCALE, y: SCALE, z: SCALE }, fp_sub_spec(SCALE as int, t)),
        scale_spec(Vec3 { x: HALF, y: 700_000, z: SCALE }, t),
    );
    Vec3 {
        x: clamp_unit_spec(raw.x as int) as i64,
        y: clamp_unit_spec(raw.y as int) as i64,
        z: clamp_unit_spec(raw.z as int) as i64,
    }
}

fn clamp_unit(x: i64) -> (r: i64)
    ensures
        r == clamp_unit_spec(x as int),
{
    if x < 0 {
        0
    } else if x > SCALE {
        SCALE
    } else {
        x
    }
}

/// The color a ray that escapes the scene gathers from the sky.
pub fn sky_color(dir: Vec3) -> (c: Color)
    requires
        in_range(dir),
    ensures
        c == sky_color_spec(dir),
        color_in_unit(c),
{
    let unit: Vec3 = dir.normalized();
    let t: i64 = fp_mul(HALF, fp_add(unit.y, SCALE));
    let white: Color = Vec3 { x: SCALE, y: SCALE, z: SCALE };
    let blue: Color = Vec3 { x: HALF, y: 700_000, z: SCALE };
    let raw: Color = white.scale(fp_sub(SCALE, t)).add(blue.scale(t));
    Vec3 { x: clamp_unit(raw.x), y: clamp_unit(raw.y), z: clamp_unit(raw.z) }
}

/// No object intersects the ray within the standard shadow-acne
/// window.
pub open spec fn no_hit_in_window(w: World, r: Ray) -> bool {
    forall|j: int|
        0 <= j < w.objects@.len() ==> #[trigger] sphere_hit_t_spec(
            w.objects@[j],
            r,
            SHADOW_ACNE_MIN as int,
            FP_MAX as int,
        ) is None
}

/// Object `i` is the hit the scan reports: it intersects at parameter
/// `t`, no object intersects nearer, and every earlier object
/// intersects strictly farther (ties go to the earliest-inserted
/// object).
pub open spec fn first_nearest_hit(w: World, r: Ray, i: int, t: int) -> bool {
    &&& 0 <= i < w.objects@.len()
    &&& sphere_hit_t_spec(w.objects@[i], r, SHADOW_ACNE_MIN as int, FP_MAX as int) == Some(t)
    &&& forall|j: int|
        0 <= j < w.objects@.len() ==> (#[trigger] sphere_hit_t_spec(
            w.objects@[j],
            r,
            SHADOW_ACNE_MIN as int,
            FP_MAX as int,
        ) matches Some(t2) ==> t <= t2)
    &&& forall|j: int|
        0 <= j < i ==> (#[trigger] sphere_hit_t_spec(
            w.objects@[j],
            r,
            SHADOW_ACNE_MIN as int,
            FP_MAX as int,
        ) matches Some(t2) ==> t < t2)
}

/// The estimate `c` is the winning hit's attenuation filtering some
/// unit-cube radiance `b` gathered beyond the bounce.
pub open spec fn tinted_by_hit(w: World, r: Ray, i: int, t: int, b: Color, c: Color) -> bool {
    &&& first_nearest_hit(w, r, i, t)
    &&& color_in_unit(b)
    &&& c == mul_spec(attenuation_spec(w.objects@[i].material), b)
}

/// What holds of a radiance estimate for every random outcome: it
/// lies in the unit cube; an exhausted depth budget yields exactly
/// black; a ray no object intersects gathers exactly the sky
/// gradient; and on a hit the estimate is black (the ray was
/// absorbed) or the winning material's attenuation times a unit-cube
/// radiance.
pub open spec fn radiance_outcome(w: World, r: Ray, depth: u64, c: Color) -> bool {
    &&& color_in_unit(c)
    &&& (depth == 0 ==> c == (Color { x: 0, y: 0, z: 0 }))
    &&& (depth > 0 && no_hit_in_window(w, r) ==> c == sky_color_spec(r.direction))
    &&& (depth > 0 && !no_hit_in_window(w, r) ==> (c == (Color { x: 0, y: 0, z: 0 })
        || exists|i: int, t: int, b: Color| #[trigger] tinted_by_hit(w, r, i, t, b, c)))
}

/// A bounce with attenuation one that escapes to the sky contributes
/// exactly the sky's own color: compositing `radiance = attenuation
/// (x) sky` with a pure white attenuation (a Lambertian albedo of
/// one, or glass) is the identity.
pub proof fn lemma_white_bounce_equals_sky(dir: Vec3)
    ensures
        crate::vec::mul_spec(Color { x: SCALE, y: SCALE, z: SCALE }, sky_color_spec(dir))
            == sky_color_spec(dir),
{
    crate::material::lemma_white_attenuation_identity(sky_color_spec(dir));
}

/// The recursive radiance estimate for a ray.
///
/// With an exhausted depth budget the estimate is pure black; a ray
/// that no object intersects (an empty scene in particular) gathers
/// exactly the sky gradient; on a hit the estimate is black (the ray
/// was absorbed) or the winning material's attenuation filtering the
/// recursive estimate; and whatever the material draws decide, the
/// result stays in the unit cube: attenuation by albedo components in
/// `[0, 1]` never amplifies any channel.
pub fn ray_color(r: &Ray, world: &World, depth: u64, rng: &mut RandomSource) -> (c: Color)
    requires
        ray_wf(*r),
        world_wf(*world),
    ensures
        radiance_outcome(*world, *r, depth, c),
    decreases depth,
{
    if depth == 0 {
        // Ray bounce budget exhausted: no more light is gathered.
        return Vec3 { x: 0, y: 0, z: 0 };
    }
    match world.hit(r, SHADOW_ACNE_MIN, FP_MAX) {
        Some(rec) => {
            proof {
                let i = choose|i: int|
                    0 <= i < world.objects@.len() && #[trigger] sphere_hit_record_spec(
                        world.objects@[i],
                        *r,
                        SHADOW_ACNE_MIN as int,
                        FP_MAX as int,
                        rec,
                    ) && (forall|j: int|
                        0 <= j < i ==> (#[trigger] sphere_hit_t_spec(
                            world.objects@[j],
                            *r,
                            SHADOW_ACNE_MIN as int,
                            FP_MAX as int,
                        ) matches Some(t2) ==> rec.t < t2));
                assert(!no_hit_in_window(*world, *r));
                assert(first_nearest_hit(*world, *r, i, rec.t as int));
            }
            match rec.material.scatter(r, &rec, rng) {
                Some((attenuation, scattered)) => {
                    let bounced: Color = ray_color(&scattered, world, depth - 1, rng);
                    let out: Color = attenuation.mul(bounced);
                    proof {
                        lemma_attenuation_bound(attenuation.x as int, bounced.x as int);
                        lemma_attenuation_bound(attenuation.y as int, bounced.y as int);
                        lemma_attenuation_bound(attenuation.z as int, bounced.z as int);
                        let i = choose|i: int|
                            0 <= i < world.objects@.len() && #[trigger] sphere_hit_record_spec(
                                world.objects@[i],
                                *r,
                                SHADOW_ACNE_MIN as int,
                                FP_MAX as int,
                                rec,
                            ) && (forall|j: int|
                                0 <= j < i ==> (#[trigger] sphere_hit_t_spec(
                                    world.objects@[j],
                                    *r,
                                    SHADOW_ACNE_MIN as int,
                                    FP_MAX as int,
                                ) matches Some(t2) ==> rec.t < t2));
                        assert(out == mul_spec(attenuation_spec(world.objects@[i].material), bounced));
                        assert(tinted_by_hit(*world, *r, i, rec.t as int, bounced, out));
                    }
                    out
                },
                None => Vec3 { x: 0, y: 0, z: 0 },
            }
        },
        None => sky_color(r.direction()),
    }
}

/// The fixed-point sum of a sequence of colors, accumulated in order.
pub open spec fn color_sum_spec(samples: Seq<Color>) -> Color
    decreases samples.len(),
{
    if samples.len() == 0 {
        Color { x: 0, y: 0, z: 0 }
    } else {
        add_spec(color_sum_spec(samples.drop_last()), samples.last())
    }
}

/// Each summed channel divided by the sample count (an integer
/// count, not a fixed-point value).
pub open spec fn avg_spec(sum: Color, n: int) -> Color {
    Color {
        x: sat(tdiv(sum.x as int, n)) as i64,
        y: sat(tdiv(sum.y as int, n)) as i64,
        z: sat(tdiv(sum.z as int, n)) as i64,
    }
}

/// Componentwise square-root gamma correction.
pub open spec fn gamma_spec(c: Color) -> Color {
    Color {
        x: fp_sqrt_spec(c.x as int) as i64,
        y: fp_sqrt_spec(c.y as int) as i64,
        z: fp_sqrt_spec(c.z as int) as i64,
    }
}

/// One Monte-Carlo estimate for pixel `(i, j)` with jitter
/// `(du, dv)`: a radiance outcome of the camera ray through the
/// jittered pixel coordinates, normalized by the last pixel index of
/// each axis.
pub open spec fn jittered_sample(rd: Render, i: u64, j: u64, du: int, dv: int, c: Color) -> bool {
    let iu = i * SCALE + du;
    let jv = j * SCALE + dv;
    let u = fp_div_spec(iu, (rd.image_size.width - 1) * SCALE);
    let v = fp_div_spec(jv, (rd.image_size.height - 1) * SCALE);
    let ray = Ray { origin: rd.camera.origin, direction: get_ray_dir_spec(rd.camera, u, v) };
    radiance_outcome(rd.world, ray, rd.max_depth, c)
}

/// One sample for pixel `(i, j)`: some jitter pair in `[0, 1)`
/// produced it.
pub open spec fn pixel_sample_of(rd: Render, i: u64, j: u64, c: Color) -> bool {
    exists|du: int, dv: int|
        0 <= du < SCALE && 0 <= dv < SCALE && #[trigger] jittered_sample(rd, i, j, du, dv, c)
}

/// What holds of a pixel estimate for every random outcome: it is
/// the square-root gamma correction of the average of
/// `samples_per_pixel` jittered radiance estimates, so it lies in the
/// unit cube, and with no bounce budget it is exactly black.
pub open spec fn pixel_outcome(rd: Render, i: u64, j: u64, c: Color) -> bool {
    &&& color_in_unit(c)
    &&& (rd.max_depth == 0 ==> c == (Color { x: 0, y: 0, z: 0 }))
    &&& exists|samples: Seq<Color>|
        #![trigger color_sum_spec(samples)]
        {
            &&& samples.len() == rd.samples_per_pixel
            &&& (forall|k: int|
                0 <= k < samples.len() ==> pixel_sample_of(rd, i, j, #[trigger] samples[k]))
            &&& c == gamma_spec(
                avg_spec(color_sum_spec(samples), rd.samples_per_pixel as int),
            )
        }
}

/// Divide each summed channel by the sample count (an integer count,
/// not a fixed-point value).
fn div_by_count(v: Vec3, n: u64) -> (r: Vec3)
    requires
        n >= 1,
    ensures
        r.x == sat(tdiv(v.x as int, n as int)),
        r.y == sat(tdiv(v.y as int, n as int)),
        r.z == sat(tdiv(v.z as int, n as int)),
{
    Vec3 {
        x: saturate_quotient(v.x as i128, n as i128),
        y: saturate_quotient(v.y as i128, n as i128),
        z: saturate_quotient(v.z as i128, n as i128),
    }
}

/// The quantization formula: clamp the channel to `[0, 0.999]`, scale
/// by 256, truncate.
pub open spec fn to_u8_spec(c: int) -> int {
    let cl = if c < 0 {
        0
    } else if c > QUANT_CLAMP_MAX {
        QUANT_CLAMP_MAX as int
    } else {
        c
    };
    (256 * cl) / (SCALE as int)
}

/// Quantize one gamma-corrected channel to 8 bits.
pub fn to_u8(component: i64) -> (r: u8)
    ensures
        r == to_u8_spec(component as int),
{
    let cl: i64 = if component < 0 {
        0
    } else if component > QUANT_CLAMP_MAX {
        QUANT_CLAMP_MAX
    } else {
        component
    };
    ((256u64 * (cl as u64)) / (SCALE as u64)) as u8
}

/// A rendering job: a scene, a camera, and the sampling parameters.
pub struct Render {
    pub world: World,
    pub camera: Camera,
    pub samples_per_pixel: u64,
    pub max_depth: u64,
    pub image_size: Size,
}

/// Validity of a job: well-formed scene and camera, at least one
/// sample per pixel, and counts small enough that a pixel's summed
/// radiance stays exactly representable.
pub open spec fn render_wf(rd: Render) -> bool {
    &&& world_wf(rd.world)
    &&& camera_wf(rd.camera)
    &&& 1 <= rd.samples_per_pixel <= 1_000_000
    &&& size_wf(rd.image_size)
}

impl Render {
    pub fn new(
        world: World,
        camera: Camera,
        samples_per_pixel: u64,
        max_depth: u64,
        image_size: Size,
    ) -> (rd: Render)
        requires
            world_wf(world),
            camera_wf(camera),
            1 <= samples_per_pixel <= 1_000_000,
            size_wf(image_size),
        ensures
            rd.world == world,
            rd.camera == camera,
            rd.samples_per_pixel == samples_per_pixel,
            rd.max_depth == max_depth,
            rd.image_size == image_size,
            render_wf(rd),
    {
        Render { world, camera, samples_per_pixel, max_depth, image_size }
    }

    /// Estimate the color of pixel `(i, j)`: draw `samples_per_pixel`
    /// jittered camera rays, average their radiance estimates, and
    /// apply square-root gamma correction.  The contract ties the
    /// result to exactly that pipeline over the drawn samples; pixels
    /// are independent, so evaluations may run concurrently, each
    /// with its own random stream.
    pub fn pixel_color(&self, i: u64, j: u64, rng: &mut RandomSource) -> (c: Color)
        requires
            render_wf(*self),
            i < self.image_size.width,
            j < self.image_size.height,
        ensures
            pixel_outcome(*self, i, j, c),
    {
        let mut pixel_sum: Color = Vec3 { x: 0, y: 0, z: 0 };
        let mut s: u64 = 0;
        let total: u64 = self.samples_per_pixel;
        let ghost mut samples: Seq<Color> = Seq::empty();
        while s < total
            invariant
                s <= total <= 1_000_000,
                total == self.samples_per_pixel,
                render_wf(*self),
                i < self.image_size.width,
                j < self.image_size.height,
                0 <= pixel_sum.x <= s * SCALE,
                0 <= pixel_sum.y <= s * SCALE,
                0 <= pixel_sum.z <= s * SCALE,
                samples.len() == s,
                forall|k: int|
                    0 <= k < samples.len() ==> pixel_sample_of(
                        *self,
                        i,
                        j,
                        #[trigger] samples[k],
                    ),
                pixel_sum == color_sum_spec(samples),
                self.max_depth == 0 ==> pixel_sum == (Color { x: 0, y: 0, z: 0 }),
            decreases total - s,
        {
            let ru: i64 = rng.next_unit();
            let rv: i64 = rng.next_unit();
            let iu: i64 = (i as i64) * SCALE + ru;
            let jv: i64 = (j as i64) * SCALE + rv;
            let (u, v): (i64, i64) = self.image_size.transform(iu, jv);
            let r: Ray = self.camera.get_ray(u, v);
            let sample: Color = ray_color(&r, &self.world, self.max_depth, rng);
            pixel_sum = pixel_sum.add(sample);
            proof {
                assert(r == (Ray {
                    origin: self.camera.origin,
                    direction: get_ray_dir_spec(self.camera, u as int, v as int),
                }));
                assert(jittered_sample(*self, i, j, ru as int, rv as int, sample));
                assert(pixel_sample_of(*self, i, j, sample));
                assert(samples.push(sample).drop_last() =~= samples);
                samples = samples.push(sample);
            }
            s = s + 1;
        }
        let avg: Color = div_by_count(pixel_sum, total);
        proof {
            lemma_avg_in_unit(pixel_sum.x as int, total as int);
            lemma_avg_in_unit(pixel_sum.y as int, total as int);
            lemma_avg_in_unit(pixel_sum.z as int, total as int);
            lemma_fp_sqrt_le_one(sat(tdiv(pixel_sum.x as int, total as int)));
            lemma_fp_sqrt_le_one(sat(tdiv(pixel_sum.y as int, total as int)));
            lemma_fp_sqrt_le_one(sat(tdiv(pixel_sum.z as int, total as int)));
        }
        let out: Color = avg.sqrt();
        proof {
            assert(avg == avg_spec(color_sum_spec(samples), self.samples_per_pixel as int));
            assert(out == gamma_spec(avg));
            if self.max_depth == 0 {
                vstd::arithmetic::div_mod::lemma_div_of0(self.samples_per_pixel as int);
                assert(is_isqrt(0, 0));
                lemma_isqrt_unique(0, 0);
                assert(out == (Color { x: 0, y: 0, z: 0 }));
            }
            assert(pixel_outcome(*self, i, j, out));
        }
        out
    }

    /// Fill the whole image sequentially, top row first, three bytes
    /// per pixel in row-major order: byte triple `p` holds the
    /// quantized channels of a pixel estimate for column `p % width`
    /// of row `height - 1 - p / width`.
    pub fn render_buffer(&self, rng: &mut RandomSource) -> (buf: Vec<u8>)
        requires
            render_wf(*self),
            self.image_size.width * self.image_size.height * 3 <= usize::MAX,
        ensures
            buf@.len() == self.image_size.width * self.image_size.height * 3,
            exists|pix: Seq<Color>|
                #![trigger pix.len()]
                {
                    &&& pix.len() == self.image_size.width * self.image_size.height
                    &&& (forall|p: int|
                        0 <= p < pix.len() ==> pixel_outcome(
                            *self,
                            (p % (self.image_size.width as int)) as u64,
                            (self.image_size.height - 1 - p / (self.image_size.width as int)) as u64,
                            #[trigger] pix[p],
                        ))
                    &&& (forall|p: int|
                        0 <= p < pix.len() ==> {
                            &&& buf@[3 * p] == to_u8_spec((#[trigger] pix[p]).x as int)
                            &&& buf@[3 * p + 1] == to_u8_spec(pix[p].y as int)
                            &&& buf@[3 * p + 2] == to_u8_spec(pix[p].z as int)
                        })
                },
    {
        let w: u64 = self.image_size.width();
        let h: u64 = self.image_size.height();
        let mut buffer: Vec<u8> = Vec::new();
        let ghost mut pix: Seq<Color> = Seq::empty();
        let mut jj: u64 = 0;
        while jj < h
            invariant
                render_wf(*self),
                w == self.image_size.width,
                h == self.image_size.height,
                w * h * 3 <= usize::MAX,
                jj <= h,
                pix.len() == jj * w,
                buffer@.len() == jj * w * 3,
                forall|p: int|
                    0 <= p < pix.len() ==> pixel_outcome(
                        *self,
                        (p % (w as int)) as u64,
                        (h - 1 - p / (w as int)) as u64,
                        #[trigger] pix[p],
                    ),
                forall|p: int|
                    0 <= p < pix.len() ==> {
                        &&& buffer@[3 * p] == to_u8_spec((#[trigger] pix[p]).x as int)
                        &&& buffer@[3 * p + 1] == to_u8_spec(pix[p].y as int)
                        &&& buffer@[3 * p + 2] == to_u8_spec(pix[p].z as int)
                    },
            decreases h - jj,
        {
            let j: u64 = h - 1 - jj;
            let mut i: u64 = 0;
            while i < w
                invariant
                    render_wf(*self),
                    w == self.image_size.width,
                    h == self.image_size.height,
                    w * h * 3 <= usize::MAX,
                    jj < h,
                    j == h - 1 - jj,
                    i <= w,
                    pix.len() == jj * w + i,
                    buffer@.len() == jj * w * 3 + i * 3,
                    forall|p: int|
                        0 <= p < pix.len() ==> pixel_outcome(
                            *self,
                            (p % (w as int)) as u64,
                            (h - 1 - p / (w as int)) as u64,
                            #[trigger] pix[p],
                        ),
                    forall|p: int|
                        0 <= p < pix.len() ==> {
                            &&& buffer@[3 * p] == to_u8_spec((#[trigger] pix[p]).x as int)
                            &&& buffer@[3 * p + 1] == to_u8_spec(pix[p].y as int)
                            &&& buffer@[3 * p + 2] == to_u8_spec(pix[p].z as int)
                        },
                decreases w - i,
            {
                proof {
                    lemma_buffer_room(jj as int, i as int, w as int, h as int);
                }
                let color: Color = self.pixel_color(i, j, rng);
                proof {
                    lemma_fundamental_div_mod_converse(
                        pix.len() as int,
                        w as int,
                        jj as int,
                        i as int,
                    );
                    pix = pix.push(color);
                }
                buffer.push(to_u8(color.x()));
                buffer.push(to_u8(color.y()));
                buffer.push(to_u8(color.z()));
                i = i + 1;
            }
            proof {
                lemma_row_total(jj as int, w as int);
            }
            jj = jj + 1;
        }
        proof {
            assert((h as int) * (w as int) * 3 == (w as int) * (h as int) * 3) by (nonlinear_arith);
            assert((h as int) * (w as int) == (w as int) * (h as int)) by (nonlinear_arith);
        }
        buffer
    }
}

/// An average of values bounded by one is bounded by one.
proof fn lemma_avg_in_unit(sum: int, n: int)
    requires
        1 <= n,
        0 <= sum <= n * SCALE,
    ensures
        0 <= sat(tdiv(sum, n)) <= SCALE,
{
    vstd::arithmetic::div_mod::lemma_div_pos_is_pos(sum, n);
    vstd::arithmetic::div_mod::lemma_div_is_ordered(sum, n * SCALE, n);
    vstd::arithmetic::div_mod::lemma_div_multiples_vanish(SCALE as int, n);
}

/// Row-major accounting: a finished row advances the buffer by one
/// row's worth of bytes.
proof fn lemma_row_total(jj: int, w: int)
    ensures
        jj * w * 3 + w * 3 == (jj + 1) * w * 3,
{
    assert(jj * w * 3 + w * 3 == (jj + 1) * w * 3) by (nonlinear_arith);
}

/// Row-major accounting: inside the image there is room for one more
/// pixel's bytes.
proof fn lemma_buffer_room(jj: int, i: int, w: int, h: int)
    requires
        0 <= jj < h,
        0 <= i < w,
    ensures
        jj * w * 3 + i * 3 + 3 <= w * h * 3,
{
    assert(jj * w * 3 + i * 3 + 3 <= w * h * 3) by (nonlinear_arith)
        requires
            0 <= jj < h,
            0 <= i < w,
    ;
}

} // verus!
