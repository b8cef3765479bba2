use raytrace::SCALE;
use raytrace::camera::Camera;
use raytrace::hit::World;
use raytrace::material::Lambertian;
use raytrace::material::Material;
use raytrace::material::Metal;
use raytrace::ray::Ray;
use raytrace::render::Render;
use raytrace::render::ray_color;
use raytrace::render::sky_color;
use raytrace::render::to_u8;
use raytrace::rng::RandomSource;
use raytrace::size::Size;
use raytrace::sphere::Sphere;
use raytrace::vec::Vec3;

fn demo_world() -> World {
    let mut world = World::new();
    world.add(Sphere::new(
        Vec3::new(0, 0, 0),
        SCALE,
        Material::Lambertian(Lambertian::new(Vec3::new(500_000, 500_000, 500_000))),
    ));
    world.add(Sphere::new(
        Vec3::new(0, -1_001 * SCALE, 0),
        1_000 * SCALE,
        Material::Metal(Metal::new(Vec3::new(800_000, 800_000, 800_000), 100_000)),
    ));
    world
}

#[test]
fn zero_depth_budget_yields_black() {
    let world = demo_world();
    let mut rng = RandomSource::new(1);
    let ray = Ray::new(Vec3::new(0, 0, 3 * SCALE), Vec3::new(0, 0, -SCALE));
    let c = ray_color(&ray, &world, 0, &mut rng);
    assert_eq!(c, Vec3::new(0, 0, 0));
    let empty = World::new();
    let c2 = ray_color(&ray, &empty, 0, &mut rng);
    assert_eq!(c2, Vec3::new(0, 0, 0));
}

#[test]
fn sky_gradient_boundaries_are_exact() {
    let empty = World::new();
    let mut rng = RandomSource::new(2);
    let up = Ray::new(Vec3::new(0, 0, 0), Vec3::new(0, SCALE, 0));
    let down = Ray::new(Vec3::new(0, 0, 0), Vec3::new(0, -SCALE, 0));
    assert_eq!(
        ray_color(&up, &empty, 8, &mut rng),
        Vec3::new(500_000, 700_000, SCALE)
    );
    assert_eq!(
        ray_color(&down, &empty, 8, &mut rng),
        Vec3::new(SCALE, SCALE, SCALE)
    );
}

#[test]
fn white_attenuation_composites_to_identity() {
    let white = Vec3::new(SCALE, SCALE, SCALE);
    let sky = sky_color(Vec3::new(300_000, 800_000, -200_000));
    assert_eq!(white.mul(sky), sky);
    let horizon = sky_color(Vec3::new(SCALE, 0, 0));
    assert_eq!(white.mul(horizon), horizon);
}

#[test]
fn attenuation_never_amplifies_a_channel() {
    let albedo = Vec3::new(700_000, 999_999, 0);
    let incoming = Vec3::new(SCALE, 300_000, 250_000);
    let filtered = albedo.mul(incoming);
    assert!(0 <= filtered.x && filtered.x <= incoming.x);
    assert!(0 <= filtered.y && filtered.y <= incoming.y);
    assert!(0 <= filtered.z && filtered.z <= incoming.z);
    assert_eq!(filtered, Vec3::new(700_000, 299_999, 0));
}

#[test]
fn radiance_stays_in_the_unit_cube() {
    let world = demo_world();
    let mut rng = RandomSource::new(3);
    for seed in 0..24_i64 {
        let dir = Vec3::new(
            (seed * 100_000 - SCALE) % (2 * SCALE),
            -300_000,
            -SCALE,
        );
        let ray = Ray::new(Vec3::new(0, 0, 3 * SCALE), dir);
        let c = ray_color(&ray, &world, 16, &mut rng);
        assert!(0 <= c.x && c.x <= SCALE);
        assert!(0 <= c.y && c.y <= SCALE);
        assert!(0 <= c.z && c.z <= SCALE);
    }
}

#[test]
fn quantization_follows_the_clamp_then_scale_formula() {
    // Gamma-corrected channels of the color (1.0, 0.0, 0.5).
    let gamma = Vec3::new(SCALE, 0, 500_000).sqrt();
    assert_eq!(gamma, Vec3::new(SCALE, 0, 707_106));
    assert_eq!(to_u8(gamma.x()), 255);
    assert_eq!(to_u8(gamma.y()), 0);
    assert_eq!(to_u8(gamma.z()), 181);
    // Out-of-range channels clamp before scaling.
    assert_eq!(to_u8(-5), 0);
    assert_eq!(to_u8(2 * SCALE), 255);
    assert_eq!(to_u8(999_000), 255);
    assert_eq!(to_u8(500_000), 128);
}

#[test]
fn pixel_colors_are_bounded_and_reproducible() {
    let camera = Camera::new(
        Vec3::new(0, 0, 3 * SCALE),
        Vec3::new(0, 0, 0),
        Vec3::new(0, SCALE, 0),
        500_000,
        1_500_000,
    );
    let render = Render::new(demo_world(), camera, 4, 8, Size::new(6, 4));
    let mut rng_a = RandomSource::new(42);
    let mut rng_b = RandomSource::new(42);
    for i in 0..6_u64 {
        for j in 0..4_u64 {
            let a = render.pixel_color(i, j, &mut rng_a);
            let b = render.pixel_color(i, j, &mut rng_b);
            assert_eq!(a, b);
            assert!(0 <= a.x && a.x <= SCALE);
            assert!(0 <= a.y && a.y <= SCALE);
            assert!(0 <= a.z && a.z <= SCALE);
        }
    }
}

#[test]
fn zero_depth_pixels_are_black() {
    let camera = Camera::new(
        Vec3::new(0, 0, 3 * SCALE),
        Vec3::new(0, 0, 0),
        Vec3::new(0, SCALE, 0),
        500_000,
        1_500_000,
    );
    let render = Render::new(demo_world(), camera, 3, 0, Size::new(4, 4));
    let mut rng = RandomSource::new(5);
    assert_eq!(render.pixel_color(1, 2, &mut rng), Vec3::new(0, 0, 0));
}

#[test]
fn render_buffer_has_one_rgb_triple_per_pixel() {
    let camera = Camera::new(
        Vec3::new(0, 0, 3 * SCALE),
        Vec3::new(0, 0, 0),
        Vec3::new(0, SCALE, 0),
        500_000,
        1_500_000,
    );
    let render = Render::new(demo_world(), camera, 2, 4, Size::new(5, 3));
    let mut rng = RandomSource::new(9);
    let buffer = render.render_buffer(&mut rng);
    assert_eq!(buffer.len(), 5 * 3 * 3);
}

#[test]
fn random_streams_are_deterministic_per_seed() {
    let mut a = RandomSource::new(1234);
    let mut b = RandomSource::new(1234);
    let mut c = RandomSource::new(4321);
    let mut differs = false;
    for _ in 0..64 {
        let x = a.next_unit();
        let y = b.next_unit();
        assert_eq!(x, y);
        assert!(0 <= x && x < SCALE);
        if x != c.next_unit() {
            differs = true;
        }
    }
    assert!(differs);
    let lo: i64 = -250_000;
    let hi: i64 = 750_000;
    for _ in 0..64 {
        let v = a.next_range(lo, hi);
        assert!(lo <= v && v < hi);
    }
}

#[test]
fn hemisphere_samples_respect_the_normal() {
    let mut rng = RandomSource::new(77);
    let normal = Vec3::new(0, SCALE, 0);
    for _ in 0..64 {
        let v = Vec3::random_in_hemisphere(&mut rng, normal);
        assert!(v.dot(normal) >= 0);
        assert!(v.length() < SCALE);
    }
}
