use raytrace::SCALE;
use raytrace::hit::HitRecord;
use raytrace::material::Dielectric;
use raytrace::material::Lambertian;
use raytrace::material::Material;
use raytrace::material::Metal;
use raytrace::ray::Ray;
use raytrace::rng::RandomSource;
use raytrace::sphere::Sphere;
use raytrace::vec::Vec3;

fn head_on_hit() -> (Ray, HitRecord) {
    let sphere = Sphere::new(
        Vec3::new(0, 0, 0),
        SCALE,
        Material::Lambertian(Lambertian::new(Vec3::new(500_000, 500_000, 500_000))),
    );
    let ray = Ray::new(Vec3::new(0, 0, 3 * SCALE), Vec3::new(0, 0, -SCALE));
    let hit = sphere.hit(&ray, 1_000, i64::MAX / 2).expect("must hit");
    (ray, hit)
}

#[test]
fn lambertian_direction_is_normal_plus_unit() {
    let (_, hit) = head_on_hit();
    let lambertian = Lambertian::new(Vec3::new(800_000, 700_000, 600_000));
    let (attenuation, scattered) = lambertian.scatter_with(&hit, Vec3::new(SCALE, 0, 0));
    assert_eq!(attenuation, Vec3::new(800_000, 700_000, 600_000));
    assert_eq!(scattered.origin(), hit.p);
    assert_eq!(scattered.direction(), Vec3::new(SCALE, 0, SCALE));
}

#[test]
fn lambertian_degenerate_sum_falls_back_to_the_normal() {
    let (_, hit) = head_on_hit();
    let lambertian = Lambertian::new(Vec3::new(SCALE, SCALE, SCALE));
    let (_, scattered) = lambertian.scatter_with(&hit, Vec3::new(0, 0, -SCALE));
    assert_eq!(scattered.direction(), hit.normal);
}

#[test]
fn polished_metal_reflects_exactly() {
    let (ray, hit) = head_on_hit();
    let metal = Metal::new(Vec3::new(900_000, 900_000, 900_000), 0);
    let (attenuation, scattered) = metal
        .scatter_with(&ray, &hit, Vec3::new(123_456, -654_321, 42))
        .expect("reflection leaves the surface");
    assert_eq!(attenuation, Vec3::new(900_000, 900_000, 900_000));
    assert_eq!(scattered.direction(), Vec3::new(0, 0, SCALE));
}

#[test]
fn fuzzed_metal_absorbs_grazing_rays() {
    let (ray, hit) = head_on_hit();
    let metal = Metal::new(Vec3::new(900_000, 900_000, 900_000), SCALE);
    let out = metal.scatter_with(&ray, &hit, Vec3::new(0, 0, -2 * SCALE));
    assert!(out.is_none());
}

#[test]
fn dielectric_total_internal_reflection() {
    // Exiting glass at 45 degrees with index 1.5: the refraction
    // ratio times the sine exceeds one, so the ray must reflect
    // whatever the reflectance draw says.
    let hit = HitRecord {
        p: Vec3::new(0, 0, 0),
        normal: Vec3::new(0, 0, SCALE),
        material: Material::Dielectric(Dielectric::new(1_500_000)),
        t: SCALE,
        front_face: false,
    };
    let ray = Ray::new(Vec3::new(-SCALE, 0, SCALE), Vec3::new(SCALE, 0, -SCALE));
    let glass = Dielectric::new(1_500_000);
    let (attenuation, scattered) = glass.scatter_with(&ray, &hit, 0);
    assert_eq!(attenuation, Vec3::new(SCALE, SCALE, SCALE));
    assert_eq!(scattered.direction(), Vec3::new(707_107, 0, 707_107));
}

#[test]
fn dielectric_never_absorbs() {
    let (ray, hit) = head_on_hit();
    let glass = Dielectric::new(1_500_000);
    let mut rng = RandomSource::new(7);
    for _ in 0..32 {
        let out = Material::Dielectric(glass).scatter(&ray, &hit, &mut rng);
        let (attenuation, _) = out.expect("glass always scatters");
        assert_eq!(attenuation, Vec3::new(SCALE, SCALE, SCALE));
    }
}

#[test]
fn scattered_rays_originate_at_the_hit_point() {
    let (ray, hit) = head_on_hit();
    let mut rng = RandomSource::new(11);
    let materials = [
        Material::Lambertian(Lambertian::new(Vec3::new(500_000, 400_000, 300_000))),
        Material::Metal(Metal::new(Vec3::new(700_000, 700_000, 700_000), 200_000)),
        Material::Dielectric(Dielectric::new(1_500_000)),
    ];
    for material in materials.iter() {
        for _ in 0..16 {
            if let Some((_, scattered)) = material.scatter(&ray, &hit, &mut rng) {
                assert_eq!(scattered.origin(), hit.p);
            }
        }
    }
}

#[test]
fn metal_scatter_stays_off_the_surface() {
    let (ray, hit) = head_on_hit();
    let metal = Material::Metal(Metal::new(Vec3::new(700_000, 700_000, 700_000), 800_000));
    let mut rng = RandomSource::new(13);
    for _ in 0..64 {
        if let Some((_, scattered)) = metal.scatter(&ray, &hit, &mut rng) {
            assert!(scattered.direction().dot(hit.normal) > 0);
        }
    }
}
