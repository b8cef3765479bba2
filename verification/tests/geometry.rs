use raytrace::SCALE;
use raytrace::camera::Camera;
use raytrace::hit::World;
use raytrace::material::Lambertian;
use raytrace::material::Material;
use raytrace::ray::Ray;
use raytrace::size::Size;
use raytrace::sphere::Sphere;
use raytrace::vec::Vec3;

fn gray() -> Material {
    Material::Lambertian(Lambertian::new(Vec3::new(500_000, 500_000, 500_000)))
}

#[test]
fn vector_algebra() {
    let a = Vec3::new(SCALE, 2 * SCALE, 3 * SCALE);
    let b = Vec3::new(4 * SCALE, 5 * SCALE, 6 * SCALE);
    assert_eq!(a.add(b), Vec3::new(5 * SCALE, 7 * SCALE, 9 * SCALE));
    assert_eq!(b.sub(a), Vec3::new(3 * SCALE, 3 * SCALE, 3 * SCALE));
    assert_eq!(a.dot(b), 32 * SCALE);
    assert_eq!(
        a.cross(b),
        Vec3::new(-3 * SCALE, 6 * SCALE, -3 * SCALE)
    );
    assert_eq!(a.scale(2 * SCALE), Vec3::new(2 * SCALE, 4 * SCALE, 6 * SCALE));
    assert_eq!(a.mul(b), Vec3::new(4 * SCALE, 10 * SCALE, 18 * SCALE));
}

#[test]
fn normalization_and_length() {
    let v = Vec3::new(3 * SCALE, 4 * SCALE, 0);
    assert_eq!(v.length(), 5 * SCALE);
    assert_eq!(v.normalized(), Vec3::new(600_000, 800_000, 0));
    let zero = Vec3::new(0, 0, 0);
    assert_eq!(zero.normalized(), zero);
    assert!(zero.near_zero());
    assert!(!v.near_zero());
}

#[test]
fn reflect_mirrors_about_the_normal() {
    let v = Vec3::new(0, 0, -SCALE);
    let n = Vec3::new(0, 0, SCALE);
    assert_eq!(v.reflect(n), Vec3::new(0, 0, SCALE));
}

#[test]
fn refract_straight_through_at_unit_ratio() {
    let uv = Vec3::new(0, 0, -SCALE);
    let n = Vec3::new(0, 0, SCALE);
    assert_eq!(uv.refract(n, SCALE), Vec3::new(0, 0, -SCALE));
}

#[test]
fn ray_evaluates_points() {
    let r = Ray::new(Vec3::new(SCALE, 0, 0), Vec3::new(0, 0, -SCALE));
    assert_eq!(r.at(2 * SCALE), Vec3::new(SCALE, 0, -2 * SCALE));
}

#[test]
fn axis_ray_hits_at_distance_minus_radius() {
    let sphere = Sphere::new(Vec3::new(0, 0, 0), SCALE, gray());
    let ray = Ray::new(Vec3::new(0, 0, 3 * SCALE), Vec3::new(0, 0, -SCALE));
    let hit = sphere.hit(&ray, 1_000, i64::MAX / 2).expect("must hit");
    assert_eq!(hit.t, 2 * SCALE);
    assert_eq!(hit.p, Vec3::new(0, 0, SCALE));
    assert_eq!(hit.normal, Vec3::new(0, 0, SCALE));
    assert!(hit.front_face);
}

#[test]
fn offset_ray_misses() {
    let sphere = Sphere::new(Vec3::new(0, 0, 0), SCALE, gray());
    let ray = Ray::new(Vec3::new(0, 2 * SCALE, 3 * SCALE), Vec3::new(0, 0, -SCALE));
    assert!(sphere.hit(&ray, 1_000, i64::MAX / 2).is_none());
}

#[test]
fn reported_normal_opposes_the_ray() {
    let sphere = Sphere::new(Vec3::new(0, 0, 0), SCALE, gray());
    let rays = [
        Ray::new(Vec3::new(0, 0, 3 * SCALE), Vec3::new(0, 0, -SCALE)),
        Ray::new(Vec3::new(0, 0, 3 * SCALE), Vec3::new(100_000, 50_000, -SCALE)),
        Ray::new(Vec3::new(0, 0, 0), Vec3::new(300_000, 200_000, 100_000)),
    ];
    for ray in rays.iter() {
        if let Some(hit) = sphere.hit(ray, 1_000, i64::MAX / 2) {
            assert!(hit.normal.dot(ray.direction()) <= 0);
        }
    }
}

#[test]
fn negative_radius_flips_the_normal() {
    let sphere = Sphere::new(Vec3::new(0, 0, 0), -SCALE, gray());
    let ray = Ray::new(Vec3::new(0, 0, 3 * SCALE), Vec3::new(0, 0, -SCALE));
    let hit = sphere.hit(&ray, 1_000, i64::MAX / 2).expect("must hit");
    assert_eq!(hit.t, 2 * SCALE);
    assert!(!hit.front_face);
    assert_eq!(hit.normal, Vec3::new(0, 0, SCALE));
}

#[test]
fn nearest_hit_wins_regardless_of_insertion_order() {
    let red = Material::Lambertian(Lambertian::new(Vec3::new(900_000, 100_000, 100_000)));
    let blue = Material::Lambertian(Lambertian::new(Vec3::new(100_000, 100_000, 900_000)));
    let far = Sphere::new(Vec3::new(0, 0, 0), SCALE, red);
    let near = Sphere::new(Vec3::new(0, 0, 1_500_000), SCALE, blue);
    let ray = Ray::new(Vec3::new(0, 0, 4 * SCALE), Vec3::new(0, 0, -SCALE));

    let mut world_a = World::new();
    world_a.add(far);
    world_a.add(near);
    let mut world_b = World::new();
    world_b.add(near);
    world_b.add(far);

    let hit_a = world_a.hit(&ray, 1_000, i64::MAX / 2).expect("must hit");
    let hit_b = world_b.hit(&ray, 1_000, i64::MAX / 2).expect("must hit");
    assert_eq!(hit_a.t, 1_500_000);
    assert_eq!(hit_b.t, 1_500_000);
    assert_eq!(hit_a.material, blue);
    assert_eq!(hit_b.material, blue);
}

#[test]
fn equal_parameter_tie_keeps_the_earliest_inserted() {
    let red = Material::Lambertian(Lambertian::new(Vec3::new(900_000, 100_000, 100_000)));
    let green = Material::Lambertian(Lambertian::new(Vec3::new(100_000, 900_000, 100_000)));
    // Identical geometry: both spheres report exactly the same t.
    let ray = Ray::new(Vec3::new(0, 0, 3 * SCALE), Vec3::new(0, 0, -SCALE));

    let mut world_a = World::new();
    world_a.add(Sphere::new(Vec3::new(0, 0, 0), SCALE, red));
    world_a.add(Sphere::new(Vec3::new(0, 0, 0), SCALE, green));
    let hit_a = world_a.hit(&ray, 1_000, i64::MAX / 2).expect("must hit");
    assert_eq!(hit_a.t, 2 * SCALE);
    assert_eq!(hit_a.material, red);

    let mut world_b = World::new();
    world_b.add(Sphere::new(Vec3::new(0, 0, 0), SCALE, green));
    world_b.add(Sphere::new(Vec3::new(0, 0, 0), SCALE, red));
    let hit_b = world_b.hit(&ray, 1_000, i64::MAX / 2).expect("must hit");
    assert_eq!(hit_b.t, 2 * SCALE);
    assert_eq!(hit_b.material, green);
}

#[test]
fn empty_world_reports_nothing() {
    let world = World::new();
    let ray = Ray::new(Vec3::new(0, 0, 0), Vec3::new(0, 0, -SCALE));
    assert!(world.hit(&ray, 1_000, i64::MAX / 2).is_none());
}

#[test]
fn camera_maps_the_image_plane() {
    let camera = Camera::new(
        Vec3::new(0, 0, 0),
        Vec3::new(0, 0, -SCALE),
        Vec3::new(0, SCALE, 0),
        SCALE,
        SCALE,
    );
    let center = camera.get_ray(500_000, 500_000);
    assert_eq!(center.origin(), Vec3::new(0, 0, 0));
    assert_eq!(center.direction(), Vec3::new(0, 0, -SCALE));
    let corner = camera.get_ray(0, 0);
    assert_eq!(corner.direction(), Vec3::new(-SCALE, -SCALE, -SCALE));
}

#[test]
fn size_parses_width_by_height() {
    let size = Size::parse("1200x800").expect("well-formed");
    assert_eq!(size.width(), 1200);
    assert_eq!(size.height(), 800);
    let zeros = Size::parse("007x0").expect("leading zeros are digits");
    assert_eq!(zeros.width(), 7);
    assert_eq!(zeros.height(), 0);
    let max = Size::parse("18446744073709551615x1").expect("u64::MAX fits");
    assert_eq!(max.width(), u64::MAX);
    assert!(Size::parse("18446744073709551616x1").is_none());
    assert!(Size::parse("800x600x400").is_none());
    assert!(Size::parse("800").is_none());
    assert!(Size::parse("x600").is_none());
    assert!(Size::parse("800x").is_none());
    assert!(Size::parse("80a0x600").is_none());
    assert!(Size::parse("").is_none());
}

#[test]
fn size_reports_aspect_and_transform() {
    let size = Size::new(1200, 800);
    assert_eq!(size.width(), 1200);
    assert_eq!(size.height(), 800);
    assert_eq!(size.aspect_ratio(), 1_500_000);
    let size3 = Size::new(3, 3);
    let (u, v) = size3.transform(2 * SCALE, SCALE);
    assert_eq!(u, SCALE);
    assert_eq!(v, 500_000);
}
