use ray_tracer::fixed::SCALE;
use ray_tracer::{
    Camera, HitRecord, Hittable, HittableList, Lambertian, Material, RandomSource, Ray, Sphere,
    Vec3,
};

const T_MIN: i64 = 66;

fn single_sphere_world() -> HittableList {
    let mut world = HittableList::new();
    let albedo = Vec3::new(45875, 19660, 19660);
    let mat = world.add_material(Material::Lambertian(Lambertian::new(albedo)));
    world.add(Sphere::new(Vec3::new(0, 0, -SCALE), SCALE / 2, mat));
    world
}

#[test]
fn on_axis_hit_is_exact() {
    let world = single_sphere_world();
    let ray = Ray::new(Vec3::new(0, 0, 0), Vec3::new(0, 0, -SCALE));
    let hit = world.hit(&ray, T_MIN, i64::MAX).expect("the ray aims at the sphere");
    assert_eq!(hit.t, SCALE / 2);
    assert_eq!(hit.p, Vec3::new(0, 0, -SCALE / 2));
    assert_eq!(hit.normal, Vec3::new(0, 0, SCALE));
    assert!(hit.front_face);
}

#[test]
fn hit_point_lies_on_the_sphere() {
    let world = single_sphere_world();
    let ray = Ray::new(Vec3::new(0, 0, 0), Vec3::new(0, 0, -SCALE));
    let hit = world.hit(&ray, T_MIN, i64::MAX).unwrap();
    let offset = hit.p.sub(&Vec3::new(0, 0, -SCALE));
    assert_eq!(offset.length(), SCALE / 2);
}

#[test]
fn wide_miss_returns_none() {
    let mut world = HittableList::new();
    let mat = world.add_material(Material::Lambertian(Lambertian::new(Vec3::new(0, 0, 0))));
    world.add(Sphere::new(Vec3::from_units(0, 2, -5), SCALE, mat));
    let ray = Ray::new(Vec3::new(0, 0, 0), Vec3::new(0, 0, -SCALE));
    assert!(world.hit(&ray, T_MIN, i64::MAX).is_none());
}

#[test]
fn tangent_ray_does_not_count() {
    let mut world = HittableList::new();
    let mat = world.add_material(Material::Lambertian(Lambertian::new(Vec3::new(0, 0, 0))));
    world.add(Sphere::new(Vec3::from_units(0, 0, -3), SCALE, mat));
    let ray = Ray::new(Vec3::from_units(0, 1, 0), Vec3::new(0, 0, -SCALE));
    assert!(world.hit(&ray, T_MIN, i64::MAX).is_none());
}

#[test]
fn closest_of_two_spheres_wins() {
    let mut world = HittableList::new();
    let mat = world.add_material(Material::Lambertian(Lambertian::new(Vec3::new(0, 0, 0))));
    world.add(Sphere::new(Vec3::from_units(0, 0, -6), SCALE, mat));
    world.add(Sphere::new(Vec3::from_units(0, 0, -3), SCALE, mat));
    let ray = Ray::new(Vec3::new(0, 0, 0), Vec3::new(0, 0, -SCALE));
    let hit = world.hit(&ray, T_MIN, i64::MAX).unwrap();
    assert_eq!(hit.t, 2 * SCALE);

    let mut reversed = HittableList::new();
    let mat2 = reversed.add_material(Material::Lambertian(Lambertian::new(Vec3::new(0, 0, 0))));
    reversed.add(Sphere::new(Vec3::from_units(0, 0, -3), SCALE, mat2));
    reversed.add(Sphere::new(Vec3::from_units(0, 0, -6), SCALE, mat2));
    let hit2 = reversed.hit(&ray, T_MIN, i64::MAX).unwrap();
    assert_eq!(hit2.t, 2 * SCALE);
}

#[test]
fn set_face_normal_orients_against_the_ray() {
    let world = single_sphere_world();
    let inside_ray = Ray::new(Vec3::new(0, 0, -SCALE), Vec3::new(0, 0, -SCALE));
    let hit = world.hit(&inside_ray, T_MIN, i64::MAX).unwrap();
    assert!(!hit.front_face);
    assert_eq!(hit.normal, Vec3::new(0, 0, SCALE));
}

#[test]
fn face_normal_follows_the_dot_sign() {
    let outward = Vec3::new(0, 0, SCALE);
    let mut against = HitRecord {
        p: Vec3::new(0, 0, 0),
        normal: outward,
        material: 0,
        t: SCALE,
        front_face: false,
    };
    against.set_face_normal(&Ray::new(Vec3::new(0, 0, 0), Vec3::new(0, 0, -SCALE)));
    assert!(against.front_face);
    assert_eq!(against.normal, outward);

    let mut along = HitRecord {
        p: Vec3::new(0, 0, 0),
        normal: outward,
        material: 0,
        t: SCALE,
        front_face: true,
    };
    along.set_face_normal(&Ray::new(Vec3::new(0, 0, 0), Vec3::new(0, 0, SCALE)));
    assert!(!along.front_face);
    assert_eq!(along.normal, Vec3::new(0, 0, -SCALE));
}

#[test]
fn depth_zero_is_black() {
    let world = single_sphere_world();
    let mut rng = RandomSource::new(11);
    let ray = Ray::new(Vec3::new(0, 0, 0), Vec3::new(0, 0, -SCALE));
    let c = ray_tracer::ray_colour(&ray, &world, 0, &mut rng);
    assert_eq!(c, Vec3::new(0, 0, 0));
}

#[test]
fn straight_up_is_sky_blue() {
    let world = HittableList::new();
    let mut rng = RandomSource::new(11);
    let ray = Ray::new(Vec3::new(0, 0, 0), Vec3::new(0, SCALE, 0));
    let c = ray_tracer::ray_colour(&ray, &world, 8, &mut rng);
    assert_eq!(c, Vec3::new(32768, 45875, 65536));
}

#[test]
fn straight_down_is_white() {
    let world = HittableList::new();
    let mut rng = RandomSource::new(11);
    let ray = Ray::new(Vec3::new(0, 0, 0), Vec3::new(0, -SCALE, 0));
    let c = ray_tracer::ray_colour(&ray, &world, 8, &mut rng);
    assert_eq!(c, Vec3::new(SCALE, SCALE, SCALE));
}

#[test]
fn pinhole_center_ray_aims_forward() {
    let cam = Camera::new();
    let mut rng = RandomSource::new(3);
    let ray = cam.get_ray(SCALE / 2, SCALE / 2, &mut rng);
    assert_eq!(ray.origin, Vec3::new(0, 0, 0));
    assert_eq!(ray.direction, Vec3::new(0, 0, -SCALE));
}

#[test]
fn fixed_seed_renders_identically() {
    let world = single_sphere_world();
    let cam = Camera::new();
    let mut first: Vec<(u8, u8, u8)> = Vec::new();
    let mut second: Vec<(u8, u8, u8)> = Vec::new();
    for pass in 0..2 {
        let mut rng = RandomSource::new(42);
        for vert in 0..4usize {
            for hor in 0..4usize {
                let colour =
                    ray_tracer::sample_pixel(&cam, &world, hor, vert, 4, 4, 8, 6, &mut rng);
                let rgb = colour.write_colour(8);
                if pass == 0 {
                    first.push(rgb);
                } else {
                    second.push(rgb);
                }
            }
        }
    }
    assert_eq!(first, second);
}

#[test]
fn oriented_camera_keeps_its_origin() {
    let cam = Camera::oriented(
        Vec3::from_units(0, 0, 1),
        Vec3::from_units(0, 0, 0),
        Vec3::new(0, SCALE, 0),
        SCALE,
        SCALE,
        0,
        SCALE,
    );
    assert_eq!(cam.origin, Vec3::from_units(0, 0, 1));
    assert_eq!(cam.w, Vec3::new(0, 0, SCALE));
    assert_eq!(cam.u, Vec3::new(SCALE, 0, 0));
    assert_eq!(cam.v, Vec3::new(0, SCALE, 0));
    assert_eq!(cam.lens_radius, 0);
}
