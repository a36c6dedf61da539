use ray_tracer::fixed::SCALE;
use ray_tracer::Vec3;

#[test]
fn length_squared() {
    assert_eq!(Vec3::from_units(1, 2, 3).length_squared(), 14 * SCALE);
}

#[test]
fn dot() {
    assert_eq!(
        Vec3::from_units(1, 2, 3).dot(&Vec3::from_units(1, 5, 7)),
        32 * SCALE
    );
}

#[test]
fn cross() {
    assert_eq!(
        Vec3::from_units(1, 2, 3).cross(&Vec3::from_units(1, 5, 7)),
        Vec3::from_units(-1, -4, 3)
    );
}

#[test]
fn length_of_unit_axis() {
    assert_eq!(Vec3::new(0, 0, SCALE).length(), SCALE);
    assert_eq!(Vec3::from_units(3, 4, 0).length(), 5 * SCALE);
}

#[test]
fn unit_vector_normalizes() {
    let v = Vec3::from_units(0, 0, 9);
    assert_eq!(v.unit_vector(), Vec3::new(0, 0, SCALE));
}

#[test]
fn reflect_about_axis() {
    let v = Vec3::from_units(1, 2, 3);
    let n = Vec3::new(0, 0, SCALE);
    assert_eq!(Vec3::reflect(&v, &n), Vec3::from_units(1, 2, -3));
}

#[test]
fn reflect_twice_restores() {
    let v = Vec3::from_units(7, -2, 5);
    let n = Vec3::new(0, 0, SCALE);
    let once = Vec3::reflect(&v, &n);
    assert_eq!(Vec3::reflect(&once, &n), v);
    let m = Vec3::new(0, SCALE, 0);
    let once_y = Vec3::reflect(&v, &m);
    assert_eq!(Vec3::reflect(&once_y, &m), v);
}

#[test]
fn hadamard_and_scale() {
    let a = Vec3::from_units(2, 3, 4);
    let b = Vec3::new(SCALE / 2, SCALE, 2 * SCALE);
    assert_eq!(a.mul(&b), Vec3::from_units(1, 3, 8));
    assert_eq!(a.scale(SCALE / 4), Vec3::new(SCALE / 2, 3 * SCALE / 4, SCALE));
    assert_eq!(a.div(2 * SCALE), Vec3::new(SCALE, SCALE + SCALE / 2, 2 * SCALE));
}

#[test]
fn neg_and_sub() {
    let a = Vec3::from_units(2, -3, 4);
    assert_eq!(a.neg(), Vec3::from_units(-2, 3, -4));
    assert_eq!(a.sub(&Vec3::from_units(1, 1, 1)), Vec3::from_units(1, -4, 3));
}

#[test]
fn refract_head_on_is_identity() {
    let uv = Vec3::new(0, 0, -SCALE);
    let n = Vec3::new(0, 0, SCALE);
    assert_eq!(Vec3::refract(&uv, &n, SCALE), uv);
}
