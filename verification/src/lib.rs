//! A deterministic Monte Carlo path tracer over fixed-point arithmetic.
//!
//! Every quantity is a binary fixed-point number: an `i64` holding the value
//! scaled by `fixed::SCALE`. All rounding is stated explicitly in the
//! contracts, so the whole pipeline from camera ray to quantized pixel is a
//! specified function of its inputs and of the random samples drawn.

pub mod camera;
pub mod colour;
pub mod fixed;
pub mod hittable;
pub mod hittable_list;
pub mod material;
pub mod random;
pub mod ray;
pub mod render;
pub mod sphere;
pub mod vec3;

pub use camera::Camera;
pub use hittable::HitRecord;
pub use hittable::Hittable;
pub use hittable_list::HittableList;
pub use material::Dielectric;
pub use material::Lambertian;
pub use material::Material;
pub use material::Metal;
pub use random::RandomSource;
pub use ray::Ray;
pub use render::ray_colour;
pub use render::sample_pixel;
pub use sphere::Sphere;
pub use vec3::Colour;
pub use vec3::Point3;
pub use vec3::Vec3;
