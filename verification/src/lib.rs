//! The decision core of a small path tracer.
//!
//! A scalar is an IEEE 754 binary64 value held by its bit pattern. The library
//! orders, clamps, negates and quantises such values exactly, on the bits. On
//! top of that it keeps the rules of the tracer: which crossing of a ray with
//! a sphere counts as a hit and which hit of a scene is the nearest, how each
//! material scatters, how a path ends, and how an image is laid out as
//! plain-text PPM.
//!
//! Rounded arithmetic on scalars (sums, products, square roots) and random
//! numbers are the caller's. A function here takes the quantities that it
//! judges as arguments, and the two loops that the library runs, over the
//! bounces of a path and over the pixels of an image, ask the caller through
//! a function for what only arithmetic can tell.
pub mod camera;
pub mod color;
pub mod hittable;
pub mod hittable_list;
pub mod interval;
pub mod material;
pub mod point;
pub mod ppm;
pub mod ray;
pub mod scalar;
pub mod sphere;
pub mod vec;

pub use camera::Camera;
pub use color::Color;
pub use hittable::{HitRecord, Hittable};
pub use hittable_list::HittableList;
pub use interval::Interval;
pub use material::{Dielectric, Lambertian, Material, Metal};
pub use point::Point3;
pub use ray::Ray;
pub use scalar::Scalar;
pub use sphere::Sphere;
pub use vec::Vec3;
