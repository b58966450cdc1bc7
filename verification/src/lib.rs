//! Verified core of an offline path tracer.
//!
//! The library owns everything in the renderer that is decided by comparing,
//! selecting and arranging: bounding boxes and their unions, the bounding-volume
//! hierarchy and the order in which it is searched, the lattice of the gradient
//! noise, texel lookup, the rule of each material, and the control of a light
//! path. Real arithmetic on coordinates is the host's business; the library
//! sees every coordinate in sortable form (see [`scalar`]).
//!
//! - [`scalar`], [`vec`], [`ray`]: coordinates, triples of them, rays, and
//!   what each ray of a light path contributes.
//! - [`aabb`]: boxes, their union and the slab test.
//! - [`hittable`]: hit records, object handles, lists, and the decisions of
//!   each shape.
//! - [`bvh`]: the hierarchy and how it is built.
//! - [`search`]: the scan of a list and the search of a hierarchy.
//! - [`nearest`]: what the searches find.
//! - [`material`], [`texture`], [`perlin`], [`random`]: surfaces, colour
//!   fields, the noise lattice, and the draw of integers.

pub mod scalar;
pub mod vec;
pub mod aabb;
pub mod random;
pub mod perlin;
pub mod hittable;
pub mod bvh;
pub mod search;
pub mod nearest;
pub mod ray;
pub mod texture;
pub mod material;

pub use crate::aabb::{surrounding_box, AABB};
pub use crate::bvh::{BVHNode, Child};
pub use crate::hittable::constant_medium::ConstantMedium;
pub use crate::hittable::cuboid::{RotateY, Side};
pub use crate::hittable::plane::{XYPlane, XZPlane, YZPlane};
pub use crate::hittable::sphere::{MovingSphere, Sphere};
pub use crate::hittable::{Entry, HitRecord, HittableList};
pub use crate::material::{Dielectric, DiffuseLight, Isotropic, Lambertian, Material, Metal};
pub use crate::perlin::Perlin;
pub use crate::random::random_integer_with_range;
pub use crate::ray::{Bounce, Ray, Shade};
pub use crate::scalar::{Scalar, INFINITY, NEG_INFINITY};
pub use crate::search::{ListScan, Probe, Reply, Traversal};
pub use crate::texture::{CheckerTexture, ImageTexture, SolidColor, TextureRef};
pub use crate::vec::{Color, Point3, Vec3};
