//! A medium of constant density, such as fog, within a boundary.

use crate::hittable::HitRecord;
use crate::material::Isotropic;
use crate::texture::{SolidColor, TextureRef};
use crate::scalar::{greater, lesser, spec_greater, spec_lesser, Scalar, ONE, ZERO};
use crate::vec::{Color, Point3, Vec3};
use vstd::prelude::*;

verus! {

/// The stretch of a ray inside a medium, cut down to a range: from where the
/// ray enters the boundary or the range begins, whichever comes later, but not
/// before zero, to where it leaves the boundary or the range ends, whichever
/// comes first. There is none where that leaves nothing.
pub open spec fn spec_clip(
    entry: Scalar,
    exit: Scalar,
    t_min: Scalar,
    t_max: Scalar,
) -> Option<(Scalar, Scalar)> {
    let from = spec_greater(entry, t_min);
    let to = spec_lesser(exit, t_max);
    if from >= to {
        None
    } else {
        Some((spec_greater(from, ZERO), to))
    }
}

/// A medium that scatters a ray somewhere along its way through a boundary,
/// the sooner the denser it is.
#[derive(Clone, Copy, Debug, PartialEq, Eq)]
pub struct ConstantMedium {
    /// The host's handle of the object that bounds the medium.
    pub boundary: usize,
    /// How the medium scatters.
    pub phase_function: Isotropic,
    /// The host's handle of `phase_function` as a material.
    pub mat_ptr: usize,
    /// Minus one over the density.
    pub neg_inv_density: Scalar,
}

impl ConstantMedium {
    /// A medium within `boundary` whose colour is the host's colour field
    /// `texture`. `neg_inv_density` is minus one over the density, and
    /// `mat_ptr` the handle under which the host keeps the medium's way of
    /// scattering.
    pub fn with_texture(boundary: usize, texture: usize, neg_inv_density: Scalar, mat_ptr: usize) -> (r:
        Self)
        ensures
            r.boundary == boundary,
            r.phase_function.albedo == TextureRef::Handle(texture),
            r.mat_ptr == mat_ptr,
            r.neg_inv_density == neg_inv_density,
    {
        ConstantMedium {
            boundary,
            phase_function: Isotropic::new(texture),
            mat_ptr,
            neg_inv_density,
        }
    }

    /// A medium of one colour within `boundary`.
    pub fn from_color(boundary: usize, c: Color, neg_inv_density: Scalar, mat_ptr: usize) -> (r:
        Self)
        ensures
            r.boundary == boundary,
            r.phase_function.albedo == TextureRef::Solid(SolidColor { color: c }),
            r.mat_ptr == mat_ptr,
            r.neg_inv_density == neg_inv_density,
    {
        ConstantMedium {
            boundary,
            phase_function: Isotropic::from_color(c),
            mat_ptr,
            neg_inv_density,
        }
    }

    /// The stretch of a ray inside the medium within the range from `t_min`
    /// to `t_max`, where the ray enters the boundary at `entry` and leaves it
    /// at `exit`.
    pub fn clip(entry: Scalar, exit: Scalar, t_min: Scalar, t_max: Scalar) -> (r: Option<
        (Scalar, Scalar),
    >)
        ensures
            r == spec_clip(entry, exit, t_min, t_max),
            r matches Some(s) ==> ZERO <= s.0 && t_min <= s.0 && s.1 <= t_max && s.1 <= exit,
    {
        let from = greater(entry, t_min);
        let to = lesser(exit, t_max);
        if from >= to {
            return None;
        }
        Some((greater(from, ZERO), to))
    }

    /// The hit of a ray that travels `hit_distance` through the medium before
    /// it is scattered and has `distance_inside_boundary` to go in it.
    ///
    /// The ray is scattered exactly if it does not get out first. The hit is
    /// then at the parameter `t`, in the point `p`; the normal is a fixed unit
    /// vector, since a medium has no surface, and the material is the medium's
    /// way of scattering.
    pub fn hit(
        &self,
        hit_distance: Scalar,
        distance_inside_boundary: Scalar,
        t: Scalar,
        p: Point3,
    ) -> (r: Option<HitRecord>)
        ensures
            r == if hit_distance > distance_inside_boundary {
                None
            } else {
                Some(
                    HitRecord {
                        p,
                        normal: Vec3(ONE, ZERO, ZERO),
                        t,
                        u: ZERO,
                        v: ZERO,
                        front_face: true,
                        mat_ptr: Some(self.mat_ptr),
                    },
                )
            },
    {
        if hit_distance > distance_inside_boundary {
            return None;
        }
        let mut rec = HitRecord::default();
        rec.t = t;
        rec.p = p;
        rec.normal = Vec3::new((ONE, ZERO, ZERO));
        rec.front_face = true;
        rec.mat_ptr = Some(self.mat_ptr);
        Some(rec)
    }
}

} // verus!
