//! What a surface does to a ray: the rule of each kind of material.
//!
//! The host draws the random directions and does the geometry; the rules here
//! say which of its candidates becomes the scattered ray, with which
//! attenuation, and whether the ray is scattered at all.

use crate::hittable::HitRecord;
use crate::ray::Ray;
use crate::scalar::{clamp, spec_clamp, Scalar, ONE, ZERO};
use crate::texture::{SolidColor, TextureRef};
use crate::vec::{Color, Vec3};
use vstd::prelude::*;

verus! {

/// A diffuse surface.
#[derive(Clone, Copy, Debug, PartialEq, Eq)]
pub struct Lambertian {
    pub albedo: TextureRef,
}

impl Lambertian {
    pub fn new(albedo: Color) -> (r: Self)
        ensures
            r.albedo == TextureRef::Solid(SolidColor { color: albedo }),
    {
        Lambertian { albedo: TextureRef::Solid(SolidColor::new(albedo)) }
    }

    pub fn with_texture(texture: usize) -> (r: Self)
        ensures
            r.albedo == TextureRef::Handle(texture),
    {
        Lambertian { albedo: TextureRef::Handle(texture) }
    }

    /// Scatters the ray `r_in` at the hit `rec`. A diffuse surface always
    /// scatters.
    ///
    /// `candidate` is the normal plus a random unit vector, and `sampled` what
    /// the host's colour field gives at the hit. The scattered ray leaves the
    /// hit point at the moment of `r_in`, along `candidate`, or along the
    /// normal where `candidate` is too near to zero to be a direction. So the
    /// direction is never near to zero unless the normal is.
    pub fn scatter(
        &self,
        r_in: &Ray,
        rec: &HitRecord,
        attention: &mut Color,
        scattered: &mut Ray,
        candidate: Vec3,
        sampled: Color,
    ) -> (r: bool)
        ensures
            r,
            *final(attention) == self.albedo.spec_value(sampled),
            *final(scattered) == (Ray {
                orig: rec.p,
                dir: if candidate.spec_near_zero() {
                    rec.normal
                } else {
                    candidate
                },
                tm: r_in.tm,
            }),
            !rec.normal.spec_near_zero() ==> !final(scattered).dir.spec_near_zero(),
    {
        let direction = if candidate.near_zero() {
            rec.normal
        } else {
            candidate
        };
        *scattered = Ray::new(rec.p, direction, r_in.time());
        *attention = self.albedo.value(sampled);
        true
    }
}

/// A mirroring surface, more or less rough.
#[derive(Clone, Copy, Debug, PartialEq, Eq)]
pub struct Metal {
    pub albedo: Color,
    pub fuzz: Scalar,
}

impl Metal {
    /// A metal of the given colour. The roughness is brought into the range
    /// from zero to one.
    pub fn new(albedo: Color, fuzz: Scalar) -> (r: Self)
        ensures
            r.albedo == albedo,
            r.fuzz == spec_clamp(fuzz, ZERO, ONE),
            ZERO <= r.fuzz <= ONE,
    {
        Metal { albedo, fuzz: clamp(fuzz, ZERO, ONE) }
    }

    /// Scatters the ray `r_in` at the hit `rec`.
    ///
    /// `direction` is the mirrored direction plus the roughness times a random
    /// vector of the unit sphere, and `facing` its inner product with the
    /// normal. The ray is scattered exactly if `facing` is positive: otherwise
    /// it would go below the surface, and it is absorbed.
    pub fn scatter(
        &self,
        r_in: &Ray,
        rec: &HitRecord,
        attention: &mut Color,
        scattered: &mut Ray,
        direction: Vec3,
        facing: Scalar,
    ) -> (r: bool)
        ensures
            r == (facing > ZERO),
            *final(attention) == self.albedo,
            *final(scattered) == (Ray { orig: rec.p, dir: direction, tm: r_in.tm }),
    {
        *scattered = Ray::new(rec.p, direction, r_in.time());
        *attention = self.albedo;
        facing > ZERO
    }
}

/// A clear surface that bends light.
#[derive(Clone, Copy, Debug, PartialEq, Eq)]
pub struct Dielectric {
    pub ir: Scalar,
}

impl Dielectric {
    pub fn new(ir: Scalar) -> (r: Self)
        ensures
            r.ir == ir,
    {
        Dielectric { ir }
    }

    /// The ratio of the refractive indices that the ray crosses: `inverse`,
    /// the inverse of the material's index, where the ray enters from outside,
    /// and the index itself where it leaves.
    pub fn refraction_ratio(&self, front_face: bool, inverse: Scalar) -> (r: Scalar)
        ensures
            r == if front_face {
                inverse
            } else {
                self.ir
            },
    {
        if front_face {
            inverse
        } else {
            self.ir
        }
    }

    /// Whether the ray is mirrored rather than bent.
    ///
    /// `bend` is the ratio of the refractive indices times the sine of the
    /// angle of incidence: above one there is no bent ray. `reflectance` is
    /// the share of light that the surface mirrors at this angle, and `draw` a
    /// random number of the unit interval.
    pub fn reflects(bend: Scalar, reflectance: Scalar, draw: Scalar) -> (r: bool)
        ensures
            r == (bend > ONE || reflectance > draw),
    {
        bend > ONE || reflectance > draw
    }

    /// Scatters the ray `r_in` at the hit `rec`. A clear surface always
    /// scatters and takes no colour away.
    ///
    /// `direction` is the mirrored or the bent direction, as
    /// [`Dielectric::reflects`] decided.
    pub fn scatter(
        &self,
        r_in: &Ray,
        rec: &HitRecord,
        attention: &mut Color,
        scattered: &mut Ray,
        direction: Vec3,
    ) -> (r: bool)
        ensures
            r,
            *final(attention) == Vec3(ONE, ONE, ONE),
            *final(scattered) == (Ray { orig: rec.p, dir: direction, tm: r_in.tm }),
    {
        *attention = Vec3(ONE, ONE, ONE);
        *scattered = Ray::new(rec.p, direction, r_in.time());
        true
    }
}

/// A surface that gives off light and scatters none.
#[derive(Clone, Copy, Debug, PartialEq, Eq)]
pub struct DiffuseLight {
    pub emit: TextureRef,
}

impl DiffuseLight {
    pub fn new(emit: usize) -> (r: Self)
        ensures
            r.emit == TextureRef::Handle(emit),
    {
        DiffuseLight { emit: TextureRef::Handle(emit) }
    }

    pub fn with_solid_color(c: Color) -> (r: Self)
        ensures
            r.emit == TextureRef::Solid(SolidColor { color: c }),
    {
        DiffuseLight { emit: TextureRef::Solid(SolidColor::new(c)) }
    }

    /// A light never scatters, and leaves `attention` and `scattered` alone.
    pub fn scatter(
        &self,
        r_in: &Ray,
        rec: &HitRecord,
        attention: &mut Color,
        scattered: &mut Ray,
    ) -> (r: bool)
        ensures
            !r,
            *final(attention) == *old(attention),
            *final(scattered) == *old(scattered),
    {
        false
    }

    /// The light given off at a hit, where `sampled` is what the host's colour
    /// field gives there.
    pub fn emitted(&self, sampled: Color) -> (c: Color)
        ensures
            c == self.emit.spec_value(sampled),
    {
        self.emit.value(sampled)
    }
}

/// The way a participating medium scatters: to all sides alike.
#[derive(Clone, Copy, Debug, PartialEq, Eq)]
pub struct Isotropic {
    pub albedo: TextureRef,
}

impl Isotropic {
    pub fn new(albedo: usize) -> (r: Self)
        ensures
            r.albedo == TextureRef::Handle(albedo),
    {
        Isotropic { albedo: TextureRef::Handle(albedo) }
    }

    pub fn from_color(c: Color) -> (r: Self)
        ensures
            r.albedo == TextureRef::Solid(SolidColor { color: c }),
    {
        Isotropic { albedo: TextureRef::Solid(SolidColor::new(c)) }
    }

    /// Scatters the ray `r_in` at the hit `rec`, always.
    ///
    /// `direction` is a random vector of the unit sphere, and `sampled` what
    /// the host's colour field gives at the hit.
    pub fn scatter(
        &self,
        r_in: &Ray,
        rec: &HitRecord,
        attention: &mut Color,
        scattered: &mut Ray,
        direction: Vec3,
        sampled: Color,
    ) -> (r: bool)
        ensures
            r,
            *final(attention) == self.albedo.spec_value(sampled),
            *final(scattered) == (Ray { orig: rec.p, dir: direction, tm: r_in.tm }),
    {
        *scattered = Ray::new(rec.p, direction, r_in.time());
        *attention = self.albedo.value(sampled);
        true
    }
}

/// A material of any kind.
#[derive(Clone, Copy, Debug, PartialEq, Eq)]
pub enum Material {
    Lambertian(Lambertian),
    Metal(Metal),
    Dielectric(Dielectric),
    DiffuseLight(DiffuseLight),
    Isotropic(Isotropic),
}

impl Material {
    /// The light that the material gives off at a hit: black, unless it is a
    /// light.
    pub open spec fn spec_emitted(self, sampled: Color) -> Color {
        match self {
            Material::DiffuseLight(l) => l.emit.spec_value(sampled),
            _ => Vec3(ZERO, ZERO, ZERO),
        }
    }

    /// The light that the material gives off at a hit, where `sampled` is
    /// what the host's colour field gives there.
    pub fn emitted(&self, sampled: Color) -> (c: Color)
        ensures
            c == self.spec_emitted(sampled),
    {
        match self {
            Material::DiffuseLight(l) => l.emitted(sampled),
            _ => Vec3(ZERO, ZERO, ZERO),
        }
    }
}

} // verus!
