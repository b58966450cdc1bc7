//! Rays, and the control of a light path.

use crate::scalar::{Scalar, INFINITY, SHADOW_EPSILON, ZERO};
use crate::vec::{Point3, Vec3};
use vstd::prelude::*;

verus! {

/// A ray: where it starts, where it heads, and the moment at which it was
/// sent. The direction need not have unit length.
#[derive(Clone, Copy, Debug, PartialEq, Eq, Structural)]
pub struct Ray {
    pub orig: Point3,
    pub dir: Vec3,
    pub tm: Scalar,
}

impl Default for Ray {
    fn default() -> (r: Self)
        ensures
            r == (Ray { orig: Vec3(ZERO, ZERO, ZERO), dir: Vec3(ZERO, ZERO, ZERO), tm: ZERO }),
    {
        Ray { orig: Vec3(ZERO, ZERO, ZERO), dir: Vec3(ZERO, ZERO, ZERO), tm: ZERO }
    }
}

/// What became of a ray of a light path.
#[derive(Clone, Copy, Debug, PartialEq, Eq, Structural)]
pub enum Bounce {
    /// It hit nothing.
    Miss,
    /// It hit a surface that did not scatter it.
    Absorbed,
    /// It hit a surface that scattered it.
    Scattered,
}

/// What a ray of a light path contributes.
#[derive(Clone, Copy, Debug, PartialEq, Eq, Structural)]
pub enum Shade {
    /// Nothing: the path has used up its depth.
    Black,
    /// The colour of the background; the path ends.
    Background,
    /// What the surface emits; the path ends.
    Emitted,
    /// What the surface emits, and the surface's attenuation times what the
    /// scattered ray contributes at the remaining depth `depth`.
    Scattered { depth: isize },
}

/// What a ray contributes to a path of remaining depth `depth`, given what
/// became of the ray.
pub open spec fn spec_ray_color(depth: isize, bounce: Bounce) -> Shade {
    if depth <= 0 {
        Shade::Black
    } else {
        match bounce {
            Bounce::Miss => Shade::Background,
            Bounce::Absorbed => Shade::Emitted,
            Bounce::Scattered => Shade::Scattered { depth: (depth - 1) as isize },
        }
    }
}

/// How many rays a path of remaining depth `depth` sends when `bounces` says
/// what becomes of each ray in turn: it goes on while it has depth left, its
/// rays are scattered and `bounces` has more to say.
pub open spec fn rays_sent(depth: int, bounces: Seq<Bounce>) -> nat
    decreases bounces.len(),
{
    if depth <= 0 || bounces.len() == 0 {
        0
    } else if bounces[0] == Bounce::Scattered {
        1 + rays_sent(depth - 1, bounces.drop_first())
    } else {
        1
    }
}

/// A path sends no more rays than it has depth, whatever becomes of them.
pub proof fn lemma_depth_bounds_path(depth: int, bounces: Seq<Bounce>)
    ensures
        rays_sent(depth, bounces) <= if depth <= 0 {
            0
        } else {
            depth
        },
        rays_sent(depth, bounces) <= bounces.len(),
    decreases bounces.len(),
{
    if depth > 0 && bounces.len() > 0 && bounces[0] == Bounce::Scattered {
        lemma_depth_bounds_path(depth - 1, bounces.drop_first());
    }
}

impl Ray {
    pub fn new(orig: Point3, dir: Vec3, tm: Scalar) -> (r: Self)
        ensures
            r == (Ray { orig, dir, tm }),
    {
        Ray { orig, dir, tm }
    }

    pub fn orig(&self) -> (r: Point3)
        ensures
            r == self.orig,
    {
        self.orig
    }

    pub fn orig_mut(&mut self) -> (r: &mut Point3)
        ensures
            *r == old(self).orig,
            *final(self) == (Ray { orig: *final(r), ..*old(self) }),
    {
        &mut self.orig
    }

    pub fn direction(&self) -> (r: Vec3)
        ensures
            r == self.dir,
    {
        self.dir
    }

    pub fn direction_mut(&mut self) -> (r: &mut Vec3)
        ensures
            *r == old(self).dir,
            *final(self) == (Ray { dir: *final(r), ..*old(self) }),
    {
        &mut self.dir
    }

    pub fn time(&self) -> (r: Scalar)
        ensures
            r == self.tm,
    {
        self.tm
    }

    pub fn time_mut(&mut self) -> (r: &mut Scalar)
        ensures
            *r == old(self).tm,
            *final(self) == (Ray { tm: *final(r), ..*old(self) }),
    {
        &mut self.tm
    }

    /// The range of the parameter over which a ray of a light path is tested:
    /// from just off the surface it left to infinity.
    pub fn path_range() -> (r: (Scalar, Scalar))
        ensures
            r == (SHADOW_EPSILON, INFINITY),
    {
        (SHADOW_EPSILON, INFINITY)
    }

    /// Whether a path of remaining depth `depth` has used up its depth, so
    /// that its next ray is not sent and contributes nothing.
    pub fn exhausted(depth: isize) -> (r: bool)
        ensures
            r == (depth <= 0),
            r ==> forall|bounce: Bounce| #[trigger] spec_ray_color(depth, bounce) == Shade::Black,
    {
        depth <= 0
    }

    /// What a ray contributes to a path of remaining depth `depth`.
    ///
    /// `bounce` says what became of the ray; while `depth` is not positive the
    /// ray is not sent at all and `bounce` does not count. The host adds up
    /// the colours: the path's colour is the contribution of its first ray.
    pub fn ray_color(depth: isize, bounce: Bounce) -> (r: Shade)
        ensures
            r == spec_ray_color(depth, bounce),
    {
        if depth <= 0 {
            return Shade::Black;
        }
        match bounce {
            Bounce::Miss => Shade::Background,
            Bounce::Absorbed => Shade::Emitted,
            Bounce::Scattered => Shade::Scattered { depth: depth - 1 },
        }
    }
}

} // verus!
