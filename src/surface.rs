use vstd::prelude::*;

verus! {

/// Which way the normals of a sphere point. A sphere with inward normals inside a slightly
/// larger one with outward normals models a hollow shell.
#[derive(Debug, Clone, Copy, PartialEq, Eq, Structural)]
pub enum NormalOrientation {
    Outward,
    Inward,
}

pub open spec fn spec_flipped(orientation: NormalOrientation) -> NormalOrientation {
    match orientation {
        NormalOrientation::Outward => NormalOrientation::Inward,
        NormalOrientation::Inward => NormalOrientation::Outward,
    }
}

impl NormalOrientation {
    /// The other orientation.
    pub fn flipped(self) -> (o: NormalOrientation)
        ensures
            o == spec_flipped(self),
    {
        match self {
            NormalOrientation::Outward => NormalOrientation::Inward,
            NormalOrientation::Inward => NormalOrientation::Outward,
        }
    }
}

/// The choices a sphere makes at a hit, once the quadratic has real roots.
#[derive(Debug, Clone, Copy, PartialEq, Eq, Structural)]
pub struct SphereHitSide {
    /// Take the larger root rather than the smaller one.
    pub far_root: bool,
    /// The normal is `point - center` (rather than `center - point`), normalized.
    pub normal_points_out: bool,
    /// The ray enters the surface, against its normal.
    pub is_into_surface: bool,
}

pub open spec fn spec_sphere_hit_side(
    orientation: NormalOrientation,
    ray_starts_on_surface: bool,
) -> SphereHitSide {
    SphereHitSide {
        far_root: ray_starts_on_surface,
        normal_points_out: orientation == NormalOrientation::Outward,
        is_into_surface: match orientation {
            NormalOrientation::Outward => !ray_starts_on_surface,
            NormalOrientation::Inward => ray_starts_on_surface,
        },
    }
}

/// Decides the root, the normal and the entering flag of a sphere hit.
///
/// `ray_starts_on_surface` is that the ray origin lies on the sphere and the ray points into
/// it; such a ray leaves through the far root. The normal follows the orientation, and the
/// ray enters the surface when it crosses against the normal.
pub fn sphere_hit_side(orientation: NormalOrientation, ray_starts_on_surface: bool) -> (s:
    SphereHitSide)
    ensures
        s == spec_sphere_hit_side(orientation, ray_starts_on_surface),
{
    let normal_points_out = match orientation {
        NormalOrientation::Outward => true,
        NormalOrientation::Inward => false,
    };
    SphereHitSide {
        far_root: ray_starts_on_surface,
        normal_points_out,
        is_into_surface: normal_points_out != ray_starts_on_surface,
    }
}

/// Flipping a sphere turns its normals around and makes every ray that entered it leave it,
/// and the other way round; the root taken stays the same. Flipping twice changes nothing.
pub proof fn lemma_flip_reverses_side(orientation: NormalOrientation, ray_starts_on_surface: bool)
    ensures
        spec_flipped(spec_flipped(orientation)) == orientation,
        ({
            let s = spec_sphere_hit_side(orientation, ray_starts_on_surface);
            let f = spec_sphere_hit_side(spec_flipped(orientation), ray_starts_on_surface);
            &&& f.far_root == s.far_root
            &&& f.normal_points_out == !s.normal_points_out
            &&& f.is_into_surface == !s.is_into_surface
        }),
{
}

} // verus!
