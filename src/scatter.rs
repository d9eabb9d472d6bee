use vstd::prelude::*;

verus! {

/// What a material does with a ray that hits it.
#[derive(Debug, Clone, Copy, PartialEq, Eq, Structural)]
pub enum Scatter {
    /// The ray is absorbed: the path is black from here on.
    Absorb,
    /// A diffuse ray leaves along the normal plus a random unit vector, or along the normal
    /// alone where that sum nearly vanishes.
    Diffuse { along_normal: bool },
    /// The ray is mirrored about the normal.
    Reflect,
    /// The ray is bent through the surface.
    Refract,
}

/// Lambertian scattering: the ray is never absorbed. `perturbed_is_small` is that the
/// normal plus the random unit vector has every component below `1e-8` in magnitude.
pub fn lambertian_scatter(perturbed_is_small: bool) -> (s: Scatter)
    ensures
        s == (Scatter::Diffuse { along_normal: perturbed_is_small }),
        s != Scatter::Absorb,
{
    Scatter::Diffuse { along_normal: perturbed_is_small }
}

/// Metal scattering: the fuzzed mirror ray is kept unless it points into the surface
/// (`below_surface`: its dot product with the normal is negative), in which case the ray is
/// absorbed.
pub fn metal_scatter(below_surface: bool) -> (s: Scatter)
    ensures
        s == (if below_surface {
            Scatter::Absorb
        } else {
            Scatter::Reflect
        }),
{
    if below_surface {
        Scatter::Absorb
    } else {
        Scatter::Reflect
    }
}

/// The side a dielectric is hit from: entering, the index ratio is `1 / index` and the
/// normal is kept; leaving, the ratio is the index itself and the normal is turned around.
#[derive(Debug, Clone, Copy, PartialEq, Eq, Structural)]
pub struct DielectricSide {
    pub invert_index: bool,
    pub flip_normal: bool,
}

pub fn dielectric_side(is_into_surface: bool) -> (d: DielectricSide)
    ensures
        d.invert_index == is_into_surface,
        d.flip_normal == !is_into_surface,
{
    DielectricSide { invert_index: is_into_surface, flip_normal: !is_into_surface }
}

/// Dielectric scattering: never absorbed. It reflects under total internal reflection
/// (`ratio * sin_theta > 1`), or where the Schlick reflectance exceeds the uniform draw,
/// and refracts otherwise.
pub fn translucent_scatter(total_internal_reflection: bool, reflectance_exceeds_draw: bool) -> (s:
    Scatter)
    ensures
        s == (if total_internal_reflection || reflectance_exceeds_draw {
            Scatter::Reflect
        } else {
            Scatter::Refract
        }),
        s != Scatter::Absorb,
{
    if total_internal_reflection || reflectance_exceeds_draw {
        Scatter::Reflect
    } else {
        Scatter::Refract
    }
}

} // verus!
