use vstd::prelude::*;

verus! {

/// How light leaves a surface.
#[derive(Clone, Copy, Debug, PartialEq, Eq, Structural)]
pub enum ReflType {
    /// Ideal diffuse (Lambertian) reflection.
    DIFF,
    /// Ideal mirror reflection.
    SPEC,
    /// Dielectric: Fresnel-weighted reflection and refraction.
    REFR,
}

} // verus!
