use vstd::prelude::*;
use crate::material::ReflType;

verus! {

/// Bounce depth from which Russian roulette may end a path.
pub const ROULETTE_DEPTH: u32 = 5;

/// Bounce depth from which a dielectric bounce follows one randomly chosen
/// branch instead of splitting into both.
pub const SPLIT_DEPTH: u32 = 2;

/// Whether a path that reached `depth` bounces plays Russian roulette: it
/// survives with probability equal to its largest albedo channel, scaled by
/// the inverse of that probability, and otherwise ends with the surface's
/// emission alone.
pub fn roulette_applies(depth: u32) -> (r: bool)
    ensures
        r == (depth >= ROULETTE_DEPTH),
{
    depth >= ROULETTE_DEPTH
}

/// How a path continues from the surface it hit.
#[derive(Clone, Copy, Debug, PartialEq, Eq, Structural)]
pub enum Bounce {
    /// Follow one cosine-weighted direction about the oriented normal.
    Diffuse,
    /// Follow the mirror reflection about the true normal.
    Mirror,
    /// Refraction is impossible: follow the mirror reflection alone.
    TotalInternal,
    /// Follow both the reflection and the refraction, weighted by the
    /// Fresnel reflectance and transmittance.
    Split,
    /// Follow one of reflection or refraction, picked at random, scaled by
    /// the inverse of its selection probability.
    Choose,
}

/// The continuation of a path at `depth` that hit a surface of kind `kind`;
/// `total_internal` tells whether Snell's law has no solution there (only
/// read for dielectrics).
pub fn plan_bounce(kind: ReflType, depth: u32, total_internal: bool) -> (r: Bounce)
    ensures
        kind == ReflType::DIFF ==> r == Bounce::Diffuse,
        kind == ReflType::SPEC ==> r == Bounce::Mirror,
        kind == ReflType::REFR && total_internal ==> r == Bounce::TotalInternal,
        kind == ReflType::REFR && !total_internal && depth < SPLIT_DEPTH ==> r == Bounce::Split,
        kind == ReflType::REFR && !total_internal && depth >= SPLIT_DEPTH ==> r == Bounce::Choose,
{
    match kind {
        ReflType::DIFF => Bounce::Diffuse,
        ReflType::SPEC => Bounce::Mirror,
        ReflType::REFR => {
            if total_internal {
                Bounce::TotalInternal
            } else if depth < SPLIT_DEPTH {
                Bounce::Split
            } else {
                Bounce::Choose
            }
        },
    }
}

/// Samples drawn per sub-pixel when no count is requested.
pub const DEFAULT_SAMPLES: u32 = 2;

/// Samples per sub-pixel for a requested total per pixel: each pixel has a
/// 2 by 2 grid of sub-pixels, so a quarter of the total, rounded down. With
/// no request the default holds; a request that leaves no sample per
/// sub-pixel is refused.
pub fn samples_per_subpixel(requested: Option<i32>) -> (r: Option<u32>)
    ensures
        requested is None ==> r == Some(DEFAULT_SAMPLES),
        requested matches Some(n) ==> (n / 4 >= 1 <==> r is Some),
        requested matches Some(n) ==> (r matches Some(k) ==> k == n / 4),
{
    match requested {
        None => Some(DEFAULT_SAMPLES),
        Some(n) => {
            if n >= 4 {
                Some((n / 4) as u32)
            } else {
                None
            }
        },
    }
}

} // verus!
