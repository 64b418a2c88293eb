//! Decision logic of the path-tracing integrator.
//!
//! The integrator's radiance arithmetic is floating-point and runs outside
//! the library; every branch it takes, however, is decided here, so the
//! termination rules (depth cutoff, miss, emissive hit), the dielectric
//! reflect-or-refract choice and the light-exclusion rule for secondary
//! bounces are verified.

use vstd::prelude::*;

verus! {

/// Classification of the closest intersection a ray found, as far as the
/// integrator's control flow needs it: no hit at all, a hit on an emissive
/// surface carrying its emitted radiance, or a hit on a scattering surface.
pub enum HitClass<C> {
    Miss,
    Emissive(C),
    Scattering,
}

/// What the integrator must do for one ray: stop with a final radiance, or
/// gather direct and indirect lighting at the hit point.
pub enum ShadeControl<C> {
    Radiance(C),
    Gather,
}

/// The integrator's termination decision for one ray.
///
/// `black` is the radiance of an absorbed path. A ray whose depth budget is
/// exhausted is black; a ray that misses every primitive is black; a ray
/// whose first hit is emissive returns that emission unchanged, whatever
/// depth budget is left; only a hit on a scattering surface keeps the
/// estimator going.
pub fn shade_gate<C: Copy>(black: C, depth: i32, hit: &HitClass<C>) -> (r: ShadeControl<C>)
    ensures
        depth < 0 ==> r == ShadeControl::<C>::Radiance(black),
        depth >= 0 && hit is Miss ==> r == ShadeControl::<C>::Radiance(black),
        depth >= 0 ==> (hit matches HitClass::Emissive(e) ==> r == ShadeControl::<C>::Radiance(*e)),
        depth >= 0 && hit is Scattering ==> r == ShadeControl::<C>::Gather,
{
    if depth < 0 {
        return ShadeControl::Radiance(black);
    }
    match hit {
        HitClass::Miss => ShadeControl::Radiance(black),
        HitClass::Emissive(e) => ShadeControl::Radiance(*e),
        HitClass::Scattering => ShadeControl::Gather,
    }
}

/// How a dielectric surface scatters one ray: mirror reflection or
/// refraction through the surface.
pub enum GlassScatter {
    Reflect,
    Refract,
}

/// The dielectric material's branch decision.
///
/// `reflect_draw` is the stochastic Fresnel choice (the random draw fell
/// below the reflectance); `cannot_refract` reports total internal
/// reflection (the transmitted angle's sine would exceed one). A ray
/// refracts only when neither holds: past the critical angle the scatter
/// direction is always the reflected one, never a refracted one.
pub fn choose_glass_scatter(reflect_draw: bool, cannot_refract: bool) -> (choice: GlassScatter)
    ensures
        choice is Refract <==> (!reflect_draw && !cannot_refract),
        cannot_refract ==> choice is Reflect,
{
    if reflect_draw || cannot_refract {
        GlassScatter::Reflect
    } else {
        GlassScatter::Refract
    }
}

/// Whether the intersection scan of one bounce must skip light-emitting
/// primitives.
///
/// A camera ray (one whose depth budget is still the full `top_depth`) must
/// see lights, so that a ray striking a light directly returns its emission;
/// on every later bounce lights are skipped when the caller asked for it,
/// their contribution then flows only through explicit light sampling.
pub fn exclude_lights_on_bounce(requested: bool, depth: i32, top_depth: i32) -> (r: bool)
    ensures
        r == (requested && depth != top_depth),
{
    if depth == top_depth {
        false
    } else {
        requested
    }
}

} // verus!
