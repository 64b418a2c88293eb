//! The denoising pipeline's geometry cell and its surface-identity gate.
//!
//! The edge-aware filter weighs each candidate neighbour by normal
//! similarity, depth difference and luminance difference — floating-point
//! work that runs outside the library. Whether a neighbour may contribute at
//! all, though, is decided here: two cells on different scene primitives
//! never blend.

use vstd::prelude::*;

verus! {

/// One geometry-buffer cell: the identity of the primitive the pixel's
/// first sample hit, plus whatever numeric payload (distance, normal, hit
/// point) the filter's weight computation reads. Object ids are dense
/// integers assigned at scene-build time; equality of ids between two cells
/// is necessary for them to be treated as the same surface.
#[derive(Clone, Copy, Debug)]
pub struct GBInfo<V> {
    pub hit_obj_id: usize,
    pub payload: V,
}

/// The filter's cross-weight gate: a neighbour may contribute to a centre
/// pixel only when both cells record the same primitive. Cells with
/// different object identity get zero cross-weight, whatever their colours,
/// depths and normals.
pub fn same_surface<V>(gb0: &GBInfo<V>, gb1: &GBInfo<V>) -> (blend: bool)
    ensures
        blend == (gb0.hit_obj_id == gb1.hit_obj_id),
{
    gb0.hit_obj_id == gb1.hit_obj_id
}

} // verus!
