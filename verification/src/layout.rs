//! The atlas layout: a canvas size plus the ordered placement rectangles.

use vstd::prelude::*;
use crate::rect::{all_contained, pairwise_disjoint, Rect};

verus! {

/// The packed rectangle list plus the overall canvas size, in pixels.
///
/// The order of `textures` is the stable index used by every other part of
/// the pipeline: entry `i` of a path index always describes `textures[i]`.
pub struct TextureAtlasLayout {
    /// Canvas size as `(width, height)`.
    pub size: (u32, u32),
    /// The placement of each sub-image, in source order.
    pub textures: Vec<Rect>,
}

impl TextureAtlasLayout {
    /// No two placements overlap and each lies fully inside the canvas.
    pub open spec fn wf(self) -> bool {
        &&& pairwise_disjoint(self.textures@)
        &&& all_contained(self.textures@, self.size.0, self.size.1)
    }
}

} // verus!
