//! The composite atlas artifact exchanged between the pipeline stages.

use vstd::prelude::*;
use crate::layout::TextureAtlasLayout;
use crate::paths::TextureAtlasPaths;
use crate::pixels::PixelBuffer;

verus! {

/// A texture atlas: its two independently addressable named sub-components,
/// the `"layout"` and the `"texture"`, plus the path index.
///
/// Either sub-component may be absent when the owning asset system has not
/// resolved it; a well-formed asset produced by the build or direct-load
/// stage always carries both.
pub struct TextureAtlasAsset {
    /// The `"layout"` sub-component.
    pub layout: Option<TextureAtlasLayout>,
    /// The `"texture"` sub-component.
    pub texture: Option<PixelBuffer>,
    /// One optional source identifier per placement, in placement order.
    pub paths: TextureAtlasPaths,
}

impl TextureAtlasAsset {
    /// The structural invariant every produced asset keeps: the path index
    /// is exactly as long as the rect list, the pixel buffer is complete,
    /// and its dimensions are the layout's canvas size.
    pub open spec fn wf(self) -> bool {
        &&& (self.layout matches Some(l) ==> self.paths@.len() == l.textures@.len())
        &&& (self.texture matches Some(t) ==> t.wf())
        &&& match (self.layout, self.texture) {
            (Some(l), Some(t)) => t.width == l.size.0 && t.height == l.size.1,
            _ => true,
        }
    }

    /// The `"layout"` sub-component, if resolved.
    pub fn get_layout(&self) -> (r: &Option<TextureAtlasLayout>)
        ensures
            r == &self.layout,
    {
        &self.layout
    }

    /// The `"texture"` sub-component, if resolved.
    pub fn get_texture(&self) -> (r: &Option<PixelBuffer>)
        ensures
            r == &self.texture,
    {
        &self.texture
    }
}

} // verus!
