//! The direct-load descriptor and the saver settings.

use vstd::prelude::*;
use crate::format::ImageFormat;
use crate::layout::TextureAtlasLayout;
use crate::paths::opt_path_view;
use crate::rect::Rect;

verus! {

/// The optional source identifiers of a descriptor entry sequence, in order.
pub open spec fn entry_paths(s: Seq<(Option<String>, Rect)>) -> Seq<Option<Seq<char>>> {
    s.map_values(|e: (Option<String>, Rect)| opt_path_view(e.0))
}

/// The rects of a descriptor entry sequence, in order.
pub open spec fn entry_rects(s: Seq<(Option<String>, Rect)>) -> Seq<Rect> {
    s.map_values(|e: (Option<String>, Rect)| e.1)
}

/// Configures the direct-load stage: positions are supplied, not computed.
///
/// `textures[i]` gives the optional source identifier and the rect of
/// placement `i`; that order becomes the produced asset's rect and path
/// index order verbatim.
pub struct LoaderSettings {
    /// The format of the atlas image. `None` means the format is
    /// auto-detected instead of forced.
    pub format: Option<ImageFormat>,
    /// One `(source, rect)` entry per placement, in placement order.
    pub textures: Vec<(Option<String>, Rect)>,
}

impl LoaderSettings {
    /// Configures the loader to force the given format when decoding the
    /// atlas image, keeping the entries.
    pub fn with_format(self, format: ImageFormat) -> (r: Self)
        ensures
            r.format == Some(format),
            r.textures@ == self.textures@,
    {
        Self { format: Some(format), textures: self.textures }
    }

    /// Derives a descriptor from an existing layout: the same rects in the
    /// same order, no source identifiers, and no format override.
    pub fn from_layout(layout: TextureAtlasLayout) -> (r: Self)
        ensures
            r.format is None,
            entry_rects(r.textures@) =~= layout.textures@,
            entry_paths(r.textures@) =~= Seq::new(
                layout.textures@.len(),
                |i: int| None::<Seq<char>>,
            ),
    {
        let n = layout.textures.len();
        let mut entries: Vec<(Option<String>, Rect)> = Vec::new();
        let mut i: usize = 0;
        while i < n
            invariant
                i <= n,
                n == layout.textures@.len(),
                entries@.len() == i,
                forall|j: int| 0 <= j < i ==> (#[trigger] entries@[j]).0 is None,
                forall|j: int| 0 <= j < i ==> (#[trigger] entries@[j]).1 == layout.textures@[j],
            decreases n - i,
        {
            entries.push((None, layout.textures[i]));
            i += 1;
        }
        Self { format: None, textures: entries }
    }
}

impl Default for LoaderSettings {
    /// An empty descriptor: no format override and no entries.
    fn default() -> (r: Self)
        ensures
            r.format is None,
            r.textures@.len() == 0,
    {
        Self { format: None, textures: Vec::new() }
    }
}

/// Configures the persist stage.
pub struct SaverSettings {
    /// The encoding the pixel buffer is written in.
    pub format: ImageFormat,
}

impl Default for SaverSettings {
    /// Persisting defaults to the lossless PNG encoding.
    fn default() -> (r: Self)
        ensures
            r.format == ImageFormat::Png,
    {
        Self { format: ImageFormat::Png }
    }
}

} // verus!
