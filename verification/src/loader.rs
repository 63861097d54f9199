//! The direct-load stage: reconstruct an atlas from an already-packed
//! image plus an explicit descriptor, without repacking.

use vstd::prelude::*;
use crate::asset::TextureAtlasAsset;
use crate::codec::{decode_image, decoded_image, pixels_of_bytes, bytes_to_pixels};
use crate::errors::LoaderError;
use crate::format::ImageFormat;
use crate::layout::TextureAtlasLayout;
use crate::paths::{opt_path_view, TextureAtlasPaths};
use crate::pixels::PixelBuffer;
use crate::rect::Rect;
use crate::settings::{entry_paths, entry_rects, LoaderSettings};

verus! {

/// The last index at or before `i` holding `c`, or `-1`.
pub open spec fn rfind_at(s: Seq<char>, c: char, i: int) -> int
    decreases i + 1,
{
    if i < 0 || i >= s.len() {
        -1
    } else if s[i] == c {
        i
    } else {
        rfind_at(s, c, i - 1)
    }
}

/// The path with its extension replaced by `ext`: everything after the
/// last dot of the final path component makes way, and a component with no
/// extension gets `.ext` appended.
pub open spec fn with_extension_spec(s: Seq<char>, ext: Seq<char>) -> Seq<char> {
    let slash = rfind_at(s, '/', s.len() - 1);
    let dot = rfind_at(s, '.', s.len() - 1);
    if dot > slash + 1 {
        s.subrange(0, dot) + "."@ + ext
    } else {
        s + "."@ + ext
    }
}

/// The last position of `c` in the string, if any.
fn rfind_char(s: &str, c: char, n: usize) -> (r: Option<usize>)
    requires
        n == s@.len(),
    ensures
        match r {
            Some(k) => rfind_at(s@, c, n as int - 1) == k as int && k < n,
            None => rfind_at(s@, c, n as int - 1) == -1,
        },
{
    let mut j = n;
    while j > 0
        invariant
            j <= n,
            n == s@.len(),
            rfind_at(s@, c, n as int - 1) == rfind_at(s@, c, j as int - 1),
        decreases j,
    {
        let jj = j - 1;
        let c2 = s.get_char(jj);
        if c2 == c {
            return Some(jj);
        }
        j = jj;
    }
    None
}

/// The resource identifier of the raw atlas image that belongs to an atlas
/// at `path`: the same path with the extension of the requested format, or
/// the raw-data extension `bin` when no format is requested.
pub fn internal_texture_path(path: &str, format: Option<ImageFormat>) -> (r: String)
    ensures
        r@ == with_extension_spec(
            path@,
            match format {
                Some(f) => f.spec_extension(),
                None => "bin"@,
            },
        ),
{
    let n = path.unicode_len();
    let ext: &str = match format {
        Some(f) => f.extension(),
        None => "bin",
    };
    let slash = rfind_char(path, '/', n);
    let dot = rfind_char(path, '.', n);
    let stem: &str = match (dot, slash) {
        (Some(d), Some(sl)) => if d > sl + 1 {
            path.substring_char(0, d)
        } else {
            path
        },
        (Some(d), None) => if d > 0 {
            path.substring_char(0, d)
        } else {
            path
        },
        _ => path,
    };
    stem.to_owned().concat(".").concat(ext)
}

/// The direct-load stage: builds an atlas asset from one encoded image and
/// a descriptor whose entries are taken verbatim.
pub struct TextureAtlasLoader;

impl TextureAtlasLoader {
    /// Decodes the atlas image, honouring the descriptor's format override
    /// if it has one (auto-detection otherwise), and assembles the asset:
    /// the rects and optional source identifiers come from the descriptor's
    /// entries in entry order, the canvas size is the decoded image's
    /// actual size. No packing occurs.
    pub fn load(&self, settings: &LoaderSettings, encoded: &Vec<u8>) -> (r: Result<
        TextureAtlasAsset,
        LoaderError,
    >)
        ensures
            r is Ok <==> decoded_image(encoded@, settings.format) is Some,
            match r {
                Ok(asset) => {
                    &&& decoded_image(encoded@, settings.format) matches Some((w, h, d)) && {
                        &&& asset.layout matches Some(l) && l.size == (w, h) && l.textures@
                            =~= entry_rects(settings.textures@)
                        &&& asset.texture matches Some(t) && t.width == w && t.height == h
                            && t.data@ =~= pixels_of_bytes(d)
                        &&& asset.paths@ =~= entry_paths(settings.textures@)
                    }
                    &&& asset.paths@.len() == asset.layout->Some_0.textures@.len()
                    &&& asset.wf()
                },
                Err(e) => e matches LoaderError::LoadDirect(_),
            },
    {
        let (w, h, rgba) = match decode_image(encoded, settings.format) {
            Ok(t) => t,
            Err(msg) => { return Err(LoaderError::LoadDirect(msg)); },
        };
        proof {
            assert(rgba@.len() % 4 == 0) by {
                assert(rgba@.len() == (w * h) * 4) by (nonlinear_arith)
                    requires
                        rgba@.len() == w * h * 4,
                ;
            }
        }
        let data = bytes_to_pixels(&rgba);
        proof {
            assert(data@.len() == w * h) by {
                assert(((w * h) * 4) / 4 == w * h);
                assert(rgba@.len() == (w * h) * 4) by (nonlinear_arith)
                    requires
                        rgba@.len() == w * h * 4,
                ;
            }
        }
        let texture = PixelBuffer { width: w, height: h, data };
        let n = settings.textures.len();
        let mut paths = TextureAtlasPaths::new();
        let mut rects: Vec<Rect> = Vec::new();
        let mut i: usize = 0;
        while i < n
            invariant
                i <= n,
                n == settings.textures@.len(),
                rects@.len() == i,
                paths@.len() == i,
                forall|j: int| 0 <= j < i ==> rects@[j] == entry_rects(settings.textures@)[j],
                forall|j: int| 0 <= j < i ==> paths@[j] == entry_paths(settings.textures@)[j],
            decreases n - i,
        {
            let e = &settings.textures[i];
            let p = match &e.0 {
                Some(s) => Some(s.clone()),
                None => None,
            };
            paths.add(p);
            rects.push(e.1);
            i += 1;
        }
        let layout = TextureAtlasLayout { size: (w, h), textures: rects };
        let asset = TextureAtlasAsset { layout: Some(layout), texture: Some(texture), paths };
        proof {
            assert(asset.paths@ =~= entry_paths(settings.textures@));
            assert(asset.layout->Some_0.textures@ =~= entry_rects(settings.textures@));
        }
        Ok(asset)
    }
}

} // verus!
