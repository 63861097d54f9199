//! The persist stage: encode a materialized atlas and emit a descriptor
//! the direct-load stage can reproduce it from.

use vstd::prelude::*;
use crate::asset::TextureAtlasAsset;
use crate::codec::{
    bytes_of_pixels, encode_rgba, encoded_image, lemma_pixels_bytes_round_trip, pixels_of_bytes,
    pixels_to_bytes, EncodeFailure,
};
use crate::errors::SaverError;
use crate::paths::opt_path_view;
use crate::rect::Rect;
use crate::settings::{entry_paths, entry_rects, LoaderSettings, SaverSettings};

verus! {

/// The persist stage: turns an atlas asset into an encoded image and an
/// equivalent direct-load descriptor.
pub struct TextureAtlasSaver;

impl TextureAtlasSaver {
    /// Encodes the asset's pixel buffer in the requested format and emits
    /// the descriptor whose entries zip the path index with the layout's
    /// rects positionally, its format set to the encoding used.
    ///
    /// An absent sub-component fails with the matching missing-sub-asset
    /// error before anything is encoded; an atlas is persisted whole or not
    /// at all.
    pub fn save(&self, asset: &TextureAtlasAsset, settings: &SaverSettings) -> (r: Result<
        (Vec<u8>, LoaderSettings),
        SaverError,
    >)
        requires
            asset.wf(),
        ensures
            asset.layout is None <==> r matches Err(SaverError::MissingLayout),
            (asset.layout is Some && asset.texture is None) <==> r matches Err(
                SaverError::MissingTexture,
            ),
            match r {
                Ok((bytes, out)) => {
                    &&& asset.layout matches Some(l) && asset.texture matches Some(t) && {
                        &&& out.format == Some(settings.format)
                        &&& entry_paths(out.textures@) =~= asset.paths@
                        &&& entry_rects(out.textures@) =~= l.textures@
                        &&& out.textures@.len() == l.textures@.len()
                        &&& encoded_image(
                            settings.format,
                            t.width,
                            t.height,
                            bytes_of_pixels(t.data@),
                        ) == Some(bytes@)
                    }
                },
                Err(e) => match e {
                    SaverError::MissingLayout => asset.layout is None,
                    SaverError::MissingTexture => asset.layout is Some && asset.texture is None,
                    SaverError::InvalidImageFormat(f) => f == settings.format && asset.layout
                        is Some && asset.texture is Some && encoded_image(
                        settings.format,
                        asset.texture->Some_0.width,
                        asset.texture->Some_0.height,
                        bytes_of_pixels(asset.texture->Some_0.data@),
                    ) is None,
                    SaverError::Image(_) => asset.layout is Some && asset.texture is Some
                        && encoded_image(
                        settings.format,
                        asset.texture->Some_0.width,
                        asset.texture->Some_0.height,
                        bytes_of_pixels(asset.texture->Some_0.data@),
                    ) is None,
                    SaverError::IntoDynamicImage(_) => asset.layout is Some && asset.texture
                        is Some && asset.texture->Some_0.data@.len() * 4 > usize::MAX,
                    _ => false,
                },
            },
            // success is owed whenever both sub-components are present, the
            // pixel buffer fits the byte range, and the encoder accepts it
            (asset.layout is Some && asset.texture is Some && asset.texture->Some_0.data@.len() * 4
                <= usize::MAX && encoded_image(
                settings.format,
                asset.texture->Some_0.width,
                asset.texture->Some_0.height,
                bytes_of_pixels(asset.texture->Some_0.data@),
            ) is Some) ==> r is Ok,
    {
        let layout = match &asset.layout {
            Some(l) => l,
            None => { return Err(SaverError::MissingLayout); },
        };
        let texture = match &asset.texture {
            Some(t) => t,
            None => { return Err(SaverError::MissingTexture); },
        };
        proof {
            assert(texture.data@.len() == texture.width * texture.height);
        }
        if texture.data.len() > usize::MAX / 4 {
            return Err(
                SaverError::IntoDynamicImage(String::from_str("pixel buffer exceeds byte range")),
            );
        }
        let rgba = pixels_to_bytes(&texture.data);
        proof {
            assert(rgba@.len() == texture.width * texture.height * 4);
        }
        let bytes = match encode_rgba(settings.format, texture.width, texture.height, &rgba) {
            Ok(b) => b,
            Err(EncodeFailure::Unsupported(_)) => {
                return Err(SaverError::InvalidImageFormat(settings.format));
            },
            Err(EncodeFailure::Other(msg)) => { return Err(SaverError::Image(msg)); },
        };
        let n = layout.textures.len();
        let mut entries: Vec<(Option<String>, Rect)> = Vec::new();
        let mut i: usize = 0;
        while i < n
            invariant
                i <= n,
                n == layout.textures@.len(),
                asset.paths@.len() == n,
                asset.paths.path_indices@.len() == asset.paths@.len(),
                entries@.len() == i,
                forall|j: int|
                    0 <= j < i ==> opt_path_view((#[trigger] entries@[j]).0) == asset.paths@[j],
                forall|j: int| 0 <= j < i ==> (#[trigger] entries@[j]).1 == layout.textures@[j],
            decreases n - i,
        {
            let p = clone_opt_path(&asset.paths.path_indices[i]);
            entries.push((p, layout.textures[i]));
            i += 1;
        }
        let out = LoaderSettings { format: Some(settings.format), textures: entries };
        proof {
            assert(entry_paths(out.textures@) =~= asset.paths@);
            assert(entry_rects(out.textures@) =~= layout.textures@);
        }
        Ok((bytes, out))
    }
}

/// Round trip: persisting an atlas and reloading it through the emitted
/// descriptor reproduces the original placements, canvas size and path
/// index; and when the codec hands the persisted RGBA stream back unchanged
/// (a lossless format), the reloaded pixels equal the originals too.
///
/// The hypotheses are exactly what `TextureAtlasSaver::save` ensures of the
/// emitted descriptor and what `TextureAtlasLoader::load` ensures of the
/// asset it builds from that descriptor and the decoded image.
pub proof fn lemma_save_load_round_trip(
    original: TextureAtlasAsset,
    saved: LoaderSettings,
    reloaded: TextureAtlasAsset,
    w: u32,
    h: u32,
    rgba: Seq<u8>,
)
    requires
        original.wf(),
        original.layout is Some,
        original.texture is Some,
        // what the persist stage emitted
        entry_paths(saved.textures@) == original.paths@,
        entry_rects(saved.textures@) == original.layout->Some_0.textures@,
        // what the direct-load stage built from the descriptor
        reloaded.layout is Some,
        reloaded.texture is Some,
        reloaded.layout->Some_0.size == (w, h),
        reloaded.layout->Some_0.textures@ == entry_rects(saved.textures@),
        reloaded.paths@ == entry_paths(saved.textures@),
        reloaded.texture->Some_0.data@ == pixels_of_bytes(rgba),
        // the decoded image kept the persisted size, as every codec does
        (w, h) == original.layout->Some_0.size,
        // a lossless codec returned the written RGBA stream unchanged
        rgba == bytes_of_pixels(original.texture->Some_0.data@),
    ensures
        reloaded.layout->Some_0.textures@ == original.layout->Some_0.textures@,
        reloaded.layout->Some_0.size == original.layout->Some_0.size,
        reloaded.paths@ == original.paths@,
        reloaded.texture->Some_0.data@ == original.texture->Some_0.data@,
{
    lemma_pixels_bytes_round_trip(original.texture->Some_0.data@);
}

/// Clones an optional source identifier, keeping its value.
fn clone_opt_path(p: &Option<String>) -> (r: Option<String>)
    ensures
        opt_path_view(r) == opt_path_view(*p),
{
    match p {
        Some(s) => Some(s.clone()),
        None => None,
    }
}

} // verus!
