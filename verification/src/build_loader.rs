//! The build stage: pack an ordered list of resolved source images into
//! one atlas asset.

use vstd::prelude::*;
use crate::asset::TextureAtlasAsset;
use crate::composite::{composite, composite_pixel};
use crate::config::{sources_view, BuildLoaderConfig};
use crate::errors::{BuildLoaderError, PackingError};
use crate::pack::{canvas_model, is_packing_of, pack, rect_ints, rect_model, sizes_positive};
use crate::paths::TextureAtlasPaths;
use crate::pixels::PixelBuffer;

verus! {

/// The `(width, height)` size sequence of a list of resolved images.
pub open spec fn image_sizes(images: Seq<PixelBuffer>) -> Seq<(u32, u32)> {
    images.map_values(|b: PixelBuffer| (b.width, b.height))
}

/// The build stage: packs resolved source images, in descriptor order,
/// into one atlas asset.
pub struct TextureAtlasBuildLoader;

impl TextureAtlasBuildLoader {
    /// The descriptor file extension this stage handles.
    pub fn extensions(&self) -> (r: Vec<&'static str>)
        ensures
            r@.len() == 1,
            r@[0]@ == "atlas.ron"@,
    {
        let mut v: Vec<&'static str> = Vec::new();
        v.push("atlas.ron");
        v
    }

    /// Packs the resolved images — `images[i]` is the pixel data of
    /// `config.textures[i]` — and composites them into one canvas.
    ///
    /// The produced layout is exactly the packing model's placement for the
    /// image sizes, every placement shows its source image, and the path
    /// index keeps every source identifier in descriptor order. An empty
    /// source list, a zero image dimension, or a canvas outgrowing the
    /// machine's limits fails with the matching packing error; nothing else
    /// fails.
    pub fn build(&self, config: &BuildLoaderConfig, images: &Vec<PixelBuffer>) -> (r: Result<
        TextureAtlasAsset,
        BuildLoaderError,
    >)
        requires
            images@.len() == config.textures@.len(),
            forall|i: int| 0 <= i < images@.len() ==> (#[trigger] images@[i]).wf(),
        ensures
            match r {
                Ok(asset) => {
                    &&& images@.len() > 0
                    &&& sizes_positive(image_sizes(images@))
                    &&& asset.layout matches Some(l) && {
                        &&& is_packing_of(l, image_sizes(images@))
                        &&& l.wf()
                        &&& l.size.0 >= 1 && l.size.1 >= 1
                        &&& asset.texture matches Some(t) && t.width == l.size.0 && t.height
                            == l.size.1 && t.wf() && forall|x: int, y: int|
                            0 <= x < l.size.0 && 0 <= y < l.size.1 ==> t.spec_pixel(x, y)
                                == #[trigger] composite_pixel(l.textures@, images@, x, y)
                    }
                    &&& asset.paths@ =~= sources_view(config.textures@)
                    &&& asset.paths@.len() == asset.layout->Some_0.textures@.len()
                    &&& asset.wf()
                },
                Err(e) => match e {
                    BuildLoaderError::TextureAtlasBuilder(p) => match p {
                        PackingError::EmptyInput => images@.len() == 0,
                        PackingError::InvalidDimension => images@.len() > 0 && !sizes_positive(
                            image_sizes(images@),
                        ),
                        PackingError::SizeLimitExceeded => images@.len() > 0 && sizes_positive(
                            image_sizes(images@),
                        ) && (canvas_model(image_sizes(images@)).1 > u32::MAX || canvas_model(
                            image_sizes(images@),
                        ).0 * canvas_model(image_sizes(images@)).1 > usize::MAX),
                    },
                    _ => false,
                },
            },
            r is Err <==> (images@.len() == 0 || !sizes_positive(image_sizes(images@))
                || canvas_model(image_sizes(images@)).1 > u32::MAX || canvas_model(
                image_sizes(images@),
            ).0 * canvas_model(image_sizes(images@)).1 > usize::MAX),
    {
        let n = images.len();
        let mut sizes: Vec<(u32, u32)> = Vec::new();
        let mut i: usize = 0;
        while i < n
            invariant
                i <= n,
                n == images@.len(),
                sizes@.len() == i,
                forall|j: int| 0 <= j < i ==> sizes@[j] == image_sizes(images@)[j],
            decreases n - i,
        {
            let img = &images[i];
            sizes.push((img.width, img.height));
            i += 1;
        }
        proof {
            assert(sizes@ =~= image_sizes(images@));
        }
        let layout = match pack(&sizes) {
            Ok(l) => l,
            Err(e) => { return Err(BuildLoaderError::TextureAtlasBuilder(e)); },
        };
        proof {
            assert(layout.size.0 as int * layout.size.1 as int <= u32::MAX as int * u32::MAX as int)
                by (nonlinear_arith)
                requires
                    layout.size.0 <= u32::MAX,
                    layout.size.1 <= u32::MAX,
            ;
        }
        let area: u64 = layout.size.0 as u64 * layout.size.1 as u64;
        if area > usize::MAX as u64 {
            return Err(
                BuildLoaderError::TextureAtlasBuilder(PackingError::SizeLimitExceeded),
            );
        }
        proof {
            assert forall|j: int| 0 <= j < images@.len() implies (#[trigger] images@[j]).width
                == layout.textures@[j].width && images@[j].height == layout.textures@[j].height by {
                assert(rect_ints(layout.textures@[j]) == rect_model(image_sizes(images@), j));
                assert(image_sizes(images@)[j] == (images@[j].width, images@[j].height));
            }
        }
        let canvas = composite(layout.size.0, layout.size.1, &layout.textures, images);
        let mut paths = TextureAtlasPaths::new();
        let mut k: usize = 0;
        while k < n
            invariant
                k <= n,
                n == config.textures@.len(),
                paths@.len() == k,
                forall|j: int| 0 <= j < k ==> paths@[j] == sources_view(config.textures@)[j],
            decreases n - k,
        {
            paths.add(Some(config.textures[k].clone()));
            k += 1;
        }
        let asset = TextureAtlasAsset {
            layout: Some(layout),
            texture: Some(canvas),
            paths,
        };
        proof {
            assert(asset.paths@ =~= sources_view(config.textures@));
        }
        Ok(asset)
    }
}

} // verus!
