use texture_atlas::build_loader::TextureAtlasBuildLoader;
use texture_atlas::config::{parse_build_config, BuildLoaderConfig};
use texture_atlas::errors::{BuildLoaderError, LoaderError, PackingError, SaverError};
use texture_atlas::format::ImageFormat;
use texture_atlas::loader::{internal_texture_path, TextureAtlasLoader};
use texture_atlas::pack::pack;
use texture_atlas::pixels::PixelBuffer;
use texture_atlas::saver::TextureAtlasSaver;
use texture_atlas::settings::{LoaderSettings, SaverSettings};
use texture_atlas::Rect;

fn solid_image(width: u32, height: u32, value: u32) -> PixelBuffer {
    PixelBuffer { width, height, data: vec![value; (width * height) as usize] }
}

fn build_sample() -> texture_atlas::asset::TextureAtlasAsset {
    let config = BuildLoaderConfig {
        textures: vec!["a.png".to_string(), "b.png".to_string(), "c.png".to_string()],
    };
    let images = vec![solid_image(16, 16, 1), solid_image(32, 16, 2), solid_image(16, 32, 3)];
    TextureAtlasBuildLoader.build(&config, &images).expect("build should succeed")
}

#[test]
fn pack_three_sizes_scenario() {
    let sizes = vec![(16u32, 16u32), (32, 16), (16, 32)];
    let layout = pack(&sizes).expect("packing should succeed");
    assert_eq!(layout.size, (64, 32));
    assert_eq!(layout.textures.len(), 3);
    assert_eq!(layout.textures[0], Rect { x: 0, y: 0, width: 16, height: 16 });
    assert_eq!(layout.textures[1], Rect { x: 16, y: 0, width: 32, height: 16 });
    assert_eq!(layout.textures[2], Rect { x: 48, y: 0, width: 16, height: 32 });
}

#[test]
fn pack_rects_disjoint_and_contained() {
    let sizes = vec![(10u32, 3u32), (7, 9), (1, 1), (1024, 1), (5, 5)];
    let layout = pack(&sizes).expect("packing should succeed");
    let (cw, ch) = layout.size;
    let rects = &layout.textures;
    assert_eq!(rects.len(), sizes.len());
    for (i, r) in rects.iter().enumerate() {
        assert_eq!((r.width, r.height), sizes[i]);
        assert!(r.x + r.width <= cw && r.y + r.height <= ch);
    }
    for i in 0..rects.len() {
        for j in 0..rects.len() {
            if i != j {
                let (a, b) = (&rects[i], &rects[j]);
                let apart = a.x + a.width <= b.x
                    || b.x + b.width <= a.x
                    || a.y + a.height <= b.y
                    || b.y + b.height <= a.y;
                assert!(apart, "rects {i} and {j} overlap");
            }
        }
    }
}

#[test]
fn pack_empty_fails() {
    let sizes: Vec<(u32, u32)> = Vec::new();
    assert!(matches!(pack(&sizes), Err(PackingError::EmptyInput)));
}

#[test]
fn pack_zero_dimension_fails() {
    assert!(matches!(pack(&vec![(4u32, 0u32)]), Err(PackingError::InvalidDimension)));
    assert!(matches!(pack(&vec![(0u32, 4u32), (2, 2)]), Err(PackingError::InvalidDimension)));
}

#[test]
fn pack_is_deterministic() {
    let sizes = vec![(33u32, 21u32), (100, 7), (7, 100), (64, 64)];
    let a = pack(&sizes).expect("packing should succeed");
    let b = pack(&sizes).expect("packing should succeed");
    assert_eq!(a.size, b.size);
    assert_eq!(a.textures, b.textures);
}

#[test]
fn build_empty_source_list_fails() {
    let config = BuildLoaderConfig { textures: Vec::new() };
    let images: Vec<PixelBuffer> = Vec::new();
    let r = TextureAtlasBuildLoader.build(&config, &images);
    assert!(matches!(
        r,
        Err(BuildLoaderError::TextureAtlasBuilder(PackingError::EmptyInput))
    ));
}

#[test]
fn build_composites_and_indexes() {
    let asset = build_sample();
    let layout = asset.layout.as_ref().expect("layout present");
    let texture = asset.texture.as_ref().expect("texture present");
    assert_eq!(layout.size, (64, 32));
    assert_eq!(asset.paths.path_indices.len(), layout.textures.len());
    assert_eq!(asset.paths.path_indices[0], Some("a.png".to_string()));
    assert_eq!(asset.paths.path_indices[1], Some("b.png".to_string()));
    assert_eq!(asset.paths.path_indices[2], Some("c.png".to_string()));
    let px = |x: u32, y: u32| texture.data[(y * 64 + x) as usize];
    assert_eq!(px(0, 0), 1);
    assert_eq!(px(15, 15), 1);
    assert_eq!(px(16, 0), 2);
    assert_eq!(px(47, 15), 2);
    assert_eq!(px(48, 0), 3);
    assert_eq!(px(63, 31), 3);
    assert_eq!(px(16, 16), 0, "uncovered canvas stays transparent");
}

#[test]
fn save_then_direct_load_round_trips() {
    let asset = build_sample();
    let saver_settings = SaverSettings { format: ImageFormat::Png };
    let (bytes, out_settings) =
        TextureAtlasSaver.save(&asset, &saver_settings).expect("save should succeed");
    assert_eq!(out_settings.format, Some(ImageFormat::Png));

    let reloaded =
        TextureAtlasLoader.load(&out_settings, &bytes).expect("reload should succeed");
    let l0 = asset.layout.as_ref().unwrap();
    let l1 = reloaded.layout.as_ref().unwrap();
    assert_eq!(l1.size, l0.size);
    assert_eq!(l1.textures, l0.textures);
    assert_eq!(reloaded.paths.path_indices, asset.paths.path_indices);
    let t0 = asset.texture.as_ref().unwrap();
    let t1 = reloaded.texture.as_ref().unwrap();
    assert_eq!((t1.width, t1.height), (t0.width, t0.height));
    assert_eq!(t1.data, t0.data, "PNG is lossless: pixel-identical");
}

#[test]
fn save_missing_layout_fails() {
    let mut asset = build_sample();
    asset.layout = None;
    let r = TextureAtlasSaver.save(&asset, &SaverSettings { format: ImageFormat::Png });
    assert!(matches!(r, Err(SaverError::MissingLayout)));
}

#[test]
fn save_missing_texture_fails() {
    let mut asset = build_sample();
    asset.texture = None;
    let r = TextureAtlasSaver.save(&asset, &SaverSettings { format: ImageFormat::Png });
    assert!(matches!(r, Err(SaverError::MissingTexture)));
}

#[test]
fn save_jpeg_encodes_and_reloads() {
    let asset = build_sample();
    let (bytes, out_settings) = TextureAtlasSaver
        .save(&asset, &SaverSettings { format: ImageFormat::Jpeg })
        .expect("JPEG save should succeed; the encoder converts the pixel layout");
    assert_eq!(out_settings.format, Some(ImageFormat::Jpeg));
    let reloaded =
        TextureAtlasLoader.load(&out_settings, &bytes).expect("JPEG reload should succeed");
    let l0 = asset.layout.as_ref().unwrap();
    let l1 = reloaded.layout.as_ref().unwrap();
    // the descriptor round trip is exact; the pixels are not, JPEG is lossy
    assert_eq!(l1.size, l0.size);
    assert_eq!(l1.textures, l0.textures);
    assert_eq!(reloaded.paths.path_indices, asset.paths.path_indices);
}

#[test]
fn load_format_override_bypasses_auto_detection() {
    let asset = build_sample();
    let (bytes, out_settings) = TextureAtlasSaver
        .save(&asset, &SaverSettings { format: ImageFormat::Png })
        .expect("save should succeed");

    // auto-detection decodes the PNG stream fine
    let auto = LoaderSettings { format: None, ..copy_settings(&out_settings) };
    assert!(TextureAtlasLoader.load(&auto, &bytes).is_ok());

    // an explicit BMP override is honoured even though the bytes are PNG
    let forced = copy_settings(&out_settings).with_format(ImageFormat::Bmp);
    let r = TextureAtlasLoader.load(&forced, &bytes);
    assert!(matches!(r, Err(LoaderError::LoadDirect(_))));
}

fn copy_settings(s: &LoaderSettings) -> LoaderSettings {
    LoaderSettings {
        format: s.format,
        textures: s.textures.iter().map(|(p, r)| (p.clone(), *r)).collect(),
    }
}

#[test]
fn save_bmp_reload_with_explicit_format() {
    let asset = build_sample();
    let (bytes, out_settings) = TextureAtlasSaver
        .save(&asset, &SaverSettings { format: ImageFormat::Bmp })
        .expect("BMP save should succeed");
    assert_eq!(out_settings.format, Some(ImageFormat::Bmp));
    let reloaded =
        TextureAtlasLoader.load(&out_settings, &bytes).expect("BMP reload should succeed");
    let l0 = asset.layout.as_ref().unwrap();
    let l1 = reloaded.layout.as_ref().unwrap();
    assert_eq!(l1.size, l0.size);
    assert_eq!(l1.textures, l0.textures);
    assert_eq!(reloaded.paths.path_indices, asset.paths.path_indices);
}

#[test]
fn load_undecodable_bytes_fails() {
    let settings = LoaderSettings { format: None, textures: Vec::new() };
    let bytes = vec![0u8, 1, 2, 3];
    let r = TextureAtlasLoader.load(&settings, &bytes);
    assert!(matches!(r, Err(LoaderError::LoadDirect(_))));
}

#[test]
fn settings_with_format_sets_override() {
    let s = LoaderSettings::default().with_format(ImageFormat::Png);
    assert_eq!(s.format, Some(ImageFormat::Png));
    assert!(s.textures.is_empty());
}

#[test]
fn settings_from_layout_keeps_rects_without_paths() {
    let layout = pack(&vec![(8u32, 8u32), (4, 4)]).expect("packing should succeed");
    let rects = layout.textures.clone();
    let s = LoaderSettings::from_layout(layout);
    assert_eq!(s.format, None);
    assert_eq!(s.textures.len(), rects.len());
    for (i, (p, r)) in s.textures.iter().enumerate() {
        assert!(p.is_none());
        assert_eq!(*r, rects[i]);
    }
}

#[test]
fn direct_load_from_layout_settings_has_no_paths() {
    let asset = build_sample();
    let (bytes, _) = TextureAtlasSaver
        .save(&asset, &SaverSettings { format: ImageFormat::Png })
        .expect("save should succeed");
    let layout = asset.layout.as_ref().unwrap();
    let settings = LoaderSettings::from_layout(texture_atlas::layout::TextureAtlasLayout {
        size: layout.size,
        textures: layout.textures.clone(),
    });
    let reloaded = TextureAtlasLoader.load(&settings, &bytes).expect("reload should succeed");
    let l1 = reloaded.layout.as_ref().unwrap();
    assert_eq!(l1.textures, layout.textures);
    assert_eq!(reloaded.paths.path_indices.len(), l1.textures.len());
    assert!(reloaded.paths.path_indices.iter().all(|p| p.is_none()));
}

#[test]
fn saver_settings_default_is_png() {
    assert_eq!(SaverSettings::default().format, ImageFormat::Png);
}

#[test]
fn build_loader_extensions() {
    let e = TextureAtlasBuildLoader.extensions();
    assert_eq!(e, vec!["atlas.ron"]);
}

#[test]
fn internal_texture_path_substitutes_extension() {
    assert_eq!(
        internal_texture_path("sprites/demo.atlas.ron", Some(ImageFormat::Png)),
        "sprites/demo.atlas.png"
    );
    assert_eq!(internal_texture_path("demo.ron", None), "demo.bin");
    assert_eq!(
        internal_texture_path("no_extension", Some(ImageFormat::Bmp)),
        "no_extension.bmp"
    );
    assert_eq!(
        internal_texture_path("dir.v/leaf", Some(ImageFormat::Jpeg)),
        "dir.v/leaf.jpg"
    );
}

#[test]
fn parse_config_accepts_conventional_text() {
    let cfg = parse_build_config("(textures: [\"a.png\", \"b/c.png\"])").expect("parses");
    assert_eq!(cfg.textures, vec!["a.png".to_string(), "b/c.png".to_string()]);
    assert_eq!(cfg.iter_paths().len(), 2);
}

#[test]
fn parse_config_accepts_whitespace_and_trailing_commas() {
    let text = "  (\n  textures : [\n    \"x.png\" ,\n    \"y.png\" ,\n  ] ,\n)  \n";
    let cfg = parse_build_config(text).expect("parses");
    assert_eq!(cfg.textures, vec!["x.png".to_string(), "y.png".to_string()]);
}

#[test]
fn parse_config_accepts_empty_list() {
    let cfg = parse_build_config("(textures: [])").expect("parses");
    assert!(cfg.textures.is_empty());
}

#[test]
fn parse_config_accepts_comments_and_struct_name() {
    let text = "// atlas sources\nAtlasConfig ( /* the /* nested */ list */ textures: [\n  \"a.png\", // first\n  \"b.png\",\n] )";
    let cfg = parse_build_config(text).expect("parses");
    assert_eq!(cfg.textures, vec!["a.png".to_string(), "b.png".to_string()]);
}

#[test]
fn parse_config_interprets_escapes() {
    let cfg = parse_build_config("(textures: [\"a\\\\b\\\"c\\n\\t\"])").expect("parses");
    assert_eq!(cfg.textures, vec!["a\\b\"c\n\t".to_string()]);
}

#[test]
fn parse_config_rejects_bad_comments_and_escapes() {
    for text in [
        "(textures: [\"a\"]) /* unterminated",
        "(textures: [\"bad \\q escape\"])",
        "(textures: [\"unterminated)",
        "2name(textures: [])",
    ] {
        let r = parse_build_config(text);
        assert!(
            matches!(r, Err(BuildLoaderError::ConfigParse)),
            "expected parse failure for {text:?}"
        );
    }
}

#[test]
fn parse_config_rejects_malformed_text() {
    for text in [
        "",
        "textures: [\"a\"]",
        "(texture: [\"a\"])",
        "(textures [\"a\"])",
        "(textures: [\"a\")",
        "(textures: [\"a])",
        "(textures: [\"a\"] extra)",
        "(textures: [\"a\"]) trailing",
        "(textures: [a])",
    ] {
        let r = parse_build_config(text);
        assert!(
            matches!(r, Err(BuildLoaderError::ConfigParse)),
            "expected parse failure for {text:?}"
        );
    }
}
