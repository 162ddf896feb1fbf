use std::io::Cursor;

use vkengine::paths::{file_extension, has_extension, join_path, PathKey};
use vkengine::assets::{
    AssetError, AssetKind, AssetManager, AssetState, LoadRequest, LoadResult, Texture,
    TextureFormat,
};

fn png_bytes(width: u32, height: u32, pixels: &[u8]) -> Vec<u8> {
    let img = image::RgbaImage::from_raw(width, height, pixels.to_vec()).unwrap();
    let mut out = Cursor::new(Vec::new());
    img.write_to(&mut out, image::ImageFormat::Png).unwrap();
    out.into_inner()
}

#[test]
fn asset_state_reports_ready_value() {
    let ready: AssetState<u32> = AssetState::Ready(7);
    let loading: AssetState<u32> = AssetState::Loading;
    let failed: AssetState<u32> = AssetState::Failed("missing".to_string());
    assert!(ready.is_ready());
    assert_eq!(ready.get(), Some(&7));
    assert!(!loading.is_ready());
    assert_eq!(loading.get(), None);
    assert!(!failed.is_ready());
    assert_eq!(failed.get(), None);
}

#[test]
fn solid_texture_is_one_srgb_pixel() {
    let t = Texture::solid(10, 20, 30, 40);
    assert_eq!(t.width, 1);
    assert_eq!(t.height, 1);
    assert_eq!(t.pixels, vec![10, 20, 30, 40]);
    assert_eq!(t.format, TextureFormat::Rgba8Srgb);
}

#[test]
fn decode_png_gives_its_pixels() {
    let pixels = [255u8, 0, 0, 255, 0, 255, 0, 128];
    let bytes = png_bytes(2, 1, &pixels);
    let t = Texture::decode("tex.png", &bytes).unwrap();
    assert_eq!((t.width, t.height), (2, 1));
    assert_eq!(t.pixels, pixels.to_vec());
    assert_eq!(t.format, TextureFormat::Rgba8Srgb);
}

#[test]
fn decode_rejects_bytes_that_are_no_image() {
    match Texture::decode("tex.png", b"definitely not an image") {
        Err(AssetError::Decode(e)) => assert!(!e.to_string().is_empty()),
        Err(AssetError::UnsupportedFormat) => panic!("png is a known format"),
        Ok(t) => panic!("decoded {}x{}", t.width, t.height),
    }
}

#[test]
fn decode_uses_the_format_the_extension_names() {
    let bytes = png_bytes(1, 1, &[9, 8, 7, 6]);
    // The extension is matched without regard to case.
    let t = Texture::decode("dir/TEX.PNG", &bytes).unwrap();
    assert_eq!(t.pixels, vec![9, 8, 7, 6]);
    // PNG bytes in a file named as a JPEG are read as a JPEG, and fail.
    assert!(matches!(Texture::decode("tex.jpg", &bytes), Err(AssetError::Decode(_))));
}

#[test]
fn decode_without_a_known_extension_is_unsupported() {
    let bytes = png_bytes(1, 1, &[1, 2, 3, 4]);
    assert!(matches!(Texture::decode("tex", &bytes), Err(AssetError::UnsupportedFormat)));
    assert!(matches!(Texture::decode("tex.xyz", &bytes), Err(AssetError::UnsupportedFormat)));
    assert!(matches!(Texture::decode(".png", &bytes), Err(AssetError::UnsupportedFormat)));
    assert!(matches!(Texture::decode("tex.", &bytes), Err(AssetError::UnsupportedFormat)));
}

#[test]
fn decode_jpeg_gives_rgba_pixels() {
    let img = image::RgbImage::from_raw(2, 2, vec![200u8; 12]).unwrap();
    let mut out = Cursor::new(Vec::new());
    img.write_to(&mut out, image::ImageFormat::Jpeg).unwrap();
    let t = Texture::decode("photo.jpeg", &out.into_inner()).unwrap();
    assert_eq!((t.width, t.height), (2, 2));
    assert_eq!(t.pixels.len(), 16);
    assert!(t.pixels.chunks(4).all(|p| p[3] == 255));
}

#[test]
fn file_extension_follows_path_rules() {
    let ext = |s: &str| file_extension(s).map(|v| v.into_iter().collect::<String>());
    assert_eq!(ext("a/b.tar.gz"), Some("gz".to_string()));
    assert_eq!(ext("a.b/"), Some("b".to_string()));
    assert_eq!(ext("x.png/./"), Some("png".to_string()));
    assert_eq!(ext("..foo"), Some("foo".to_string()));
    assert_eq!(ext("tex."), Some(String::new()));
    assert_eq!(ext(".hidden"), None);
    assert_eq!(ext("noext"), None);
    assert_eq!(ext("a/.."), None);
    assert_eq!(ext("/"), None);
    assert_eq!(ext(""), None);
}

#[test]
fn join_path_follows_unix_rules() {
    assert_eq!(join_path("assets", "a.png"), "assets/a.png");
    assert_eq!(join_path("assets/", "a.png"), "assets/a.png");
    assert_eq!(join_path("", "a.png"), "a.png");
    assert_eq!(join_path("assets", "/abs/a.png"), "/abs/a.png");
    assert_eq!(join_path("assets", ""), "assets/");
}

#[test]
fn new_manager_is_empty_and_rooted_at_assets() {
    let m: AssetManager<u32> = AssetManager::new();
    assert_eq!(m.texture_count(), 0);
    assert_eq!(m.audio_count(), 0);
    assert_eq!(m.total_assets(), 0);
    assert_eq!(m.full_path("x.png"), "assets/x.png");
}

#[test]
fn set_root_changes_resolution() {
    let mut m: AssetManager<u32> = AssetManager::new();
    m.set_root("data");
    assert_eq!(m.full_path("x.png"), "data/x.png");
}

#[test]
fn load_texture_twice_gives_one_handle_and_one_request() {
    let mut m: AssetManager<u32> = AssetManager::new();
    let a = m.load_texture("wood.png");
    let b = m.load_texture("wood.png");
    assert_eq!(a, b);
    assert_eq!(a.kind(), "texture");
    assert_eq!(a.asset_kind(), AssetKind::Texture);
    assert_eq!(m.texture_count(), 1);
    assert!(m.texture(&a).is_none());
    assert_eq!(m.cached_texture("wood.png"), Some(a));
    let reqs = m.take_load_requests();
    assert_eq!(reqs.len(), 1);
    match &reqs[0] {
        LoadRequest::Texture { id, path } => {
            assert_eq!(*id, a.id());
            assert_eq!(path, "assets/wood.png");
        }
        other => panic!("unexpected request {:?}", other),
    }
    assert!(m.take_load_requests().is_empty());
}

#[test]
fn different_paths_get_different_handles() {
    let mut m: AssetManager<u32> = AssetManager::new();
    let a = m.load_texture("a.png");
    let b = m.load_texture("b.png");
    assert_ne!(a.id(), b.id());
    assert_eq!(m.texture_count(), 2);
    assert_eq!(m.take_load_requests().len(), 2);
    assert_eq!(m.cached_texture("c.png"), None);
}

#[test]
fn tick_makes_textures_ready_or_failed() {
    let mut m: AssetManager<u32> = AssetManager::new();
    let a = m.load_texture("a.png");
    let b = m.load_texture("b.png");
    m.tick(vec![
        LoadResult::Texture { id: a.id(), result: Ok(Texture::solid(1, 2, 3, 4)) },
        LoadResult::Texture { id: b.id(), result: Err("no such file".to_string()) },
    ]);
    assert_eq!(m.texture(&a).unwrap().pixels, vec![1, 2, 3, 4]);
    assert!(m.texture(&b).is_none());
    assert_eq!(m.texture_count(), 2);
}

#[test]
fn tick_applies_results_in_order() {
    let mut m: AssetManager<u32> = AssetManager::new();
    let a = m.load_texture("a.png");
    m.tick(vec![
        LoadResult::Texture { id: a.id(), result: Ok(Texture::solid(1, 1, 1, 1)) },
        LoadResult::Texture { id: a.id(), result: Ok(Texture::solid(9, 9, 9, 9)) },
    ]);
    assert_eq!(m.texture(&a).unwrap().pixels, vec![9, 9, 9, 9]);
    m.tick(Vec::new());
    assert_eq!(m.texture(&a).unwrap().pixels, vec![9, 9, 9, 9]);
}

#[test]
fn audio_loads_through_requests_and_tick() {
    let mut m: AssetManager<&'static str> = AssetManager::new();
    let h = m.load_audio("boom.ogg");
    assert_eq!(h.kind(), "audio");
    assert!(m.audio(&h).is_none());
    let reqs = m.take_load_requests();
    match &reqs[..] {
        [LoadRequest::Audio { id, path }] => {
            assert_eq!(*id, h.id());
            assert_eq!(path, "assets/boom.ogg");
        }
        other => panic!("unexpected requests {:?}", other),
    }
    // Audio is not cached by path: a second load is a second clip.
    let h2 = m.load_audio("boom.ogg");
    assert_ne!(h.id(), h2.id());
    m.tick(vec![LoadResult::Audio { id: h.id(), result: Ok("clip") }]);
    assert_eq!(m.audio(&h), Some(&"clip"));
    assert_eq!(m.audio_count(), 2);
    assert_eq!(m.total_assets(), 2);
}

#[test]
fn register_texture_is_ready_at_once() {
    let mut m: AssetManager<u32> = AssetManager::new();
    let h = m.register_texture(Texture::solid(5, 6, 7, 8));
    assert_eq!(m.texture(&h).unwrap().pixels, vec![5, 6, 7, 8]);
    assert!(m.take_load_requests().is_empty());
    assert_eq!(m.total_assets(), 1);
}

#[test]
fn load_texture_sync_decodes_and_caches() {
    let mut m: AssetManager<u32> = AssetManager::new();
    let bytes = png_bytes(1, 1, &[1, 2, 3, 4]);
    let h = m.load_texture_sync("p.png", &bytes).unwrap();
    assert_eq!(m.texture(&h).unwrap().pixels, vec![1, 2, 3, 4]);
    // Cached: other bytes are not even looked at.
    let again = m.load_texture_sync("p.png", b"garbage").unwrap();
    assert_eq!(again, h);
    assert_eq!(m.texture_count(), 1);
    assert!(m.take_load_requests().is_empty());
}

#[test]
fn load_texture_sync_error_changes_nothing() {
    let mut m: AssetManager<u32> = AssetManager::new();
    assert!(m.load_texture_sync("bad.png", b"garbage").is_err());
    assert_eq!(m.texture_count(), 0);
    assert_eq!(m.cached_texture("bad.png"), None);
}

#[test]
fn load_texture_sync_without_extension_fails() {
    let mut m: AssetManager<u32> = AssetManager::new();
    let bytes = png_bytes(1, 1, &[1, 2, 3, 4]);
    assert!(matches!(m.load_texture_sync("noext", &bytes), Err(AssetError::UnsupportedFormat)));
    assert_eq!(m.texture_count(), 0);
    assert_eq!(m.cached_texture("noext"), None);
}

#[test]
fn cached_path_keeps_its_handle_through_later_calls() {
    let mut m: AssetManager<u32> = AssetManager::new();
    m.set_root("assets");
    let h = m.load_texture("hero.png");
    let _ = m.load_audio("music.ogg");
    let _ = m.register_texture(Texture::solid(1, 2, 3, 4));
    let _ = m.load_texture("other.png");
    let _ = m.take_load_requests();
    m.tick(vec![LoadResult::Texture { id: h.id(), result: Ok(Texture::solid(5, 6, 7, 8)) }]);
    m.set_root("assets");
    let count = m.texture_count();
    assert_eq!(m.load_texture("hero.png"), h);
    assert_eq!(m.texture_count(), count);
    assert!(m.take_load_requests().is_empty());
}

#[test]
fn texture_lookup_by_audio_handle_finds_nothing() {
    let mut m: AssetManager<u32> = AssetManager::new();
    let h = m.load_audio("a.ogg");
    assert!(m.texture(&h).is_none());
}

#[test]
fn path_keys_ignore_repeated_separators_and_dots() {
    let k = |s: &str| PathKey::of(s);
    assert!(k("a//b/./c/").same_as(&k("a/b/c")));
    assert!(k("/a/b").same_as(&k("//a//b/")));
    assert!(!k("/a/b").same_as(&k("a/b")));
    assert!(!k("./a").same_as(&k("a")));
    assert!(k("./a").same_as(&k(".//a")));
    assert!(!k("a/../b").same_as(&k("b")));
    assert!(k("").same_as(&k("")));
    assert!(!k("a.png").same_as(&k("b.png")));
}

#[test]
fn equivalent_paths_share_one_texture() {
    let mut m: AssetManager<u32> = AssetManager::new();
    let a = m.load_texture("sub//x.png");
    let b = m.load_texture("sub/./x.png");
    assert_eq!(a, b);
    assert_eq!(m.take_load_requests().len(), 1);
}

#[test]
fn has_extension_matches_exactly() {
    assert!(has_extension("scripts/main.lua", "lua"));
    assert!(!has_extension("scripts/main.LUA", "lua"));
    assert!(!has_extension("scripts/.lua", "lua"));
    assert!(!has_extension("scripts/main.lua.bak", "lua"));
    assert!(!has_extension("scripts/lua", "lua"));
}

#[test]
fn handle_ids_are_version_four_uuids() {
    let mut m: AssetManager<u32> = AssetManager::new();
    let ids = [
        m.load_texture("a.png").id(),
        m.load_audio("b.ogg").id(),
        m.register_texture(Texture::solid(0, 0, 0, 0)).id(),
    ];
    for id in ids {
        assert_eq!(id & 0xF000_C000_0000_0000_0000, 0x4000_8000_0000_0000_0000);
        assert_eq!(uuid::Uuid::from_u128(id).get_version_num(), 4);
    }
}

#[test]
fn new_loads_raise_the_counts_by_one() {
    let mut m: AssetManager<u32> = AssetManager::new();
    let a1 = m.load_audio("s.ogg");
    assert_eq!(m.audio_count(), 1);
    let a2 = m.load_audio("s.ogg");
    assert_ne!(a1, a2);
    assert_eq!(m.audio_count(), 2);
    assert!(m.audio(&a2).is_none());
    let t = m.load_texture("t.png");
    assert_eq!(m.texture_count(), 1);
    assert!(m.texture(&t).is_none());
    let bytes = png_bytes(1, 1, &[1, 2, 3, 4]);
    let s = m.load_texture_sync("s.png", &bytes).unwrap();
    assert_eq!(m.texture_count(), 2);
    assert!(m.texture(&s).is_some());
}
