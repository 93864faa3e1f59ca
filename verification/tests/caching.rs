use std::io::Cursor;

use image::{ImageFormat, Rgba, RgbaImage};

use openroom::cache::PreviewCache;
use openroom::decode::decode_bytes;
use openroom::recipe::EditRecipe;
use openroom::render::{render_preview_with_recipe, thumbnail_pixels, RenderError};

fn png_bytes_of(w: u32, h: u32, f: impl Fn(u32, u32) -> [u8; 4]) -> Vec<u8> {
    let mut img = RgbaImage::new(w, h);
    for (x, y, px) in img.enumerate_pixels_mut() {
        *px = Rgba(f(x, y));
    }
    let mut out = Cursor::new(Vec::new());
    image::DynamicImage::ImageRgba8(img)
        .write_to(&mut out, ImageFormat::Png)
        .unwrap();
    out.into_inner()
}

fn wide_source() -> Vec<u8> {
    png_bytes_of(2400, 100, |x, _| [(x % 256) as u8, 64, 128, 255])
}

#[test]
fn decode_round_trips_pixels() {
    let bytes = png_bytes_of(2, 2, |x, y| [(10 + x) as u8, (20 + y) as u8, 30, 255]);
    let img = decode_bytes(&bytes).unwrap();
    assert_eq!((img.width, img.height), (2, 2));
    assert_eq!(
        img.data,
        vec![
            10, 20, 30, 255, 11, 20, 30, 255, 10, 21, 30, 255, 11, 21, 30, 255
        ]
    );
}

#[test]
fn decode_failure_reports_every_backend() {
    let garbage = vec![0u8, 1, 2, 3, 4, 5, 6, 7];
    let err = decode_bytes(&garbage).unwrap_err();
    assert_eq!(err.attempts.len(), 3);
    assert!(err.attempts[0].starts_with("image: "));
    assert!(err.attempts[1].starts_with("raw: "));
    assert!(err.attempts[2].starts_with("dummy: "));
    let msg = err.message();
    assert!(msg.contains("image: "));
    assert!(msg.contains("raw: "));
    assert!(msg.contains("dummy: "));
}

#[test]
fn growing_requests_redecode_once_then_hit() {
    let bytes = wide_source();
    let mut cache = PreviewCache::new();
    let id = String::from("asset");
    let first = cache.scaled_preview(&id, &bytes, 800).unwrap();
    assert_eq!(cache.decode_count(), 1);
    assert_eq!(first.width.max(first.height), 800);
    let second = cache.scaled_preview(&id, &bytes, 2000).unwrap();
    assert_eq!(cache.decode_count(), 2);
    assert_eq!(second.width.max(second.height), 2000);
    let third = cache.scaled_preview(&id, &bytes, 800).unwrap();
    assert_eq!(cache.decode_count(), 2);
    assert_eq!(third.width.max(third.height), 800);
}

#[test]
fn same_clamp_requests_share_one_entry() {
    let bytes = wide_source();
    let mut cache = PreviewCache::new();
    let id = String::from("asset");
    // Both requests clamp to 480: they collide on one cache entry by design.
    let a = cache.scaled_preview(&id, &bytes, 100).unwrap();
    let b = cache.scaled_preview(&id, &bytes, 479).unwrap();
    assert_eq!(cache.decode_count(), 1);
    assert_eq!((a.width, a.height), (b.width, b.height));
    assert_eq!(a.data, b.data);
}

#[test]
fn lru_evicts_the_oldest_of_three_assets() {
    let bytes = wide_source();
    let mut cache = PreviewCache::new();
    let (a, b, c) = (String::from("a"), String::from("b"), String::from("c"));
    cache.master_preview(&a, &bytes, 800).unwrap();
    cache.master_preview(&b, &bytes, 800).unwrap();
    cache.master_preview(&c, &bytes, 800).unwrap();
    assert_eq!(cache.decode_count(), 3);
    // B and C are still resident.
    cache.master_preview(&b, &bytes, 800).unwrap();
    cache.master_preview(&c, &bytes, 800).unwrap();
    assert_eq!(cache.decode_count(), 3);
    // A was evicted and must decode again.
    cache.master_preview(&a, &bytes, 800).unwrap();
    assert_eq!(cache.decode_count(), 4);
}

#[test]
fn clearing_the_cache_forces_a_redecode() {
    let bytes = wide_source();
    let mut cache = PreviewCache::new();
    let id = String::from("asset");
    cache.master_preview(&id, &bytes, 800).unwrap();
    assert_eq!(cache.decode_count(), 1);
    cache.clear_preview_cache();
    cache.master_preview(&id, &bytes, 800).unwrap();
    assert_eq!(cache.decode_count(), 2);
}

#[test]
fn identity_recipe_renders_byte_identically() {
    let bytes = wide_source();
    let mut cache = PreviewCache::new();
    let id = String::from("asset");
    let plain = render_preview_with_recipe(&mut cache, &id, &bytes, None, Some(600)).unwrap();
    let identity = EditRecipe::default();
    let with_recipe =
        render_preview_with_recipe(&mut cache, &id, &bytes, Some(&identity), Some(600)).unwrap();
    assert_eq!(plain, with_recipe);
}

#[test]
fn rendered_previews_are_png_streams() {
    let bytes = wide_source();
    let mut cache = PreviewCache::new();
    let id = String::from("asset");
    let out = render_preview_with_recipe(&mut cache, &id, &bytes, None, None).unwrap();
    assert_eq!(&out[0..4], &[0x89, b'P', b'N', b'G']);
}

#[test]
fn render_failure_carries_the_decode_error() {
    let garbage = vec![9u8, 9, 9];
    let mut cache = PreviewCache::new();
    let id = String::from("asset");
    match render_preview_with_recipe(&mut cache, &id, &garbage, None, None) {
        Err(RenderError::Decode(e)) => assert_eq!(e.attempts.len(), 3),
        _ => panic!("expected a decode failure"),
    }
}

#[test]
fn thumbnails_never_fail_outward() {
    let garbage = vec![0u8; 16];
    let thumb = thumbnail_pixels(&garbage);
    // The placeholder is 480x320, scaled to the 360 thumbnail envelope.
    assert_eq!((thumb.width, thumb.height), (360, 240));
    let bytes = png_bytes_of(720, 480, |_, _| [50, 60, 70, 255]);
    let thumb2 = thumbnail_pixels(&bytes);
    assert_eq!((thumb2.width, thumb2.height), (360, 240));
}
