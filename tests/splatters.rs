use base64::Engine;
use image::{DynamicImage, ImageFormat, Rgba, RgbaImage};
use splatters::cache::{for_index, resolve, AssetTable, SplatterCache, ASSET_COUNT};
use splatters::frames::frame_slot;
use splatters::decode::{image_from_str, try_image_from_str, SplatterError};
use splatters::frames::Splatter;
use splatters::size::{anchor, SplatterSize};

/// Unpadded base-64 of a PNG whose width tells the asset apart.
fn encoded_png(width: u32, shade: u8) -> String {
    let img = DynamicImage::ImageRgba8(RgbaImage::from_pixel(width, 2, Rgba([shade, 10, 20, 255])));
    let mut bytes = std::io::Cursor::new(Vec::new());
    img.write_to(&mut bytes, ImageFormat::Png).unwrap();
    base64::engine::general_purpose::STANDARD_NO_PAD.encode(bytes.into_inner())
}

/// Asset `i` of the table is a PNG of width `i + 1`.
fn texts() -> Vec<String> {
    (0..ASSET_COUNT).map(|i| encoded_png(i as u32 + 1, i as u8 * 7)).collect()
}

fn cache() -> SplatterCache {
    SplatterCache::new(AssetTable::new(texts()).unwrap())
}

fn width_at(cache: &mut SplatterCache, index: usize, frame: usize, size: SplatterSize) -> u32 {
    for_index(cache, index, frame, size, 0, 0).unwrap().0.width
}

#[test]
fn anchor_regular_at_200() {
    assert_eq!(anchor(200, 200, &SplatterSize::Regular), (80, 80));
}

#[test]
fn anchor_large_at_200() {
    assert_eq!(anchor(200, 200, &SplatterSize::Large), (0, 0));
}

#[test]
fn anchor_floors_before_subtracting() {
    let x = 150.7f32.floor() as i64;
    let y = 150.7f32.floor() as i64;
    assert_eq!(anchor(x, y, &SplatterSize::Regular), (30, 30));
}

#[test]
fn anchor_negative_target() {
    assert_eq!(anchor(-5, 10, &SplatterSize::Large), (-205, -190));
}

#[test]
fn anchor_saturates_at_least_i64() {
    assert_eq!(anchor(i64::MIN, i64::MIN + 150, &SplatterSize::Regular), (i64::MIN, i64::MIN + 30));
    assert_eq!(anchor(i64::MIN + 199, i64::MAX, &SplatterSize::Large), (i64::MIN, i64::MAX - 200));
    assert_eq!(anchor(f32::NEG_INFINITY as i64, 0, &SplatterSize::Large), (i64::MIN, -200));
}

#[test]
fn half_extents() {
    assert_eq!(SplatterSize::Regular.half_extent(), 120);
    assert_eq!(SplatterSize::Large.half_extent(), 200);
}

#[test]
fn decode_valid_asset() {
    let img = try_image_from_str(&encoded_png(3, 1)).unwrap();
    assert_eq!((img.width, img.height), (3, 2));
}

#[test]
fn decode_valid_asset_directly() {
    let img = image_from_str(&encoded_png(5, 9));
    assert_eq!((img.width, img.height), (5, 2));
}

#[test]
fn decode_rejects_bad_text() {
    assert_eq!(try_image_from_str("not base64!").err(), Some(SplatterError::BadText));
}

#[test]
fn decode_rejects_padding() {
    let padded = base64::engine::general_purpose::STANDARD.encode(b"ab");
    assert!(padded.ends_with('='));
    assert_eq!(try_image_from_str(&padded).err(), Some(SplatterError::BadText));
}

#[test]
fn decode_rejects_non_png_bytes() {
    assert_eq!(try_image_from_str("aGVsbG8").err(), Some(SplatterError::BadImage));
}

#[test]
fn decode_rejects_empty_text() {
    assert_eq!(try_image_from_str("").err(), Some(SplatterError::BadImage));
}

#[test]
fn asset_table_needs_every_asset() {
    assert!(AssetTable::new(Vec::new()).is_none());
    let mut short = texts();
    short.pop();
    assert!(AssetTable::new(short).is_none());
    assert!(AssetTable::new(texts()).is_some());
}

#[test]
fn get_decodes_the_right_set() {
    let mut c = cache();
    let set = c.get(2, SplatterSize::Large).unwrap();
    let widths: Vec<u32> = set.to_arr().iter().map(|i| i.width).collect();
    // effect 2, large: set 5, assets 20..24
    assert_eq!(widths, vec![21, 22, 23, 24]);
}

#[test]
fn get_twice_returns_the_same_set() {
    let mut c = cache();
    let first = c.get(1, SplatterSize::Regular).unwrap().frame(2).rgba.clone();
    let second = c.get(1, SplatterSize::Regular).unwrap();
    assert_eq!(second.frame(2).rgba, first);
    let (a, b) = (c.decoded(1, SplatterSize::Regular).unwrap(), c.decoded(1, SplatterSize::Regular).unwrap());
    assert!(std::ptr::eq(a, b));
    assert!(c.decoded(1, SplatterSize::Large).is_none());
}

#[test]
fn frame_clamps_to_last() {
    let mut c = cache();
    let set = c.get(0, SplatterSize::Regular).unwrap();
    assert_eq!(set.frame(0).width, 1);
    assert_eq!(set.frame(3).width, 4);
    assert!(std::ptr::eq(set.frame(4), set.frame(3)));
    assert!(std::ptr::eq(set.frame(usize::MAX), set.frame(3)));
}

#[test]
fn for_index_finds_frame_and_anchor() {
    let mut c = cache();
    let (img, at) = for_index(&mut c, 3, 1, SplatterSize::Regular, 500, 300).unwrap();
    // effect 3, regular: set 6, assets 24..28
    assert_eq!(img.width, 26);
    assert_eq!(at, (380, 180));
}

#[test]
fn for_index_late_frames_hold_the_last() {
    let mut c = cache();
    for frame in [4usize, 5, 100] {
        assert_eq!(width_at(&mut c, 1, frame, SplatterSize::Large), width_at(&mut c, 1, 3, SplatterSize::Large));
    }
    assert_eq!(width_at(&mut c, 1, 3, SplatterSize::Large), 16);
}

#[test]
fn for_index_unknown_effect_is_effect_zero() {
    let mut c = cache();
    for size in [SplatterSize::Regular, SplatterSize::Large] {
        for frame in 0..6usize {
            let w99 = width_at(&mut c, 99, frame, size);
            assert_eq!(w99, width_at(&mut c, 0, frame, size));
        }
    }
    assert!(c.decoded(1, SplatterSize::Regular).is_none());
    assert_eq!(width_at(&mut c, 99, 1, SplatterSize::Large), 6);
}

#[test]
fn precompute_then_lookup_reuses_sets() {
    let mut c = cache();
    assert_eq!(c.try_precompute(), Ok(()));
    for effect in 0..4usize {
        assert!(c.decoded(effect, SplatterSize::Regular).is_some());
        assert!(c.decoded(effect, SplatterSize::Large).is_some());
    }
    let before = c.decoded(3, SplatterSize::Large).unwrap().frame(2).rgba.clone();
    let img = for_index(&mut c, 3, 2, SplatterSize::Large, 0, 0).unwrap().0.rgba.clone();
    assert_eq!(img, before);
    assert_eq!(c.try_precompute(), Ok(()));
    let set = c.decoded(3, SplatterSize::Large).unwrap();
    assert!(std::ptr::eq(set.frame(2), c.decoded(3, SplatterSize::Large).unwrap().frame(2)));
}

#[test]
fn two_caches_decode_alike() {
    let mut a = cache();
    let mut b = cache();
    for index in 0..4usize {
        for size in [SplatterSize::Regular, SplatterSize::Large] {
            for frame in 0..4usize {
                let ia = for_index(&mut a, index, frame, size, 0, 0).unwrap().0;
                let (wa, ha, pa) = (ia.width, ia.height, ia.rgba.clone());
                let ib = for_index(&mut b, index, frame, size, 0, 0).unwrap().0;
                assert_eq!((wa, ha), (ib.width, ib.height));
                assert_eq!(pa, ib.rgba);
            }
        }
    }
}

#[test]
fn bad_asset_reports_first_failure() {
    let mut t = texts();
    // effect 1, regular: assets 8..12
    t[9] = "aGVsbG8".to_string();
    t[10] = "###".to_string();
    let mut c = SplatterCache::new(AssetTable::new(t).unwrap());
    assert_eq!(c.get(1, SplatterSize::Regular).err(), Some(SplatterError::BadImage));
    assert!(c.get(1, SplatterSize::Large).is_ok());
    assert_eq!(for_index(&mut c, 1, 0, SplatterSize::Large, 0, 0).err(), Some(SplatterError::BadImage));
    assert!(for_index(&mut c, 0, 0, SplatterSize::Regular, 0, 0).is_ok());
}

#[test]
fn precompute_stops_at_bad_set() {
    let mut t = texts();
    // effect 2, large: assets 20..24
    t[23] = "@@".to_string();
    let mut c = SplatterCache::new(AssetTable::new(t).unwrap());
    assert_eq!(c.try_precompute(), Err(SplatterError::BadText));
    assert!(c.get(0, SplatterSize::Large).is_ok());
    assert_eq!(c.get(2, SplatterSize::Large).err(), Some(SplatterError::BadText));
}

#[test]
fn splatter_num_pairs_both_sizes() {
    let mut c = cache();
    let s = Splatter::num(&mut c, 2).unwrap();
    assert_eq!(s.frame(0, &SplatterSize::Regular).width, 17);
    assert_eq!(s.frame(9, &SplatterSize::Large).width, 24);
    assert_eq!(s.at(300, 250, &SplatterSize::Large), (100, 50));
}

#[test]
fn splatter_num_unknown_is_zero() {
    let mut c = cache();
    let s = Splatter::num(&mut c, 200).unwrap();
    assert_eq!(s.frame(1, &SplatterSize::Regular).width, 2);
    assert_eq!(s.frame(1, &SplatterSize::Large).width, 6);
}

#[test]
fn splatter_num_reports_large_failure() {
    let mut t = texts();
    // effect 0, large: assets 4..8
    t[5] = "aGVsbG8".to_string();
    let mut c = SplatterCache::new(AssetTable::new(t).unwrap());
    assert_eq!(Splatter::num(&mut c, 0).err(), Some(SplatterError::BadImage));
    assert!(c.get(0, SplatterSize::Regular).is_ok());
}

#[test]
fn for_index_builds_both_sizes() {
    let mut c = cache();
    assert!(for_index(&mut c, 2, 0, SplatterSize::Regular, 0, 0).is_ok());
    assert!(c.decoded(2, SplatterSize::Regular).is_some());
    assert!(c.decoded(2, SplatterSize::Large).is_some());
    assert!(c.decoded(1, SplatterSize::Regular).is_none());
    assert!(c.decoded(3, SplatterSize::Large).is_none());
}

#[test]
fn for_index_fails_on_bad_large_set() {
    let mut t = texts();
    // effect 3, large: assets 28..32
    t[30] = "AAAA".to_string();
    let mut c = SplatterCache::new(AssetTable::new(t).unwrap());
    assert_eq!(for_index(&mut c, 3, 0, SplatterSize::Regular, 0, 0).err(), Some(SplatterError::BadImage));
    assert!(c.decoded(3, SplatterSize::Regular).is_some());
    assert!(c.decoded(3, SplatterSize::Large).is_none());
}

#[test]
fn get_valid_and_precompute() {
    let mut c = cache();
    assert_eq!(c.get_valid(1, SplatterSize::Large).frame(0).width, 13);
    c.precompute();
    for effect in 0..4usize {
        assert!(c.decoded(effect, SplatterSize::Regular).is_some());
        assert!(c.decoded(effect, SplatterSize::Large).is_some());
    }
    assert_eq!(c.get_valid(1, SplatterSize::Large).frame(0).width, 13);
}

#[test]
fn resolve_on_valid_assets() {
    let mut c = cache();
    let (img, at) = resolve(&mut c, 99, 7, SplatterSize::Large, 200, 200);
    // effect 0, large: assets 4..8, last frame
    assert_eq!(img.width, 8);
    assert_eq!(at, (0, 0));
    let (img, at) = resolve(&mut c, 1, 2, SplatterSize::Regular, 150, 150);
    assert_eq!(img.width, 11);
    assert_eq!(at, (30, 30));
}

#[test]
fn decoded_pixels_are_rgba() {
    let img = try_image_from_str(&encoded_png(2, 77)).unwrap();
    assert_eq!(img.rgba, vec![77, 10, 20, 255, 77, 10, 20, 255, 77, 10, 20, 255, 77, 10, 20, 255]);
}

#[test]
fn decoded_grey_png_becomes_rgba() {
    let grey = DynamicImage::ImageLuma8(image::GrayImage::from_pixel(1, 1, image::Luma([9])));
    let mut bytes = std::io::Cursor::new(Vec::new());
    grey.write_to(&mut bytes, ImageFormat::Png).unwrap();
    let text = base64::engine::general_purpose::STANDARD_NO_PAD.encode(bytes.into_inner());
    let img = image_from_str(&text);
    assert_eq!((img.width, img.height, img.rgba.clone()), (1, 1, vec![9, 9, 9, 255]));
}

#[test]
fn frames_hold_their_own_assets_in_order() {
    let mut c = cache();
    for effect in 0..4usize {
        for (slot, size) in [SplatterSize::Regular, SplatterSize::Large].into_iter().enumerate() {
            let set = c.get(effect, size).unwrap();
            for frame in 0..4usize {
                let i = (effect * 2 + slot) * 4 + frame;
                assert_eq!(set.frame(frame).width, i as u32 + 1);
                assert_eq!(set.frame(frame).rgba[0], i as u8 * 7);
            }
        }
    }
}

#[test]
fn checked_cache_is_warm() {
    let c = SplatterCache::checked(AssetTable::new(texts()).unwrap()).unwrap();
    for effect in 0..4usize {
        assert!(c.decoded(effect, SplatterSize::Regular).is_some());
        assert!(c.decoded(effect, SplatterSize::Large).is_some());
    }
}

#[test]
fn checked_cache_refuses_bad_assets() {
    let mut t = texts();
    t[31] = "!!!!".to_string();
    assert!(SplatterCache::checked(AssetTable::new(t).unwrap()).is_none());
}

#[test]
fn frame_slot_clamps() {
    assert_eq!(frame_slot(0), 0);
    assert_eq!(frame_slot(3), 3);
    assert_eq!(frame_slot(4), 3);
    assert_eq!(frame_slot(usize::MAX), 3);
}
