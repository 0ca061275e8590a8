use raycasting_term::sprite_sheet::{test_image_sheet, SpriteSheet, SpriteSheetKind};

const SCALE: f64 = 281474976710656.0;

fn fx(v: f64) -> i64 {
    (v * SCALE).round() as i64
}

fn eight_dir_sheet() -> SpriteSheet {
    SpriteSheet::new(16, 128, vec![0u8; 4 * 16 * 128]).unwrap()
}

#[test]
fn sheet_kind_follows_the_height_to_width_ratio() {
    let single = SpriteSheet::new(16, 16, vec![0u8; 4 * 16 * 16]).unwrap();
    assert!(matches!(single.kind, SpriteSheetKind::Single));
    assert_eq!(single.size(), 16);
    let eight = eight_dir_sheet();
    assert!(matches!(eight.kind, SpriteSheetKind::EightDirectional));
}

#[test]
fn unsupported_shapes_are_asset_faults() {
    // A ratio of 3 frames is not a known layout.
    assert!(SpriteSheet::new(16, 48, vec![0u8; 4 * 16 * 48]).is_none());
    // A height that is not a multiple of the width.
    assert!(SpriteSheet::new(16, 20, vec![0u8; 4 * 16 * 20]).is_none());
    // A pixel buffer that does not match the dimensions.
    assert!(SpriteSheet::new(16, 16, vec![0u8; 7]).is_none());
    // A zero width would make the ratio meaningless.
    assert!(SpriteSheet::new(0, 16, vec![]).is_none());
}

#[test]
fn facing_angle_zero_selects_frame_zero() {
    let sheet = eight_dir_sheet();
    assert_eq!(sheet.get_y_offset(0), 0);
}

#[test]
fn forty_five_degrees_selects_the_second_bucket() {
    let sheet = eight_dir_sheet();
    let eps = 1e-6;
    assert_eq!(sheet.get_y_offset(fx((45f64 - eps).to_radians())), 7 * 16);
    assert_eq!(sheet.get_y_offset(fx((45f64 + eps).to_radians())), 7 * 16);
}

#[test]
fn bucket_boundaries_resolve_consistently() {
    let sheet = eight_dir_sheet();
    let boundary = raycasting_term::sprite_sheet::FX_DEG_22_5;
    // Exactly on the boundary the angle falls into the bucket above it,
    // and repeated identical inputs never flap.
    let first = sheet.get_y_offset(boundary);
    assert_eq!(first, 7 * 16);
    for _ in 0..10 {
        assert_eq!(sheet.get_y_offset(boundary), first);
    }
    // Just below it stays in the front bucket.
    assert_eq!(sheet.get_y_offset(boundary - 1), 0);
}

#[test]
fn all_eight_buckets_are_reachable() {
    let sheet = eight_dir_sheet();
    let expected: Vec<u32> = vec![0, 7, 6, 5, 4, 3, 2, 1];
    for (i, frames) in expected.iter().enumerate() {
        let angle = fx((i as f64 * 45.0).to_radians());
        assert_eq!(sheet.get_y_offset(angle), frames * 16, "sector {}", i);
    }
}

#[test]
fn test_image_has_the_documented_ramp() {
    let sheet = test_image_sheet();
    assert_eq!(sheet.size(), 16);
    // Top-left pixel: pure red at a quarter brightness plus one step.
    let (r, g, b, a) = sheet.pixel(0, 0);
    assert_eq!((r, g, b, a), ((255 * 19 / 64) as u8, 0, 0, 255));
    // Top-right pixel: full brightness red.
    let (r, _, _, _) = sheet.pixel(15, 0);
    assert_eq!(r, 255);
    // Row 8 is pure green.
    let (r, g, b, a) = sheet.pixel(15, 8);
    assert_eq!((r, g, b, a), (0, 255, 0, 255));
    // Every pixel is fully opaque.
    for y in 0..16 {
        for x in 0..16 {
            assert_eq!(sheet.pixel(x, y).3, 255);
        }
    }
}

#[test]
fn oversized_sheets_are_rejected() {
    // A large frame edge within the addressable limit.
    assert!(SpriteSheet::new(4096, 4096, vec![0u8; 4 * 4096 * 4096]).is_some());
    // Past the limit the sheet is rejected before the buffer is looked at.
    assert!(SpriteSheet::new(0x2001, 0x2001, vec![]).is_none());
}

#[test]
fn angles_near_a_full_turn_wrap_into_the_front_sector() {
    let sheet = eight_dir_sheet();
    // The front sector straddles zero: both ends of the turn select
    // frame 0.
    assert_eq!(sheet.get_y_offset(fx(350f64.to_radians())), 0);
    assert_eq!(sheet.get_y_offset(fx(359.9f64.to_radians())), 0);
    // Exactly at the last boundary the angle enters the front sector.
    assert_eq!(
        sheet.get_y_offset(raycasting_term::sprite_sheet::FX_DEG_337_5),
        0
    );
    // Just below it the angle still selects the last side frame.
    assert_eq!(
        sheet.get_y_offset(raycasting_term::sprite_sheet::FX_DEG_337_5 - 1),
        16
    );
}
