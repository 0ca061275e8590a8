use raycasting_term::fx::FX_SCALE;
use raycasting_term::projection::{
    get_sorted_window_sprites, sort_window_sprites, ObservedSprite, ProjectionSetup, WindowSprite,
};
use raycasting_term::sprite_sheet::{test_image_sheet, SpriteSheet};

const SCALE: f64 = 281474976710656.0;

fn fx(v: f64) -> i64 {
    (v * SCALE).round() as i64
}

fn setup(own_id: Option<u32>) -> ProjectionSetup {
    let fov = 60_f64.to_radians();
    ProjectionSetup {
        own_id,
        facing: 0,
        cos_facing: FX_SCALE,
        sin_facing: 0,
        cull_limit: fx(fov),
        screen_width: 80,
        tan_half_fov: fx((fov / 2.0).tan()),
    }
}

fn dead_ahead(id: u32, distance: f64) -> ObservedSprite {
    ObservedSprite {
        id,
        sprite_sheet_index: 0,
        facing_angle: None,
        bearing: 0,
        cos_bearing: FX_SCALE,
        sin_bearing: 0,
        euclid_distance: fx(distance),
    }
}

#[test]
fn own_sprite_is_excluded_even_in_view() {
    let sheets: Vec<SpriteSheet> = vec![test_image_sheet()];
    let observations = vec![dead_ahead(7, 3.0), dead_ahead(1, 4.0)];
    let r = get_sorted_window_sprites(&setup(Some(7)), &observations, &sheets).unwrap();
    assert_eq!(r.len(), 1);
    assert_eq!(r[0].distance, fx(4.0));
    // Without a matching own id both are kept.
    let r = get_sorted_window_sprites(&setup(None), &observations, &sheets).unwrap();
    assert_eq!(r.len(), 2);
}

#[test]
fn sprites_come_out_farthest_first() {
    let sheets: Vec<SpriteSheet> = vec![test_image_sheet()];
    let observations = vec![dead_ahead(1, 5.0), dead_ahead(2, 1.0), dead_ahead(3, 3.0)];
    let r = get_sorted_window_sprites(&setup(None), &observations, &sheets).unwrap();
    assert_eq!(r.len(), 3);
    assert_eq!(r[0].distance, fx(5.0));
    assert_eq!(r[1].distance, fx(3.0));
    assert_eq!(r[2].distance, fx(1.0));
}

#[test]
fn sort_keeps_records_and_orders_them() {
    let mut v = vec![
        WindowSprite::new(0, 0, 10, fx(2.0)),
        WindowSprite::new(1, 0, 20, fx(9.0)),
        WindowSprite::new(2, 0, 30, fx(4.0)),
        WindowSprite::new(3, 0, 40, fx(4.0)),
    ];
    sort_window_sprites(&mut v);
    assert_eq!(v.len(), 4);
    assert_eq!(v[0].distance, fx(9.0));
    assert_eq!(v[1].distance, fx(4.0));
    assert_eq!(v[2].distance, fx(4.0));
    assert_eq!(v[3].distance, fx(2.0));
    let mut xs: Vec<i16> = v.iter().map(|w| w.x).collect();
    xs.sort();
    assert_eq!(xs, vec![10, 20, 30, 40]);
}

#[test]
fn out_of_view_and_degenerate_sprites_are_culled() {
    let sheets: Vec<SpriteSheet> = vec![test_image_sheet()];
    // Behind the player: bearing half a turn away.
    let behind = ObservedSprite {
        id: 1,
        sprite_sheet_index: 0,
        facing_angle: None,
        bearing: fx(std::f64::consts::PI),
        cos_bearing: -FX_SCALE,
        sin_bearing: 0,
        euclid_distance: fx(3.0),
    };
    // On top of the camera.
    let too_close = dead_ahead(2, 0.0);
    let r = get_sorted_window_sprites(&setup(None), &vec![behind, too_close], &sheets).unwrap();
    assert_eq!(r.len(), 0);
}

#[test]
fn missing_sheet_is_a_fault_only_for_directional_sprites() {
    let sheets: Vec<SpriteSheet> = vec![test_image_sheet()];
    let mut bad = dead_ahead(1, 3.0);
    bad.sprite_sheet_index = 5;
    bad.facing_angle = Some(0);
    assert!(get_sorted_window_sprites(&setup(None), &vec![bad], &sheets).is_none());
    // The same record without a facing angle never touches the sheet list.
    let mut plain = dead_ahead(1, 3.0);
    plain.sprite_sheet_index = 5;
    assert!(get_sorted_window_sprites(&setup(None), &vec![plain], &sheets).is_some());
}

#[test]
fn screen_x_lands_at_screen_center_for_a_dead_ahead_sprite() {
    let sheets: Vec<SpriteSheet> = vec![test_image_sheet()];
    let r = get_sorted_window_sprites(&setup(None), &vec![dead_ahead(1, 3.0)], &sheets).unwrap();
    assert_eq!(r[0].x, 40);
}

#[test]
fn sprite_records_hold_their_fields() {
    let s = raycasting_term::sprite::Sprite::new(3, fx(4.0), fx(6.0), 2, Some(fx(1.5)));
    assert_eq!(s.id, 3);
    assert_eq!(s.x, fx(4.0));
    assert_eq!(s.y, fx(6.0));
    assert_eq!(s.sprite_sheet_index, 2);
    assert_eq!(s.angle, Some(fx(1.5)));
}
