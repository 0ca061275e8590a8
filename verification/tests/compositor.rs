use raycasting_term::angles::FX_PI;
use raycasting_term::compositor::{
    column_angles, render_column, render, render_window_sprite, ColumnRay, Frame,
    COLOR_CEILING, COLOR_FLOOR, COLOR_WALL_1_VERTICAL,
};
use raycasting_term::fx::FX_SCALE;
use raycasting_term::grid::reference_arena;
use raycasting_term::projection::WindowSprite;
use raycasting_term::sprite_sheet::{test_image_sheet, SpriteSheet};

const SCALE: f64 = 281474976710656.0;

fn fx(v: f64) -> i64 {
    (v * SCALE).round() as i64
}

fn pixel(frame: &Frame, y: u16, x: u16) -> u32 {
    frame.pixels[y as usize * frame.width as usize + x as usize]
}

#[test]
fn a_wall_column_paints_ceiling_wall_and_floor_bands() {
    let g = reference_arena();
    let mut frame = Frame::new(45, 80);
    let mut z = vec![0i64; 80];
    let ray = ColumnRay { angle: FX_PI, dir_x: -FX_SCALE, dir_y: 0, cos_offset: FX_SCALE };
    // Player at (3, 4) looking straight at the west wall, 2 cells away.
    render_column(&mut frame, &mut z, &g, fx(3.0), fx(4.0), 10, ray);
    assert_eq!(z[10], fx(2.0));
    // Band height round(45 / 2) = 23, centered: rows 11..34.
    assert_eq!(pixel(&frame, 0, 10), COLOR_CEILING);
    assert_eq!(pixel(&frame, 10, 10), COLOR_CEILING);
    assert_eq!(pixel(&frame, 11, 10), COLOR_WALL_1_VERTICAL);
    assert_eq!(pixel(&frame, 33, 10), COLOR_WALL_1_VERTICAL);
    assert_eq!(pixel(&frame, 34, 10), COLOR_FLOOR);
    assert_eq!(pixel(&frame, 44, 10), COLOR_FLOOR);
    // Other columns were left alone.
    assert_eq!(pixel(&frame, 20, 11), 0);
}

#[test]
fn sprites_are_clipped_by_the_depth_buffer() {
    let g = reference_arena();
    let sheets = vec![test_image_sheet()];
    let mut frame = Frame::new(45, 80);
    let mut z = vec![0i64; 80];
    let rays: Vec<ColumnRay> = (0..80)
        .map(|_| ColumnRay { angle: FX_PI, dir_x: -FX_SCALE, dir_y: 0, cos_offset: FX_SCALE })
        .collect();
    // Every column's wall is 2 cells away.
    let behind = WindowSprite::new(0, 0, 40, fx(3.0));
    let ok = render(
        &mut frame,
        &mut z,
        &g,
        fx(3.0),
        fx(4.0),
        &rays,
        &vec![behind],
        &sheets,
    );
    assert!(ok);
    // The sprite is farther than every wall: nothing changed.
    assert!(z.iter().all(|&d| d == fx(2.0)));
    assert_eq!(pixel(&frame, 22, 40), COLOR_WALL_1_VERTICAL);
    // A nearer sprite draws and pulls the depth buffer in.
    let near = WindowSprite::new(0, 0, 40, fx(1.0));
    let mut frame2 = Frame::new(45, 80);
    let mut z2 = vec![0i64; 80];
    let ok = render(
        &mut frame2,
        &mut z2,
        &g,
        fx(3.0),
        fx(4.0),
        &rays,
        &vec![near],
        &sheets,
    );
    assert!(ok);
    assert!(z2[40] == fx(1.0));
    assert!(pixel(&frame2, 22, 40) != COLOR_WALL_1_VERTICAL);
}

#[test]
fn missing_sheet_index_fails_the_frame() {
    let g = reference_arena();
    let sheets = vec![test_image_sheet()];
    let mut frame = Frame::new(45, 80);
    let mut z = vec![0i64; 80];
    let rays: Vec<ColumnRay> = (0..80)
        .map(|_| ColumnRay { angle: FX_PI, dir_x: -FX_SCALE, dir_y: 0, cos_offset: FX_SCALE })
        .collect();
    let bad = WindowSprite::new(9, 0, 40, fx(1.0));
    let ok = render(&mut frame, &mut z, &g, fx(3.0), fx(4.0), &rays, &vec![bad], &sheets);
    assert!(!ok);
}

#[test]
fn column_sweep_spans_the_field_of_view() {
    let fov = 60f64.to_radians();
    let angles = column_angles(fx(std::f64::consts::PI), fx(fov), 80);
    assert_eq!(angles.len(), 80);
    // First column: facing plus half the field of view.
    let first = angles[0] as f64 / SCALE;
    assert!((first - (std::f64::consts::PI + fov / 2.0)).abs() < 1e-6);
    // Last column: close to facing minus half the field of view.
    let last = angles[79] as f64 / SCALE;
    assert!((last - (std::f64::consts::PI - fov / 2.0)).abs() < 1e-6);
    // The sweep is strictly decreasing over this range.
    for k in 1..80 {
        assert!(angles[k] < angles[k - 1]);
    }
}

#[test]
fn overlapping_sprites_resolve_to_the_nearest() {
    let g = reference_arena();
    let sheets = vec![test_image_sheet()];
    let mut frame = Frame::new(45, 80);
    let mut z = vec![0i64; 80];
    let rays: Vec<ColumnRay> = (0..80)
        .map(|_| ColumnRay { angle: FX_PI, dir_x: -FX_SCALE, dir_y: 0, cos_offset: FX_SCALE })
        .collect();
    // Far-to-near, as the projector orders them: both cover column 40.
    let sprites = vec![
        WindowSprite::new(0, 0, 40, fx(1.5)),
        WindowSprite::new(0, 0, 40, fx(1.0)),
    ];
    let ok = render(&mut frame, &mut z, &g, fx(3.0), fx(4.0), &rays, &sprites, &sheets);
    assert!(ok);
    assert_eq!(z[40], fx(1.0));
    // No column ever ends beyond its wall.
    assert!(z.iter().all(|&d| d <= fx(2.0)));
}

#[test]
fn transparent_pixels_are_skipped_but_depth_is_taken() {
    let g = reference_arena();
    // A sheet whose every pixel has alpha 0: nothing of it may be drawn.
    let clear = SpriteSheet::new(16, 16, vec![0u8; 4 * 16 * 16]).unwrap();
    let mut frame = Frame::new(45, 80);
    let mut z = vec![0i64; 80];
    let rays: Vec<ColumnRay> = (0..80)
        .map(|_| ColumnRay { angle: FX_PI, dir_x: -FX_SCALE, dir_y: 0, cos_offset: FX_SCALE })
        .collect();
    let near = WindowSprite::new(0, 0, 40, fx(1.0));
    let ok = render(&mut frame, &mut z, &g, fx(3.0), fx(4.0), &rays, &vec![near], &vec![clear]);
    assert!(ok);
    // The sprite still occupies the depth buffer where it survived...
    assert_eq!(z[40], fx(1.0));
    // ...but every pixel still shows its wall-pass color.
    assert_eq!(pixel(&frame, 22, 40), COLOR_WALL_1_VERTICAL);
    assert_eq!(pixel(&frame, 0, 40), COLOR_CEILING);
    assert_eq!(pixel(&frame, 44, 40), COLOR_FLOOR);
}

#[test]
fn opaque_samples_are_actually_drawn() {
    let g = reference_arena();
    // The built-in sheet is fully opaque, so the whole surviving band of
    // a near sprite must show sheet colors, not wall colors.
    let sheets = vec![test_image_sheet()];
    let mut frame = Frame::new(45, 80);
    let mut z = vec![0i64; 80];
    let rays: Vec<ColumnRay> = (0..80)
        .map(|_| ColumnRay { angle: FX_PI, dir_x: -FX_SCALE, dir_y: 0, cos_offset: FX_SCALE })
        .collect();
    let near = WindowSprite::new(0, 0, 40, fx(1.0));
    let ok = render(&mut frame, &mut z, &g, fx(3.0), fx(4.0), &rays, &vec![near], &sheets);
    assert!(ok);
    // The band of a sprite at distance 1 covers the whole screen height,
    // and the test image holds no wall or ceiling color anywhere.
    for y in 0..45u16 {
        let c = pixel(&frame, y, 40);
        assert!(c != COLOR_WALL_1_VERTICAL && c != COLOR_CEILING && c != COLOR_FLOOR);
    }
}

#[test]
fn a_single_sprite_draws_into_surviving_columns_only() {
    let sheet = test_image_sheet();
    let mut frame = Frame::new(45, 80);
    // Every column starts far away, so the whole sprite span survives.
    let mut z = vec![fx(10.0); 80];
    let ws = WindowSprite::new(0, 0, 40, fx(1.0));
    render_window_sprite(&mut frame, &mut z, &sheet, &ws);
    // A sprite at distance 1 on a 45-row screen spans columns 18..63.
    assert_eq!(z[17], fx(10.0));
    assert_eq!(z[18], fx(1.0));
    assert_eq!(z[62], fx(1.0));
    assert_eq!(z[63], fx(10.0));
    // Inside the span the opaque sheet is drawn over the black frame...
    assert!(pixel(&frame, 22, 40) != 0);
    // ...and outside it nothing was touched.
    assert_eq!(pixel(&frame, 22, 10), 0);
    assert_eq!(pixel(&frame, 22, 70), 0);
}
