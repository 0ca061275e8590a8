use raycasting_term::angles::{FX_HALF_PI, FX_PI};
use raycasting_term::fx::FX_SCALE;
use raycasting_term::grid::reference_arena;
use raycasting_term::raycast::cast_ray;

const SCALE: f64 = 281474976710656.0;

fn fx(v: f64) -> i64 {
    (v * SCALE).round() as i64
}

fn to_f64(v: i64) -> f64 {
    v as f64 / SCALE
}

#[test]
fn axis_aligned_ray_hits_west_wall_at_exact_distance() {
    let g = reference_arena();
    // Player at (3.0, 4.0) looking along the negative x axis: the border
    // wall column is at x = 0, so its near face is 2 cells away.
    let hit = cast_ray(&g, fx(3.0), fx(4.0), FX_PI, -FX_SCALE, 0);
    assert!((to_f64(hit.distance) - 2.0).abs() < 1e-9);
    assert!(hit.is_vertical);
    assert_eq!(hit.value, 1);
    assert_eq!((hit.cell_x, hit.cell_y), (0, 4));
}

#[test]
fn axis_aligned_ray_hits_north_wall_at_exact_distance() {
    let g = reference_arena();
    // Looking along the positive world angle of a quarter turn: screen y
    // decreases, so the ray walks toward row 0 and meets the border wall
    // whose near face is 3.5 cells up from y = 4.5.
    let hit = cast_ray(&g, fx(3.5), fx(4.5), FX_HALF_PI, 0, FX_SCALE);
    assert!((to_f64(hit.distance) - 3.5).abs() < 1e-9);
    assert!(!hit.is_vertical);
    assert_eq!(hit.value, 1);
    assert_eq!((hit.cell_x, hit.cell_y), (3, 0));
}

#[test]
fn diagonal_ray_hits_interior_wall() {
    let g = reference_arena();
    // The interior wall variant 2 sits at cell (5, 2).  Cast toward it
    // from (3.5, 4.5) and check that some wall is reported within the
    // arena and that the distance is positive.
    let dx: f64 = 5.5 - 3.5;
    let dy: f64 = -(2.5 - 4.5);
    let angle = dy.atan2(dx);
    let hit = cast_ray(
        &g,
        fx(3.5),
        fx(4.5),
        fx(angle),
        fx(angle.cos()),
        fx(angle.sin()),
    );
    assert_eq!(hit.value, 2);
    assert_eq!((hit.cell_x, hit.cell_y), (5, 2));
    assert!(hit.distance > 0);
}
