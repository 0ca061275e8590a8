//! The frame compositor: walls first, establishing the per-column depth
//! floor, then sprites drawn back to front against it.
//!
//! The frame is an owned pixel grid; presenting it on a terminal window is
//! the display capability's work.  Colors are packed 0xRRGGBB words.
use vstd::prelude::*;
use crate::fx::{Fx, FX_SCALE, FX_HALF, fx_mul_s, fx_div_s, fx_add_s, fx_sub_s, fx_round_val, fx_mul_sat, fx_div_sat, fx_add_sat, fx_sub_sat, fx_round, fx_from_int, fx_cell_val, sat_i64};
use crate::angles::FX_TAU;
use crate::grid::Grid;
use crate::raycast::{cast_ray, cast_ray_spec};
use crate::sprite_sheet::{SpriteSheet, frame_count};
use crate::projection::WindowSprite;

verus! {

/// Ceiling color.
pub const COLOR_CEILING: u32 = 0x646464;

/// Floor color.
pub const COLOR_FLOOR: u32 = 0xBA926C;

/// Wall variant 1 hit on a vertical grid line.
pub const COLOR_WALL_1_VERTICAL: u32 = 0xA00000;

/// Wall variant 1 hit on a horizontal grid line.
pub const COLOR_WALL_1_HORIZONTAL: u32 = 0x800000;

/// Wall variant 2 hit on a vertical grid line.
pub const COLOR_WALL_2_VERTICAL: u32 = 0x0000A0;

/// Wall variant 2 hit on a horizontal grid line.
pub const COLOR_WALL_2_HORIZONTAL: u32 = 0x000080;

/// Any other cell code.
pub const COLOR_UNKNOWN_WALL: u32 = 0x000000;

/// An owned pixel grid, row-major.
pub struct Frame {
    /// Columns.
    pub width: u16,
    /// Rows.
    pub height: u16,
    /// `width * height` packed 0xRRGGBB pixels.
    pub pixels: Vec<u32>,
}

impl Frame {
    /// The pixel buffer matches the declared dimensions.
    pub open spec fn well_formed(&self) -> bool {
        self.pixels@.len() == (self.width as int) * (self.height as int)
    }

    /// The pixel at row `y`, column `x`.
    pub open spec fn spec_pixel(&self, y: int, x: int) -> u32 {
        self.pixels@[y * self.width + x]
    }

    /// A black frame of the given size.
    pub fn new(height: u16, width: u16) -> (f: Frame)
        ensures
            f.well_formed(),
            f.height == height,
            f.width == width,
            forall|i: int| 0 <= i < f.pixels@.len() ==> f.pixels@[i] == 0,
    {
        proof {
            assert((height as int) * (width as int) <= 0xffff_ffff) by (nonlinear_arith)
                requires
                    height < 0x1_0000,
                    width < 0x1_0000,
            ;
        }
        let mut pixels: Vec<u32> = Vec::new();
        let n: usize = (height as usize) * (width as usize);
        let mut i: usize = 0;
        while i < n
            invariant
                pixels@.len() == i <= n,
                forall|j: int| 0 <= j < i ==> pixels@[j] == 0,
            decreases n - i,
        {
            pixels.push(0);
            i = i + 1;
        }
        proof {
            assert((height as usize) * (width as usize) == (width as int) * (height as int))
                by (nonlinear_arith);
        }
        Frame { width, height, pixels }
    }

    /// Writes one pixel.
    pub fn set_pixel(&mut self, y: u16, x: u16, rgb: u32)
        requires
            old(self).well_formed(),
            y < old(self).height,
            x < old(self).width,
        ensures
            final(self).well_formed(),
            final(self).width == old(self).width,
            final(self).height == old(self).height,
            final(self).spec_pixel(y as int, x as int) == rgb,
            forall|r: int, c: int|
                0 <= r < old(self).height && 0 <= c < old(self).width && !(r == y && c == x)
                    ==> final(self).spec_pixel(r, c) == old(self).spec_pixel(r, c),
    {
        proof {
            lemma_frame_index(y as int, x as int, self.width as int, self.height as int);
        }
        let idx: usize = (y as usize) * (self.width as usize) + (x as usize);
        self.pixels.set(idx, rgb);
        proof {
            assert forall|r: int, c: int|
                0 <= r < old(self).height && 0 <= c < old(self).width && !(r == y && c == x)
                    implies final(self).spec_pixel(r, c) == old(self).spec_pixel(r, c) by {
                lemma_frame_index(r, c, old(self).width as int, old(self).height as int);
                lemma_row_major_distinct(
                    r,
                    c,
                    y as int,
                    x as int,
                    old(self).width as int,
                );
            };
        }
    }
}

/// Distinct pixel coordinates give distinct row-major indices.
proof fn lemma_row_major_distinct(r: int, c: int, y: int, x: int, width: int)
    requires
        0 <= c < width,
        0 <= x < width,
        !(r == y && c == x),
    ensures
        r * width + c != y * width + x,
{
    assert(r * width + c != y * width + x) by (nonlinear_arith)
        requires
            0 <= c < width,
            0 <= x < width,
            !(r == y && c == x),
    ;
}

/// A row-major pixel index is inside the buffer.
proof fn lemma_frame_index(y: int, x: int, width: int, height: int)
    requires
        0 <= x < width,
        0 <= y < height,
        width < 0x1_0000,
        height < 0x1_0000,
    ensures
        0 <= y * width + x < width * height,
        width * height <= 0xffff_ffff,
{
    assert(0 <= y * width + x < width * height && width * height <= 0xffff_ffff)
        by (nonlinear_arith)
        requires
            0 <= x < width,
            0 <= y < height,
            width < 0x1_0000,
            height < 0x1_0000,
    ;
}

/// The shading color for a wall cell code and hit orientation.
pub open spec fn wall_color_val(value: u8, is_vertical: bool) -> u32 {
    if value == 1 {
        if is_vertical {
            COLOR_WALL_1_VERTICAL
        } else {
            COLOR_WALL_1_HORIZONTAL
        }
    } else if value == 2 {
        if is_vertical {
            COLOR_WALL_2_VERTICAL
        } else {
            COLOR_WALL_2_HORIZONTAL
        }
    } else {
        COLOR_UNKNOWN_WALL
    }
}

/// The shading color for a wall cell code and hit orientation.
pub fn wall_color(value: u8, is_vertical: bool) -> (c: u32)
    ensures
        c == wall_color_val(value, is_vertical),
{
    if value == 1 {
        if is_vertical {
            COLOR_WALL_1_VERTICAL
        } else {
            COLOR_WALL_1_HORIZONTAL
        }
    } else if value == 2 {
        if is_vertical {
            COLOR_WALL_2_VERTICAL
        } else {
            COLOR_WALL_2_HORIZONTAL
        }
    } else {
        COLOR_UNKNOWN_WALL
    }
}

/// Half of `n`, rounded half away from zero: how the screen centers a
/// band of `n` leftover rows.
pub open spec fn half_round_val(n: int) -> int {
    if n >= 0 {
        (n + 1) / 2
    } else {
        -((1 - n) / 2)
    }
}

/// Half of `n`, rounded half away from zero.
pub fn half_round(n: i64) -> (r: i64)
    requires
        -0x1_0000_0000 <= n <= 0x1_0000_0000,
    ensures
        r == half_round_val(n as int),
{
    if n >= 0 {
        (n + 1) / 2
    } else {
        -((1 - n) / 2)
    }
}

/// On-screen height of something at a fixed-point distance: the screen
/// height divided by the distance, rounded, clamped to the `u16` range
/// (nothing at negative distances, everything at degenerately small
/// ones).
pub open spec fn band_height_val(screen_height: int, dist: int) -> int {
    if dist == 0 {
        0xffff
    } else {
        let q = fx_round_val(fx_div_s(screen_height * FX_SCALE, dist));
        if q < 0 {
            0
        } else if q > 0xffff {
            0xffff
        } else {
            q
        }
    }
}

/// On-screen height of something at distance `dist`.
pub fn band_height(screen_height: u16, dist: Fx) -> (r: u16)
    requires
        screen_height <= 0x7fff,
    ensures
        r == band_height_val(screen_height as int, dist as int),
{
    if dist == 0 {
        return 0xffff;
    }
    let h_fx: Fx = fx_from_int(screen_height as i64);
    let q: i64 = fx_round(fx_div_sat(h_fx, dist));
    if q < 0 {
        0
    } else if q > 0xffff {
        0xffff
    } else {
        q as u16
    }
}

/// First row of a centered band of height `band` on a screen of height
/// `screen_height` (rows above it show the ceiling).
pub open spec fn band_start_val(screen_height: int, band: int) -> int {
    let v = half_round_val(screen_height - band);
    if v < 0 {
        0
    } else {
        v
    }
}

/// One past the last row of a centered band (rows below show the floor).
pub open spec fn band_end_val(screen_height: int, band: int) -> int {
    let v = half_round_val(screen_height + band);
    if v > screen_height {
        screen_height
    } else {
        v
    }
}

/// The color a wall column shows at row `y`: ceiling above the wall band,
/// the wall's shading color inside it, floor below it.
pub open spec fn column_pixel_val(screen_height: int, band: int, color: u32, y: int) -> u32 {
    if y < band_start_val(screen_height, band) {
        COLOR_CEILING
    } else if y < band_end_val(screen_height, band) {
        color
    } else {
        COLOR_FLOOR
    }
}

/// One column's ray, with the trigonometric values the caller supplies:
/// the direction components of the ray's angle and the cosine of the
/// angular offset from the player's facing (for fisheye correction).
#[derive(Clone, Copy)]
pub struct ColumnRay {
    /// The ray's world angle, normalized.
    pub angle: Fx,
    /// Cosine of the angle.
    pub dir_x: Fx,
    /// Sine of the angle.
    pub dir_y: Fx,
    /// Cosine of (player facing - ray angle).
    pub cos_offset: Fx,
}

/// A usable column ray: a normalized angle with unit-bounded direction
/// components that are not both zero.
pub open spec fn ray_ok(r: ColumnRay) -> bool {
    &&& 0 <= r.angle < FX_TAU
    &&& -FX_SCALE <= r.dir_x <= FX_SCALE
    &&& -FX_SCALE <= r.dir_y <= FX_SCALE
    &&& !(r.dir_x == 0 && r.dir_y == 0)
}

/// The perpendicular (fisheye-corrected) distance a column records: the
/// ray's travelled distance scaled by the cosine of its angular offset.
pub open spec fn column_distance_val(g: Grid, px: int, py: int, ray: ColumnRay) -> int {
    fx_mul_s(cast_ray_spec(g, px, py, ray.angle as int, ray.dir_x as int, ray.dir_y as int).distance, ray.cos_offset as int)
}

/// The wall color a column shows.
pub open spec fn column_wall_color_val(g: Grid, px: int, py: int, ray: ColumnRay) -> u32 {
    let o = cast_ray_spec(g, px, py, ray.angle as int, ray.dir_x as int, ray.dir_y as int);
    wall_color_val(g.spec_cell(o.cell_x, o.cell_y), o.is_vertical)
}

/// Renders one wall column: casts the column's ray, records the
/// perpendicular distance in the depth buffer, and paints the column's
/// rows.
#[verifier::loop_isolation(false)]
pub fn render_column(
    frame: &mut Frame,
    z_buffer: &mut Vec<Fx>,
    g: &Grid,
    px: Fx,
    py: Fx,
    x: u16,
    ray: ColumnRay,
)
    requires
        old(frame).well_formed(),
        old(frame).height <= 0x7fff,
        x < old(frame).width,
        old(z_buffer)@.len() == old(frame).width,
        g.well_formed(),
        ray_ok(ray),
        px >= 0,
        py >= 0,
        1 <= fx_cell_val(px as int) <= g.side - 2,
        1 <= fx_cell_val(py as int) <= g.side - 2,
    ensures
        final(frame).well_formed(),
        final(frame).width == old(frame).width,
        final(frame).height == old(frame).height,
        final(z_buffer)@.len() == old(z_buffer)@.len(),
        final(z_buffer)@ == old(z_buffer)@.update(
            x as int,
            column_distance_val(*g, px as int, py as int, ray) as i64,
        ),
        ({
            let dist = column_distance_val(*g, px as int, py as int, ray);
            let band = band_height_val(old(frame).height as int, dist);
            let color = column_wall_color_val(*g, px as int, py as int, ray);
            &&& forall|y: int|
                0 <= y < old(frame).height ==> final(frame).spec_pixel(y, x as int)
                    == column_pixel_val(old(frame).height as int, band, color, y)
            &&& forall|y: int, c: int|
                0 <= y < old(frame).height && 0 <= c < old(frame).width && c != x
                    ==> final(frame).spec_pixel(y, c) == old(frame).spec_pixel(y, c)
        }),
{
    let hit = cast_ray(g, px, py, ray.angle, ray.dir_x, ray.dir_y);
    let dist = fx_mul_sat(hit.distance, ray.cos_offset);
    z_buffer.set(x as usize, dist);
    let color = wall_color(hit.value, hit.is_vertical);
    let h = frame.height;
    let band = band_height(h, dist);
    let ws_i: i64 = half_round(h as i64 - band as i64);
    let wall_start: u16 = if ws_i < 0 {
        0
    } else {
        ws_i as u16
    };
    let we_i: i64 = half_round(h as i64 + band as i64);
    let wall_end: u16 = if we_i > h as i64 {
        h
    } else {
        we_i as u16
    };
    let ghost band_s = band_height_val(h as int, dist as int);
    proof {
        assert(wall_start == band_start_val(h as int, band_s));
        assert(wall_end == band_end_val(h as int, band_s));
    }
    let mut y: u16 = 0;
    while y < wall_start
        invariant
            y <= wall_start,
            frame.well_formed(),
            frame.width == old(frame).width,
            frame.height == old(frame).height,
            forall|r: int, c: int|
                0 <= r < frame.height && 0 <= c < frame.width && c != x ==> frame.spec_pixel(r, c)
                    == old(frame).spec_pixel(r, c),
            forall|r: int|
                0 <= r < y ==> frame.spec_pixel(r, x as int) == column_pixel_val(
                    h as int,
                    band_s,
                    color,
                    r,
                ),
        decreases wall_start - y,
    {
        frame.set_pixel(y, x, COLOR_CEILING);
        y = y + 1;
    }
    let mut y2: u16 = wall_start;
    while y2 < wall_end
        invariant
            wall_start <= y2 <= if wall_end >= wall_start {
                wall_end
            } else {
                wall_start
            },
            frame.well_formed(),
            frame.width == old(frame).width,
            frame.height == old(frame).height,
            forall|r: int, c: int|
                0 <= r < frame.height && 0 <= c < frame.width && c != x ==> frame.spec_pixel(r, c)
                    == old(frame).spec_pixel(r, c),
            forall|r: int|
                0 <= r < y2 ==> frame.spec_pixel(r, x as int) == column_pixel_val(
                    h as int,
                    band_s,
                    color,
                    r,
                ),
        decreases wall_end - y2,
    {
        frame.set_pixel(y2, x, color);
        y2 = y2 + 1;
    }
    let mut y3: u16 = if wall_end >= wall_start {
        wall_end
    } else {
        wall_start
    };
    while y3 < h
        invariant
            y3 <= h || y3 == wall_start,
            y3 >= wall_end,
            y3 >= wall_start,
            frame.well_formed(),
            frame.width == old(frame).width,
            frame.height == old(frame).height,
            forall|r: int, c: int|
                0 <= r < frame.height && 0 <= c < frame.width && c != x ==> frame.spec_pixel(r, c)
                    == old(frame).spec_pixel(r, c),
            forall|r: int|
                0 <= r < y3 ==> frame.spec_pixel(r, x as int) == column_pixel_val(
                    h as int,
                    band_s,
                    color,
                    r,
                ),
        decreases h - y3,
    {
        frame.set_pixel(y3, x, COLOR_FLOOR);
        y3 = y3 + 1;
    }
    proof {
        assert(forall|r: int|
            0 <= r < h ==> frame.spec_pixel(r, x as int) == column_pixel_val(
                h as int,
                band_s,
                color,
                r,
            ));
    }
}

} // verus!

verus! {

/// A tenth of a unit: the nudge the sprite renderer adds before rounding
/// the left edge, so a sprite centered between columns leans right.
pub const FX_TENTH: i64 = 28147497671066;

/// Packs RGB components into a 0xRRGGBB word.
pub open spec fn pack_rgb_val(r: u8, g: u8, b: u8) -> int {
    (r as int) * 0x1_0000 + (g as int) * 0x100 + (b as int)
}

/// Packs RGB components into a 0xRRGGBB word.
pub fn pack_rgb(r: u8, g: u8, b: u8) -> (c: u32)
    ensures
        c == pack_rgb_val(r, g, b),
{
    (r as u32) * 0x1_0000 + (g as u32) * 0x100 + (b as u32)
}

/// The leftmost screen column a sprite covers: its center minus half its
/// width, nudged right a tenth of a pixel, clamped to the screen.
pub open spec fn sprite_start_x_val(center: int, band: int) -> int {
    let v = fx_round_val(center * FX_SCALE - band * FX_HALF + FX_TENTH);
    if v < 0 {
        0
    } else if v > 0xffff {
        0xffff
    } else {
        v
    }
}

/// One past the rightmost screen column a sprite covers, clamped to the
/// screen width.
pub open spec fn sprite_end_x_val(center: int, band: int, screen_width: int) -> int {
    let v = fx_round_val(center * FX_SCALE + band * FX_HALF);
    let v16 = if v < -0x8000 {
        -0x8000
    } else if v > 0x7fff {
        0x7fff
    } else {
        v
    };
    if v16 < 0 {
        0
    } else if v16 > screen_width {
        screen_width
    } else {
        v16
    }
}

/// One value of a fixed-step accumulation: `k` saturating additions of
/// `step` onto `init` — how the sampler walks the sheet one screen pixel
/// at a time.
pub open spec fn acc_steps(init: int, step: int, k: nat) -> int
    decreases k,
{
    if k == 0 {
        init
    } else {
        fx_add_s(acc_steps(init, step, (k - 1) as nat), step)
    }
}

/// The whole number of units in a nonnegative accumulator, clamped to the
/// last pixel of a frame edge.
pub open spec fn clamped_cell(v: int, size: int) -> int {
    let t = fx_cell_val(v);
    if t >= size {
        size - 1
    } else {
        t
    }
}

/// Where a sprite's left edge falls, before clamping to the screen.
pub open spec fn sprite_left_val(center: int, band: int) -> int {
    fx_round_val(center * FX_SCALE - band * FX_HALF + FX_TENTH)
}

/// The sampling step: how far one screen pixel advances through the
/// sprite's frame.
pub open spec fn sprite_step_val(size: int, band: int) -> int
    recommends
        band != 0,
{
    fx_div_s(size * FX_SCALE, band)
}

/// Where the horizontal sampler starts: at the frame's left edge, or —
/// when the sprite's left edge hangs off the screen — past the off-screen
/// part.
pub open spec fn sprite_image_x0_val(center: int, band: int, size: int) -> int {
    let left = sprite_left_val(center, band);
    if left >= 0 {
        0
    } else {
        fx_mul_s(sat_i64(-left * FX_SCALE), sprite_step_val(size, band))
    }
}

/// Where the vertical sampler starts: at the frame's top, or — when the
/// sprite's band overflows the screen — past the off-screen part.
pub open spec fn sprite_image_y0_val(h: int, band: int, size: int) -> int {
    let top = half_round_val(h - band);
    if top >= 0 {
        0
    } else {
        fx_mul_s(sat_i64(-top * FX_SCALE), sprite_step_val(size, band))
    }
}

/// The byte offset of the sheet pixel sampled at screen row `y`, column
/// `c` of a drawn sprite: nearest-neighbour coordinates from the two
/// fixed-step accumulators, inside the frame that
/// `sprite_sheet_y_offset` selects.
pub open spec fn sample_base_val(sheet: SpriteSheet, ws: WindowSprite, h: int, y: int, c: int) -> int {
    let band = band_height_val(h, ws.distance as int);
    let size = sheet.size as int;
    let step = sprite_step_val(size, band);
    let sx = clamped_cell(
        acc_steps(
            sprite_image_x0_val(ws.x as int, band, size),
            step,
            (c - sprite_start_x_val(ws.x as int, band)) as nat,
        ),
        size,
    );
    let sy = clamped_cell(
        acc_steps(sprite_image_y0_val(h, band, size), step, (y - band_start_val(h, band)) as nat),
        size,
    );
    4 * ((sy + ws.sprite_sheet_y_offset) * size + sx)
}

/// The color screen pixel `(y, c)` shows once the sprite is drawn over
/// `under`: the sampled sheet pixel when its alpha is exactly 255, the
/// underlying color for every other alpha (binary transparency, no
/// blending).
pub open spec fn sprite_pixel_val(
    sheet: SpriteSheet,
    ws: WindowSprite,
    h: int,
    y: int,
    c: int,
    under: int,
) -> int {
    let base = sample_base_val(sheet, ws, h, y, c);
    if sheet.pixels@[base + 3] == 255 {
        pack_rgb_val(sheet.pixels@[base], sheet.pixels@[base + 1], sheet.pixels@[base + 2])
    } else {
        under
    }
}

/// Draws one projected sprite against the depth buffer: columns whose
/// recorded occupant is nearer are skipped, all others take the sprite's
/// distance; within a surviving column, every row of the sprite's band is
/// set to exactly `sprite_pixel_val`: the nearest-neighbour sheet sample
/// where it is fully opaque, the previous color everywhere else.
#[verifier::loop_isolation(false)]
pub fn render_window_sprite(
    frame: &mut Frame,
    z_buffer: &mut Vec<Fx>,
    sheet: &SpriteSheet,
    ws: &WindowSprite,
)
    requires
        old(frame).well_formed(),
        old(frame).height <= 0x7fff,
        old(z_buffer)@.len() == old(frame).width,
        sheet.well_formed(),
        ws.sprite_sheet_y_offset + sheet.size <= sheet.size * frame_count(sheet.kind),
    ensures
        final(frame).well_formed(),
        final(frame).width == old(frame).width,
        final(frame).height == old(frame).height,
        final(z_buffer)@.len() == old(z_buffer)@.len(),
        ({
            let h = old(frame).height as int;
            let band = band_height_val(h, ws.distance as int);
            let sx0 = sprite_start_x_val(ws.x as int, band);
            let sx1 = sprite_end_x_val(ws.x as int, band, old(frame).width as int);
            let sy0 = band_start_val(h, band);
            let sy1 = band_end_val(h, band);
            &&& forall|c: int|
                0 <= c < old(z_buffer)@.len() ==> final(z_buffer)@[c] == (if sx0 <= c < sx1
                    && !(ws.distance > old(z_buffer)@[c]) {
                    ws.distance as i64
                } else {
                    old(z_buffer)@[c]
                })
            &&& forall|y: int, c: int|
                0 <= y < h && 0 <= c < old(frame).width && !(sx0 <= c < sx1 && !(ws.distance
                    > old(z_buffer)@[c]) && sy0 <= y < sy1) ==> final(frame).spec_pixel(y, c)
                    == old(frame).spec_pixel(y, c)
            &&& forall|y: int, c: int|
                0 <= y < h && 0 <= c < old(frame).width && sx0 <= c < sx1 && !(ws.distance
                    > old(z_buffer)@[c]) && sy0 <= y < sy1 ==> final(frame).spec_pixel(y, c)
                    == sprite_pixel_val(
                    *sheet,
                    *ws,
                    h,
                    y,
                    c,
                    old(frame).spec_pixel(y, c) as int,
                )
        }),
{
    let h: u16 = frame.height;
    let band: u16 = band_height(h, ws.distance);
    if band == 0 {
        let ghost bandi = band_height_val(h as int, ws.distance as int);
        proof {
            assert(band_start_val(h as int, bandi) >= band_end_val(h as int, bandi));
        }
        return ;
    }
    let ws_i: i64 = half_round(h as i64 - band as i64);
    let start_y: u16 = if ws_i < 0 {
        0
    } else {
        ws_i as u16
    };
    let we_i: i64 = half_round(h as i64 + band as i64);
    let end_y: u16 = if we_i > h as i64 {
        h
    } else {
        we_i as u16
    };
    let center: i128 = (ws.x as i128) * (FX_SCALE as i128);
    let left_v: i128 = center - (band as i128) * (FX_HALF as i128) + FX_TENTH as i128;
    let sx_i: i64 = crate::fx::fx_round_wide(left_v);
    let start_x: u16 = if sx_i < 0 {
        0
    } else if sx_i > 0xffff {
        0xffff
    } else {
        sx_i as u16
    };
    let right_v: i128 = center + (band as i128) * (FX_HALF as i128);
    let ex_i: i64 = crate::fx::fx_round_wide(right_v);
    let ex_16: i64 = if ex_i < -0x8000 {
        -0x8000
    } else if ex_i > 0x7fff {
        0x7fff
    } else {
        ex_i
    };
    let end_x: u16 = if ex_16 < 0 {
        0
    } else if ex_16 > frame.width as i64 {
        frame.width
    } else {
        ex_16 as u16
    };
    let size_fx: i64 = fx_from_int(sheet.size as i64);
    let image_step: Fx = fx_div_sat(size_fx, band as i64);
    let base_img_y: i64 = half_round(h as i64 - band as i64);
    let start_image_y: Fx = if base_img_y >= 0 {
        0
    } else {
        fx_mul_sat(
            crate::fx::fx_narrow(-(base_img_y as i128) * (FX_SCALE as i128)),
            image_step,
        )
    };
    let mut image_x: Fx = if sx_i >= 0 {
        0
    } else {
        fx_mul_sat(crate::fx::fx_narrow(-(sx_i as i128) * (FX_SCALE as i128)), image_step)
    };
    proof {
        crate::fx::lemma_div_s_nonneg(size_fx as int, band as int);
        if sx_i < 0 {
            crate::fx::lemma_mul_s_nonneg(
                sat_i64(-(sx_i as int) * (FX_SCALE as int)),
                image_step as int,
            );
        }
        if base_img_y < 0 {
            crate::fx::lemma_mul_s_nonneg(
                sat_i64(-(base_img_y as int) * (FX_SCALE as int)),
                image_step as int,
            );
        }
        assert(image_x >= 0);
        assert(start_image_y >= 0);
    }
    let ghost bandi = band as int;
    let ghost sx0 = sprite_start_x_val(ws.x as int, bandi);
    let ghost sx1 = sprite_end_x_val(ws.x as int, bandi, frame.width as int);
    let ghost sy0 = band_start_val(h as int, bandi);
    let ghost sy1 = band_end_val(h as int, bandi);
    let ghost step_s = sprite_step_val(sheet.size as int, bandi);
    let ghost x0_s = sprite_image_x0_val(ws.x as int, bandi, sheet.size as int);
    let ghost y0_s = sprite_image_y0_val(h as int, bandi, sheet.size as int);
    proof {
        assert(start_x == sx0);
        assert(end_x == sx1);
        assert(start_y == sy0);
        assert(end_y == sy1);
        assert(image_step == step_s);
        assert(sx_i == sprite_left_val(ws.x as int, bandi));
        assert(image_x == x0_s);
        assert(start_image_y == y0_s);
        assert(image_x == acc_steps(x0_s, step_s, 0));
    }
    proof {
        assert(sheet.size * frame_count(sheet.kind) <= 0x1_0000) by (nonlinear_arith)
            requires
                1 <= sheet.size <= 0x2000,
                1 <= frame_count(sheet.kind) <= 8,
        ;
    }
    let mut x: u16 = start_x;
    while x < end_x
        invariant
            start_x <= x <= if end_x >= start_x {
                end_x
            } else {
                start_x
            },
            image_x >= 0,
            image_x == acc_steps(x0_s, step_s, (x - start_x) as nat),
            frame.well_formed(),
            frame.width == old(frame).width,
            frame.height == old(frame).height,
            z_buffer@.len() == old(z_buffer)@.len(),
            forall|c: int|
                0 <= c < old(z_buffer)@.len() ==> z_buffer@[c] == (if sx0 <= c < x
                    && !(ws.distance > old(z_buffer)@[c]) {
                    ws.distance as i64
                } else {
                    old(z_buffer)@[c]
                }),
            forall|y: int, c: int|
                0 <= y < frame.height && 0 <= c < frame.width && !(sx0 <= c < x && !(ws.distance
                    > old(z_buffer)@[c]) && sy0 <= y < sy1) ==> frame.spec_pixel(y, c)
                    == old(frame).spec_pixel(y, c),
            forall|y: int, c: int|
                0 <= y < frame.height && 0 <= c < frame.width && sx0 <= c < x && !(ws.distance
                    > old(z_buffer)@[c]) && sy0 <= y < sy1 ==> frame.spec_pixel(y, c)
                    == sprite_pixel_val(
                    *sheet,
                    *ws,
                    h as int,
                    y,
                    c,
                    old(frame).spec_pixel(y, c) as int,
                ),
        decreases end_x - x,
    {
        proof {
            assert(acc_steps(x0_s, step_s, ((x + 1) - start_x) as nat) == fx_add_s(
                acc_steps(x0_s, step_s, (x - start_x) as nat),
                step_s,
            ));
        }
        if ws.distance > z_buffer[x as usize] {
            image_x = fx_add_sat(image_x, image_step);
            x = x + 1;
            continue;
        }
        z_buffer.set(x as usize, ws.distance);
        let mut image_y: Fx = start_image_y;
        let mut y: u16 = start_y;
        proof {
            assert(start_image_y >= 0);
            assert(image_y == acc_steps(y0_s, step_s, 0));
        }
        while y < end_y
            invariant
                start_y <= y <= if end_y >= start_y {
                    end_y
                } else {
                    start_y
                },
                x < end_x,
                !(ws.distance > old(z_buffer)@[x as int]),
                image_y >= 0,
                image_y == acc_steps(y0_s, step_s, (y - start_y) as nat),
                image_x >= 0,
                image_x == acc_steps(x0_s, step_s, (x - start_x) as nat),
                frame.well_formed(),
                frame.width == old(frame).width,
                frame.height == old(frame).height,
                z_buffer@.len() == old(z_buffer)@.len(),
                forall|c: int|
                    0 <= c < old(z_buffer)@.len() ==> z_buffer@[c] == (if sx0 <= c < x + 1
                        && !(ws.distance > old(z_buffer)@[c]) {
                        ws.distance as i64
                    } else {
                        old(z_buffer)@[c]
                    }),
                forall|r: int, c: int|
                    0 <= r < frame.height && 0 <= c < frame.width && !(sx0 <= c < x && !(
                    ws.distance > old(z_buffer)@[c]) && sy0 <= r < sy1) && !(c == x && sy0 <= r
                        < y) ==> frame.spec_pixel(r, c) == old(frame).spec_pixel(r, c),
                forall|r: int, c: int|
                    0 <= r < frame.height && 0 <= c < frame.width && sx0 <= c < x && !(ws.distance
                        > old(z_buffer)@[c]) && sy0 <= r < sy1 ==> frame.spec_pixel(r, c)
                        == sprite_pixel_val(
                        *sheet,
                        *ws,
                        h as int,
                        r,
                        c,
                        old(frame).spec_pixel(r, c) as int,
                    ),
                forall|r: int|
                    0 <= r < frame.height && sy0 <= r < y ==> frame.spec_pixel(r, x as int)
                        == sprite_pixel_val(
                        *sheet,
                        *ws,
                        h as int,
                        r,
                        x as int,
                        old(frame).spec_pixel(r, x as int) as int,
                    ),
            decreases end_y - y,
        {
            let ix_cells: usize = crate::fx::fx_cell(image_x);
            let ix: u32 = if ix_cells >= sheet.size as usize {
                sheet.size - 1
            } else {
                ix_cells as u32
            };
            let iy_cells: usize = crate::fx::fx_cell(image_y);
            let iy: u32 = if iy_cells >= sheet.size as usize {
                sheet.size - 1
            } else {
                iy_cells as u32
            };
            let sy_used: u32 = iy + ws.sprite_sheet_y_offset;
            proof {
                assert(ix == clamped_cell(image_x as int, sheet.size as int));
                assert(iy == clamped_cell(image_y as int, sheet.size as int));
                assert(sample_base_val(*sheet, *ws, h as int, y as int, x as int) == 4 * ((
                sy_used as int) * (sheet.size as int) + ix));
            }
            let (pr, pg, pb, pa) = sheet.pixel(ix, sy_used);
            if pa == 255 {
                let rgb = pack_rgb(pr, pg, pb);
                frame.set_pixel(y, x, rgb);
                proof {
                    assert(frame.spec_pixel(y as int, x as int) == sprite_pixel_val(
                        *sheet,
                        *ws,
                        h as int,
                        y as int,
                        x as int,
                        old(frame).spec_pixel(y as int, x as int) as int,
                    ));
                }
            } else {
                proof {
                    assert(frame.spec_pixel(y as int, x as int) == old(frame).spec_pixel(
                        y as int,
                        x as int,
                    ));
                    assert(frame.spec_pixel(y as int, x as int) == sprite_pixel_val(
                        *sheet,
                        *ws,
                        h as int,
                        y as int,
                        x as int,
                        old(frame).spec_pixel(y as int, x as int) as int,
                    ));
                }
            }
            proof {
                assert(acc_steps(y0_s, step_s, ((y + 1) - start_y) as nat) == fx_add_s(
                    acc_steps(y0_s, step_s, (y - start_y) as nat),
                    step_s,
                ));
            }
            image_y = fx_add_sat(image_y, image_step);
            y = y + 1;
        }
        image_x = fx_add_sat(image_x, image_step);
        x = x + 1;
    }
    proof {
        assert(forall|c: int|
            0 <= c < old(z_buffer)@.len() ==> z_buffer@[c] == (if sx0 <= c < sx1 && !(ws.distance
                > old(z_buffer)@[c]) {
                ws.distance as i64
            } else {
                old(z_buffer)@[c]
            }));
    }
}

} // verus!

verus! {

/// The color row `y` of wall column `c` shows once the wall pass ran.
pub open spec fn wall_pixel_val(g: Grid, px: int, py: int, ray: ColumnRay, h: int, y: int) -> u32 {
    column_pixel_val(
        h,
        band_height_val(h, column_distance_val(g, px, py, ray)),
        column_wall_color_val(g, px, py, ray),
        y,
    )
}

/// Renders every wall column: afterwards each depth-buffer entry holds its
/// column's perpendicular wall distance and each pixel shows its column's
/// ceiling, wall or floor color.
#[verifier::loop_isolation(false)]
pub fn render_walls(
    frame: &mut Frame,
    z_buffer: &mut Vec<Fx>,
    g: &Grid,
    px: Fx,
    py: Fx,
    rays: &Vec<ColumnRay>,
)
    requires
        old(frame).well_formed(),
        old(frame).height <= 0x7fff,
        old(z_buffer)@.len() == old(frame).width,
        rays@.len() == old(frame).width,
        g.well_formed(),
        forall|k: int| 0 <= k < rays@.len() ==> ray_ok(#[trigger] rays@[k]),
        px >= 0,
        py >= 0,
        1 <= fx_cell_val(px as int) <= g.side - 2,
        1 <= fx_cell_val(py as int) <= g.side - 2,
    ensures
        final(frame).well_formed(),
        final(frame).width == old(frame).width,
        final(frame).height == old(frame).height,
        final(z_buffer)@.len() == old(z_buffer)@.len(),
        forall|c: int|
            0 <= c < old(frame).width ==> final(z_buffer)@[c] == column_distance_val(
                *g,
                px as int,
                py as int,
                rays@[c],
            ) as i64,
        forall|y: int, c: int|
            0 <= y < old(frame).height && 0 <= c < old(frame).width ==> final(frame).spec_pixel(
                y,
                c,
            ) == wall_pixel_val(*g, px as int, py as int, rays@[c], old(frame).height as int, y),
{
    let mut x: u16 = 0;
    while x < frame.width
        invariant
            x <= frame.width,
            frame.well_formed(),
            frame.width == old(frame).width,
            frame.height == old(frame).height,
            z_buffer@.len() == old(z_buffer)@.len(),
            forall|c: int|
                0 <= c < x ==> z_buffer@[c] == column_distance_val(
                    *g,
                    px as int,
                    py as int,
                    rays@[c],
                ) as i64,
            forall|y: int, c: int|
                0 <= y < frame.height && 0 <= c < x ==> frame.spec_pixel(y, c) == wall_pixel_val(
                    *g,
                    px as int,
                    py as int,
                    rays@[c],
                    frame.height as int,
                    y,
                ),
        decreases frame.width - x,
    {
        let ray = rays[x as usize];
        render_column(frame, z_buffer, g, px, py, x, ray);
        x = x + 1;
    }
}

/// A sprite record the compositor cannot draw: it names a sheet that
/// does not exist, or a directional frame offset outside its sheet.
pub open spec fn sprite_asset_fault(w: WindowSprite, sheets: Seq<SpriteSheet>) -> bool {
    ||| w.sprite_sheet_index >= sheets.len()
    ||| w.sprite_sheet_y_offset + sheets[w.sprite_sheet_index as int].size > sheets[
        w.sprite_sheet_index as int
    ].size * frame_count(sheets[w.sprite_sheet_index as int].kind)
}

/// What one column of the depth buffer holds after a list of sprites was
/// drawn over a base depth (its wall distance): each sprite in turn takes
/// the column if the column is inside the sprite's span and the sprite is
/// not farther than the column's current occupant.
pub open spec fn depth_after(
    l: Seq<WindowSprite>,
    h: int,
    screen_w: int,
    c: int,
    base: int,
) -> int
    decreases l.len(),
{
    if l.len() == 0 {
        base
    } else {
        let prev = depth_after(l.drop_last(), h, screen_w, c, base);
        let w = l.last();
        let band = band_height_val(h, w.distance as int);
        if sprite_start_x_val(w.x as int, band) <= c < sprite_end_x_val(w.x as int, band, screen_w)
            && !(w.distance > prev) {
            w.distance as int
        } else {
            prev
        }
    }
}

/// The occlusion-floor law: drawing sprites can only bring a column's
/// depth nearer, never past the base the wall pass established.
pub proof fn lemma_sprites_never_deepen(
    l: Seq<WindowSprite>,
    h: int,
    screen_w: int,
    c: int,
    base: int,
)
    ensures
        depth_after(l, h, screen_w, c, base) <= base,
    decreases l.len(),
{
    if l.len() > 0 {
        lemma_sprites_never_deepen(l.drop_last(), h, screen_w, c, base);
    }
}

/// What screen pixel `(y, c)` shows after a list of sprites was drawn in
/// order over its wall-pass color: each sprite in turn repaints the pixel
/// exactly when its span covers the column, the column's depth at that
/// moment is not nearer, and the row lies in the sprite's band — walls
/// first, then sprites back to front, nearer ones over farther ones.
pub open spec fn frame_pixels_after(
    l: Seq<WindowSprite>,
    sheets: Seq<SpriteSheet>,
    h: int,
    screen_w: int,
    y: int,
    c: int,
    base_pix: int,
    base_depth: int,
) -> int
    decreases l.len(),
{
    if l.len() == 0 {
        base_pix
    } else {
        let prev = frame_pixels_after(
            l.drop_last(),
            sheets,
            h,
            screen_w,
            y,
            c,
            base_pix,
            base_depth,
        );
        let prev_depth = depth_after(l.drop_last(), h, screen_w, c, base_depth);
        let w = l.last();
        let band = band_height_val(h, w.distance as int);
        if sprite_start_x_val(w.x as int, band) <= c < sprite_end_x_val(w.x as int, band, screen_w)
            && !(w.distance > prev_depth) && band_start_val(h, band) <= y < band_end_val(
            h,
            band,
        ) {
            sprite_pixel_val(sheets[w.sprite_sheet_index as int], w, h, y, c, prev)
        } else {
            prev
        }
    }
}

/// Renders one full frame: the wall pass overwrites every column and its
/// depth entry, then the projected sprites are drawn back to front against
/// the depth buffer.  Returns false on an asset fault: a sprite record
/// naming a sheet that does not exist or a directional offset outside its
/// sheet.  Afterwards each depth entry and each pixel is exactly what
/// drawing the sprites in order over the wall pass leaves — the depth
/// never farther than the wall.
#[verifier::loop_isolation(false)]
pub fn render(
    frame: &mut Frame,
    z_buffer: &mut Vec<Fx>,
    g: &Grid,
    px: Fx,
    py: Fx,
    rays: &Vec<ColumnRay>,
    sprites: &Vec<WindowSprite>,
    sheets: &Vec<SpriteSheet>,
) -> (ok: bool)
    requires
        old(frame).well_formed(),
        old(frame).height <= 0x7fff,
        old(z_buffer)@.len() == old(frame).width,
        rays@.len() == old(frame).width,
        g.well_formed(),
        forall|k: int| 0 <= k < rays@.len() ==> ray_ok(#[trigger] rays@[k]),
        px >= 0,
        py >= 0,
        1 <= fx_cell_val(px as int) <= g.side - 2,
        1 <= fx_cell_val(py as int) <= g.side - 2,
        forall|k: int| 0 <= k < sheets@.len() ==> (#[trigger] sheets@[k]).well_formed(),
    ensures
        final(frame).well_formed(),
        final(frame).width == old(frame).width,
        final(frame).height == old(frame).height,
        final(z_buffer)@.len() == old(z_buffer)@.len(),
        forall|c: int|
            0 <= c < old(frame).width ==> final(z_buffer)@[c] <= column_distance_val(
                *g,
                px as int,
                py as int,
                rays@[c],
            ) as i64,
        ok ==> forall|c: int|
            0 <= c < old(frame).width ==> final(z_buffer)@[c] == depth_after(
                sprites@,
                old(frame).height as int,
                old(frame).width as int,
                c,
                column_distance_val(*g, px as int, py as int, rays@[c]),
            ),
        ok ==> forall|y: int, c: int|
            0 <= y < old(frame).height && 0 <= c < old(frame).width ==> final(frame).spec_pixel(
                y,
                c,
            ) == frame_pixels_after(
                sprites@,
                sheets@,
                old(frame).height as int,
                old(frame).width as int,
                y,
                c,
                wall_pixel_val(
                    *g,
                    px as int,
                    py as int,
                    rays@[c],
                    old(frame).height as int,
                    y,
                ) as int,
                column_distance_val(*g, px as int, py as int, rays@[c]),
            ),
        ok ==> forall|i: int| 0 <= i < sprites@.len() ==> !sprite_asset_fault(
            #[trigger] sprites@[i],
            sheets@,
        ),
        !ok ==> exists|i: int| 0 <= i < sprites@.len() && sprite_asset_fault(
            #[trigger] sprites@[i],
            sheets@,
        ),
{
    render_walls(frame, z_buffer, g, px, py, rays);
    let mut i: usize = 0;
    while i < sprites.len()
        invariant
            0 <= i <= sprites@.len(),
            frame.well_formed(),
            frame.width == old(frame).width,
            frame.height == old(frame).height,
            z_buffer@.len() == old(z_buffer)@.len(),
            forall|c: int|
                0 <= c < old(frame).width ==> z_buffer@[c] <= column_distance_val(
                    *g,
                    px as int,
                    py as int,
                    rays@[c],
                ) as i64,
            forall|c: int|
                0 <= c < old(frame).width ==> z_buffer@[c] == depth_after(
                    sprites@.take(i as int),
                    old(frame).height as int,
                    old(frame).width as int,
                    c,
                    column_distance_val(*g, px as int, py as int, rays@[c]),
                ),
            forall|y: int, c: int|
                0 <= y < old(frame).height && 0 <= c < old(frame).width ==> frame.spec_pixel(y, c)
                    == frame_pixels_after(
                    sprites@.take(i as int),
                    sheets@,
                    old(frame).height as int,
                    old(frame).width as int,
                    y,
                    c,
                    wall_pixel_val(
                        *g,
                        px as int,
                        py as int,
                        rays@[c],
                        old(frame).height as int,
                        y,
                    ) as int,
                    column_distance_val(*g, px as int, py as int, rays@[c]),
                ),
            forall|j: int| 0 <= j < i ==> !sprite_asset_fault(#[trigger] sprites@[j], sheets@),
        decreases sprites@.len() - i,
    {
        let ws = sprites[i];
        if ws.sprite_sheet_index >= sheets.len() {
            proof {
                assert(sprite_asset_fault(sprites@[i as int], sheets@));
            }
            return false;
        }
        let sheet = &sheets[ws.sprite_sheet_index];
        let frames_u32: u32 = match sheet.kind {
            crate::sprite_sheet::SpriteSheetKind::Single => 1,
            crate::sprite_sheet::SpriteSheetKind::EightDirectional => 8,
        };
        proof {
            assert(sheet.size * frame_count(sheet.kind) <= 0x1_0000) by (nonlinear_arith)
                requires
                    1 <= sheet.size <= 0x2000,
                    1 <= frame_count(sheet.kind) <= 8,
            ;
        }
        if ws.sprite_sheet_y_offset > sheet.size * frames_u32 - sheet.size {
            proof {
                assert(sprite_asset_fault(sprites@[i as int], sheets@));
            }
            return false;
        }
        let ghost before = *frame;
        let ghost z_before = z_buffer@;
        proof {
            assert(sheets@[ws.sprite_sheet_index as int] == *sheet);
        }
        render_window_sprite(frame, z_buffer, sheet, &ws);
        proof {
            assert(sprites@.take(i + 1).drop_last() =~= sprites@.take(i as int));
            assert(sprites@.take(i + 1).last() == ws);
            let hh = old(frame).height as int;
            let www = old(frame).width as int;
            assert forall|y: int, c: int| 0 <= y < hh && 0 <= c < www implies frame.spec_pixel(
                y,
                c,
            ) == frame_pixels_after(
                sprites@.take(i + 1),
                sheets@,
                hh,
                www,
                y,
                c,
                wall_pixel_val(*g, px as int, py as int, rays@[c], hh, y) as int,
                column_distance_val(*g, px as int, py as int, rays@[c]),
            ) by {
                let basep = wall_pixel_val(*g, px as int, py as int, rays@[c], hh, y) as int;
                let based = column_distance_val(*g, px as int, py as int, rays@[c]);
                let prev = frame_pixels_after(
                    sprites@.take(i as int),
                    sheets@,
                    hh,
                    www,
                    y,
                    c,
                    basep,
                    based,
                );
                let prev_depth = depth_after(sprites@.take(i as int), hh, www, c, based);
                assert(before.spec_pixel(y, c) == prev);
                assert(z_before[c] == prev_depth);
                let band = band_height_val(hh, ws.distance as int);
                if sprite_start_x_val(ws.x as int, band) <= c < sprite_end_x_val(
                    ws.x as int,
                    band,
                    www,
                ) && !(ws.distance > prev_depth) && band_start_val(hh, band) <= y
                    < band_end_val(hh, band) {
                    assert(frame.spec_pixel(y, c) == sprite_pixel_val(
                        *sheet,
                        ws,
                        hh,
                        y,
                        c,
                        before.spec_pixel(y, c) as int,
                    ));
                } else {
                    assert(frame.spec_pixel(y, c) == before.spec_pixel(y, c));
                }
            };
        }
        i = i + 1;
    }
    proof {
        assert(sprites@.take(sprites@.len() as int) =~= sprites@);
    }
    true
}

} // verus!

verus! {

/// The `k`-th angle of a column sweep that starts at `start` (already
/// normalized) and turns clockwise by `inc` per column, renormalizing at
/// every step as the sweep walks the screen.
pub open spec fn sweep_angle_val(start: int, inc: int, k: nat) -> int
    decreases k,
{
    if k == 0 {
        start
    } else {
        crate::angles::norm_val(fx_sub_s(sweep_angle_val(start, inc, (k - 1) as nat), inc))
    }
}

/// The world angles of every screen column's ray, sweeping from half the
/// field of view left of the facing to half of it right, one normalized
/// step per column.
#[verifier::loop_isolation(false)]
pub fn column_angles(facing: Fx, horizontal_fov: Fx, width: u16) -> (r: Vec<Fx>)
    requires
        width >= 2,
        horizontal_fov >= 0,
    ensures
        r@.len() == width,
        forall|k: int|
            0 <= k < width ==> r@[k] == sweep_angle_val(
                crate::angles::norm_val(fx_add_s(facing as int, (horizontal_fov / 2) as int)),
                (horizontal_fov / (width - 1) as i64) as int,
                k as nat,
            ),
{
    let half: Fx = horizontal_fov / 2;
    let inc: Fx = horizontal_fov / (width - 1) as i64;
    let mut angle: Fx = crate::angles::get_normalized_radians_angle(fx_add_sat(facing, half));
    let ghost start = angle as int;
    let mut out: Vec<Fx> = Vec::new();
    let mut k: u16 = 0;
    while k < width
        invariant
            0 <= k <= width,
            out@.len() == k,
            angle == sweep_angle_val(start, inc as int, k as nat),
            0 <= angle < crate::angles::FX_TAU,
            forall|j: int|
                0 <= j < k ==> out@[j] == sweep_angle_val(start, inc as int, j as nat),
        decreases width - k,
    {
        out.push(angle);
        angle = crate::angles::get_normalized_radians_angle(fx_sub_sat(angle, inc));
        k = k + 1;
    }
    out
}

} // verus!
