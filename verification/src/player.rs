//! The local player: position, facing angle and field of view, with
//! collision-aware movement.
use vstd::prelude::*;
use crate::fx::{Fx, FX_SCALE, fx_add_sat, fx_sub_sat, fx_mul_sat, fx_mul_val, fx_mul_s, fx_sub_s, fx_floor, fx_ceil, fx_cell, fx_cell_val, sat_i64};
use crate::angles::{norm_val, wrap_val, get_normalized_radians_angle, relative_angle, FX_PI, FX_TAU};
use crate::grid::Grid;

verus! {

/// How far inside the previous cell a blocked move is placed, so that
/// rounding cannot put the player back into the wall cell (about 1e-6 of a
/// cell).
pub const FX_WALL_MARGIN: i64 = 281474977;

/// Movement speed, in cells per second.
pub const FX_TRANSLATION_SPEED: i64 = 8444249301319680;

/// Rotation speed, in radians per second (300 degrees per second).
pub const FX_ROTATION_SPEED: i64 = 1473799531672592;

/// The local player.
pub struct Player {
    /// World x coordinate.
    pub x: Fx,
    /// World y coordinate.
    pub y: Fx,
    /// Facing angle, normalized to `[0, FX_TAU)`.
    pub angle: Fx,
    /// Horizontal field of view, in radians.
    pub horizontal_fov: Fx,
}

/// Where a move that crossed into a wall cell while moving in the positive
/// direction is placed: just inside the cell below the crossed boundary.
pub open spec fn snap_positive_val(v: int) -> int {
    sat_i64(sat_i64((v / (FX_SCALE as int)) * FX_SCALE) - FX_WALL_MARGIN)
}

/// Where a move that crossed into a wall cell while moving in the negative
/// direction is placed: just inside the cell above the crossed boundary.
pub open spec fn snap_negative_val(v: int) -> int {
    sat_i64(sat_i64(((v + FX_SCALE - 1) / (FX_SCALE as int)) * FX_SCALE) + FX_WALL_MARGIN)
}

/// The outcome of one axis of a translation: the new coordinate, given the
/// displaced coordinate `moved`, whether the destination cell `hit` is a
/// wall, and the sign of the displacement.
pub open spec fn axis_outcome(moved: int, hit: bool, positive: bool) -> int {
    if !hit {
        moved
    } else if positive {
        snap_positive_val(moved)
    } else {
        snap_negative_val(moved)
    }
}

/// What one translation does: the displaced, possibly snapped position,
/// and whether every cell lookup stayed inside the grid (a lookup outside
/// it is a geometry fault).
#[verifier::opaque]
pub open spec fn translate_val(p: Player, g: Grid, dx: int, dy: int) -> (Player, bool) {
    let moved_x = sat_i64(p.x + dx);
    let fault_x = fx_cell_val(moved_x) >= g.side || fx_cell_val(p.y as int) >= g.side;
    if fault_x {
        (
            Player { x: moved_x as i64, y: p.y, angle: p.angle, horizontal_fov: p.horizontal_fov },
            false,
        )
    } else {
        let hit_x = g.spec_cell(fx_cell_val(moved_x), fx_cell_val(p.y as int)) != 0;
        let new_x = axis_outcome(moved_x, hit_x, dx > 0);
        let moved_y = sat_i64(p.y + dy);
        let fault_y = fx_cell_val(moved_y) >= g.side || fx_cell_val(new_x) >= g.side;
        if fault_y {
            (
                Player {
                    x: new_x as i64,
                    y: moved_y as i64,
                    angle: p.angle,
                    horizontal_fov: p.horizontal_fov,
                },
                false,
            )
        } else {
            let hit_y = g.spec_cell(fx_cell_val(new_x), fx_cell_val(moved_y)) != 0;
            (
                Player {
                    x: new_x as i64,
                    y: axis_outcome(moved_y, hit_y, dy > 0) as i64,
                    angle: p.angle,
                    horizontal_fov: p.horizontal_fov,
                },
                true,
            )
        }
    }
}

/// Which movement keys are held this frame.
#[derive(Clone, Copy)]
pub struct MovementKeys {
    /// Move along the facing direction.
    pub forward: bool,
    /// Move against the facing direction.
    pub backward: bool,
    /// Strafe a quarter turn left of the facing.
    pub strafe_left: bool,
    /// Strafe a quarter turn right of the facing.
    pub strafe_right: bool,
    /// Rotate counterclockwise.
    pub turn_left: bool,
    /// Rotate clockwise.
    pub turn_right: bool,
}

/// Where the held movement keys take the player over one frame, applied
/// in the fixed order forward, backward, strafe left, strafe right, each
/// a full collision-checked translation; a geometry fault stops the
/// sequence.
pub open spec fn movement_val(p: Player, g: Grid, keys: MovementKeys, dt: int, cos_a: int, sin_a: int) -> (
    Player,
    bool,
) {
    let r0 = (p, true);
    let r1 = if keys.forward && r0.1 {
        translate_val(
            r0.0,
            g,
            fx_mul_s(fx_mul_s(cos_a, FX_TRANSLATION_SPEED as int), dt),
            fx_mul_s(fx_mul_s(fx_sub_s(0, sin_a), FX_TRANSLATION_SPEED as int), dt),
        )
    } else {
        r0
    };
    let r2 = if keys.backward && r1.1 {
        translate_val(
            r1.0,
            g,
            fx_mul_s(fx_mul_s(fx_sub_s(0, cos_a), FX_TRANSLATION_SPEED as int), dt),
            fx_mul_s(fx_mul_s(sin_a, FX_TRANSLATION_SPEED as int), dt),
        )
    } else {
        r1
    };
    let r3 = if keys.strafe_left && r2.1 {
        translate_val(
            r2.0,
            g,
            fx_mul_s(fx_mul_s(fx_sub_s(0, sin_a), FX_TRANSLATION_SPEED as int), dt),
            fx_mul_s(fx_mul_s(fx_sub_s(0, cos_a), FX_TRANSLATION_SPEED as int), dt),
        )
    } else {
        r2
    };
    if keys.strafe_right && r3.1 {
        translate_val(
            r3.0,
            g,
            fx_mul_s(fx_mul_s(sin_a, FX_TRANSLATION_SPEED as int), dt),
            fx_mul_s(fx_mul_s(cos_a, FX_TRANSLATION_SPEED as int), dt),
        )
    } else {
        r3
    }
}

impl Player {
    /// A player at `(x, y)` facing `angle` with the given horizontal field
    /// of view.
    pub fn new(x: Fx, y: Fx, angle: Fx, horizontal_fov: Fx) -> (p: Player)
        ensures
            p == (Player { x, y, angle, horizontal_fov }),
    {
        Player { x, y, angle, horizontal_fov }
    }

    /// The signed angle from the player's facing to a target whose world
    /// bearing (the angle of the vector from the player to the target) is
    /// `bearing`, in `[-FX_PI, FX_PI)`.
    pub fn get_angle_to(&self, bearing: Fx) -> (r: Fx)
        ensures
            r == wrap_val(norm_val(bearing - self.angle)),
            -FX_PI <= r < FX_PI,
    {
        relative_angle(bearing, self.angle)
    }

    /// Applies a displacement one axis at a time; an axis whose destination
    /// cell is a wall is instead snapped to just beside the crossed cell
    /// boundary, which lets diagonal moves slide along walls.  Returns
    /// false on a geometry fault: a cell lookup outside the grid, which a
    /// valid position cannot produce.
    pub fn translate(&mut self, g: &Grid, dx: Fx, dy: Fx) -> (ok: bool)
        requires
            g.well_formed(),
        ensures
            (*final(self), ok) == translate_val(*old(self), *g, dx as int, dy as int),
            final(self).angle == old(self).angle,
            final(self).horizontal_fov == old(self).horizontal_fov,
    {
        proof {
            reveal(translate_val);
        }
        self.x = fx_add_sat(self.x, dx);
        let cx = fx_cell(self.x);
        let cy = fx_cell(self.y);
        if cx >= g.side || cy >= g.side {
            return false;
        }
        if g.cell(cx, cy) != 0 {
            if dx > 0 {
                self.x = fx_sub_sat(fx_floor(self.x), FX_WALL_MARGIN);
            } else {
                self.x = fx_add_sat(fx_ceil(self.x), FX_WALL_MARGIN);
            }
        }
        self.y = fx_add_sat(self.y, dy);
        let cx2 = fx_cell(self.x);
        let cy2 = fx_cell(self.y);
        if cy2 >= g.side || cx2 >= g.side {
            return false;
        }
        if g.cell(cx2, cy2) != 0 {
            if dy > 0 {
                self.y = fx_sub_sat(fx_floor(self.y), FX_WALL_MARGIN);
            } else {
                self.y = fx_add_sat(fx_ceil(self.y), FX_WALL_MARGIN);
            }
        }
        true
    }

    /// Applies one frame of held-key movement and rotation: the gated
    /// translations in order, then the rotations, everything scaled by
    /// the frame delta `dt` (at most one second).  `cos_a` and `sin_a`
    /// are the cosine and sine of the current facing angle; strafing uses
    /// the quarter-turn identities on them.  Returns false on a geometry
    /// fault.
    #[verifier::rlimit(100)]
    pub fn continuous_update(
        &mut self,
        g: &Grid,
        keys: MovementKeys,
        dt: Fx,
        cos_a: Fx,
        sin_a: Fx,
    ) -> (ok: bool)
        requires
            g.well_formed(),
            0 <= old(self).angle < FX_TAU,
            0 <= dt <= FX_SCALE,
        ensures
            ({
                let (moved, mok) = movement_val(
                    *old(self),
                    *g,
                    keys,
                    dt as int,
                    cos_a as int,
                    sin_a as int,
                );
                &&& ok == mok
                &&& final(self).x == moved.x
                &&& final(self).y == moved.y
                &&& final(self).horizontal_fov == old(self).horizontal_fov
                &&& ({
                    let step = fx_mul_val(FX_ROTATION_SPEED as int, dt as int);
                    let a1 = if keys.turn_left {
                        norm_val(old(self).angle + step)
                    } else {
                        old(self).angle as int
                    };
                    final(self).angle == if keys.turn_right {
                        norm_val(a1 - step)
                    } else {
                        a1
                    }
                })
            }),
    {
        let mut ok = true;
        if keys.forward {
            ok = self.translate(
                g,
                fx_mul_sat(fx_mul_sat(cos_a, FX_TRANSLATION_SPEED), dt),
                fx_mul_sat(fx_mul_sat(fx_sub_sat(0, sin_a), FX_TRANSLATION_SPEED), dt),
            );
        }
        if keys.backward && ok {
            ok = self.translate(
                g,
                fx_mul_sat(fx_mul_sat(fx_sub_sat(0, cos_a), FX_TRANSLATION_SPEED), dt),
                fx_mul_sat(fx_mul_sat(sin_a, FX_TRANSLATION_SPEED), dt),
            );
        }
        if keys.strafe_left && ok {
            ok = self.translate(
                g,
                fx_mul_sat(fx_mul_sat(fx_sub_sat(0, sin_a), FX_TRANSLATION_SPEED), dt),
                fx_mul_sat(fx_mul_sat(fx_sub_sat(0, cos_a), FX_TRANSLATION_SPEED), dt),
            );
        }
        if keys.strafe_right && ok {
            ok = self.translate(
                g,
                fx_mul_sat(fx_mul_sat(sin_a, FX_TRANSLATION_SPEED), dt),
                fx_mul_sat(fx_mul_sat(cos_a, FX_TRANSLATION_SPEED), dt),
            );
        }
        if keys.turn_left {
            self.turn_left(dt);
        }
        if keys.turn_right {
            self.turn_right(dt);
        }
        ok
    }

    /// Turns left by the rotation speed over `dt`, keeping the angle
    /// normalized.  `dt` is a frame delta of at most one second (the main
    /// loop caps it far below that).
    pub fn turn_left(&mut self, dt: Fx)
        requires
            0 <= old(self).angle < FX_TAU,
            0 <= dt <= FX_SCALE,
        ensures
            final(self).angle == norm_val(
                old(self).angle + fx_mul_val(FX_ROTATION_SPEED as int, dt as int),
            ),
            final(self).x == old(self).x,
            final(self).y == old(self).y,
            final(self).horizontal_fov == old(self).horizontal_fov,
    {
        let step = fx_mul_sat(FX_ROTATION_SPEED, dt);
        proof {
            lemma_rotation_step_bounds(dt as int);
        }
        self.angle = get_normalized_radians_angle(fx_add_sat(self.angle, step));
    }

    /// Turns right by the rotation speed over `dt`, keeping the angle
    /// normalized.  `dt` is a frame delta of at most one second.
    pub fn turn_right(&mut self, dt: Fx)
        requires
            0 <= old(self).angle < FX_TAU,
            0 <= dt <= FX_SCALE,
        ensures
            final(self).angle == norm_val(
                old(self).angle - fx_mul_val(FX_ROTATION_SPEED as int, dt as int),
            ),
            final(self).x == old(self).x,
            final(self).y == old(self).y,
            final(self).horizontal_fov == old(self).horizontal_fov,
    {
        let step = fx_mul_sat(FX_ROTATION_SPEED, dt);
        proof {
            lemma_rotation_step_bounds(dt as int);
        }
        self.angle = get_normalized_radians_angle(fx_sub_sat(self.angle, step));
    }
}

/// Over at most one second, the rotation step stays within one full
/// rotation-speed unit, so saturation never clips it.
proof fn lemma_rotation_step_bounds(dt: int)
    requires
        0 <= dt <= FX_SCALE,
    ensures
        0 <= fx_mul_val(FX_ROTATION_SPEED as int, dt) <= FX_ROTATION_SPEED,
{
    let p = (FX_ROTATION_SPEED as int) * dt;
    assert(0 <= (FX_ROTATION_SPEED as int) * dt <= (FX_ROTATION_SPEED as int) * (
    FX_SCALE as int)) by (nonlinear_arith)
        requires
            0 <= dt <= FX_SCALE,
    ;
    assert(p / (FX_SCALE as int) <= FX_ROTATION_SPEED) by {
        vstd::arithmetic::div_mod::lemma_div_is_ordered(
            p,
            (FX_ROTATION_SPEED as int) * (FX_SCALE as int),
            FX_SCALE as int,
        );
        vstd::arithmetic::div_mod::lemma_div_by_multiple(
            FX_ROTATION_SPEED as int,
            FX_SCALE as int,
        );
    };
}

} // verus!

verus! {

/// `v`'s cell is `c` exactly when `v` lies in cell `c`'s span.
proof fn lemma_cell_of_range(v: int, c: int)
    requires
        0 <= c,
        c * FX_SCALE <= v < (c + 1) * FX_SCALE,
    ensures
        fx_cell_val(v) == c,
{
    assert(v >= 0) by (nonlinear_arith)
        requires
            0 <= c,
            c * FX_SCALE <= v,
    ;
    vstd::arithmetic::div_mod::lemma_fundamental_div_mod_converse_div(
        v,
        FX_SCALE as int,
        c,
        v - c * FX_SCALE,
    );
}

/// The span of a nonnegative coordinate's cell.
proof fn lemma_range_of_cell(v: int)
    requires
        v >= 0,
    ensures
        fx_cell_val(v) * FX_SCALE <= v < (fx_cell_val(v) + 1) * FX_SCALE,
{
    vstd::arithmetic::div_mod::lemma_fundamental_div_mod(v, FX_SCALE as int);
}

/// One axis of a blocked move: displacing by less than one cell moves to a
/// neighbouring cell at most, and when the destination cell differs from
/// the starting one, the snap places the coordinate back into the starting
/// cell.
proof fn lemma_axis_outcome(v: int, d: int, c: int)
    requires
        c == fx_cell_val(v),
        1 <= c <= 0xffe,
        v >= 0,
        -FX_SCALE < d < FX_SCALE,
    ensures
        sat_i64(v + d) == v + d,
        v + d >= 0,
        c - 1 <= fx_cell_val(v + d) <= c + 1,
        fx_cell_val(v + d) != c ==> ({
            let snapped = axis_outcome(v + d, true, d > 0);
            fx_cell_val(snapped) == c && snapped >= 0
        }),
{
    let s = FX_SCALE as int;
    lemma_range_of_cell(v);
    assert(v + d > (c - 1) * s && v + d < (c + 2) * s) by (nonlinear_arith)
        requires
            c * s <= v < (c + 1) * s,
            -s < d < s,
            s == FX_SCALE as int,
    ;
    let moved = v + d;
    let mc = fx_cell_val(moved);
    if moved < c * s {
        lemma_cell_of_range(moved, c - 1);
    } else if moved < (c + 1) * s {
        lemma_cell_of_range(moved, c);
    } else {
        lemma_cell_of_range(moved, c + 1);
    }
    if mc != c {
        if d > 0 {
            assert(moved >= v >= c * s);
            assert(mc == c + 1);
            assert(moved / s == c + 1);
            let snapped = axis_outcome(moved, true, true);
            assert(snapped == (c + 1) * s - FX_WALL_MARGIN);
            lemma_cell_of_range(snapped, c);
        } else {
            assert(mc == c - 1);
            assert((c - 1) * s < moved < c * s);
            let q = (moved + s - 1) / s;
            vstd::arithmetic::div_mod::lemma_fundamental_div_mod_converse_div(
                moved + s - 1,
                s,
                c,
                moved - 1 - (c - 1) * s,
            );
            assert(q == c);
            let snapped = axis_outcome(moved, true, false);
            assert(snapped == c * s + FX_WALL_MARGIN);
            lemma_cell_of_range(snapped, c);
        }
    }
}

/// The collision law: starting from a valid position (inside the arena, in
/// a passable cell), a displacement of less than one cell on each axis —
/// which the frame-time cap guarantees — never leaves the player inside a
/// wall cell, whichever direction each axis moves; a blocked axis ends on
/// the passable side of the crossed boundary.  The values below are the
/// ones `Player::translate`'s contract computes, so this applies to its
/// result.
pub proof fn lemma_translate_collision(p: Player, g: Grid, dx: int, dy: int)
    requires
        g.well_formed(),
        1 <= fx_cell_val(p.x as int) <= g.side - 2,
        1 <= fx_cell_val(p.y as int) <= g.side - 2,
        g.spec_cell(fx_cell_val(p.x as int), fx_cell_val(p.y as int)) == 0,
        -FX_SCALE < dx < FX_SCALE,
        -FX_SCALE < dy < FX_SCALE,
    ensures
        ({
            let moved_x = sat_i64(p.x + dx);
            let hit_x = g.spec_cell(fx_cell_val(moved_x), fx_cell_val(p.y as int)) != 0;
            let new_x = axis_outcome(moved_x, hit_x, dx > 0);
            let moved_y = sat_i64(p.y + dy);
            let hit_y = g.spec_cell(fx_cell_val(new_x), fx_cell_val(moved_y)) != 0;
            let new_y = axis_outcome(moved_y, hit_y, dy > 0);
            &&& fx_cell_val(moved_x) < g.side
            &&& fx_cell_val(moved_y) < g.side
            &&& 1 <= fx_cell_val(new_x) <= g.side - 2
            &&& 1 <= fx_cell_val(new_y) <= g.side - 2
            &&& g.spec_cell(fx_cell_val(new_x), fx_cell_val(new_y)) == 0
        }),
{
    let cx = fx_cell_val(p.x as int);
    let cy = fx_cell_val(p.y as int);
    assert(p.x >= 0 && p.y >= 0);
    lemma_axis_outcome(p.x as int, dx, cx);
    let moved_x = sat_i64(p.x + dx);
    let hit_x = g.spec_cell(fx_cell_val(moved_x), cy) != 0;
    let new_x = axis_outcome(moved_x, hit_x, dx > 0);
    if hit_x {
        assert(fx_cell_val(moved_x) != cx);
        assert(fx_cell_val(new_x) == cx);
    } else {
        assert(!g.on_ring(fx_cell_val(moved_x), cy));
        assert(1 <= fx_cell_val(new_x) <= g.side - 2);
    }
    assert(g.spec_cell(fx_cell_val(new_x), cy) == 0);
    assert(new_x >= 0);
    lemma_axis_outcome(p.y as int, dy, cy);
    let moved_y = sat_i64(p.y + dy);
    let hit_y = g.spec_cell(fx_cell_val(new_x), fx_cell_val(moved_y)) != 0;
    let new_y = axis_outcome(moved_y, hit_y, dy > 0);
    if hit_y {
        assert(fx_cell_val(moved_y) != cy);
        assert(fx_cell_val(new_y) == cy);
    } else {
        assert(!g.on_ring(fx_cell_val(new_x), fx_cell_val(moved_y)));
        assert(1 <= fx_cell_val(new_y) <= g.side - 2);
    }
}

} // verus!
