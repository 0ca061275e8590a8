//! Wall ray casting by grid traversal.
//!
//! A ray is marched cell by cell from the player's position: each step
//! advances along whichever axis has the smaller accumulated distance to
//! its next grid line, until a wall cell is met.  The caller supplies the
//! ray's direction components (its cosine and sine) as fixed-point values;
//! everything else, including the traversal itself, is computed and
//! verified here.  A well-formed grid's closed wall ring guarantees that
//! the march stays in bounds and terminates.
use vstd::prelude::*;
use crate::fx::{Fx, FX_SCALE, fx_div_val, fx_div_sat, fx_add_sat, fx_cell, fx_cell_val, sat_i64};
use crate::angles::{FX_PI, FX_TAU, FX_HALF_PI, FX_THREE_HALF_PI};
use crate::grid::Grid;

verus! {

/// The result of casting one ray.
pub struct RayHit {
    /// Distance travelled along the ray to the wall, in fixed-point units.
    pub distance: Fx,
    /// The code of the wall cell that was hit.
    pub value: u8,
    /// True when the ray crossed a vertical grid line last (x-axis step).
    pub is_vertical: bool,
    /// Column of the wall cell that was hit.
    pub cell_x: usize,
    /// Row of the wall cell that was hit.
    pub cell_y: usize,
}

/// Whether a ray with this normalized angle steps in the negative x
/// direction.
pub open spec fn step_neg_x(a: int) -> bool {
    FX_HALF_PI < a < FX_THREE_HALF_PI
}

/// Whether a ray with this normalized angle steps in the negative y
/// direction (screen y decreases as the world angle sweeps through the
/// upper half turn).
pub open spec fn step_neg_y(a: int) -> bool {
    0 < a < FX_PI
}

/// Distance along the ray from the origin to its first grid line on one
/// axis: the fractional distance to that line divided by the magnitude of
/// the direction component on the axis.
pub open spec fn initial_axis_distance(frac: int, dir_abs: int) -> int {
    sat_i64(fx_div_val(frac, dir_abs))
}

/// Distance along the ray between two successive grid lines on one axis.
pub open spec fn axis_step_distance(dir_abs: int) -> int {
    sat_i64(fx_div_val(FX_SCALE as int, dir_abs))
}

/// One outcome of the traversal: accumulated distance, orientation of the
/// crossed grid line, and the hit cell.
pub struct DdaOutcome {
    pub distance: int,
    pub is_vertical: bool,
    pub cell_x: int,
    pub cell_y: int,
}

/// The grid traversal itself, as a mathematical recursion.  `neg_x` and
/// `neg_y` give the step direction on each axis, `has_x`/`has_y` say
/// whether the ray ever crosses grid lines of that axis (a ray parallel to
/// an axis never does), `dist_x`/`dist_y` are the accumulated distances to
/// the next grid line on each axis and `step_x`/`step_y` the per-cell
/// increments.
pub open spec fn dda_spec(
    g: Grid,
    cx: int,
    cy: int,
    neg_x: bool,
    neg_y: bool,
    has_x: bool,
    has_y: bool,
    dist_x: int,
    dist_y: int,
    step_x: int,
    step_y: int,
) -> DdaOutcome
    decreases
            (if neg_x {
                cx
            } else {
                g.side - 1 - cx
            }) + (if neg_y {
                cy
            } else {
                g.side - 1 - cy
            }),
{
    if !(1 <= cx <= g.side - 2 && 1 <= cy <= g.side - 2) {
        DdaOutcome { distance: 0, is_vertical: false, cell_x: cx, cell_y: cy }
    } else if has_x && (!has_y || dist_x < dist_y) {
        let nx = if neg_x {
            cx - 1
        } else {
            cx + 1
        };
        if g.spec_cell(nx, cy) != 0 {
            DdaOutcome { distance: dist_x, is_vertical: true, cell_x: nx, cell_y: cy }
        } else {
            dda_spec(
                g,
                nx,
                cy,
                neg_x,
                neg_y,
                has_x,
                has_y,
                sat_i64(dist_x + step_x),
                dist_y,
                step_x,
                step_y,
            )
        }
    } else {
        let ny = if neg_y {
            cy - 1
        } else {
            cy + 1
        };
        if g.spec_cell(cx, ny) != 0 {
            DdaOutcome { distance: dist_y, is_vertical: false, cell_x: cx, cell_y: ny }
        } else {
            dda_spec(
                g,
                cx,
                ny,
                neg_x,
                neg_y,
                has_x,
                has_y,
                dist_x,
                sat_i64(dist_y + step_y),
                step_x,
                step_y,
            )
        }
    }
}

/// What `cast_ray` returns, assembled from the ray's inputs: the traversal
/// started at the origin's cell with the axis distances derived from the
/// origin's fractional position and the ray's direction.
pub open spec fn cast_ray_spec(g: Grid, px: int, py: int, angle: int, dir_x: int, dir_y: int) -> DdaOutcome {
    let fx0 = px % (FX_SCALE as int);
    let fy0 = py % (FX_SCALE as int);
    let nx = step_neg_x(angle);
    let ny = step_neg_y(angle);
    let num_x = if nx {
        fx0
    } else {
        FX_SCALE - fx0
    };
    let num_y = if ny {
        fy0
    } else {
        FX_SCALE - fy0
    };
    let ax = crate::fx::abs_val(dir_x);
    let ay = crate::fx::abs_val(dir_y);
    dda_spec(
        g,
        fx_cell_val(px),
        fx_cell_val(py),
        nx,
        ny,
        dir_x != 0,
        dir_y != 0,
        if dir_x != 0 {
            initial_axis_distance(num_x, ax)
        } else {
            0
        },
        if dir_y != 0 {
            initial_axis_distance(num_y, ay)
        } else {
            0
        },
        if dir_x != 0 {
            axis_step_distance(ax)
        } else {
            0
        },
        if dir_y != 0 {
            axis_step_distance(ay)
        } else {
            0
        },
    )
}

/// Casts a ray from `(px, py)` at the normalized world angle `angle`,
/// whose direction components (cosine and sine of the angle) the caller
/// supplies as `dir_x`, `dir_y`.  Returns the first wall cell met, the
/// distance travelled along the ray to the grid line where it was met, and
/// whether that grid line was vertical.
#[verifier::loop_isolation(false)]
pub fn cast_ray(g: &Grid, px: Fx, py: Fx, angle: Fx, dir_x: Fx, dir_y: Fx) -> (r: RayHit)
    requires
        g.well_formed(),
        0 <= angle < FX_TAU,
        -FX_SCALE <= dir_x <= FX_SCALE,
        -FX_SCALE <= dir_y <= FX_SCALE,
        !(dir_x == 0 && dir_y == 0),
        px >= 0,
        py >= 0,
        1 <= fx_cell_val(px as int) <= g.side - 2,
        1 <= fx_cell_val(py as int) <= g.side - 2,
    ensures
        r.cell_x < g.side,
        r.cell_y < g.side,
        g.spec_cell(r.cell_x as int, r.cell_y as int) != 0,
        r.value == g.spec_cell(r.cell_x as int, r.cell_y as int),
        ({
            let o = cast_ray_spec(*g, px as int, py as int, angle as int, dir_x as int, dir_y as int);
            r.distance == o.distance && r.is_vertical == o.is_vertical && r.cell_x == o.cell_x
                && r.cell_y == o.cell_y
        }),
{
    let neg_x: bool = FX_HALF_PI < angle && angle < FX_THREE_HALF_PI;
    let neg_y: bool = 0 < angle && angle < FX_PI;
    let frac_x: Fx = px % FX_SCALE;
    let frac_y: Fx = py % FX_SCALE;
    let has_x: bool = dir_x != 0;
    let has_y: bool = dir_y != 0;
    let abs_dx: Fx = if dir_x < 0 {
        -dir_x
    } else {
        dir_x
    };
    let abs_dy: Fx = if dir_y < 0 {
        -dir_y
    } else {
        dir_y
    };
    let mut dist_x: Fx = 0;
    let mut step_x: Fx = 0;
    if has_x {
        dist_x = fx_div_sat(if neg_x { frac_x } else { FX_SCALE - frac_x }, abs_dx);
        step_x = fx_div_sat(FX_SCALE, abs_dx);
    }
    let mut dist_y: Fx = 0;
    let mut step_y: Fx = 0;
    if has_y {
        dist_y = fx_div_sat(if neg_y { frac_y } else { FX_SCALE - frac_y }, abs_dy);
        step_y = fx_div_sat(FX_SCALE, abs_dy);
    }
    let mut cx: usize = fx_cell(px);
    let mut cy: usize = fx_cell(py);
    let ghost target = dda_spec(
        *g,
        cx as int,
        cy as int,
        neg_x,
        neg_y,
        has_x,
        has_y,
        dist_x as int,
        dist_y as int,
        step_x as int,
        step_y as int,
    );
    proof {
        assert(target == cast_ray_spec(*g, px as int, py as int, angle as int, dir_x as int, dir_y as int));
    }
    loop
        invariant
            g.well_formed(),
            1 <= cx <= g.side - 2,
            1 <= cy <= g.side - 2,
            has_x || has_y,
            target == dda_spec(
                *g,
                cx as int,
                cy as int,
                neg_x,
                neg_y,
                has_x,
                has_y,
                dist_x as int,
                dist_y as int,
                step_x as int,
                step_y as int,
            ),
        decreases
                (if neg_x {
                    cx as int
                } else {
                    g.side - 1 - cx
                }) + (if neg_y {
                    cy as int
                } else {
                    g.side - 1 - cy
                }),
    {
        let ghost ocx = cx as int;
        let ghost ocy = cy as int;
        let ghost odx = dist_x as int;
        let ghost ody = dist_y as int;
        if has_x && (!has_y || dist_x < dist_y) {
            cx = if neg_x {
                cx - 1
            } else {
                cx + 1
            };
            let v = g.cell(cx, cy);
            if v != 0 {
                proof {
                    assert(target == dda_spec(
                        *g,
                        ocx,
                        ocy,
                        neg_x,
                        neg_y,
                        has_x,
                        has_y,
                        odx,
                        ody,
                        step_x as int,
                        step_y as int,
                    ));
                    assert(dda_spec(
                        *g,
                        ocx,
                        ocy,
                        neg_x,
                        neg_y,
                        has_x,
                        has_y,
                        odx,
                        ody,
                        step_x as int,
                        step_y as int,
                    ) == DdaOutcome {
                        distance: odx,
                        is_vertical: true,
                        cell_x: cx as int,
                        cell_y: ocy,
                    });
                }
                return RayHit {
                    distance: dist_x,
                    value: v,
                    is_vertical: true,
                    cell_x: cx,
                    cell_y: cy,
                };
            }
            dist_x = fx_add_sat(dist_x, step_x);
            proof {
                assert(dda_spec(
                    *g,
                    ocx,
                    ocy,
                    neg_x,
                    neg_y,
                    has_x,
                    has_y,
                    odx,
                    ody,
                    step_x as int,
                    step_y as int,
                ) == dda_spec(
                    *g,
                    cx as int,
                    cy as int,
                    neg_x,
                    neg_y,
                    has_x,
                    has_y,
                    dist_x as int,
                    dist_y as int,
                    step_x as int,
                    step_y as int,
                ));
            }
        } else {
            cy = if neg_y {
                cy - 1
            } else {
                cy + 1
            };
            let v = g.cell(cx, cy);
            if v != 0 {
                proof {
                    assert(dda_spec(
                        *g,
                        ocx,
                        ocy,
                        neg_x,
                        neg_y,
                        has_x,
                        has_y,
                        odx,
                        ody,
                        step_x as int,
                        step_y as int,
                    ) == DdaOutcome {
                        distance: ody,
                        is_vertical: false,
                        cell_x: ocx,
                        cell_y: cy as int,
                    });
                }
                return RayHit {
                    distance: dist_y,
                    value: v,
                    is_vertical: false,
                    cell_x: cx,
                    cell_y: cy,
                };
            }
            dist_y = fx_add_sat(dist_y, step_y);
            proof {
                assert(dda_spec(
                    *g,
                    ocx,
                    ocy,
                    neg_x,
                    neg_y,
                    has_x,
                    has_y,
                    odx,
                    ody,
                    step_x as int,
                    step_y as int,
                ) == dda_spec(
                    *g,
                    cx as int,
                    cy as int,
                    neg_x,
                    neg_y,
                    has_x,
                    has_y,
                    dist_x as int,
                    dist_y as int,
                    step_x as int,
                    step_y as int,
                ));
            }
        }
    }
}

} // verus!
