//! Sprite projection: from world-space sightings to screen-space records,
//! culled to the field of view and sorted far-to-near for back-to-front
//! drawing.
//!
//! For each sprite the caller supplies what only trigonometry can give:
//! the world bearing from the player to the sprite, that bearing's cosine
//! and sine, and the straight-line distance.  Everything derived from
//! these — the relative angle, the perspective-corrected distance, the
//! screen column, the directional frame — is computed and verified here.
use vstd::prelude::*;
use vstd::seq_lib::group_to_multiset_ensures;
use crate::fx::{Fx, FX_HALF, fx_mul_s, fx_div_s, fx_add_s, fx_sub_s, fx_round_val, fx_mul_sat, fx_div_sat, fx_add_sat, fx_sub_sat, fx_round};
use crate::angles::{norm_val, wrap_val, get_normalized_radians_angle, relative_angle, FX_PI};
use crate::sprite_sheet::{SpriteSheet, y_offset_val};

verus! {

/// Sprites closer than this (about 1e-10 of a cell) are dropped as
/// degenerate: the camera is inside them.
pub const FX_MIN_SPRITE_DISTANCE: i64 = 28147;

/// One sprite as seen from the player this frame: its identity plus the
/// trigonometric measurements the caller supplies.
#[derive(Clone, Copy)]
pub struct ObservedSprite {
    /// The sprite's session id.
    pub id: u32,
    /// Which sprite sheet draws it.
    pub sprite_sheet_index: usize,
    /// The sprite's own facing angle, if it has directional frames.
    pub facing_angle: Option<Fx>,
    /// World angle of the vector from the player to the sprite.
    pub bearing: Fx,
    /// Cosine of `bearing`.
    pub cos_bearing: Fx,
    /// Sine of `bearing`.
    pub sin_bearing: Fx,
    /// Straight-line distance from the player to the sprite.
    pub euclid_distance: Fx,
}

/// A sprite projected onto the screen.
#[derive(Clone, Copy)]
pub struct WindowSprite {
    /// Which sprite sheet draws it.
    pub sprite_sheet_index: usize,
    /// Vertical pixel offset of the selected directional frame.
    pub sprite_sheet_y_offset: u32,
    /// Screen column of the sprite's center.
    pub x: i16,
    /// Perspective-corrected distance, for occlusion and scaling.
    pub distance: Fx,
}

impl WindowSprite {
    /// A projected sprite record.
    pub fn new(sprite_sheet_index: usize, sprite_sheet_y_offset: u32, x: i16, distance: Fx) -> (w:
        WindowSprite)
        ensures
            w == (WindowSprite { sprite_sheet_index, sprite_sheet_y_offset, x, distance }),
    {
        WindowSprite { sprite_sheet_index, sprite_sheet_y_offset, x, distance }
    }
}

/// The player-side inputs of one projection pass.
pub struct ProjectionSetup {
    /// The local player's own session id, whose sprite is never drawn.
    pub own_id: Option<u32>,
    /// The player's facing angle.
    pub facing: Fx,
    /// Cosine of the facing angle.
    pub cos_facing: Fx,
    /// Sine of the facing angle.
    pub sin_facing: Fx,
    /// Relative angles beyond this magnitude are culled.
    pub cull_limit: Fx,
    /// Screen width in columns.
    pub screen_width: u16,
    /// Tangent of half the horizontal field of view.
    pub tan_half_fov: Fx,
}

/// Clamps to the `i16` range, as the screen-column cast does.
pub open spec fn clamp_i16_val(v: int) -> int {
    if v < -0x8000 {
        -0x8000
    } else if v > 0x7fff {
        0x7fff
    } else {
        v
    }
}

/// Half the screen width, as a fixed-point length.
pub open spec fn half_width_val(screen_width: int) -> int {
    screen_width * FX_HALF
}

/// Distance from the eye to the projection plane: half the screen width
/// divided by the tangent of half the field of view.
pub open spec fn plane_distance_val(setup: ProjectionSetup) -> int
    recommends
        setup.tan_half_fov != 0,
{
    fx_div_s(half_width_val(setup.screen_width as int), setup.tan_half_fov as int)
}

/// What projecting one sighting yields.
pub enum Projection {
    /// The sprite is not drawn: it is the player's own, outside the
    /// field of view, or degenerately close.
    Skipped,
    /// The sighting names a sprite sheet that does not exist.
    Fault,
    /// The sprite is drawn with this screen-space record.
    Kept(WindowSprite),
}

/// Projects one sighting.  The relative angle is the wrapped difference
/// between the bearing and the facing; its cosine and sine come from the
/// angle-difference identities on the supplied values; the screen column
/// comes from the tangent scaled by the projection-plane distance; the
/// directional frame is selected by the angle from the sprite back toward
/// the player, relative to the sprite's own facing.
pub open spec fn project_one(
    setup: ProjectionSetup,
    sheets: Seq<SpriteSheet>,
    o: ObservedSprite,
) -> Projection {
    let rel = wrap_val(norm_val(o.bearing - setup.facing));
    if setup.own_id == Some(o.id) {
        Projection::Skipped
    } else if rel > setup.cull_limit || rel < -(setup.cull_limit as int) {
        Projection::Skipped
    } else {
        let cos_rel = fx_add_s(
            fx_mul_s(o.cos_bearing as int, setup.cos_facing as int),
            fx_mul_s(o.sin_bearing as int, setup.sin_facing as int),
        );
        let dist = fx_mul_s(o.euclid_distance as int, cos_rel);
        if dist < FX_MIN_SPRITE_DISTANCE {
            Projection::Skipped
        } else {
            let sin_rel = fx_sub_s(
                fx_mul_s(o.sin_bearing as int, setup.cos_facing as int),
                fx_mul_s(o.cos_bearing as int, setup.sin_facing as int),
            );
            let tan_rel = fx_div_s(sin_rel, cos_rel);
            let x = clamp_i16_val(
                fx_round_val(
                    fx_sub_s(
                        half_width_val(setup.screen_width as int),
                        fx_mul_s(tan_rel, plane_distance_val(setup)),
                    ),
                ),
            );
            match o.facing_angle {
                None => Projection::Kept(
                    WindowSprite {
                        sprite_sheet_index: o.sprite_sheet_index,
                        sprite_sheet_y_offset: 0,
                        x: x as i16,
                        distance: dist as i64,
                    },
                ),
                Some(a) => if o.sprite_sheet_index >= sheets.len() {
                    Projection::Fault
                } else {
                    let angle_to_sprite = norm_val(fx_add_s(setup.facing as int, rel));
                    let back_angle = norm_val(fx_sub_s(fx_add_s(angle_to_sprite, FX_PI as int), a as int));
                    let sheet = sheets[o.sprite_sheet_index as int];
                    Projection::Kept(
                        WindowSprite {
                            sprite_sheet_index: o.sprite_sheet_index,
                            sprite_sheet_y_offset: y_offset_val(
                                sheet.kind,
                                sheet.size as int,
                                back_angle,
                            ) as u32,
                            x: x as i16,
                            distance: dist as i64,
                        },
                    )
                },
            }
        }
    }
}

/// Projects a list of sightings in order, keeping the drawn ones; a fault
/// anywhere makes the whole pass a fault.
pub open spec fn project_list(
    setup: ProjectionSetup,
    sheets: Seq<SpriteSheet>,
    s: Seq<ObservedSprite>,
) -> Option<Seq<WindowSprite>>
    decreases s.len(),
{
    if s.len() == 0 {
        Some(Seq::empty())
    } else {
        match project_list(setup, sheets, s.drop_last()) {
            None => None,
            Some(rest) => match project_one(setup, sheets, s.last()) {
                Projection::Fault => None,
                Projection::Skipped => Some(rest),
                Projection::Kept(w) => Some(rest.push(w)),
            },
        }
    }
}

/// Far-to-near order: distances never increase along the list.
pub open spec fn sorted_desc(s: Seq<WindowSprite>) -> bool {
    forall|i: int, j: int| 0 <= i < j < s.len() ==> s[i].distance >= s[j].distance
}

/// A fault in a prefix of the sightings is a fault of the whole list.
proof fn lemma_fault_propagates(
    setup: ProjectionSetup,
    sheets: Seq<SpriteSheet>,
    s: Seq<ObservedSprite>,
    i: int,
)
    requires
        0 <= i <= s.len(),
        project_list(setup, sheets, s.take(i)) is None,
    ensures
        project_list(setup, sheets, s) is None,
    decreases s.len() - i,
{
    if i == s.len() {
        assert(s.take(i) =~= s);
    } else {
        assert(s.take(i + 1).drop_last() =~= s.take(i));
        lemma_fault_propagates(setup, sheets, s, i + 1);
    }
}

/// The culling law for the player's own sprite: a sighting that carries
/// the player's own session id adds nothing to the projection, wherever
/// it stands in the list.
pub proof fn lemma_own_sprite_excluded(
    setup: ProjectionSetup,
    sheets: Seq<SpriteSheet>,
    s: Seq<ObservedSprite>,
    o: ObservedSprite,
)
    requires
        setup.own_id == Some(o.id),
    ensures
        project_list(setup, sheets, s.push(o)) == project_list(setup, sheets, s),
{
    assert(s.push(o).drop_last() =~= s);
    assert(s.push(o).last() == o);
    assert(project_one(setup, sheets, o) is Skipped);
}

/// Projects every sighting and sorts the kept records far to near.
/// Returns nothing when a kept sighting names a sprite sheet that does not
/// exist (an asset fault).
pub fn get_sorted_window_sprites(
    setup: &ProjectionSetup,
    observations: &Vec<ObservedSprite>,
    sheets: &Vec<SpriteSheet>,
) -> (r: Option<Vec<WindowSprite>>)
    requires
        setup.tan_half_fov != 0,
        forall|i: int| 0 <= i < sheets@.len() ==> (#[trigger] sheets@[i]).well_formed(),
    ensures
        match r {
            None => project_list(*setup, sheets@, observations@) is None,
            Some(v) => {
                &&& project_list(*setup, sheets@, observations@) matches Some(l)
                    && v@.to_multiset() == l.to_multiset()
                &&& sorted_desc(v@)
            },
        },
{
    broadcast use group_to_multiset_ensures;

    let half_width: i64 = (setup.screen_width as i64) * FX_HALF;
    let ppd: Fx = fx_div_sat(half_width, setup.tan_half_fov);
    let mut out: Vec<WindowSprite> = Vec::new();
    let mut i: usize = 0;
    while i < observations.len()
        invariant
            0 <= i <= observations@.len(),
            setup.tan_half_fov != 0,
            forall|k: int| 0 <= k < sheets@.len() ==> (#[trigger] sheets@[k]).well_formed(),
            half_width == half_width_val(setup.screen_width as int),
            ppd == plane_distance_val(*setup),
            project_list(*setup, sheets@, observations@.take(i as int)) == Some(out@),
        decreases observations@.len() - i,
    {
        let o = observations[i];
        let ghost prefix = observations@.take(i as int);
        proof {
            assert(observations@.take(i + 1).drop_last() =~= prefix);
            assert(observations@.take(i + 1).last() == o);
        }
        let own_match: bool = match setup.own_id {
            Some(id) => id == o.id,
            None => false,
        };
        if own_match {
            proof {
                assert(project_one(*setup, sheets@, o) is Skipped);
            }
        } else {
            let rel = relative_angle(o.bearing, setup.facing);
            if rel > setup.cull_limit || -setup.cull_limit > rel {
                proof {
                    assert(project_one(*setup, sheets@, o) is Skipped);
                }
            } else {
                let cos_rel = fx_add_sat(
                    fx_mul_sat(o.cos_bearing, setup.cos_facing),
                    fx_mul_sat(o.sin_bearing, setup.sin_facing),
                );
                let dist = fx_mul_sat(o.euclid_distance, cos_rel);
                if dist < FX_MIN_SPRITE_DISTANCE {
                    proof {
                        assert(project_one(*setup, sheets@, o) is Skipped);
                    }
                } else {
                    proof {
                        assert(cos_rel != 0);
                    }
                    let sin_rel = fx_sub_sat(
                        fx_mul_sat(o.sin_bearing, setup.cos_facing),
                        fx_mul_sat(o.cos_bearing, setup.sin_facing),
                    );
                    let tan_rel = fx_div_sat(sin_rel, cos_rel);
                    let xr: i64 = fx_round(fx_sub_sat(half_width, fx_mul_sat(tan_rel, ppd)));
                    let x: i16 = if xr > 0x7fff {
                        0x7fff
                    } else if xr < -0x8000 {
                        -0x8000
                    } else {
                        xr as i16
                    };
                    let y_offset: u32;
                    match o.facing_angle {
                        None => {
                            y_offset = 0;
                        },
                        Some(a) => {
                            if o.sprite_sheet_index >= sheets.len() {
                                proof {
                                    assert(project_one(*setup, sheets@, o) is Fault);
                                    assert(project_list(
                                        *setup,
                                        sheets@,
                                        observations@.take(i + 1),
                                    ) is None);
                                    lemma_fault_propagates(
                                        *setup,
                                        sheets@,
                                        observations@,
                                        i + 1,
                                    );
                                }
                                return None;
                            }
                            let angle_to_sprite = get_normalized_radians_angle(
                                fx_add_sat(setup.facing, rel),
                            );
                            let back_angle = get_normalized_radians_angle(
                                fx_sub_sat(fx_add_sat(angle_to_sprite, FX_PI), a),
                            );
                            y_offset = sheets[o.sprite_sheet_index].get_y_offset(back_angle);
                        },
                    }
                    let w = WindowSprite {
                        sprite_sheet_index: o.sprite_sheet_index,
                        sprite_sheet_y_offset: y_offset,
                        x,
                        distance: dist,
                    };
                    proof {
                        assert(project_one(*setup, sheets@, o) == Projection::Kept(w));
                    }
                    out.push(w);
                }
            }
        }
        i = i + 1;
    }
    proof {
        assert(observations@.take(i as int) =~= observations@);
    }
    sort_window_sprites(&mut out);
    Some(out)
}

/// Sorts projected sprites far to near (descending distance), keeping
/// exactly the same records.
pub fn sort_window_sprites(v: &mut Vec<WindowSprite>)
    ensures
        final(v)@.to_multiset() == old(v)@.to_multiset(),
        final(v)@.len() == old(v)@.len(),
        sorted_desc(final(v)@),
{
    broadcast use group_to_multiset_ensures;

    let ghost orig = v@;
    if v.len() <= 1 {
        return;
    }
    let mut i: usize = 1;
    while i < v.len()
        invariant
            1 <= i <= v@.len(),
            v@.len() == orig.len(),
            v@.to_multiset() == orig.to_multiset(),
            sorted_desc(v@.take(i as int)),
        decreases v@.len() - i,
    {
        let item = v[i];
        let mut p: usize = i;
        while p > 0 && v[p - 1].distance < item.distance
            invariant
                0 <= p <= i < v@.len(),
                forall|j: int| p <= j < i ==> v@[j].distance < item.distance,
            decreases p,
        {
            p = p - 1;
        }
        let ghost before = v@;
        let itm = v.remove(i);
        v.insert(p, itm);
        proof {
            assert(itm == item);
            assert(before[i as int] == item);
            assert(v@ == before.remove(i as int).insert(p as int, item));
            assert(v@.to_multiset() == orig.to_multiset()) by {
                vstd::seq_lib::to_multiset_remove(before, i as int);
                vstd::seq_lib::to_multiset_insert(before.remove(i as int), p as int, item);
                assert(before.contains(item)) by {
                    assert(before[i as int] == item);
                };
                vstd::seq_lib::to_multiset_contains(before, item);
                assert(before.to_multiset().count(item) > 0);
                assert(v@.to_multiset() =~= before.to_multiset());
            };
            assert forall|a: int, b: int| 0 <= a < b < i + 1 implies v@[a].distance
                >= v@[b].distance by {
                assert(forall|k: int|
                    0 <= k < p ==> v@[k] == before[k]);
                assert(v@[p as int] == item);
                assert(forall|k: int|
                    p < k <= i ==> v@[k] == before[k - 1]);
                if p > 0 {
                    assert(before[p - 1].distance >= item.distance);
                }
            };
            assert(sorted_desc(v@.take(i + 1)));
        }
        i = i + 1;
    }
    proof {
        assert(v@.take(i as int) =~= v@);
    }
}

} // verus!
