//! A synchronized sprite: one remote player as this process knows it.
use vstd::prelude::*;
use crate::fx::Fx;

verus! {

/// A remote player's sprite.
pub struct Sprite {
    /// Session id assigned by the synchronization server.
    pub id: u32,
    /// World x coordinate.
    pub x: Fx,
    /// World y coordinate.
    pub y: Fx,
    /// Which sprite sheet draws this sprite.
    pub sprite_sheet_index: usize,
    /// The sprite's own facing angle, if it has directional frames.
    pub angle: Option<Fx>,
}

impl Sprite {
    /// A sprite at `(x, y)` drawn with sheet `sprite_sheet_index`,
    /// optionally facing `angle`.
    pub fn new(id: u32, x: Fx, y: Fx, sprite_sheet_index: usize, angle: Option<Fx>) -> (s: Sprite)
        ensures
            s == (Sprite { id, x, y, sprite_sheet_index, angle }),
    {
        Sprite { id, x, y, sprite_sheet_index, angle }
    }
}

} // verus!
