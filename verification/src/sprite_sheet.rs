//! Sprite sheets: square frames stacked vertically in one RGBA pixel
//! buffer, either a single frame or eight directional frames.
//!
//! Decoding an image file into pixels is outside collaborators' work; this
//! module takes the decoded width, height and RGBA bytes, validates the
//! shape, and selects directional frames.
use vstd::prelude::*;
use crate::fx::Fx;

verus! {

/// Angle, in fixed-point radians, of 22.5 degrees: the first directional
/// bucket boundary.  The later boundaries follow at 45-degree steps.
pub const FX_DEG_22_5: i64 = 110534964875444;

/// 67.5 degrees.
pub const FX_DEG_67_5: i64 = 331604894626333;

/// 112.5 degrees.
pub const FX_DEG_112_5: i64 = 552674824377222;

/// 157.5 degrees.
pub const FX_DEG_157_5: i64 = 773744754128111;

/// 202.5 degrees.
pub const FX_DEG_202_5: i64 = 994814683878999;

/// 247.5 degrees.
pub const FX_DEG_247_5: i64 = 1215884613629888;

/// 292.5 degrees.
pub const FX_DEG_292_5: i64 = 1436954543380777;

/// 337.5 degrees: past this the angle wraps into the sector that
/// straddles zero.
pub const FX_DEG_337_5: i64 = 1658024473131666;

/// How many vertically stacked frames a sheet holds.
pub enum SpriteSheetKind {
    /// One frame, shown for every viewing direction.
    Single,
    /// Eight frames, one per 45-degree viewing-direction bucket.
    EightDirectional,
}

/// A decoded sprite sheet.
pub struct SpriteSheet {
    /// RGBA bytes, 4 per pixel, rows of all frames stacked top to bottom.
    pub pixels: Vec<u8>,
    /// Whether the sheet holds one frame or eight directional frames.
    pub kind: SpriteSheetKind,
    /// Edge length of one square frame, in pixels.
    pub size: u32,
}

/// Number of frames for a sheet kind.
pub open spec fn frame_count(kind: SpriteSheetKind) -> int {
    match kind {
        SpriteSheetKind::Single => 1,
        SpriteSheetKind::EightDirectional => 8,
    }
}

/// The vertical frame offset selected for a viewing angle: eight equal
/// 45-degree sectors with boundaries at 22.5-degree increments, so the
/// front sector straddles zero, covering both ends of the turn; `size`
/// is the frame edge length.  Boundary angles fall into the sector above
/// them.
pub open spec fn y_offset_val(kind: SpriteSheetKind, size: int, angle: int) -> int {
    match kind {
        SpriteSheetKind::Single => 0,
        SpriteSheetKind::EightDirectional => if angle < FX_DEG_22_5 {
            0
        } else if angle < FX_DEG_67_5 {
            7 * size
        } else if angle < FX_DEG_112_5 {
            6 * size
        } else if angle < FX_DEG_157_5 {
            5 * size
        } else if angle < FX_DEG_202_5 {
            4 * size
        } else if angle < FX_DEG_247_5 {
            3 * size
        } else if angle < FX_DEG_292_5 {
            2 * size
        } else if angle < FX_DEG_337_5 {
            size
        } else {
            0
        },
    }
}

impl SpriteSheet {
    /// A sheet whose pixel buffer matches its declared shape: `size`
    /// columns and one square frame per stacked direction, 4 bytes per
    /// pixel.  The edge is at most 8192: the largest for which even an
    /// eight-frame RGBA buffer (4 * 8 * size^2 bytes) stays addressable
    /// on 32-bit targets.
    pub open spec fn well_formed(&self) -> bool {
        &&& 1 <= self.size <= 0x2000
        &&& self.pixels@.len() == 4 * self.size * self.size * frame_count(self.kind)
    }

    /// The declared frame edge length.
    pub open spec fn spec_size(&self) -> u32 {
        self.size
    }

    /// The declared kind.
    pub open spec fn spec_kind(&self) -> SpriteSheetKind {
        self.kind
    }

    /// The RGBA bytes.
    pub open spec fn spec_pixels(&self) -> Seq<u8> {
        self.pixels@
    }

    /// Validates a decoded image as a sprite sheet.  The height must be
    /// exactly 1 or 8 times the width (any other ratio is an asset
    /// fault), the width must be positive and within the addressable
    /// edge limit, and the buffer must hold 4 bytes per pixel.
    pub fn new(width: u32, height: u32, pixels: Vec<u8>) -> (r: Option<SpriteSheet>)
        ensures
            match r {
                Some(s) => {
                    &&& s.well_formed()
                    &&& s.spec_size() == width
                    &&& s.spec_pixels() == pixels@
                    &&& 1 <= width <= 0x2000
                    &&& height % width == 0
                    &&& (height / width == 1 && s.spec_kind() is Single || height / width == 8
                        && s.spec_kind() is EightDirectional)
                },
                None => width == 0 || width > 0x2000 || height % width != 0 || (height / width != 1
                    && height / width != 8) || pixels@.len() != 4 * width * height,
            },
    {
        if width == 0 || width > 0x2000 {
            return None;
        }
        if height % width != 0 {
            return None;
        }
        let ratio = height / width;
        let kind = if ratio == 1 {
            SpriteSheetKind::Single
        } else if ratio == 8 {
            SpriteSheetKind::EightDirectional
        } else {
            return None;
        };
        proof {
            vstd::arithmetic::div_mod::lemma_fundamental_div_mod(height as int, width as int);
            assert(height == width * frame_count(kind));
            assert(width * frame_count(kind) <= 0x1_0000) by (nonlinear_arith)
                requires
                    width <= 0x2000,
                    1 <= frame_count(kind) <= 8,
            ;
            assert(4 * (width as int) * (height as int) <= 0x8000_0000) by (nonlinear_arith)
                requires
                    0 <= width <= 0x2000,
                    0 <= height <= 0x1_0000,
            ;
        }
        let expected: usize = 4 * (width as usize) * (height as usize);
        if pixels.len() != expected {
            return None;
        }
        proof {
            assert(4 * width * height == 4 * width * width * frame_count(kind))
                by (nonlinear_arith)
                requires
                    height == width * frame_count(kind),
            ;
        }
        Some(SpriteSheet { pixels, kind, size: width })
    }

    /// The frame edge length.
    pub fn size(&self) -> (r: u32)
        ensures
            r == self.spec_size(),
    {
        self.size
    }

    /// The RGBA components of the pixel at column `x`, row `y` of the
    /// whole stacked buffer.
    pub fn pixel(&self, x: u32, y: u32) -> (r: (u8, u8, u8, u8))
        requires
            self.well_formed(),
            x < self.spec_size(),
            y < self.spec_size() * frame_count(self.spec_kind()),
        ensures
            ({
                let base = 4 * (y * self.spec_size() + x);
                r == (
                    self.spec_pixels()[base],
                    self.spec_pixels()[base + 1],
                    self.spec_pixels()[base + 2],
                    self.spec_pixels()[base + 3],
                )
            }),
    {
        proof {
            lemma_pixel_index(
                x as int,
                y as int,
                self.size as int,
                frame_count(self.kind),
            );
        }
        let base: usize = 4 * ((y as usize) * (self.size as usize) + (x as usize));
        (self.pixels[base], self.pixels[base + 1], self.pixels[base + 2], self.pixels[base + 3])
    }

    /// The vertical offset, in pixel rows, of the frame that faces a
    /// viewer at `angle` (the normalized angle from the sprite's own
    /// facing toward the viewer): single-frame sheets always use the top
    /// frame, eight-directional sheets bucket the angle into eight equal
    /// 45-degree sectors with boundaries at 22.5-degree increments, the
    /// front sector straddling zero.
    pub fn get_y_offset(&self, angle: Fx) -> (r: u32)
        requires
            self.well_formed(),
            angle >= 0,
        ensures
            r == y_offset_val(self.spec_kind(), self.spec_size() as int, angle as int),
    {
        match self.kind {
            SpriteSheetKind::Single => 0,
            SpriteSheetKind::EightDirectional => {
                if angle < FX_DEG_22_5 {
                    0
                } else if angle < FX_DEG_67_5 {
                    7 * self.size
                } else if angle < FX_DEG_112_5 {
                    6 * self.size
                } else if angle < FX_DEG_157_5 {
                    5 * self.size
                } else if angle < FX_DEG_202_5 {
                    4 * self.size
                } else if angle < FX_DEG_247_5 {
                    3 * self.size
                } else if angle < FX_DEG_292_5 {
                    2 * self.size
                } else if angle < FX_DEG_337_5 {
                    self.size
                } else {
                    0
                }
            },
        }
    }
}

/// A pixel index inside one frame stays inside the stacked buffer.
proof fn lemma_pixel_index(x: int, y: int, size: int, frames: int)
    requires
        0 <= x < size,
        0 <= y < size * frames,
        1 <= size <= 0x2000,
        1 <= frames <= 8,
    ensures
        0 <= 4 * (y * size + x),
        4 * (y * size + x) + 3 < 4 * size * size * frames,
        y * size + x < 0x2000_0000,
{
    assert(0 <= 4 * (y * size + x) && 4 * (y * size + x) + 3 < 4 * size * size * frames && y * size
        + x < 0x2000_0000) by (nonlinear_arith)
        requires
            0 <= x < size,
            0 <= y < size * frames,
            1 <= size <= 0x2000,
            1 <= frames <= 8,
    ;
}

} // verus!

verus! {

/// The hue ramp of the built-in test image, one color per row.
pub open spec fn test_color_val(y: int) -> (int, int, int) {
    if y == 0 {
        (255, 0, 0)
    } else if y == 1 {
        (255, 63, 0)
    } else if y == 2 {
        (255, 127, 0)
    } else if y == 3 {
        (255, 191, 0)
    } else if y == 4 {
        (255, 255, 0)
    } else if y == 5 {
        (191, 255, 0)
    } else if y == 6 {
        (127, 255, 0)
    } else if y == 7 {
        (63, 255, 0)
    } else if y == 8 {
        (0, 255, 0)
    } else if y == 9 {
        (0, 255, 127)
    } else if y == 10 {
        (0, 255, 255)
    } else if y == 11 {
        (0, 127, 255)
    } else if y == 12 {
        (0, 0, 255)
    } else if y == 13 {
        (127, 0, 255)
    } else if y == 14 {
        (255, 0, 255)
    } else {
        (255, 0, 127)
    }
}

/// The row's color for the built-in test image.
fn test_color(y: usize) -> (r: (u8, u8, u8))
    requires
        y < 16,
    ensures
        ((r.0 as int, r.1 as int, r.2 as int)) == test_color_val(y as int),
{
    if y == 0 {
        (255, 0, 0)
    } else if y == 1 {
        (255, 63, 0)
    } else if y == 2 {
        (255, 127, 0)
    } else if y == 3 {
        (255, 191, 0)
    } else if y == 4 {
        (255, 255, 0)
    } else if y == 5 {
        (191, 255, 0)
    } else if y == 6 {
        (127, 255, 0)
    } else if y == 7 {
        (63, 255, 0)
    } else if y == 8 {
        (0, 255, 0)
    } else if y == 9 {
        (0, 255, 127)
    } else if y == 10 {
        (0, 255, 255)
    } else if y == 11 {
        (0, 127, 255)
    } else if y == 12 {
        (0, 0, 255)
    } else if y == 13 {
        (127, 0, 255)
    } else if y == 14 {
        (255, 0, 255)
    } else {
        (255, 0, 127)
    }
}

/// One channel of the test image: the row's color scaled by a brightness
/// ramp that runs from a quarter at the left edge to full at the right,
/// in steps of three sixty-fourths, truncated as a byte.
pub open spec fn test_channel_val(c: int, x: int) -> int {
    (c * (3 * (x + 1) + 16)) / 64
}

/// The byte offset of a test-image pixel.
pub open spec fn test_base(x: int, y: int) -> int {
    4 * (y * 16 + x)
}

/// A built-in single-frame 16x16 test sheet: a vertical hue ramp with a
/// horizontal brightness ramp, fully opaque.
#[verifier::loop_isolation(false)]
pub fn test_image_sheet() -> (s: SpriteSheet)
    ensures
        s.well_formed(),
        s.kind is Single,
        s.size == 16,
        forall|x: int, y: int|
            #![trigger test_base(x, y)]
            0 <= x < 16 && 0 <= y < 16 ==> {
                let base = test_base(x, y);
                &&& s.pixels@[base] == test_channel_val(test_color_val(y).0, x)
                &&& s.pixels@[base + 1] == test_channel_val(test_color_val(y).1, x)
                &&& s.pixels@[base + 2] == test_channel_val(test_color_val(y).2, x)
                &&& s.pixels@[base + 3] == 255
            },
{
    let mut pixels: Vec<u8> = Vec::new();
    let mut y: usize = 0;
    while y < 16
        invariant
            0 <= y <= 16,
            pixels@.len() == 4 * (y * 16),
            forall|cx: int, cy: int|
                #![trigger test_base(cx, cy)]
                0 <= cx < 16 && 0 <= cy < y ==> {
                    let base = test_base(cx, cy);
                    &&& pixels@[base] == test_channel_val(test_color_val(cy).0, cx)
                    &&& pixels@[base + 1] == test_channel_val(test_color_val(cy).1, cx)
                    &&& pixels@[base + 2] == test_channel_val(test_color_val(cy).2, cx)
                    &&& pixels@[base + 3] == 255
                },
        decreases 16 - y,
    {
        let (cr, cg, cb) = test_color(y);
        let mut x: usize = 0;
        while x < 16
            invariant
                0 <= x <= 16,
                y < 16,
                ((cr as int, cg as int, cb as int)) == test_color_val(y as int),
                pixels@.len() == 4 * (y * 16 + x),
                forall|cx: int, cy: int|
                    #![trigger test_base(cx, cy)]
                    0 <= cx < 16 && 0 <= cy < y ==> {
                        let base = test_base(cx, cy);
                        &&& pixels@[base] == test_channel_val(test_color_val(cy).0, cx)
                        &&& pixels@[base + 1] == test_channel_val(test_color_val(cy).1, cx)
                        &&& pixels@[base + 2] == test_channel_val(test_color_val(cy).2, cx)
                        &&& pixels@[base + 3] == 255
                    },
                forall|cx: int|
                    #![trigger test_base(cx, y as int)]
                    0 <= cx < x ==> {
                        let base = test_base(cx, y as int);
                        &&& pixels@[base] == test_channel_val(test_color_val(y as int).0, cx)
                        &&& pixels@[base + 1] == test_channel_val(test_color_val(y as int).1, cx)
                        &&& pixels@[base + 2] == test_channel_val(test_color_val(y as int).2, cx)
                        &&& pixels@[base + 3] == 255
                    },
            decreases 16 - x,
        {
            let m: u32 = 3 * (x as u32 + 1) + 16;
            proof {
                assert(forall|c: int|
                    0 <= c <= 255 ==> 0 <= #[trigger] (c * (m as int)) <= 255 * 64 && c * (
                    m as int) / 64 <= 255) by (nonlinear_arith)
                    requires
                        0 <= m <= 64,
                ;
            }
            pixels.push(((cr as u32) * m / 64) as u8);
            pixels.push(((cg as u32) * m / 64) as u8);
            pixels.push(((cb as u32) * m / 64) as u8);
            pixels.push(255);
            x = x + 1;
        }
        y = y + 1;
    }
    SpriteSheet { pixels, kind: SpriteSheetKind::Single, size: 16 }
}

} // verus!
