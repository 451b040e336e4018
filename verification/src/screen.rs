//! The mathematical model of sprite drawing on the 64x32 monochrome display.
//!
//! A sprite is a sequence of row bytes; bit 7 of a row is its leftmost pixel.
//! The sprite is composited onto the display by XOR, with horizontal
//! wraparound (columns are taken modulo 64) and vertical clipping (rows that
//! would fall below the bottom edge are dropped). A collision is a previously
//! lit pixel that the XOR turns off.

use vstd::prelude::*;

verus! {

/// The display width in pixels.
pub const SCREEN_WIDTH: usize = 64;

/// The display height in pixels.
pub const SCREEN_HEIGHT: usize = 32;

/// The number of pixels on the display; pixel `(x, y)` lives at index
/// `y * 64 + x` of the display sequence.
pub const SCREEN_PIXELS: usize = 2048;

/// Whether column `c` of sprite row byte `row` is set; column 0 is the most
/// significant bit.
pub open spec fn sprite_bit(row: u8, c: int) -> bool {
    row / pow2_of(7 - c) % 2 == 1
}

/// The powers of two up to 128, for reading single bits of a row byte.
pub open spec fn pow2_of(e: int) -> u8 {
    if e <= 0 {
        1
    } else if e == 1 {
        2
    } else if e == 2 {
        4
    } else if e == 3 {
        8
    } else if e == 4 {
        16
    } else if e == 5 {
        32
    } else if e == 6 {
        64
    } else {
        128
    }
}

/// Whether the sprite `sprite`, drawn with its top-left corner at
/// `(x0, y0)`, sets the display pixel `(px, py)`: some set sprite bit lands
/// there after wrapping its column modulo 64. Rows never wrap vertically, so
/// a sprite reaching past the bottom edge is clipped.
pub open spec fn covers(sprite: Seq<u8>, x0: int, y0: int, px: int, py: int) -> bool {
    let r = py - y0;
    let c = (px - x0 + 64) % 64;
    &&& 0 <= r < sprite.len()
    &&& 0 <= c < 8
    &&& sprite_bit(sprite[r], c)
}

/// The display after XOR-compositing `sprite` at `(x0, y0)` onto `d`: each
/// covered pixel is flipped, every other pixel keeps its value.
pub open spec fn draw_display(d: Seq<bool>, sprite: Seq<u8>, x0: int, y0: int) -> Seq<bool> {
    Seq::new(d.len(), |k: int| d[k] != covers(sprite, x0, y0, k % 64, k / 64))
}

/// Whether drawing `sprite` at `(x0, y0)` onto `d` turns some lit pixel off.
pub open spec fn draw_collision(d: Seq<bool>, sprite: Seq<u8>, x0: int, y0: int) -> bool {
    exists|k: int| 0 <= k < d.len() && d[k] && covers(sprite, x0, y0, k % 64, k / 64)
}

/// Reads column `c` of sprite row byte `row`.
pub fn row_bit(row: u8, c: usize) -> (b: bool)
    requires
        c < 8,
    ensures
        b == sprite_bit(row, c as int),
{
    let divisor: u8 = if c == 0 {
        128
    } else if c == 1 {
        64
    } else if c == 2 {
        32
    } else if c == 3 {
        16
    } else if c == 4 {
        8
    } else if c == 5 {
        4
    } else if c == 6 {
        2
    } else {
        1
    };
    (row / divisor) % 2 == 1
}

/// Drawing is an involution: compositing the same sprite at the same
/// position twice restores the prior pixel state exactly.
pub proof fn lemma_draw_twice_restores(d: Seq<bool>, sprite: Seq<u8>, x0: int, y0: int)
    ensures
        draw_display(draw_display(d, sprite, x0, y0), sprite, x0, y0) == d,
{
    assert(draw_display(draw_display(d, sprite, x0, y0), sprite, x0, y0) =~= d);
}

} // verus!
