//! Scaling of the display into a window frame buffer.

use vstd::prelude::*;

use crate::display::{Display, HEIGHT, WIDTH};

verus! {

/// Screen pixels per display pixel, in each direction.
pub const SCALE: usize = 10;

/// Width of the frame buffer in screen pixels.
pub const FRAME_WIDTH: usize = 640;

/// Height of the frame buffer in screen pixels.
pub const FRAME_HEIGHT: usize = 320;

/// The colour of a lit pixel, as `0x00RRGGBB`.
pub const LIT: u32 = 0xFFFFFF;

/// The colour that entry `i` of the frame buffer gets: lit when `i` lies in
/// the frame and in the 10 x 10 block of a lit display pixel, black otherwise.
pub open spec fn frame_pixel(pixels: Seq<Seq<bool>>, i: int) -> u32 {
    if i < FRAME_WIDTH * FRAME_HEIGHT && pixels[(i / FRAME_WIDTH as int) / SCALE as int][(i % FRAME_WIDTH as int) / SCALE as int] {
        LIT
    } else {
        0
    }
}

/// Paints `display` into `buffer`, a row-major frame of `FRAME_WIDTH`
/// columns, each display pixel as a 10 x 10 block; entries outside the frame
/// are set to black.
pub fn render(display: &Display, buffer: &mut [u32])
    ensures
        final(buffer)@.len() == old(buffer)@.len(),
        forall|i: int| 0 <= i < final(buffer)@.len() ==> final(buffer)@[i] == frame_pixel(display@, i),
{
    let len = buffer.len();
    let mut i: usize = 0;
    while i < len
        invariant
            len == buffer@.len(),
            i <= len,
            forall|k: int| 0 <= k < i ==> buffer@[k] == frame_pixel(display@, k),
        decreases len - i,
    {
        let mut colour: u32 = 0;
        if i < FRAME_WIDTH * FRAME_HEIGHT {
            let row = i / FRAME_WIDTH;
            let col = i % FRAME_WIDTH;
            assert(row / SCALE < HEIGHT && col / SCALE < WIDTH);
            if display.is_on(col / SCALE, row / SCALE) {
                colour = LIT;
            }
        }
        buffer[i] = colour;
        i = i + 1;
    }
}

} // verus!

verus! {

/// Every display pixel `(x, y)` becomes the 10 x 10 block of the frame whose
/// top-left corner is at column `10 * x`, row `10 * y`: each entry of that
/// block is `LIT` exactly when the pixel is lit, black otherwise. Entries
/// past the frame are black.
pub proof fn lemma_render_blocks(pixels: Seq<Seq<bool>>, x: int, y: int, dx: int, dy: int, beyond: int)
    requires
        0 <= x < WIDTH,
        0 <= y < HEIGHT,
        0 <= dx < SCALE,
        0 <= dy < SCALE,
        beyond >= FRAME_WIDTH * FRAME_HEIGHT,
    ensures
        frame_pixel(pixels, (10 * y + dy) * 640 + 10 * x + dx) == (if pixels[y][x] { LIT } else { 0u32 }),
        frame_pixel(pixels, beyond) == 0,
{
    let row = 10 * y + dy;
    let col = 10 * x + dx;
    let i = row * 640 + col;
    assert(0 <= row < 320 && 0 <= col < 640);
    assert(i < 640 * 320) by (nonlinear_arith)
        requires
            0 <= row < 320,
            0 <= col < 640,
            i == row * 640 + col;
    vstd::arithmetic::div_mod::lemma_fundamental_div_mod_converse(i, 640, row, col);
    vstd::arithmetic::div_mod::lemma_fundamental_div_mod_converse(row, 10, y, dy);
    vstd::arithmetic::div_mod::lemma_fundamental_div_mod_converse(col, 10, x, dx);
}

} // verus!
