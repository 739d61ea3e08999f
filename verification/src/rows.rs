//! How one row of a sprite meets the packed framebuffer: the proofs behind
//! [`crate::display::draw_sprite`].
//!
//! A row of eight pixels starting in column `x0` falls into at most two
//! bytes of the framebuffer: the one that holds `x0`, into which the row is
//! shifted right by `x0 % 8`, and the next one, wrapping at the end of the
//! line, which takes the bits shifted out.

use vstd::prelude::*;
use crate::bits::{
    bit_at, lemma_and_nonzero, lemma_bit_shl, lemma_bit_shr, lemma_bit_xor, lemma_bit_zero,
};
use crate::display::{collides, draw, screen_of, sprite_lights};
use crate::state::{SCREEN_HEIGHT, SCREEN_PIXELS, SCREEN_WIDTH, VIDEO_BYTES};

verus! {

/// The part of a sprite row that falls into the framebuffer byte holding the
/// sprite's left edge.
pub open spec fn left_mask(byte: u8, x0: u8) -> u8 {
    byte >> (x0 % 8)
}

/// The part of a sprite row that spills into the next framebuffer byte.
pub open spec fn right_mask(byte: u8, x0: u8) -> u8 {
    if x0 % 8 == 0 {
        0
    } else {
        byte << ((8 - x0 % 8) as u8)
    }
}

/// How far right of `x0`, wrapping at the edge, the pixel in bit `j` of byte
/// `b` of a row lies.
pub(crate) proof fn lemma_column_offset(x0: int, b: int, j: int)
    requires
        0 <= x0 < 64,
        0 <= b < 8,
        0 <= j < 8,
    ensures
        ({
            let col = (8 * b + j - x0) % 64;
            let xb = x0 / 8;
            let sh = x0 % 8;
            &&& b == xb && j >= sh ==> col == j - sh
            &&& b == xb && j < sh ==> col >= 8
            &&& b == (xb + 1) % 8 ==> col == 8 + j - sh
            &&& b != xb && b != (xb + 1) % 8 ==> col >= 8
        }),
{
    let xb = x0 / 8;
    let sh = x0 % 8;
    let v = 8 * (b - xb) + j - sh;
    assert(8 * b + j - x0 == v);
    assert(-64 < v < 64);
    assert(v % 64 == if v >= 0 { v } else { v + 64 });
}

/// Column by column, the two masks of a sprite row hold the row's bits where
/// the sprite covers the screen, and no other byte of the row is covered.
pub(crate) proof fn lemma_row_masks(byte: u8, x0: u8, b: int, j: int)
    requires
        x0 < 64,
        0 <= b < 8,
        0 <= j < 8,
    ensures
        ({
            let col = (8 * b + j - x0) % 64;
            let k = (7 - j) as u8;
            &&& b == x0 / 8 ==> bit_at(left_mask(byte, x0), k) == (col < 8 && bit_at(
                byte,
                (7 - col) as u8,
            ))
            &&& b == (x0 / 8 + 1) % 8 ==> bit_at(right_mask(byte, x0), k) == (col < 8 && bit_at(
                byte,
                (7 - col) as u8,
            ))
            &&& b != x0 / 8 && b != (x0 / 8 + 1) % 8 ==> col >= 8
        }),
{
    let sh: u8 = x0 % 8;
    let xb: int = x0 as int / 8;
    let k: u8 = (7 - j) as u8;
    lemma_column_offset(x0 as int, b, j);
    if b == xb {
        lemma_bit_shr(byte, sh, k);
    } else if b == (xb + 1) % 8 {
        if sh == 0 {
            lemma_bit_zero(k);
        } else {
            lemma_bit_shl(byte, (8 - sh) as u8, k);
        }
    }
}

/// Whether row `r` of a sprite drawn at (`x0`, `y0`) has a set bit over pixel `p`.
pub open spec fn row_lights(byte: u8, x0: int, y0: int, r: int, p: int) -> bool {
    let col = (p % 64 - x0) % 64;
    let row = (p / 64 - y0) % 32;
    row == r && col < 8 && bit_at(byte, (7 - col) as u8)
}

/// `after` is `before` with the two masks of sprite row `r` toggled in.
pub open spec fn row_toggled(byte: u8, before: Seq<u8>, after: Seq<u8>, x0: u8, y0: u8, r: int) -> bool {
    let y = (y0 + r) % 32;
    let i1 = y * 8 + x0 / 8;
    let i2 = y * 8 + (x0 / 8 + 1) % 8;
    &&& before.len() == VIDEO_BYTES
    &&& after.len() == VIDEO_BYTES
    &&& after[i1] == before[i1] ^ left_mask(byte, x0)
    &&& after[i2] == before[i2] ^ right_mask(byte, x0)
    &&& forall|i: int| 0 <= i < VIDEO_BYTES && i != i1 && i != i2 ==> after[i] == before[i]
}

/// Whether the two masks of sprite row `r` meet a set bit of the framebuffer.
pub open spec fn row_hits(byte: u8, before: Seq<u8>, x0: u8, y0: u8, r: int) -> bool {
    let y = (y0 + r) % 32;
    let i1 = y * 8 + x0 / 8;
    let i2 = y * 8 + (x0 / 8 + 1) % 8;
    (before[i1] & left_mask(byte, x0)) != 0 || (before[i2] & right_mask(byte, x0)) != 0
}

/// Where pixel `p` lies: its row, its byte within the row and its bit.
pub(crate) proof fn lemma_pixel_place(p: int)
    requires
        0 <= p < SCREEN_PIXELS,
    ensures
        p % 64 == 8 * ((p % 64) / 8) + p % 8,
        p / 8 == 8 * (p / 64) + (p % 64) / 8,
        0 <= (p % 64) / 8 < 8,
        0 <= p / 64 < 32,
{
}

/// A pixel is in sprite row `r` exactly when it is in screen row `(y0 + r) % 32`.
pub(crate) proof fn lemma_row_place(yp: int, y0: int, r: int)
    requires
        0 <= yp < 32,
        0 <= y0 < 32,
        0 <= r < 32,
    ensures
        ((yp - y0) % 32 == r) <==> (yp == (y0 + r) % 32),
{
}

/// What toggling row `r` does to one pixel.
pub(crate) proof fn lemma_row_pixel(byte: u8, before: Seq<u8>, after: Seq<u8>, x0: u8, y0: u8, r: int, p: int)
    requires
        x0 < SCREEN_WIDTH,
        y0 < SCREEN_HEIGHT,
        0 <= r < 32,
        0 <= p < SCREEN_PIXELS,
        row_toggled(byte, before, after, x0, y0, r),
    ensures
        screen_of(after)[p] == (screen_of(before)[p] != row_lights(byte, x0 as int, y0 as int, r, p)),
        row_lights(byte, x0 as int, y0 as int, r, p) ==> ({
            let y = (y0 + r) % 32;
            let k = (7 - p % 8) as u8;
            ||| p / 8 == y * 8 + x0 / 8 && bit_at(left_mask(byte, x0), k)
            ||| p / 8 == y * 8 + (x0 / 8 + 1) % 8 && bit_at(right_mask(byte, x0), k)
        }),
{
    let y = (y0 + r) % 32;
    let xb = x0 as int / 8;
    let i1 = y * 8 + xb;
    let i2 = y * 8 + (xb + 1) % 8;
    let yp = p / 64;
    let b = (p % 64) / 8;
    let j = p % 8;
    let k = (7 - j) as u8;
    lemma_pixel_place(p);
    lemma_row_place(yp, y0 as int, r);
    lemma_row_masks(byte, x0, b, j);
    if yp == y {
        if b == xb {
            assert(p / 8 == i1);
            lemma_bit_xor(before[i1], left_mask(byte, x0), k);
        } else if b == (xb + 1) % 8 {
            assert(p / 8 == i2);
            lemma_bit_xor(before[i2], right_mask(byte, x0), k);
        } else {
            assert(p / 8 != i1 && p / 8 != i2);
        }
    } else {
        assert(p / 8 != i1 && p / 8 != i2);
    }
}

/// A sprite grown by one row lights what it lit before and what the new row lights.
pub(crate) proof fn lemma_lights_next_row(sprite: Seq<u8>, x0: int, y0: int, r: int, p: int)
    requires
        0 <= r < sprite.len(),
        0 <= p < SCREEN_PIXELS,
    ensures
        sprite_lights(sprite.subrange(0, r + 1), x0, y0, p) == (sprite_lights(
            sprite.subrange(0, r),
            x0,
            y0,
            p,
        ) || row_lights(sprite[r], x0, y0, r, p)),
        row_lights(sprite[r], x0, y0, r, p) ==> !sprite_lights(sprite.subrange(0, r), x0, y0, p),
{
    let row = (p / 64 - y0) % 32;
    if row < r {
        assert(sprite.subrange(0, r + 1)[row] == sprite.subrange(0, r)[row]);
    }
}

/// One step of [`draw_sprite`]: toggling the two masks of row `r` into the
/// framebuffer extends what has been drawn by that row.
pub(crate) proof fn lemma_draw_row(
    old_screen: Seq<bool>,
    sprite: Seq<u8>,
    before: Seq<u8>,
    after: Seq<u8>,
    x0: u8,
    y0: u8,
    r: int,
)
    requires
        old_screen.len() == SCREEN_PIXELS,
        x0 < SCREEN_WIDTH,
        y0 < SCREEN_HEIGHT,
        0 <= r < sprite.len() <= 15,
        screen_of(before) == draw(old_screen, sprite.subrange(0, r), x0 as int, y0 as int),
        row_toggled(sprite[r], before, after, x0, y0, r),
    ensures
        screen_of(after) == draw(old_screen, sprite.subrange(0, r + 1), x0 as int, y0 as int),
{
    assert forall|p: int| 0 <= p < SCREEN_PIXELS implies #[trigger] screen_of(after)[p] == draw(
        old_screen,
        sprite.subrange(0, r + 1),
        x0 as int,
        y0 as int,
    )[p] by {
        lemma_row_pixel(sprite[r], before, after, x0, y0, r, p);
        lemma_lights_next_row(sprite, x0 as int, y0 as int, r, p);
        assert(screen_of(before)[p] == draw(old_screen, sprite.subrange(0, r), x0 as int, y0 as int)[p]);
    }
    assert(screen_of(after) =~= draw(old_screen, sprite.subrange(0, r + 1), x0 as int, y0 as int));
}

/// One step of [`draw_sprite`]: a sprite grown by one row collides exactly
/// when it did before or the new row's masks meet a set bit.
pub(crate) proof fn lemma_collide_row(
    old_screen: Seq<bool>,
    sprite: Seq<u8>,
    before: Seq<u8>,
    x0: u8,
    y0: u8,
    r: int,
)
    requires
        old_screen.len() == SCREEN_PIXELS,
        before.len() == VIDEO_BYTES,
        x0 < SCREEN_WIDTH,
        y0 < SCREEN_HEIGHT,
        0 <= r < sprite.len() <= 15,
        screen_of(before) == draw(old_screen, sprite.subrange(0, r), x0 as int, y0 as int),
    ensures
        collides(old_screen, sprite.subrange(0, r + 1), x0 as int, y0 as int) == (collides(
            old_screen,
            sprite.subrange(0, r),
            x0 as int,
            y0 as int,
        ) || row_hits(sprite[r], before, x0, y0, r)),
{
    let y = (y0 + r) % 32;
    let xb = x0 as int / 8;
    let i1 = y * 8 + xb;
    let i2 = y * 8 + (xb + 1) % 8;
    let byte = sprite[r];
    let left = left_mask(byte, x0);
    let right = right_mask(byte, x0);
    let done = sprite.subrange(0, r);
    let next = sprite.subrange(0, r + 1);
    let x = x0 as int;
    let yy = y0 as int;
    let after = before.update(i1, before[i1] ^ left).update(i2, before[i2] ^ right);
    assert(i1 != i2);
    assert(row_toggled(byte, before, after, x0, y0, r));
    if collides(old_screen, done, x, yy) {
        let p = choose|p: int| 0 <= p < SCREEN_PIXELS && old_screen[p] && #[trigger] sprite_lights(done, x, yy, p);
        lemma_lights_next_row(sprite, x, yy, r, p);
        assert(sprite_lights(next, x, yy, p));
    }
    if row_hits(byte, before, x0, y0, r) {
        let (i, mask) = if (before[i1] & left) != 0 {
            (i1, left)
        } else {
            (i2, right)
        };
        lemma_and_nonzero(before[i], mask);
        let k = choose|k: u8| k < 8 && bit_at(before[i], k) && #[trigger] bit_at(mask, k);
        let p = 8 * i + (7 - k);
        assert(p / 8 == i);
        assert(p % 8 == 7 - k);
        lemma_row_pixel(byte, before, after, x0, y0, r, p);
        lemma_bit_xor(before[i], mask, k);
        assert(screen_of(before)[p]);
        assert(!screen_of(after)[p]);
        assert(row_lights(byte, x, yy, r, p));
        lemma_lights_next_row(sprite, x, yy, r, p);
        assert(draw(old_screen, done, x, yy)[p] == screen_of(before)[p]);
        assert(old_screen[p]);
        assert(sprite_lights(next, x, yy, p));
    }
    if collides(old_screen, next, x, yy) {
        let p = choose|p: int| 0 <= p < SCREEN_PIXELS && old_screen[p] && #[trigger] sprite_lights(next, x, yy, p);
        lemma_lights_next_row(sprite, x, yy, r, p);
        if !sprite_lights(done, x, yy, p) {
            let k = (7 - p % 8) as u8;
            lemma_row_pixel(byte, before, after, x0, y0, r, p);
            assert(draw(old_screen, done, x, yy)[p] == screen_of(before)[p]);
            assert(screen_of(before)[p]);
            if p / 8 == i1 && bit_at(left, k) {
                lemma_and_nonzero(before[i1], left);
                assert(bit_at(before[i1], k) && bit_at(left, k));
            } else {
                lemma_and_nonzero(before[i2], right);
                assert(bit_at(before[i2], k) && bit_at(right, k));
            }
        }
    }
}

} // verus!
