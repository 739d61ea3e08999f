//! The display: its pixel model, the packed framebuffer that represents it,
//! and sprite drawing.
//!
//! A sprite is a column of bytes, one per row, the most significant bit
//! leftmost. Drawing toggles the pixels under the sprite's set bits. A sprite
//! that reaches past an edge of the screen continues at the opposite edge.

use vstd::prelude::*;
use crate::bits::{bit_at, lemma_bit_zero, lemma_bits_equal, lemma_bits_nonzero};
use crate::rows::{lemma_collide_row, lemma_draw_row};
use crate::state::{MEMORY_SIZE, SCREEN_HEIGHT, SCREEN_PIXELS, SCREEN_WIDTH, VIDEO_BYTES};

verus! {

/// The pixels that a packed framebuffer shows: pixel (x, y) is bit
/// `7 - x % 8` of byte `y * 8 + x / 8`.
pub open spec fn screen_of(video: Seq<u8>) -> Seq<bool> {
    Seq::new(SCREEN_PIXELS as nat, |p: int| bit_at(video[p / 8], (7 - p % 8) as u8))
}

/// The screen with no pixel lit.
pub open spec fn blank_screen() -> Seq<bool> {
    Seq::new(SCREEN_PIXELS as nat, |p: int| false)
}

/// Whether the sprite has the bit in column `col` (0 is leftmost) of row `row` set.
pub open spec fn sprite_bit(sprite: Seq<u8>, row: int, col: int) -> bool {
    bit_at(sprite[row], (7 - col) as u8)
}

/// Whether `sprite`, drawn with its top left corner at (`x0`, `y0`), has a set
/// bit over pixel `p`. Columns wrap modulo 64 and rows modulo 32.
pub open spec fn sprite_lights(sprite: Seq<u8>, x0: int, y0: int, p: int) -> bool {
    let col = (p % 64 - x0) % 64;
    let row = (p / 64 - y0) % 32;
    col < 8 && row < sprite.len() && sprite_bit(sprite, row, col)
}

/// The screen after drawing: each pixel under a set sprite bit is toggled.
pub open spec fn draw(screen: Seq<bool>, sprite: Seq<u8>, x0: int, y0: int) -> Seq<bool> {
    Seq::new(SCREEN_PIXELS as nat, |p: int| screen[p] != sprite_lights(sprite, x0, y0, p))
}

/// Whether drawing turns off a pixel that was lit.
pub open spec fn collides(screen: Seq<bool>, sprite: Seq<u8>, x0: int, y0: int) -> bool {
    exists|p: int| 0 <= p < SCREEN_PIXELS && screen[p] && #[trigger] sprite_lights(sprite, x0, y0, p)
}

/// A framebuffer with every pixel off.
pub fn blank_video() -> (video: [u8; 256])
    ensures
        screen_of(video@) == blank_screen(),
{
    let video = [0u8; 256];
    assert forall|p: int| 0 <= p < SCREEN_PIXELS implies !#[trigger] screen_of(video@)[p] by {
        lemma_bit_zero((7 - p % 8) as u8);
    }
    assert(screen_of(video@) =~= blank_screen());
    video
}

/// Reads the pixel in column `x` of row `y`.
pub fn pixel(video: &[u8; 256], x: u8, y: u8) -> (lit: bool)
    requires
        x < SCREEN_WIDTH,
        y < SCREEN_HEIGHT,
    ensures
        lit == screen_of(video@)[y * 64 + x],
{
    let byte: u8 = video[y as usize * 8 + x as usize / 8];
    let k: u8 = 7 - x % 8;
    assert((y * 64 + x) / 8 == y * 8 + x / 8);
    assert((y * 64 + x) % 8 == x % 8);
    (byte >> k) & 1 == 1
}

/// Draws the `n`-byte sprite that starts at `memory[start]` with its top left
/// corner at (`x0`, `y0`), and tells whether a lit pixel was turned off.
pub fn draw_sprite(
    video: &mut [u8; 256],
    memory: &[u8; 4096],
    start: usize,
    n: usize,
    x0: u8,
    y0: u8,
) -> (collision: bool)
    requires
        start + n <= MEMORY_SIZE,
        n <= 15,
        x0 < SCREEN_WIDTH,
        y0 < SCREEN_HEIGHT,
    ensures
        screen_of(final(video)@) == draw(
            screen_of(old(video)@),
            memory@.subrange(start as int, start + n),
            x0 as int,
            y0 as int,
        ),
        collision == collides(
            screen_of(old(video)@),
            memory@.subrange(start as int, start + n),
            x0 as int,
            y0 as int,
        ),
    no_unwind
{
    let ghost old_screen = screen_of(video@);
    let ghost sprite = memory@.subrange(start as int, start + n);
    let xb: usize = (x0 / 8) as usize;
    let sh: u8 = x0 % 8;
    let mut collision = false;
    let mut r: usize = 0;
    assert(screen_of(video@) =~= draw(old_screen, sprite.subrange(0, 0), x0 as int, y0 as int));
    while r < n
        invariant
            r <= n,
            n <= 15,
            start + n <= MEMORY_SIZE,
            x0 < SCREEN_WIDTH,
            y0 < SCREEN_HEIGHT,
            xb == x0 / 8,
            sh == x0 % 8,
            sprite == memory@.subrange(start as int, start + n),
            old_screen.len() == SCREEN_PIXELS,
            screen_of(video@) == draw(old_screen, sprite.subrange(0, r as int), x0 as int, y0 as int),
            collision == collides(old_screen, sprite.subrange(0, r as int), x0 as int, y0 as int),
        decreases n - r,
    {
        let byte: u8 = memory[start + r];
        let y: usize = (y0 as usize + r) % 32;
        let left: u8 = byte >> sh;
        let right: u8 = if sh == 0 {
            0
        } else {
            byte << (8 - sh)
        };
        let i1: usize = y * 8 + xb;
        let i2: usize = y * 8 + (xb + 1) % 8;
        let ghost before = video@;
        let hit: bool = (video[i1] & left) != 0 || (video[i2] & right) != 0;
        video[i1] = video[i1] ^ left;
        video[i2] = video[i2] ^ right;
        proof {
            assert(byte == sprite[r as int]);
            lemma_draw_row(old_screen, sprite, before, video@, x0, y0, r as int);
            lemma_collide_row(old_screen, sprite, before, x0, y0, r as int);
        }
        if hit {
            collision = true;
        }
        r += 1;
    }
    assert(sprite.subrange(0, n as int) =~= sprite);
    collision
}

/// The pixel that lies `col` columns right of `x0` and `row` rows below
/// `y0`, wrapping at the edges, and its offsets from (`x0`, `y0`).
proof fn lemma_wrapped_place(x0: int, y0: int, col: int, row: int)
    requires
        0 <= x0 < 64,
        0 <= y0 < 32,
        0 <= col < 64,
        0 <= row < 32,
    ensures
        ({
            let p = ((y0 + row) % 32) * 64 + (x0 + col) % 64;
            &&& 0 <= p < 2048
            &&& (p % 64 - x0) % 64 == col
            &&& (p / 64 - y0) % 32 == row
        }),
{
    let x = (x0 + col) % 64;
    let y = (y0 + row) % 32;
    let p = y * 64 + x;
    assert(p % 64 == x && p / 64 == y);
    assert((x - x0) % 64 == col) by {
        if x0 + col < 64 {
            assert(x == x0 + col);
        } else {
            assert(x == x0 + col - 64);
        }
    }
    assert((y - y0) % 32 == row) by {
        if y0 + row < 32 {
            assert(y == y0 + row);
        } else {
            assert(y == y0 + row - 32);
        }
    }
}

/// A set bit of a sprite lights a pixel.
proof fn lemma_set_bit_lights(sprite: Seq<u8>, x0: int, y0: int, row: int, k: u8)
    requires
        sprite.len() <= SCREEN_HEIGHT,
        0 <= x0 < SCREEN_WIDTH,
        0 <= y0 < SCREEN_HEIGHT,
        0 <= row < sprite.len(),
        k < 8,
        bit_at(sprite[row], k),
    ensures
        exists|p: int| 0 <= p < SCREEN_PIXELS && #[trigger] sprite_lights(sprite, x0, y0, p),
{
    let col = 7 - k;
    let p = ((y0 + row) % 32) * 64 + (x0 + col) % 64;
    lemma_wrapped_place(x0, y0, col, row);
    assert((7 - col) as u8 == k);
    assert(sprite_lights(sprite, x0, y0, p));
}

/// A sprite lights some pixel exactly when one of its bytes is not zero:
/// with wrapping at the edges no set bit falls off the screen.
pub proof fn lemma_sprite_lights_some_pixel(sprite: Seq<u8>, x0: int, y0: int)
    requires
        sprite.len() <= SCREEN_HEIGHT,
        0 <= x0 < SCREEN_WIDTH,
        0 <= y0 < SCREEN_HEIGHT,
    ensures
        (exists|p: int| 0 <= p < SCREEN_PIXELS && #[trigger] sprite_lights(sprite, x0, y0, p)) <==> (
        exists|row: int| 0 <= row < sprite.len() && #[trigger] sprite[row] != 0),
{
    if exists|p: int| 0 <= p < SCREEN_PIXELS && #[trigger] sprite_lights(sprite, x0, y0, p) {
        let p = choose|p: int| 0 <= p < SCREEN_PIXELS && #[trigger] sprite_lights(sprite, x0, y0, p);
        let row = (p / 64 - y0) % 32;
        lemma_bits_nonzero(sprite[row]);
        assert(sprite[row] != 0);
    }
    if exists|row: int| 0 <= row < sprite.len() && #[trigger] sprite[row] != 0 {
        let row = choose|row: int| 0 <= row < sprite.len() && #[trigger] sprite[row] != 0;
        let b = sprite[row];
        lemma_bits_nonzero(b);
        let k: u8 = if bit_at(b, 0) {
            0
        } else if bit_at(b, 1) {
            1
        } else if bit_at(b, 2) {
            2
        } else if bit_at(b, 3) {
            3
        } else if bit_at(b, 4) {
            4
        } else if bit_at(b, 5) {
            5
        } else if bit_at(b, 6) {
            6
        } else {
            7
        };
        lemma_set_bit_lights(sprite, x0, y0, row, k);
    }
}

/// The pixels determine the packed framebuffer: two framebuffers that show
/// the same screen are the same bytes.
pub proof fn lemma_screen_determines_video(a: Seq<u8>, b: Seq<u8>)
    requires
        a.len() == VIDEO_BYTES,
        b.len() == VIDEO_BYTES,
        screen_of(a) == screen_of(b),
    ensures
        a == b,
{
    assert forall|i: int| 0 <= i < VIDEO_BYTES implies a[i] == b[i] by {
        assert forall|k: u8| k < 8 implies bit_at(a[i], k) == bit_at(b[i], k) by {
            let p = 8 * i + (7 - k);
            assert(0 <= p < SCREEN_PIXELS && p / 8 == i && p % 8 == 7 - k);
            assert((7 - p % 8) as u8 == k);
            assert(screen_of(a)[p] == bit_at(a[i], k));
            assert(screen_of(b)[p] == bit_at(b[i], k));
        }
        lemma_bits_equal(a[i], b[i]);
    }
    assert(a =~= b);
}

} // verus!
