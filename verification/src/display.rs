//! The 64x32 monochrome framebuffer and the XOR sprite blitter.
//!
//! The framebuffer is a row-major sequence of bytes, one per pixel. A sprite
//! is a sequence of rows of eight pixels each, most significant bit leftmost.

use vstd::arithmetic::div_mod::{
    lemma_fundamental_div_mod,
    lemma_mod_multiples_vanish,
    lemma_small_mod,
};
use vstd::prelude::*;

verus! {

/// Pixels per framebuffer row.
pub const DISPLAY_WIDTH: usize = 64;

/// Rows of the framebuffer.
pub const DISPLAY_HEIGHT: usize = 32;

/// Pixels of the framebuffer.
pub const DISPLAY_SIZE: usize = 2048;

/// Whether the pixel in column `col` (0 is leftmost) of a sprite row is set.
pub open spec fn sprite_bit(row: u8, col: int) -> bool {
    (row >> ((7 - col) as u8)) & 1u8 == 1u8
}

/// Column of the sprite that lands on framebuffer index `k` when the sprite's
/// left edge is at `vx`; it is a column of the sprite only when below 8.
pub open spec fn sprite_col(vx: int, k: int) -> int {
    (k % (DISPLAY_WIDTH as int) - vx) % (DISPLAY_WIDTH as int)
}

/// Row of the sprite that lands on framebuffer index `k` when the sprite's
/// top edge is at `vy`; it is a row of the sprite only when below its height.
pub open spec fn sprite_row(vy: int, k: int) -> int {
    (k / (DISPLAY_WIDTH as int) - vy) % (DISPLAY_HEIGHT as int)
}

/// The framebuffer index that column `col` of row `row` of a sprite at
/// `(vx, vy)` lands on: both coordinates wrap around the edges.
pub open spec fn sprite_target(vx: int, vy: int, row: int, col: int) -> int {
    ((vy + row) % (DISPLAY_HEIGHT as int)) * DISPLAY_WIDTH + (vx + col) % (DISPLAY_WIDTH as int)
}

/// Whether a sprite placed at `(vx, vy)`, wrapping around both edges, has a
/// set pixel on framebuffer index `k`.
pub open spec fn sprite_lights(sprite: Seq<u8>, vx: int, vy: int, k: int) -> bool {
    &&& sprite_col(vx, k) < 8
    &&& sprite_row(vy, k) < sprite.len()
    &&& sprite_bit(sprite[sprite_row(vy, k)], sprite_col(vx, k))
}

/// The framebuffer after XOR-ing a sprite into it at `(vx, vy)`.
pub open spec fn drawn(display: Seq<u8>, sprite: Seq<u8>, vx: int, vy: int) -> Seq<u8> {
    Seq::new(
        display.len(),
        |k: int|
            if sprite_lights(sprite, vx, vy, k) {
                display[k] ^ 1u8
            } else {
                display[k]
            },
    )
}

/// Whether XOR-ing a sprite into the framebuffer at `(vx, vy)` turns a lit
/// pixel off.
pub open spec fn collides(display: Seq<u8>, sprite: Seq<u8>, vx: int, vy: int) -> bool {
    exists|k: int|
        0 <= k < display.len() && #[trigger] sprite_lights(sprite, vx, vy, k) && display[k] == 1
}

/// A framebuffer with every pixel off.
pub open spec fn blank() -> Seq<u8> {
    Seq::new(DISPLAY_SIZE as nat, |k: int| 0u8)
}

/// Every pixel is either off (0) or on (1).
pub open spec fn monochrome(display: Seq<u8>) -> bool {
    forall|k: int| 0 <= k < display.len() ==> #[trigger] display[k] <= 1
}

/// `sprite_lights` restricted to the part of the sprite that comes before
/// column `cols` of row `rows` in reading order.
spec fn lights_before(sprite: Seq<u8>, vx: int, vy: int, rows: int, cols: int, k: int) -> bool {
    &&& sprite_lights(sprite, vx, vy, k)
    &&& (sprite_row(vy, k) < rows || (sprite_row(vy, k) == rows && sprite_col(vx, k) < cols))
}

/// `drawn` restricted to the part of the sprite before column `cols` of row
/// `rows`.
spec fn drawn_before(
    display: Seq<u8>,
    sprite: Seq<u8>,
    vx: int,
    vy: int,
    rows: int,
    cols: int,
) -> Seq<u8> {
    Seq::new(
        display.len(),
        |k: int|
            if lights_before(sprite, vx, vy, rows, cols, k) {
                display[k] ^ 1u8
            } else {
                display[k]
            },
    )
}

/// `collides` restricted to the part of the sprite before column `cols` of
/// row `rows`.
spec fn collides_before(
    display: Seq<u8>,
    sprite: Seq<u8>,
    vx: int,
    vy: int,
    rows: int,
    cols: int,
) -> bool {
    exists|k: int|
        0 <= k < display.len() && #[trigger] lights_before(sprite, vx, vy, rows, cols, k)
            && display[k] == 1
}

/// Stepping `d` places from `a` around a ring of `m` places and measuring
/// the distance back to `a` gives `d`, and only one place is at that distance.
proof fn lemma_ring(a: int, d: int, m: int)
    requires
        0 <= a,
        0 < m,
        0 <= d < m,
    ensures
        (((a + d) % m) - a) % m == d,
        forall|p: int| 0 <= p < m && #[trigger] ((p - a) % m) == d ==> p == (a + d) % m,
{
    let t = (a + d) % m;
    let q = (a + d) / m;
    lemma_fundamental_div_mod(a + d, m);
    assert(t - a == d + (-q) * m) by (nonlinear_arith)
        requires
            a + d == m * q + t,
    ;
    lemma_mod_multiples_vanish(-q, d, m);
    lemma_small_mod(d as nat, m as nat);
    assert forall|p: int| 0 <= p < m && #[trigger] ((p - a) % m) == d implies p == t by {
        let r = (p - a) / m;
        lemma_fundamental_div_mod(p - a, m);
        assert(p - t == m * (r + q)) by (nonlinear_arith)
            requires
                p - a == m * r + d,
                a + d == m * q + t,
        ;
        assert(r + q == 0) by (nonlinear_arith)
            requires
                p - t == m * (r + q),
                -m < p - t < m,
                0 < m,
        ;
    }
}

/// The framebuffer index that column `col` of row `row` of a sprite at
/// `(vx, vy)` lands on is the only one that maps back to that column and row.
proof fn lemma_target(vx: int, vy: int, row: int, col: int)
    requires
        0 <= vx,
        0 <= vy,
        0 <= row < 32,
        0 <= col < 8,
    ensures
        0 <= sprite_target(vx, vy, row, col) < 2048,
        sprite_col(vx, sprite_target(vx, vy, row, col)) == col,
        sprite_row(vy, sprite_target(vx, vy, row, col)) == row,
        forall|k: int|
            0 <= k < 2048 && sprite_col(vx, k) == col && sprite_row(vy, k) == row
                ==> k == sprite_target(vx, vy, row, col),
{
    lemma_ring(vx, col, 64);
    lemma_ring(vy, row, 32);
    let tx = (vx + col) % 64;
    let ty = (vy + row) % 32;
    let t = ty * 64 + tx;
    assert(t % 64 == tx && t / 64 == ty);
    assert forall|k: int|
        0 <= k < 2048 && sprite_col(vx, k) == col && sprite_row(vy, k) == row implies k == t by {
        assert(k % 64 == tx);
        assert(k / 64 == ty);
    }
}

/// Two parts of a sprite that light the same pixels collide alike.
proof fn lemma_collides_before_same(
    display: Seq<u8>,
    sprite: Seq<u8>,
    vx: int,
    vy: int,
    r1: int,
    c1: int,
    r2: int,
    c2: int,
)
    requires
        forall|k: int|
            lights_before(sprite, vx, vy, r1, c1, k) == lights_before(sprite, vx, vy, r2, c2, k),
    ensures
        collides_before(display, sprite, vx, vy, r1, c1) == collides_before(
            display,
            sprite,
            vx,
            vy,
            r2,
            c2,
        ),
{
    if collides_before(display, sprite, vx, vy, r1, c1) {
        let k = choose|k: int|
            0 <= k < display.len() && #[trigger] lights_before(sprite, vx, vy, r1, c1, k)
                && display[k] == 1;
        assert(lights_before(sprite, vx, vy, r2, c2, k));
    }
    if collides_before(display, sprite, vx, vy, r2, c2) {
        let k = choose|k: int|
            0 <= k < display.len() && #[trigger] lights_before(sprite, vx, vy, r2, c2, k)
                && display[k] == 1;
        assert(lights_before(sprite, vx, vy, r1, c1, k));
    }
}

/// One step of the blitter: with everything before column `col` of row `row`
/// drawn, flipping the target of that column if its pixel is set gives
/// everything before the next column, and a collision is seen so far exactly
/// if one was seen before or the flipped place was lit.
proof fn lemma_pixel_drawn(
    display: Seq<u8>,
    sprite: Seq<u8>,
    vx: int,
    vy: int,
    row: int,
    col: int,
)
    requires
        display.len() == 2048,
        sprite.len() <= 32,
        0 <= vx,
        0 <= vy,
        0 <= row < sprite.len(),
        0 <= col < 8,
    ensures
        ({
            let target = sprite_target(vx, vy, row, col);
            let shown = drawn_before(display, sprite, vx, vy, row, col);
            let set = sprite_bit(sprite[row], col);
            &&& 0 <= target < 2048
            &&& shown[target] == display[target]
            &&& drawn_before(display, sprite, vx, vy, row, col + 1) == if set {
                shown.update(target, shown[target] ^ 1u8)
            } else {
                shown
            }
            &&& collides_before(display, sprite, vx, vy, row, col + 1) == (collides_before(
                display,
                sprite,
                vx,
                vy,
                row,
                col,
            ) || (set && display[target] == 1))
        }),
{
    lemma_target(vx, vy, row, col);
    let target = sprite_target(vx, vy, row, col);
    let shown = drawn_before(display, sprite, vx, vy, row, col);
    let set = sprite_bit(sprite[row], col);
    let next = drawn_before(display, sprite, vx, vy, row, col + 1);
    let updated = if set {
        shown.update(target, shown[target] ^ 1u8)
    } else {
        shown
    };
    assert(!lights_before(sprite, vx, vy, row, col, target));
    assert(lights_before(sprite, vx, vy, row, col + 1, target) == set);
    assert forall|k: int| 0 <= k < 2048 && k != target implies lights_before(
        sprite,
        vx,
        vy,
        row,
        col + 1,
        k,
    ) == lights_before(sprite, vx, vy, row, col, k) by {}
    assert(next =~= updated);
    if collides_before(display, sprite, vx, vy, row, col + 1) {
        let k = choose|k: int|
            0 <= k < display.len() && #[trigger] lights_before(sprite, vx, vy, row, col + 1, k)
                && display[k] == 1;
        if k != target {
            assert(lights_before(sprite, vx, vy, row, col, k));
        }
    }
    if collides_before(display, sprite, vx, vy, row, col) {
        let k = choose|k: int|
            0 <= k < display.len() && #[trigger] lights_before(sprite, vx, vy, row, col, k)
                && display[k] == 1;
        assert(lights_before(sprite, vx, vy, row, col + 1, k));
    }
}

/// With all eight columns of a row drawn, everything before the next row is
/// drawn.
proof fn lemma_row_drawn(display: Seq<u8>, sprite: Seq<u8>, vx: int, vy: int, row: int)
    ensures
        drawn_before(display, sprite, vx, vy, row, 8) == drawn_before(
            display,
            sprite,
            vx,
            vy,
            row + 1,
            0,
        ),
        collides_before(display, sprite, vx, vy, row, 8) == collides_before(
            display,
            sprite,
            vx,
            vy,
            row + 1,
            0,
        ),
{
    assert forall|k: int|
        lights_before(sprite, vx, vy, row, 8, k) == lights_before(
            sprite,
            vx,
            vy,
            row + 1,
            0,
            k,
        ) by {}
    assert(drawn_before(display, sprite, vx, vy, row, 8) =~= drawn_before(
        display,
        sprite,
        vx,
        vy,
        row + 1,
        0,
    ));
    lemma_collides_before_same(display, sprite, vx, vy, row, 8, row + 1, 0);
}

/// With everything before the row past the last one drawn, the sprite is
/// drawn.
proof fn lemma_sprite_drawn(display: Seq<u8>, sprite: Seq<u8>, vx: int, vy: int)
    ensures
        drawn_before(display, sprite, vx, vy, sprite.len() as int, 0) == drawn(
            display,
            sprite,
            vx,
            vy,
        ),
        collides_before(display, sprite, vx, vy, sprite.len() as int, 0) == collides(
            display,
            sprite,
            vx,
            vy,
        ),
{
    let rows = sprite.len() as int;
    assert forall|k: int|
        lights_before(sprite, vx, vy, rows, 0, k) == sprite_lights(sprite, vx, vy, k) by {}
    assert(drawn_before(display, sprite, vx, vy, rows, 0) =~= drawn(display, sprite, vx, vy));
    if collides(display, sprite, vx, vy) {
        let k = choose|k: int|
            0 <= k < display.len() && #[trigger] sprite_lights(sprite, vx, vy, k) && display[k]
                == 1;
        assert(lights_before(sprite, vx, vy, rows, 0, k));
    }
    if collides_before(display, sprite, vx, vy, rows, 0) {
        let k = choose|k: int|
            0 <= k < display.len() && #[trigger] lights_before(sprite, vx, vy, rows, 0, k)
                && display[k] == 1;
        assert(sprite_lights(sprite, vx, vy, k));
    }
}

/// XOR-ing a sprite into a monochrome framebuffer leaves it monochrome.
pub proof fn lemma_drawn_monochrome(display: Seq<u8>, sprite: Seq<u8>, vx: int, vy: int)
    requires
        monochrome(display),
    ensures
        monochrome(drawn(display, sprite, vx, vy)),
{
    assert forall|k: int| 0 <= k < display.len() implies #[trigger] drawn(
        display,
        sprite,
        vx,
        vy,
    )[k] <= 1 by {
        let p = display[k];
        assert(p <= 1);
        assert(p <= 1 ==> p ^ 1u8 <= 1) by (bit_vector);
    }
}

/// Drawing the same sprite twice at the same place gives back the
/// framebuffer that was there before.
pub proof fn lemma_drawn_twice(display: Seq<u8>, sprite: Seq<u8>, vx: int, vy: int)
    ensures
        drawn(drawn(display, sprite, vx, vy), sprite, vx, vy) == display,
{
    let once = drawn(display, sprite, vx, vy);
    let twice = drawn(once, sprite, vx, vy);
    assert forall|k: int| 0 <= k < display.len() implies twice[k] == display[k] by {
        let p = display[k];
        assert((p ^ 1u8) ^ 1u8 == p) by (bit_vector);
    }
    assert(twice =~= display);
}

/// The second of two draws of the same sprite at the same place collides
/// exactly if the first one lit a pixel, that is, if the sprite has a set
/// pixel where the framebuffer was dark.
pub proof fn lemma_drawn_twice_collides(display: Seq<u8>, sprite: Seq<u8>, vx: int, vy: int)
    requires
        monochrome(display),
    ensures
        collides(drawn(display, sprite, vx, vy), sprite, vx, vy) <==> exists|k: int|
            0 <= k < display.len() && #[trigger] sprite_lights(sprite, vx, vy, k) && display[k]
                == 0,
{
    let once = drawn(display, sprite, vx, vy);
    assert forall|k: int|
        0 <= k < display.len() && sprite_lights(sprite, vx, vy, k) implies (once[k] == 1
        <==> display[k] == 0) by {
        let p = display[k];
        assert(p <= 1);
        assert(p <= 1 ==> (p ^ 1u8 == 1 <==> p == 0)) by (bit_vector);
    }
    if collides(once, sprite, vx, vy) {
        let k = choose|k: int|
            0 <= k < once.len() && #[trigger] sprite_lights(sprite, vx, vy, k) && once[k] == 1;
        assert(sprite_lights(sprite, vx, vy, k) && display[k] == 0);
    }
    if exists|k: int|
        0 <= k < display.len() && #[trigger] sprite_lights(sprite, vx, vy, k) && display[k] == 0 {
        let k = choose|k: int|
            0 <= k < display.len() && #[trigger] sprite_lights(sprite, vx, vy, k) && display[k]
                == 0;
        assert(sprite_lights(sprite, vx, vy, k) && once[k] == 1);
    }
}

/// Coordinates wrap: the pixel in column `col` of row `row` of a sprite at
/// `(vx, vy)` acts on column `(vx + col) % 64` of row `(vy + row) % 32`,
/// wherever the sprite stands. A set pixel flips that place and reports a
/// collision if it was lit; a clear one leaves it alone.
pub proof fn lemma_drawn_wraps(
    display: Seq<u8>,
    sprite: Seq<u8>,
    vx: int,
    vy: int,
    row: int,
    col: int,
)
    requires
        display.len() == 2048,
        sprite.len() <= 32,
        0 <= vx,
        0 <= vy,
        0 <= row < sprite.len(),
        0 <= col < 8,
    ensures
        ({
            let target = sprite_target(vx, vy, row, col);
            let after = drawn(display, sprite, vx, vy);
            &&& 0 <= target < 2048
            &&& after.len() == 2048
            &&& sprite_bit(sprite[row], col) ==> after[target] == display[target] ^ 1u8
            &&& !sprite_bit(sprite[row], col) ==> after[target] == display[target]
            &&& sprite_bit(sprite[row], col) && display[target] == 1 ==> collides(
                display,
                sprite,
                vx,
                vy,
            )
        }),
{
    lemma_target(vx, vy, row, col);
    let target = sprite_target(vx, vy, row, col);
    assert(sprite_lights(sprite, vx, vy, target) == sprite_bit(sprite[row], col));
}

/// A pixel that no set pixel of the sprite lands on is left as it was.
pub proof fn lemma_drawn_elsewhere(display: Seq<u8>, sprite: Seq<u8>, vx: int, vy: int, k: int)
    requires
        0 <= k < display.len(),
        !sprite_lights(sprite, vx, vy, k),
    ensures
        drawn(display, sprite, vx, vy)[k] == display[k],
{
}

/// XORs `sprite` into `display` with its top-left corner at `(vx, vy)`;
/// pixels that fall off an edge come back in on the opposite one. Returns
/// whether a lit pixel was turned off.
///
/// The sprite must not be taller than the framebuffer, so that no row
/// wraps onto another.
pub fn draw_sprite(display: &mut [u8; DISPLAY_SIZE], sprite: &[u8], vx: u8, vy: u8) -> (collision:
    bool)
    requires
        sprite@.len() <= DISPLAY_HEIGHT,
    ensures
        final(display)@ == drawn(old(display)@, sprite@, vx as int, vy as int),
        collision == collides(old(display)@, sprite@, vx as int, vy as int),
{
    let ghost before = display@;
    let x: usize = vx as usize;
    let y: usize = vy as usize;
    let mut collision = false;
    let mut row: usize = 0;
    while row < sprite.len()
        invariant
            sprite@.len() <= 32,
            before.len() == 2048,
            x == vx,
            y == vy,
            row <= sprite@.len(),
            display@ == drawn_before(before, sprite@, x as int, y as int, row as int, 0),
            collision == collides_before(before, sprite@, x as int, y as int, row as int, 0),
        decreases sprite@.len() - row,
    {
        let bits: u8 = sprite[row];
        let mut col: usize = 0;
        while col < 8
            invariant
                sprite@.len() <= 32,
                before.len() == 2048,
                x == vx,
                y == vy,
                row < sprite@.len(),
                bits == sprite@[row as int],
                col <= 8,
                display@ == drawn_before(
                    before,
                    sprite@,
                    x as int,
                    y as int,
                    row as int,
                    col as int,
                ),
                collision == collides_before(
                    before,
                    sprite@,
                    x as int,
                    y as int,
                    row as int,
                    col as int,
                ),
            decreases 8 - col,
        {
            let pixel: u8 = (bits >> (7 - col)) & 1;
            let xcord: usize = (x + col) % DISPLAY_WIDTH;
            let ycord: usize = (y + row) % DISPLAY_HEIGHT;
            let index: usize = ycord * DISPLAY_WIDTH + xcord;
            proof {
                lemma_pixel_drawn(before, sprite@, x as int, y as int, row as int, col as int);
                assert(sprite_bit(bits, col as int) == (pixel == 1));
            }
            if pixel == 1 {
                if display[index] == 1 {
                    collision = true;
                }
                display[index] = display[index] ^ 1;
            }
            col += 1;
        }
        proof {
            lemma_row_drawn(before, sprite@, x as int, y as int, row as int);
        }
        row += 1;
    }
    proof {
        lemma_sprite_drawn(before, sprite@, x as int, y as int);
    }
    collision
}

} // verus!
