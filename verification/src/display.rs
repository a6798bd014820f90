//! The 64x32 monochrome framebuffer and its XOR sprite blit.

use vstd::prelude::*;

verus! {

/// Pixels per line.
pub const WIDTH: usize = 64;

/// Lines on the screen.
pub const HEIGHT: usize = 32;

/// Pixels on the screen; pixel (`col`, `row`) has index `row * WIDTH + col`.
pub const PIXELS: usize = 2048;

/// The value of bit `k` of a sprite row, bit 0 being the leftmost pixel.
pub open spec fn bit_weight(k: int) -> int {
    if k == 0 {
        128
    } else if k == 1 {
        64
    } else if k == 2 {
        32
    } else if k == 3 {
        16
    } else if k == 4 {
        8
    } else if k == 5 {
        4
    } else if k == 6 {
        2
    } else {
        1
    }
}

/// Whether pixel `k` (0 = leftmost) of the sprite row `bits` is set.
pub open spec fn sprite_bit(bits: u8, k: int) -> bool {
    (bits as int / bit_weight(k)) % 2 == 1
}

/// Whether one of the first `n` pixels of the sprite row `bits`, drawn with
/// its left edge in column `x` of line `y` and wrapped at the screen edges,
/// is set and lies on the pixel (`col`, `row`).
pub open spec fn row_covers_below(bits: u8, x: int, y: int, col: int, row: int, n: int) -> bool {
    let k = (col - x) % 64;
    row == y % 32 && k < n && k < 8 && sprite_bit(bits, k)
}

/// Whether the sprite row `bits`, drawn at (`x`, `y`), toggles the pixel
/// (`col`, `row`).
pub open spec fn row_covers(bits: u8, x: int, y: int, col: int, row: int) -> bool {
    row_covers_below(bits, x, y, col, row, 8)
}

/// The screen after the sprite row `bits` was XORed onto it at (`x`, `y`).
#[verifier::opaque]
pub open spec fn blit_row_spec(screen: Seq<bool>, bits: u8, x: int, y: int) -> Seq<bool> {
    Seq::new(2048, |i: int| screen[i] != row_covers(bits, x, y, i % 64, i / 64))
}

/// Whether pixel `i` is lit on `screen` and toggled by the first `n` pixels of
/// the sprite row.
pub open spec fn row_hits_below(screen: Seq<bool>, bits: u8, x: int, y: int, n: int, i: int) -> bool {
    0 <= i < 2048 && screen[i] && row_covers_below(bits, x, y, i % 64, i / 64, n)
}

/// Whether drawing the sprite row turns a lit pixel off.
#[verifier::opaque]
pub open spec fn row_collides(screen: Seq<bool>, bits: u8, x: int, y: int) -> bool {
    exists|i: int| row_hits_below(screen, bits, x, y, 8, i)
}

/// The screen after the rows of a sprite were XORed onto it one below the
/// other, the first at (`x`, `y`).
pub open spec fn blit_spec(screen: Seq<bool>, rows: Seq<u8>, x: int, y: int) -> Seq<bool>
    decreases rows.len(),
{
    if rows.len() == 0 {
        screen
    } else {
        blit_row_spec(
            blit_spec(screen, rows.drop_last(), x, y),
            rows.last(),
            x,
            y + rows.len() - 1,
        )
    }
}

/// Whether one of the rows of a sprite, at the moment it was drawn, turned a
/// lit pixel off.
pub open spec fn blit_collides(screen: Seq<bool>, rows: Seq<u8>, x: int, y: int) -> bool
    decreases rows.len(),
{
    if rows.len() == 0 {
        false
    } else {
        blit_collides(screen, rows.drop_last(), x, y) || row_collides(
            blit_spec(screen, rows.drop_last(), x, y),
            rows.last(),
            x,
            y + rows.len() - 1,
        )
    }
}

/// Whether a sprite of at most 32 rows drawn at (`x`, `y`) toggles the pixel
/// (`col`, `row`).
pub open spec fn sprite_covers(rows: Seq<u8>, x: int, y: int, col: int, row: int) -> bool {
    let r = (row - y) % 32;
    r < rows.len() && row_covers(rows[r], x, y + r, col, row)
}

/// The screen with every pixel dark.
pub open spec fn blank_screen() -> Seq<bool> {
    Seq::new(2048, |i: int| false)
}

/// The framebuffer. Its view lists the pixels line by line, `true` for lit.
#[derive(Debug)]
pub struct Display {
    pixels: [bool; 2048],
}

impl View for Display {
    type V = Seq<bool>;

    closed spec fn view(&self) -> Seq<bool> {
        self.pixels@
    }
}

impl Display {
    /// Every display holds exactly `PIXELS` pixels.
    pub proof fn lemma_len(&self)
        ensures
            self@.len() == 2048,
    {
    }

    /// A dark screen.
    pub fn new() -> (display: Display)
        ensures
            display@ == blank_screen(),
    {
        let display = Display { pixels: [false;2048] };
        assert(display@ =~= blank_screen());
        display
    }

    /// Turns every pixel off.
    pub fn clear(&mut self)
        ensures
            final(self)@ == blank_screen(),
    {
        self.pixels = [false;2048];
        assert(self@ =~= blank_screen());
    }

    /// A copy of the whole frame.
    pub fn snapshot(&self) -> (frame: [bool; 2048])
        ensures
            frame@ == self@,
    {
        self.pixels
    }

    /// The pixel in column `x % 64` of line `y % 32`.
    pub fn pixel(&self, x: usize, y: usize) -> (lit: bool)
        ensures
            lit == self@[(y % 32) * 64 + (x % 64)],
    {
        self.pixels[(y % HEIGHT) * WIDTH + (x % WIDTH)]
    }

    /// XORs one sprite row of eight pixels onto line `y % 32`, its leftmost
    /// pixel in column `x % 64`, wrapping round at the right edge. Returns
    /// whether a lit pixel was turned off.
    pub fn blit_row(&mut self, bits: u8, x: usize, y: usize) -> (collision: bool)
        ensures
            final(self)@ == blit_row_spec(old(self)@, bits, x as int, y as int),
            collision == row_collides(old(self)@, bits, x as int, y as int),
    {
        let line: usize = y % HEIGHT;
        let left: usize = x % WIDTH;
        let mut collision = false;
        let mut weight: u8 = 128;
        let mut k: usize = 0;
        while k < 8
            invariant
                k <= 8,
                line == y % 32,
                left == x % 64,
                k < 8 ==> weight == bit_weight(k as int),
                forall|i: int|
                    0 <= i < 2048 ==> self@[i] == (old(self)@[i] != #[trigger] row_covers_below(
                        bits,
                        x as int,
                        y as int,
                        i % 64,
                        i / 64,
                        k as int,
                    )),
                collision == (exists|i: int|
                    row_hits_below(old(self)@, bits, x as int, y as int, k as int, i)),
            decreases 8 - k,
        {
            let ghost hit_before = collision;
            let col: usize = (left + k) % WIDTH;
            let idx: usize = line * WIDTH + col;
            let set: bool = (bits / weight) % 2 == 1;
            if set {
                let lit = self.pixels[idx];
                if lit {
                    collision = true;
                }
                self.pixels[idx] = !lit;
            }
            proof {
                let xi = x as int;
                let yi = y as int;
                let ki = k as int;
                assert forall|i: int| 0 <= i < 2048 implies self@[i] == (old(self)@[i]
                    != #[trigger] row_covers_below(bits, xi, yi, i % 64, i / 64, ki + 1)) by {
                    lemma_next_pixel(bits, xi, yi, ki, i);
                }
                lemma_next_pixel(bits, xi, yi, ki, idx as int);
                if collision {
                    if hit_before {
                        let w = choose|i: int| row_hits_below(old(self)@, bits, xi, yi, ki, i);
                        lemma_next_pixel(bits, xi, yi, ki, w);
                        assert(row_hits_below(old(self)@, bits, xi, yi, ki + 1, w));
                    } else {
                        assert(row_hits_below(old(self)@, bits, xi, yi, ki + 1, idx as int));
                    }
                } else {
                    assert forall|i: int| !#[trigger] row_hits_below(
                        old(self)@,
                        bits,
                        xi,
                        yi,
                        ki + 1,
                        i,
                    ) by {
                        assert(!row_hits_below(old(self)@, bits, xi, yi, ki, i));
                        if 0 <= i < 2048 {
                            lemma_next_pixel(bits, xi, yi, ki, i);
                        }
                    }
                }
            }
            k = k + 1;
            weight = weight / 2;
        }
        proof {
            reveal(blit_row_spec);
            reveal(row_collides);
            assert(self@ =~= blit_row_spec(old(self)@, bits, x as int, y as int));
        }
        collision
    }

    /// XORs a sprite onto the screen, its first row on line `y % 32` and each
    /// further row one line lower, wrapping round at the bottom and right
    /// edges. Returns whether a lit pixel was turned off.
    pub fn blit(&mut self, rows: &[u8], x: usize, y: usize) -> (collision: bool)
        ensures
            final(self)@ == blit_spec(old(self)@, rows@, x as int, y as int),
            collision == blit_collides(old(self)@, rows@, x as int, y as int),
            rows@.len() <= 32 ==> (collision <==> exists|i: int|
                0 <= i < 2048 && old(self)@[i] && !(#[trigger] final(self)@[i])),
    {
        let mut collision = false;
        let mut r: usize = 0;
        while r < rows.len()
            invariant
                r <= rows@.len(),
                self@ == blit_spec(old(self)@, rows@.take(r as int), x as int, y as int),
                collision == blit_collides(old(self)@, rows@.take(r as int), x as int, y as int),
            decreases rows@.len() - r,
        {
            let line: usize = (y % HEIGHT + r % HEIGHT) % HEIGHT;
            proof {
                lemma_blit_next_row(old(self)@, rows@, r as int, x as int, y as int);
            }
            let hit = self.blit_row(rows[r], x, line);
            if hit {
                collision = true;
            }
            r = r + 1;
        }
        proof {
            assert(rows@.take(r as int) =~= rows@);
            if rows@.len() <= 32 {
                self.lemma_len();
                old(self).lemma_len();
                lemma_blit_collision(old(self)@, rows@, x as int, y as int);
            }
        }
        collision
    }
}

/// Drawing a sprite row on line `y` is drawing it on line `y % 32`.
pub proof fn lemma_row_line_wraps(screen: Seq<bool>, bits: u8, x: int, y: int)
    ensures
        blit_row_spec(screen, bits, x, y % 32) == blit_row_spec(screen, bits, x, y),
        row_collides(screen, bits, x, y % 32) == row_collides(screen, bits, x, y),
{
    reveal(blit_row_spec);
    reveal(row_collides);
    let line = y % 32;
    assert(line % 32 == y % 32);
    assert(blit_row_spec(screen, bits, x, line) =~= blit_row_spec(screen, bits, x, y));
    if row_collides(screen, bits, x, line) {
        let w = choose|i: int| #[trigger] row_hits_below(screen, bits, x, line, 8, i);
        assert(row_hits_below(screen, bits, x, y, 8, w));
    }
    if row_collides(screen, bits, x, y) {
        let w = choose|i: int| #[trigger] row_hits_below(screen, bits, x, y, 8, i);
        assert(row_hits_below(screen, bits, x, line, 8, w));
    }
}

/// Pixel `k` of a sprite row drawn at (`x`, `y`) lies on the pixel with
/// index `(y % 32) * 64 + (x % 64 + k) % 64` and on no other, and none of
/// the pixels before it lies there.
pub proof fn lemma_next_pixel(bits: u8, x: int, y: int, k: int, i: int)
    requires
        0 <= k < 8,
        0 <= i < 2048,
        0 <= x,
        0 <= y,
    ensures
        ({
            let idx = (y % 32) * 64 + (x % 64 + k) % 64;
            &&& row_covers_below(bits, x, y, i % 64, i / 64, k + 1) == (row_covers_below(
                bits,
                x,
                y,
                i % 64,
                i / 64,
                k,
            ) || (i == idx && sprite_bit(bits, k)))
            &&& i == idx ==> !row_covers_below(bits, x, y, i % 64, i / 64, k)
        }),
{
    let idx = (y % 32) * 64 + (x % 64 + k) % 64;
    let col = (x % 64 + k) % 64;
    assert(idx / 64 == y % 32 && idx % 64 == col);
    assert((col - x) % 64 == k);
    if i != idx {
        assert(i / 64 != y % 32 || (i % 64 - x) % 64 != k);
    }
}

/// Drawing the first `r + 1` rows of a sprite is drawing the first `r` and
/// then row `r` on line `(y + r) % 32`.
pub proof fn lemma_blit_next_row(screen: Seq<bool>, rows: Seq<u8>, r: int, x: int, y: int)
    requires
        0 <= r < rows.len(),
    ensures
        blit_spec(screen, rows.take(r + 1), x, y) == blit_row_spec(
            blit_spec(screen, rows.take(r), x, y),
            rows[r],
            x,
            (y + r) % 32,
        ),
        blit_collides(screen, rows.take(r + 1), x, y) == (blit_collides(screen, rows.take(r), x, y)
            || row_collides(blit_spec(screen, rows.take(r), x, y), rows[r], x, (y + r) % 32)),
{
    let next = rows.take(r + 1);
    assert(next.drop_last() =~= rows.take(r));
    assert(next.last() == rows[r]);
    lemma_row_line_wraps(blit_spec(screen, rows.take(r), x, y), rows[r], x, y + r);
}

/// Drawing a sprite keeps the screen at its 2048 pixels.
pub proof fn lemma_blit_len(screen: Seq<bool>, rows: Seq<u8>, x: int, y: int)
    requires
        screen.len() == 2048,
    ensures
        blit_spec(screen, rows, x, y).len() == 2048,
    decreases rows.len(),
{
    reveal(blit_row_spec);
    if rows.len() > 0 {
        lemma_blit_len(screen, rows.drop_last(), x, y);
    }
}

/// Of a sprite of at most 32 rows, only the last row can toggle a pixel of
/// the line it is drawn on, and the rows before it toggle what they toggle
/// alone.
pub proof fn lemma_sprite_covers_last(rows: Seq<u8>, x: int, y: int, col: int, row: int)
    requires
        0 < rows.len() <= 32,
        0 <= row < 32,
    ensures
        sprite_covers(rows, x, y, col, row) == (sprite_covers(rows.drop_last(), x, y, col, row)
            || row_covers(rows.last(), x, y + rows.len() - 1, col, row)),
        !(sprite_covers(rows.drop_last(), x, y, col, row) && row_covers(
            rows.last(),
            x,
            y + rows.len() - 1,
            col,
            row,
        )),
{
    let n = rows.len() - 1;
    let r = (row - y) % 32;
    if r < n {
        assert(rows.drop_last()[r] == rows[r]);
        assert((y + n) % 32 != row);
    } else if r == n {
        assert((y + n) % 32 == row);
    } else {
        assert((y + n) % 32 != row);
    }
}

/// A sprite of at most 32 rows toggles exactly the pixels that its set bits
/// lie on.
pub proof fn lemma_blit_pixels(screen: Seq<bool>, rows: Seq<u8>, x: int, y: int)
    requires
        screen.len() == 2048,
        rows.len() <= 32,
    ensures
        blit_spec(screen, rows, x, y).len() == 2048,
        forall|i: int|
            0 <= i < 2048 ==> #[trigger] blit_spec(screen, rows, x, y)[i] == (screen[i]
                != sprite_covers(rows, x, y, i % 64, i / 64)),
    decreases rows.len(),
{
    reveal(blit_row_spec);
    if rows.len() > 0 {
        let after = blit_spec(screen, rows, x, y);
        let head = rows.drop_last();
        let mid = blit_spec(screen, head, x, y);
        lemma_blit_pixels(screen, head, x, y);
        assert forall|i: int| 0 <= i < 2048 implies #[trigger] after[i] == (screen[i]
            != sprite_covers(rows, x, y, i % 64, i / 64)) by {
            assert(mid[i] == (screen[i] != sprite_covers(head, x, y, i % 64, i / 64)));
            lemma_sprite_covers_last(rows, x, y, i % 64, i / 64);
        }
    }
}

/// A sprite of at most 32 rows collides exactly when drawing it turns a lit
/// pixel off.
pub proof fn lemma_blit_collision(screen: Seq<bool>, rows: Seq<u8>, x: int, y: int)
    requires
        screen.len() == 2048,
        rows.len() <= 32,
    ensures
        blit_collides(screen, rows, x, y) <==> exists|i: int|
            0 <= i < 2048 && screen[i] && !(#[trigger] blit_spec(screen, rows, x, y)[i]),
    decreases rows.len(),
{
    reveal(row_collides);
    let after = blit_spec(screen, rows, x, y);
    lemma_blit_pixels(screen, rows, x, y);
    if rows.len() > 0 {
        let head = rows.drop_last();
        let line = y + rows.len() - 1;
        let mid = blit_spec(screen, head, x, y);
        lemma_blit_pixels(screen, head, x, y);
        lemma_blit_collision(screen, head, x, y);
        if blit_collides(screen, head, x, y) {
            let w = choose|i: int| 0 <= i < 2048 && screen[i] && !(#[trigger] mid[i]);
            lemma_sprite_covers_last(rows, x, y, w % 64, w / 64);
            assert(screen[w] && !after[w]);
        } else if row_collides(mid, rows.last(), x, line) {
            let w = choose|i: int| #[trigger] row_hits_below(mid, rows.last(), x, line, 8, i);
            lemma_sprite_covers_last(rows, x, y, w % 64, w / 64);
            assert(screen[w] && !after[w]);
        }
        if exists|i: int| 0 <= i < 2048 && screen[i] && !(#[trigger] after[i]) {
            let w = choose|i: int| 0 <= i < 2048 && screen[i] && !(#[trigger] after[i]);
            lemma_sprite_covers_last(rows, x, y, w % 64, w / 64);
            if sprite_covers(head, x, y, w % 64, w / 64) {
                assert(screen[w] && !mid[w]);
            } else {
                assert(row_hits_below(mid, rows.last(), x, line, 8, w));
            }
        }
    }
}

} // verus!
