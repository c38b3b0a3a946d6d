use vstd::prelude::*;

verus! {

/// Width of the framebuffer in pixels.
pub const DISPLAY_WIDTH: usize = 64;

/// Height of the framebuffer in pixels.
pub const DISPLAY_HEIGHT: usize = 32;

/// Number of pixels in the framebuffer.
pub const DISPLAY_SIZE: usize = 2048;

/// Row-major index of the pixel at `(x, y)`, wrapped at the screen edges.
pub open spec fn pixel_index(x: int, y: int) -> int {
    (y % 32) * 64 + (x % 64)
}

/// A pixel after `value` is XOR-ed into it: lit iff exactly one of the two is
/// non-zero.
pub open spec fn toggled(pixel: u8, value: u8) -> u8 {
    if (pixel != 0) != (value != 0) {
        1u8
    } else {
        0u8
    }
}

/// Whether column `col` (0 = leftmost) of the sprite row `b` is set.
pub open spec fn sprite_bit(b: u8, col: int) -> bool {
    (b >> ((7 - col) as u8)) & 1u8 == 1u8
}

/// The sprite row that pixel `p` falls on for a sprite whose top edge is
/// at `y0` (wrapping at the bottom of the screen).
pub open spec fn sprite_row(p: int, y0: int) -> int {
    (p / 64 - y0) % 32
}

/// The sprite column that pixel `p` falls on for a sprite whose left edge
/// is at `x0` (wrapping at the right of the screen).
pub open spec fn sprite_col(p: int, x0: int) -> int {
    (p % 64 - x0) % 64
}

/// Whether drawing `sprite` at `(x0, y0)` flips pixel `p`.
pub open spec fn covers(sprite: Seq<u8>, x0: int, y0: int, p: int) -> bool {
    let r = sprite_row(p, y0);
    let c = sprite_col(p, x0);
    r < sprite.len() && c < 8 && sprite_bit(sprite[r], c)
}

/// The framebuffer `d` after `sprite` is XOR-ed onto it at `(x0, y0)`.
pub open spec fn drawn(d: Seq<u8>, sprite: Seq<u8>, x0: int, y0: int) -> Seq<u8> {
    Seq::new(d.len(), |p: int| if covers(sprite, x0, y0, p) { toggled(d[p], 1) } else { d[p] })
}

/// Whether drawing `sprite` at `(x0, y0)` turns some lit pixel of `d` off.
pub open spec fn collides(d: Seq<u8>, sprite: Seq<u8>, x0: int, y0: int) -> bool {
    exists|p: int| 0 <= p < d.len() && covers(sprite, x0, y0, p) && d[p] != 0
}

/// The pixel that row `r` and column `c` of a sprite at `(x0, y0)` lands on
/// is the one pixel whose sprite row and column are `r` and `c`.
proof fn lemma_pixel_coords(p: int, x0: int, y0: int, r: int, c: int)
    requires
        0 <= p < 2048,
        0 <= r < 32,
        0 <= c < 64,
        0 <= x0,
        0 <= y0,
    ensures
        (p == pixel_index(x0 + c, y0 + r)) <==> (sprite_row(p, y0) == r && sprite_col(p, x0)
            == c),
{
    let py = p / 64;
    let px = p % 64;
    assert(p == py * 64 + px);
    assert(0 <= py < 32);
    let ty = (y0 + r) % 32;
    let tx = (x0 + c) % 64;
    if p == ty * 64 + tx {
        assert(py == ty && px == tx) by (nonlinear_arith)
            requires
                p == ty * 64 + tx,
                p == py * 64 + px,
                0 <= px < 64,
                0 <= tx < 64,
        ;
    }
    if py == ty && px == tx {
        assert(p == ty * 64 + tx);
    }
    assert((py == ty) <==> ((py - y0) % 32 == r)) by {
        vstd::arithmetic::div_mod::lemma_fundamental_div_mod(y0 + r, 32);
        vstd::arithmetic::div_mod::lemma_fundamental_div_mod(py - y0, 32);
    }
    assert((px == tx) <==> ((px - x0) % 64 == c)) by {
        vstd::arithmetic::div_mod::lemma_fundamental_div_mod(x0 + c, 64);
        vstd::arithmetic::div_mod::lemma_fundamental_div_mod(px - x0, 64);
    }
}

/// Monochrome 64x32 framebuffer, one byte per pixel with 0/1 meaning.
pub struct C8Display {
    pub display_array: [u8; 2048],
}

impl C8Display {
    /// Every pixel holds 0 or 1.
    pub open spec fn wf(&self) -> bool {
        forall|i: int| 0 <= i < DISPLAY_SIZE ==> #[trigger] self.display_array@[i] <= 1
    }

    /// A blank screen.
    pub fn new() -> (d: Self)
        ensures
            d.display_array@.len() == DISPLAY_SIZE,
            forall|i: int| 0 <= i < DISPLAY_SIZE ==> d.display_array@[i] == 0u8,
            d.wf(),
    {
        C8Display { display_array: [0u8; 2048] }
    }

    /// XORs `value` into the pixel at `(x mod 64, y mod 32)`: a non-zero
    /// `value` flips the pixel, zero leaves it lit or dark as it was.
    pub fn write_pixel(&mut self, x: usize, y: usize, value: u8)
        ensures
            final(self).display_array@ == old(self).display_array@.update(
                pixel_index(x as int, y as int),
                toggled(old(self).display_array@[pixel_index(x as int, y as int)], value),
            ),
            old(self).wf() ==> final(self).wf(),
    {
        let idx = Self::index_of(x, y);
        let old_pixel = self.display_array[idx];
        let lit = (old_pixel != 0) != (value != 0);
        self.display_array[idx] = if lit {
            1
        } else {
            0
        };
    }

    /// The pixel at `(x mod 64, y mod 32)`.
    pub fn pixel(&self, x: usize, y: usize) -> (r: u8)
        ensures
            r == self.display_array@[pixel_index(x as int, y as int)],
    {
        self.display_array[Self::index_of(x, y)]
    }

    /// Turns every pixel off.
    pub fn clear_screen(&mut self)
        ensures
            final(self).display_array@.len() == DISPLAY_SIZE,
            forall|i: int| 0 <= i < DISPLAY_SIZE ==> final(self).display_array@[i] == 0u8,
            final(self).wf(),
    {
        self.display_array = [0u8; 2048];
    }

    /// Read-only view of the whole framebuffer, for a renderer.
    pub fn get_display(&self) -> (r: &[u8; 2048])
        ensures
            r@ == self.display_array@,
    {
        &self.display_array
    }

    /// XORs `sprite` onto the screen with its top-left corner at
    /// `(x mod 64, y mod 32)`, wrapping at the edges; returns whether a lit
    /// pixel was turned off.
    pub fn draw_sprite(&mut self, sprite: &Vec<u8>, x: u8, y: u8) -> (collision: bool)
        requires
            sprite@.len() <= 32,
        ensures
            final(self).display_array@ == drawn(old(self).display_array@, sprite@, x as int, y as int),
            collision == collides(old(self).display_array@, sprite@, x as int, y as int),
            old(self).wf() ==> final(self).wf(),
    {
        let ghost orig = self.display_array@;
        let ghost x0 = x as int;
        let ghost y0 = y as int;
        let mut collision = false;
        let n = sprite.len();
        let mut row: usize = 0;
        while row < n
            invariant
                n == sprite@.len(),
                n <= 32,
                row <= n,
                x0 == x as int,
                y0 == y as int,
                self.display_array@.len() == DISPLAY_SIZE,
                orig.len() == DISPLAY_SIZE,
                forall|p: int|
                    0 <= p < DISPLAY_SIZE ==> #[trigger] self.display_array@[p] == if sprite_row(
                        p,
                        y0,
                    ) < row && covers(sprite@, x0, y0, p) {
                        toggled(orig[p], 1)
                    } else {
                        orig[p]
                    },
                collision == exists|p: int|
                    0 <= p < DISPLAY_SIZE && sprite_row(p, y0) < row && covers(sprite@, x0, y0, p)
                        && #[trigger] orig[p] != 0,
            decreases n - row,
        {
            let bits = sprite[row];
            let mut col: usize = 0;
            while col < 8
                invariant
                    n == sprite@.len(),
                    n <= 32,
                    row < n,
                    col <= 8,
                    x0 == x as int,
                    y0 == y as int,
                    bits == sprite@[row as int],
                    self.display_array@.len() == DISPLAY_SIZE,
                    orig.len() == DISPLAY_SIZE,
                    forall|p: int|
                        0 <= p < DISPLAY_SIZE ==> #[trigger] self.display_array@[p] == if (
                        sprite_row(p, y0) < row || (sprite_row(p, y0) == row && sprite_col(p, x0)
                            < col)) && covers(sprite@, x0, y0, p) {
                            toggled(orig[p], 1)
                        } else {
                            orig[p]
                        },
                    collision == exists|p: int|
                        0 <= p < DISPLAY_SIZE && (sprite_row(p, y0) < row || (sprite_row(p, y0)
                            == row && sprite_col(p, x0) < col)) && covers(sprite@, x0, y0, p)
                            && #[trigger] orig[p] != 0,
                decreases 8 - col,
            {
                let px = x as usize + col;
                let py = y as usize + row;
                let idx = Self::index_of(px, py);
                let ghost before = self.display_array@;
                assert forall|p: int| 0 <= p < DISPLAY_SIZE implies (p == idx as int) <==> (
                sprite_row(p, y0) == row && sprite_col(p, x0) == col) by {
                    lemma_pixel_coords(p, x0, y0, row as int, col as int);
                }
                assert(sprite_row(idx as int, y0) == row && sprite_col(idx as int, x0) == col);
                if (bits >> ((7 - col) as u8)) & 1 == 1 {
                    assert(covers(sprite@, x0, y0, idx as int));
                    let old_pixel = self.display_array[idx];
                    if old_pixel != 0 {
                        collision = true;
                    }
                    self.display_array[idx] = if old_pixel != 0 {
                        0
                    } else {
                        1
                    };
                } else {
                    assert(!covers(sprite@, x0, y0, idx as int));
                }
                col = col + 1;
            }
            row = row + 1;
        }
        assert forall|p: int| 0 <= p < DISPLAY_SIZE && covers(sprite@, x0, y0, p) implies
            sprite_row(p, y0) < n by {}
        assert(self.display_array@ =~= drawn(orig, sprite@, x0, y0));
        collision
    }

    fn index_of(x: usize, y: usize) -> (r: usize)
        ensures
            r as int == pixel_index(x as int, y as int),
            r < DISPLAY_SIZE,
    {
        let col = x % DISPLAY_WIDTH;
        let row = y % DISPLAY_HEIGHT;
        assert(row * 64 + col < 2048) by (nonlinear_arith)
            requires
                row < 32,
                col < 64,
        ;
        row * DISPLAY_WIDTH + col
    }
}

} // verus!
