use vstd::prelude::*;

verus! {

/// Width of the framebuffer in pixels.
pub const WIDTH: usize = 64;

/// Height of the framebuffer in pixels.
pub const HEIGHT: usize = 32;

/// Number of pixels in the framebuffer.
pub const PIXELS: usize = 2048;

/// Row-major index of the pixel at column `x`, row `y`.
pub open spec fn pixel_index(x: int, y: int) -> int {
    y * 64 + x
}

/// Bit `k` of a sprite row, counted from the most significant bit.
pub open spec fn row_bit(byte: u8, k: int) -> bool {
    (byte >> ((7 - k) as u8)) & 1u8 == 1u8
}

/// Horizontal distance, wrapping at the screen edge, from column `x` to the column of pixel `p`.
pub open spec fn column_offset(x: int, p: int) -> int {
    (p % 64 - x % 64) % 64
}

/// Whether the first `n` bits of a sprite row drawn at `(x, y)` flip pixel `p`.
pub open spec fn row_flips_upto(byte: u8, x: int, y: int, n: int, p: int) -> bool {
    &&& p / 64 == y % 32
    &&& column_offset(x, p) < n
    &&& row_bit(byte, column_offset(x, p))
}

/// Whether a whole sprite row drawn at `(x, y)` flips pixel `p`.
pub open spec fn row_flips(byte: u8, x: int, y: int, p: int) -> bool {
    row_flips_upto(byte, x, y, 8, p)
}

/// The inverse of a pixel value.
pub open spec fn flip(v: u8) -> u8 {
    if v == 0 {
        1
    } else {
        0
    }
}

/// The screen after XOR-ing the first `n` bits of a row at `(x, y)`.
pub open spec fn draw_row_upto(screen: Seq<u8>, byte: u8, x: int, y: int, n: int) -> Seq<u8> {
    Seq::new(
        screen.len(),
        |p: int|
            if row_flips_upto(byte, x, y, n, p) {
                flip(screen[p])
            } else {
                screen[p]
            },
    )
}

/// The screen after XOR-ing one sprite row at `(x, y)`.
pub open spec fn draw_row(screen: Seq<u8>, byte: u8, x: int, y: int) -> Seq<u8> {
    draw_row_upto(screen, byte, x, y, 8)
}

/// Whether the first `n` bits of a row at `(x, y)` clear a pixel that was set.
pub open spec fn row_erases_upto(screen: Seq<u8>, byte: u8, x: int, y: int, n: int) -> bool {
    exists|p: int| 0 <= p < screen.len() && row_flips_upto(byte, x, y, n, p) && screen[p] == 1
}

/// Whether drawing one sprite row at `(x, y)` clears a pixel that was set.
pub open spec fn row_erases(screen: Seq<u8>, byte: u8, x: int, y: int) -> bool {
    row_erases_upto(screen, byte, x, y, 8)
}

/// The screen after drawing `rows` top to bottom, row `k` at `(x, y + k)`.
pub open spec fn sprite_screen(screen: Seq<u8>, rows: Seq<u8>, x: int, y: int) -> Seq<u8>
    decreases rows.len(),
{
    if rows.len() == 0 {
        screen
    } else {
        draw_row(
            sprite_screen(screen, rows.drop_last(), x, y),
            rows.last(),
            x,
            y + rows.len() - 1,
        )
    }
}

/// Whether drawing `rows` top to bottom at `(x, y)` clears any pixel that was set.
pub open spec fn sprite_erases(screen: Seq<u8>, rows: Seq<u8>, x: int, y: int) -> bool
    decreases rows.len(),
{
    if rows.len() == 0 {
        false
    } else {
        sprite_erases(screen, rows.drop_last(), x, y) || row_erases(
            sprite_screen(screen, rows.drop_last(), x, y),
            rows.last(),
            x,
            y + rows.len() - 1,
        )
    }
}

/// Whether some row of a sprite drawn at `(x, y)` flips pixel `p`.
pub open spec fn sprite_flips(rows: Seq<u8>, x: int, y: int, p: int) -> bool {
    exists|k: int| 0 <= k < rows.len() && #[trigger] row_flips(rows[k], x, y + k, p)
}

/// Whether drawing a sprite at `(x, y)` turns on some pixel that was off.
pub open spec fn sprite_lights(screen: Seq<u8>, rows: Seq<u8>, x: int, y: int) -> bool {
    exists|p: int| 0 <= p < screen.len() && #[trigger] sprite_flips(rows, x, y, p) && screen[p] == 0
}

/// A well-formed screen: 64 by 32 pixels, each 0 or 1.
pub open spec fn screen_wf(screen: Seq<u8>) -> bool {
    &&& screen.len() == PIXELS
    &&& forall|p: int| 0 <= p < screen.len() ==> #[trigger] screen[p] <= 1
}

/// The monochrome framebuffer, one byte (0 or 1) per pixel, row-major.
pub struct Display {
    screen: Vec<u8>,
}

impl View for Display {
    type V = Seq<u8>;

    closed spec fn view(&self) -> Seq<u8> {
        self.screen@
    }
}

proof fn lemma_pixel_of_column(p: int, cx: int, cy: int, x: int, k: int)
    requires
        0 <= p < 2048,
        0 <= cy < 32,
        0 <= k < 8,
        cx == (x % 64 + k) % 64,
    ensures
        (p / 64 == cy && column_offset(x, p) == k) <==> p == pixel_index(cx, cy),
        0 <= pixel_index(cx, cy) < 2048,
{
    assert(0 <= cx < 64);
    if p == pixel_index(cx, cy) {
        assert(p / 64 == cy && p % 64 == cx) by (nonlinear_arith)
            requires
                p == cy * 64 + cx,
                0 <= cx < 64,
        ;
    }
    if p / 64 == cy && column_offset(x, p) == k {
        assert(p == (p / 64) * 64 + p % 64) by (nonlinear_arith);
    }
    assert(0 <= pixel_index(cx, cy) < 2048) by (nonlinear_arith)
        requires
            0 <= cx < 64,
            0 <= cy < 32,
    ;
}

impl Display {
    /// Whether the framebuffer holds 64 by 32 pixels, each 0 or 1.
    pub open spec fn wf(&self) -> bool {
        screen_wf(self@)
    }

    /// A blank framebuffer.
    pub fn new() -> (r: Display)
        ensures
            r.wf(),
            r@ == Seq::new(PIXELS as nat, |p: int| 0u8),
    {
        let screen = vec![0u8; PIXELS];
        let r = Display { screen };
        assert(r@ =~= Seq::new(PIXELS as nat, |p: int| 0u8));
        r
    }

    /// Row-major index of the pixel at `(x, y)`.
    pub fn get_index_from_coords(x: usize, y: usize) -> (r: usize)
        requires
            y * 64 + x <= usize::MAX,
        ensures
            r == pixel_index(x as int, y as int),
    {
        y * WIDTH + x
    }

    /// XORs the 8 bits of `byte`, most significant first, onto the pixels of
    /// row `y` starting at column `x`, both wrapping; returns whether any set
    /// pixel was cleared.
    pub fn draw(&mut self, byte: u8, x: u8, y: u8) -> (erased: bool)
        requires
            old(self).wf(),
        ensures
            final(self).wf(),
            final(self)@ == draw_row(old(self)@, byte, x as int, y as int),
            erased == row_erases(old(self)@, byte, x as int, y as int),
    {
        let ghost start = self@;
        let mut erased = false;
        let cy: usize = y as usize % HEIGHT;
        let mut k: u8 = 0;
        assert(self@ =~= draw_row_upto(start, byte, x as int, y as int, 0));
        while k < 8
            invariant
                0 <= k <= 8,
                cy == y as int % 32,
                screen_wf(start),
                self.wf(),
                self@ == draw_row_upto(start, byte, x as int, y as int, k as int),
                erased == row_erases_upto(start, byte, x as int, y as int, k as int),
            decreases 8 - k,
        {
            let cx: usize = (x as usize % WIDTH + k as usize) % WIDTH;
            let ghost target = pixel_index(cx as int, cy as int);
            proof {
                assert forall|p: int| 0 <= p < 2048 implies ((p / 64 == cy && column_offset(
                    x as int,
                    p,
                ) == k) <==> p == target) by {
                    lemma_pixel_of_column(p, cx as int, cy as int, x as int, k as int);
                }
                lemma_pixel_of_column(0, cx as int, cy as int, x as int, k as int);
            }
            let index = Display::get_index_from_coords(cx, cy);
            let bit = (byte >> (7 - k)) & 1;
            let prev = self.screen[index];
            if bit == 1 {
                let now: u8 = if prev == 0 {
                    1
                } else {
                    0
                };
                self.screen.set(index, now);
                if prev == 1 {
                    erased = true;
                }
            }
            proof {
                let next = draw_row_upto(start, byte, x as int, y as int, k + 1);
                assert(self@ =~= next);
                if erased && !row_erases_upto(start, byte, x as int, y as int, k as int) {
                    assert(row_flips_upto(byte, x as int, y as int, k + 1, target));
                }
                if row_erases_upto(start, byte, x as int, y as int, k + 1) {
                    let p = choose|p: int|
                        0 <= p < start.len() && row_flips_upto(byte, x as int, y as int, k + 1, p)
                            && start[p] == 1;
                    if column_offset(x as int, p) == k {
                        assert(p == target);
                    } else {
                        assert(row_flips_upto(byte, x as int, y as int, k as int, p));
                    }
                }
            }
            k = k + 1;
        }
        erased
    }

    /// Same as `draw`: XORs one sprite row onto the screen and reports whether
    /// any set pixel was cleared.
    pub fn debug_draw_byte(&mut self, byte: u8, x: u8, y: u8) -> (erased: bool)
        requires
            old(self).wf(),
        ensures
            final(self).wf(),
            final(self)@ == draw_row(old(self)@, byte, x as int, y as int),
            erased == row_erases(old(self)@, byte, x as int, y as int),
    {
        self.draw(byte, x, y)
    }

    /// Turns every pixel off.
    pub fn clear(&mut self)
        requires
            old(self).wf(),
        ensures
            final(self).wf(),
            final(self)@ == Seq::new(PIXELS as nat, |p: int| 0u8),
    {
        let mut p: usize = 0;
        while p < PIXELS
            invariant
                0 <= p <= PIXELS,
                self.screen@.len() == PIXELS,
                forall|q: int| 0 <= q < p ==> self.screen@[q] == 0,
                forall|q: int| 0 <= q < PIXELS ==> #[trigger] self.screen@[q] <= 1,
            decreases PIXELS - p,
        {
            self.screen.set(p, 0);
            p = p + 1;
        }
        assert(self@ =~= Seq::new(PIXELS as nat, |p: int| 0u8));
    }

    /// The pixels, row-major, each 0 or 1.
    pub fn get_display_buffer(&self) -> (r: &[u8])
        ensures
            r@ == self@,
    {
        self.screen.as_slice()
    }
}

} // verus!
