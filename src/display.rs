use vstd::prelude::*;

verus! {

/// Screen width in pixels.
pub const SCREEN_WIDTH: usize = 64;

/// Screen height in pixels.
pub const SCREEN_HEIGHT: usize = 32;

/// Number of pixels on the screen.
pub const SCREEN_PIXELS: usize = 2048;

/// Width of a sprite row in pixels.
pub const SPRITE_WIDTH: usize = 8;

/// Whether column `col` of a sprite row is set; column 0 is the most significant bit.
pub open spec fn row_bit(row: u8, col: int) -> bool {
    (row >> ((7 - col) as u8)) & 1u8 == 1u8
}

pub open spec fn on_screen(px: int, py: int) -> bool {
    0 <= px < SCREEN_WIDTH && 0 <= py < SCREEN_HEIGHT
}

/// Position of pixel (px, py) in the row-major pixel sequence.
pub open spec fn pixel_index(px: int, py: int) -> int {
    py * SCREEN_WIDTH + px
}

/// Whether a sprite drawn with its top-left corner at (x, y) has a set bit on
/// screen pixel (px, py). Parts of the sprite past the right or bottom edge
/// are clipped.
pub open spec fn covers(x: int, y: int, rows: Seq<u8>, px: int, py: int) -> bool {
    &&& on_screen(px, py)
    &&& x <= px < x + SPRITE_WIDTH
    &&& y <= py < y + rows.len()
    &&& row_bit(rows[py - y], px - x)
}

/// The screen after XOR-drawing the sprite: each covered pixel is toggled.
pub open spec fn drawn(pixels: Seq<bool>, x: int, y: int, rows: Seq<u8>) -> Seq<bool> {
    Seq::new(
        SCREEN_PIXELS as nat,
        |i: int| pixels[i] != covers(x, y, rows, i % SCREEN_WIDTH as int, i / SCREEN_WIDTH as int),
    )
}

/// Whether drawing the sprite turns off a pixel that was lit.
pub open spec fn collides(pixels: Seq<bool>, x: int, y: int, rows: Seq<u8>) -> bool {
    exists|px: int, py: int| #[trigger] covers(x, y, rows, px, py) && pixels[pixel_index(px, py)]
}

/// The covered pixels that a row-major walk has reached before row `r`, column `c`.
spec fn covered_before(x: int, y: int, rows: Seq<u8>, r: int, c: int, px: int, py: int) -> bool {
    covers(x, y, rows, px, py) && (py - y < r || (py - y == r && px - x < c))
}

proof fn lemma_pixel_index_unique(px: int, py: int, qx: int, qy: int)
    requires
        on_screen(px, py),
        on_screen(qx, qy),
        pixel_index(px, py) == pixel_index(qx, qy),
    ensures
        px == qx,
        py == qy,
{
    assert(py == qy) by (nonlinear_arith)
        requires
            0 <= px < 64,
            0 <= qx < 64,
            py * 64 + px == qy * 64 + qx,
    ;
}

/// Drawing the same sprite twice at the same place toggles the same pixels
/// twice: the screen is back as it was.
pub proof fn lemma_draw_twice_restores(pixels: Seq<bool>, x: int, y: int, rows: Seq<u8>)
    requires
        pixels.len() == SCREEN_PIXELS,
    ensures
        drawn(drawn(pixels, x, y, rows), x, y, rows) == pixels,
{
    assert(drawn(drawn(pixels, x, y, rows), x, y, rows) =~= pixels);
}

/// On a blank screen, a one-row sprite with a set bit inside the screen does
/// not collide when first drawn, collides when drawn again at the same place,
/// and that second draw leaves the screen blank again.
pub proof fn lemma_single_row_redraw(pixels: Seq<bool>, x: u8, y: u8, row: u8)
    requires
        pixels.len() == SCREEN_PIXELS,
        forall|i: int| 0 <= i < SCREEN_PIXELS ==> !pixels[i],
        y < SCREEN_HEIGHT,
        exists|c: int| 0 <= c < SPRITE_WIDTH && x + c < SCREEN_WIDTH && #[trigger] row_bit(row, c),
    ensures
        !collides(pixels, x as int, y as int, seq![row]),
        collides(drawn(pixels, x as int, y as int, seq![row]), x as int, y as int, seq![row]),
        drawn(drawn(pixels, x as int, y as int, seq![row]), x as int, y as int, seq![row]) == pixels,
{
    let rows = seq![row];
    let once = drawn(pixels, x as int, y as int, rows);
    lemma_draw_twice_restores(pixels, x as int, y as int, rows);
    let c = choose|c: int| 0 <= c < SPRITE_WIDTH && x + c < SCREEN_WIDTH && #[trigger] row_bit(row, c);
    let (px, py) = (x + c, y as int);
    let i = pixel_index(px, py);
    assert(covers(x as int, y as int, rows, px, py));
    assert(i % SCREEN_WIDTH as int == px && i / SCREEN_WIDTH as int == py);
    assert(once[i]);
}

/// A monochrome 64 x 32 pixel screen.
pub struct FrameBuffer {
    pixels: Vec<bool>,
    dirty: bool,
}

impl View for FrameBuffer {
    type V = Seq<bool>;

    closed spec fn view(&self) -> Seq<bool> {
        self.pixels@
    }
}

fn blank_pixels() -> (r: Vec<bool>)
    ensures
        r@ == Seq::new(SCREEN_PIXELS as nat, |i: int| false),
{
    let mut pixels: Vec<bool> = Vec::new();
    while pixels.len() < SCREEN_PIXELS
        invariant
            pixels@.len() <= SCREEN_PIXELS,
            forall|i: int| 0 <= i < pixels@.len() ==> !pixels@[i],
        decreases SCREEN_PIXELS - pixels@.len(),
    {
        pixels.push(false);
    }
    assert(pixels@ =~= Seq::new(SCREEN_PIXELS as nat, |i: int| false));
    pixels
}

impl FrameBuffer {
    pub open spec fn wf(&self) -> bool {
        self@.len() == SCREEN_PIXELS
    }

    /// Whether the screen changed since it was last marked clean.
    pub closed spec fn changed(&self) -> bool {
        self.dirty
    }

    /// Whether pixel (px, py) is lit.
    pub open spec fn pixel(&self, px: int, py: int) -> bool {
        self@[pixel_index(px, py)]
    }

    /// A blank screen.
    pub fn new() -> (r: FrameBuffer)
        ensures
            r.wf(),
            forall|i: int| 0 <= i < SCREEN_PIXELS ==> !r@[i],
            !r.changed(),
    {
        FrameBuffer { pixels: blank_pixels(), dirty: false }
    }

    /// Turns every pixel off.
    pub fn blank_screen(&mut self)
        ensures
            final(self).wf(),
            forall|i: int| 0 <= i < SCREEN_PIXELS ==> !final(self)@[i],
            final(self).changed(),
    {
        self.pixels = blank_pixels();
        self.dirty = true;
    }

    pub fn is_pixel_set(&self, px: usize, py: usize) -> (r: bool)
        requires
            self.wf(),
            px < SCREEN_WIDTH,
            py < SCREEN_HEIGHT,
        ensures
            r == self.pixel(px as int, py as int),
    {
        self.pixels[py * SCREEN_WIDTH + px]
    }

    pub fn is_dirty(&self) -> (r: bool)
        ensures
            r == self.changed(),
    {
        self.dirty
    }

    /// Records that the current contents have been shown.
    pub fn mark_clean(&mut self)
        ensures
            final(self)@ == old(self)@,
            !final(self).changed(),
    {
        self.dirty = false;
    }

    /// XOR-draws `sprite` (one byte per 8-pixel row, most significant bit on
    /// the left) with its top-left corner at (x, y), clipping what falls past
    /// the right or bottom edge. Returns whether a lit pixel was turned off.
    pub fn draw(&mut self, x: u8, y: u8, sprite: &[u8]) -> (collision: bool)
        requires
            old(self).wf(),
        ensures
            final(self).wf(),
            final(self)@ == drawn(old(self)@, x as int, y as int, sprite@),
            collision == collides(old(self)@, x as int, y as int, sprite@),
            final(self).changed(),
    {
        let ghost rows = sprite@;
        let ghost (xi, yi) = (x as int, y as int);
        let mut collision = false;
        let mut r: usize = 0;
        while r < sprite.len()
            invariant
                self.wf(),
                rows == sprite@,
                xi == x,
                yi == y,
                r <= rows.len(),
                forall|px: int, py: int| #[trigger] on_screen(px, py) ==>
                    self@[pixel_index(px, py)] == (old(self)@[pixel_index(px, py)]
                        != covered_before(xi, yi, rows, r as int, 0, px, py)),
                collision == exists|px: int, py: int|
                    #[trigger] covered_before(xi, yi, rows, r as int, 0, px, py)
                        && old(self)@[pixel_index(px, py)],
            decreases rows.len() - r,
        {
            let mut c: usize = 0;
            while c < SPRITE_WIDTH
                invariant
                    self.wf(),
                    rows == sprite@,
                    xi == x,
                    yi == y,
                    r < rows.len(),
                    c <= SPRITE_WIDTH,
                    forall|px: int, py: int| #[trigger] on_screen(px, py) ==>
                        self@[pixel_index(px, py)] == (old(self)@[pixel_index(px, py)]
                            != covered_before(xi, yi, rows, r as int, c as int, px, py)),
                    collision == exists|px: int, py: int|
                        #[trigger] covered_before(xi, yi, rows, r as int, c as int, px, py)
                            && old(self)@[pixel_index(px, py)],
                decreases SPRITE_WIDTH - c,
            {
                let ghost prev = self@;
                let ghost prev_collision = collision;
                let ghost (cx, cy) = (xi + c, yi + r);
                let visible = (x as usize) < SCREEN_WIDTH - c && r < SCREEN_HEIGHT
                    && (y as usize) < SCREEN_HEIGHT - r;
                if visible && (sprite[r] >> ((7 - c) as u8)) & 1u8 == 1u8 {
                    let idx = (y as usize + r) * SCREEN_WIDTH + (x as usize + c);
                    assert(idx == pixel_index(cx, cy));
                    if self.pixels[idx] {
                        self.pixels.set(idx, false);
                        collision = true;
                    } else {
                        self.pixels.set(idx, true);
                    }
                    proof {
                        assert(covers(xi, yi, rows, cx, cy));
                        assert(on_screen(cx, cy));
                        assert(prev[idx as int] == old(self)@[idx as int]);
                        assert forall|px: int, py: int| #[trigger] on_screen(px, py) implies
                            self@[pixel_index(px, py)] == (old(self)@[pixel_index(px, py)]
                                != covered_before(xi, yi, rows, r as int, c + 1, px, py)) by {
                            if px != cx || py != cy {
                                if pixel_index(px, py) == idx {
                                    lemma_pixel_index_unique(px, py, cx, cy);
                                }
                            }
                        }
                        if collision {
                            assert(covered_before(xi, yi, rows, r as int, c + 1, cx, cy));
                        }
                        if !prev_collision && !collision {
                            assert forall|px: int, py: int|
                                #[trigger] covered_before(xi, yi, rows, r as int, c + 1, px, py)
                                implies !old(self)@[pixel_index(px, py)] by {
                                if px != cx || py != cy {
                                    assert(covered_before(xi, yi, rows, r as int, c as int, px, py));
                                }
                            }
                        }
                    }
                } else {
                    proof {
                        assert(!covers(xi, yi, rows, cx, cy));
                        assert forall|px: int, py: int| #[trigger] on_screen(px, py) implies
                            covered_before(xi, yi, rows, r as int, c + 1, px, py)
                                == covered_before(xi, yi, rows, r as int, c as int, px, py) by {
                        }
                        if collision {
                            let (wx, wy) = choose|px: int, py: int|
                                #[trigger] covered_before(xi, yi, rows, r as int, c as int, px, py)
                                    && old(self)@[pixel_index(px, py)];
                            assert(covered_before(xi, yi, rows, r as int, c + 1, wx, wy));
                        } else {
                            assert forall|px: int, py: int|
                                #[trigger] covered_before(xi, yi, rows, r as int, c + 1, px, py)
                                implies !old(self)@[pixel_index(px, py)] by {
                                assert(covered_before(xi, yi, rows, r as int, c as int, px, py));
                            }
                        }
                    }
                }
                c += 1;
            }
            proof {
                assert forall|px: int, py: int| #[trigger] on_screen(px, py) implies
                    covered_before(xi, yi, rows, r as int, SPRITE_WIDTH as int, px, py)
                        == covered_before(xi, yi, rows, r + 1, 0, px, py) by {
                }
                if collision {
                    let (wx, wy) = choose|px: int, py: int|
                        #[trigger] covered_before(xi, yi, rows, r as int, SPRITE_WIDTH as int, px, py)
                            && old(self)@[pixel_index(px, py)];
                    assert(covered_before(xi, yi, rows, r + 1, 0, wx, wy));
                } else {
                    assert forall|px: int, py: int|
                        #[trigger] covered_before(xi, yi, rows, r + 1, 0, px, py)
                        implies !old(self)@[pixel_index(px, py)] by {
                        assert(covered_before(xi, yi, rows, r as int, SPRITE_WIDTH as int, px, py));
                    }
                }
            }
            r += 1;
        }
        self.dirty = true;
        proof {
            assert forall|i: int| 0 <= i < SCREEN_PIXELS implies
                self@[i] == drawn(old(self)@, xi, yi, rows)[i] by {
                let (px, py) = (i % SCREEN_WIDTH as int, i / SCREEN_WIDTH as int);
                assert(on_screen(px, py));
                assert(pixel_index(px, py) == i);
            }
            assert(self@ =~= drawn(old(self)@, xi, yi, rows));
            if collision {
                let (wx, wy) = choose|px: int, py: int|
                    #[trigger] covered_before(xi, yi, rows, r as int, 0, px, py)
                        && old(self)@[pixel_index(px, py)];
                assert(covers(xi, yi, rows, wx, wy));
            } else {
                assert forall|px: int, py: int| #[trigger] covers(xi, yi, rows, px, py)
                    implies !old(self)@[pixel_index(px, py)] by {
                    assert(covered_before(xi, yi, rows, r as int, 0, px, py));
                }
            }
        }
        collision
    }
}

} // verus!
