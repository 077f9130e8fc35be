//! The display buffer.
//!
//! A fixed grid of 128 x 64 binary cells, logically windowed to the
//! active resolution (64 x 32 in low-resolution mode, the full grid in
//! high-resolution mode). A cell's displayed color is purely a
//! function of its on/off state and the two palette colors, so the
//! palette can change at any time without touching the cells.

use vstd::prelude::*;
use crate::color::Color;

verus! {

/// Columns of the backing grid (the high-resolution width).
pub const GRID_WIDTH: usize = 128;

/// Rows of the backing grid (the high-resolution height).
pub const GRID_HEIGHT: usize = 64;

/// Cells of the backing grid.
pub const GRID_CELLS: usize = 8192;

/// Columns of the low-resolution window.
pub const LOW_WIDTH: usize = 64;

/// Rows of the low-resolution window.
pub const LOW_HEIGHT: usize = 32;

/// An all-off grid.
pub open spec fn blank_grid() -> Seq<bool> {
    Seq::new(GRID_CELLS as nat, |k: int| false)
}

/// Where a coordinate lands on an axis of the active window: taken as
/// is when inside, wrapped modulo the window when the draw quirk asks
/// for wraparound, and discarded otherwise.
pub open spec fn wrap_coord(v: int, dim: int, wrap: bool) -> Option<int> {
    if v < dim {
        Option::Some(v)
    } else if wrap {
        Option::Some(v % dim)
    } else {
        Option::None
    }
}

/// The grid after one sprite bit is XORed at (x, y): unchanged for a
/// zero bit or a discarded coordinate, otherwise the one targeted cell
/// is toggled.
pub open spec fn px_write(g: Seq<bool>, w: int, h: int, x: int, y: int, on: bool, wrap: bool) -> Seq<bool> {
    if !on {
        g
    } else {
        match (wrap_coord(x, w, wrap), wrap_coord(y, h, wrap)) {
            (Option::Some(c), Option::Some(r)) => g.update(r * 128 + c, !g[r * 128 + c]),
            _ => g,
        }
    }
}

/// Whether XORing one sprite bit at (x, y) collides: a one bit landing
/// on a cell that is already set.
pub open spec fn px_collide(g: Seq<bool>, w: int, h: int, x: int, y: int, on: bool, wrap: bool) -> bool {
    on && match (wrap_coord(x, w, wrap), wrap_coord(y, h, wrap)) {
        (Option::Some(c), Option::Some(r)) => g[r * 128 + c],
        _ => false,
    }
}

/// The active window after scrolling right by 4: vacated columns are
/// cleared, cells outside the window keep their state.
pub open spec fn scroll_right_spec(g: Seq<bool>, w: int, h: int) -> Seq<bool> {
    Seq::new(GRID_CELLS as nat, |k: int| {
        let r = k / 128;
        let c = k % 128;
        if r < h && c < w {
            if c < 4 {
                false
            } else {
                g[k - 4]
            }
        } else {
            g[k]
        }
    })
}

/// The active window after scrolling left by 4.
pub open spec fn scroll_left_spec(g: Seq<bool>, w: int, h: int) -> Seq<bool> {
    Seq::new(GRID_CELLS as nat, |k: int| {
        let r = k / 128;
        let c = k % 128;
        if r < h && c < w {
            if c >= w - 4 {
                false
            } else {
                g[k + 4]
            }
        } else {
            g[k]
        }
    })
}

/// The active window after scrolling down by n rows.
pub open spec fn scroll_down_spec(g: Seq<bool>, w: int, h: int, n: int) -> Seq<bool> {
    Seq::new(GRID_CELLS as nat, |k: int| {
        let r = k / 128;
        let c = k % 128;
        if r < h && c < w {
            if r < n {
                false
            } else {
                g[k - 128 * n]
            }
        } else {
            g[k]
        }
    })
}

/// The grid part-way through a scroll right: rows below i are done,
/// and in row i the columns from t up are done.
pub open spec fn sr_partial(g: Seq<bool>, w: int, h: int, i: int, t: int) -> Seq<bool> {
    Seq::new(GRID_CELLS as nat, |k: int| {
        let r = k / 128;
        let c = k % 128;
        if r < h && c < w && (r < i || (r == i && c >= t)) {
            if c < 4 {
                false
            } else {
                g[k - 4]
            }
        } else {
            g[k]
        }
    })
}

/// The grid part-way through a scroll left: rows below i are done, and
/// in row i the columns below t are done.
pub open spec fn sl_partial(g: Seq<bool>, w: int, h: int, i: int, t: int) -> Seq<bool> {
    Seq::new(GRID_CELLS as nat, |k: int| {
        let r = k / 128;
        let c = k % 128;
        if r < h && c < w && (r < i || (r == i && c < t)) {
            if c >= w - 4 {
                false
            } else {
                g[k + 4]
            }
        } else {
            g[k]
        }
    })
}

/// The grid part-way through a scroll down: columns below t are done,
/// and in column t the rows from i up are done.
pub open spec fn sd_partial(g: Seq<bool>, w: int, h: int, n: int, t: int, i: int) -> Seq<bool> {
    Seq::new(GRID_CELLS as nat, |k: int| {
        let r = k / 128;
        let c = k % 128;
        if r < h && c < w && (c < t || (c == t && r >= i)) {
            if r < n {
                false
            } else {
                g[k - 128 * n]
            }
        } else {
            g[k]
        }
    })
}

/// A cell index decomposes into its row and column.
proof fn lemma_cell(k: int)
    requires
        0 <= k < 8192,
    ensures
        k == 128 * (k / 128) + k % 128,
        0 <= k / 128 < 64,
        0 <= k % 128 < 128,
{
    vstd::arithmetic::div_mod::lemma_fundamental_div_mod(k, 128);
}

/// The cell at row r, column c has index 128 * r + c.
proof fn lemma_rc(r: int, c: int)
    requires
        0 <= r,
        0 <= c < 128,
    ensures
        (128 * r + c) / 128 == r,
        (128 * r + c) % 128 == c,
{
    vstd::arithmetic::div_mod::lemma_fundamental_div_mod_converse_div(128 * r + c, 128, r, c);
    vstd::arithmetic::div_mod::lemma_fundamental_div_mod_converse_mod(128 * r + c, 128, r, c);
}

/// The pixel grid with its active window and palette.
pub struct Display {
    /// Cell states, row-major with a stride of 128.
    pub cells: Vec<bool>,
    /// Active window width: 64 or 128.
    pub width: usize,
    /// Active window height: 32 or 64.
    pub height: usize,
    /// Color of a set cell.
    pub color_on: Color,
    /// Color of a clear cell.
    pub color_off: Color,
}

impl Display {
    /// The backing grid is always full-sized and the window is one of
    /// the two supported resolutions.
    pub open spec fn wf(&self) -> bool {
        &&& self.cells@.len() == GRID_CELLS
        &&& ((self.width == LOW_WIDTH && self.height == LOW_HEIGHT) || (self.width
            == GRID_WIDTH && self.height == GRID_HEIGHT))
    }

    /// A blank low-resolution display with the default palette.
    pub fn new() -> (d: Display)
        ensures
            d.wf(),
            d.cells@ == blank_grid(),
            d.width == LOW_WIDTH,
            d.height == LOW_HEIGHT,
            d.color_off == (Color { r: 0x0C, g: 0x42, b: 0x71, a: 0 }),
            d.color_on == (Color { r: 0xDF, g: 0xF9, b: 0xDC, a: 0 }),
    {
        let mut cells: Vec<bool> = Vec::new();
        let mut k: usize = 0;
        while k < GRID_CELLS
            invariant
                cells@.len() == k,
                k <= GRID_CELLS,
                forall|j: int| 0 <= j < k ==> !cells@[j],
            decreases GRID_CELLS - k,
        {
            cells.push(false);
            k += 1;
        }
        proof {
            assert(cells@ =~= blank_grid());
        }
        Display {
            cells,
            width: LOW_WIDTH,
            height: LOW_HEIGHT,
            color_on: Color::new(0xDF, 0xF9, 0xDC),
            color_off: Color::new(0x0C, 0x42, 0x71),
        }
    }

    /// Turns every cell off, over the whole backing grid.
    pub fn clear(&mut self)
        requires
            old(self).wf(),
        ensures
            final(self).wf(),
            final(self).cells@ == blank_grid(),
            final(self).width == old(self).width,
            final(self).height == old(self).height,
            final(self).color_on == old(self).color_on,
            final(self).color_off == old(self).color_off,
    {
        let mut k: usize = 0;
        while k < GRID_CELLS
            invariant
                self.wf(),
                k <= GRID_CELLS,
                self.width == old(self).width,
                self.height == old(self).height,
                self.color_on == old(self).color_on,
                self.color_off == old(self).color_off,
                forall|j: int| 0 <= j < k ==> !self.cells@[j],
            decreases GRID_CELLS - k,
        {
            self.cells.set(k, false);
            k += 1;
        }
        proof {
            assert(self.cells@ =~= blank_grid());
        }
    }

    /// Selects the low-resolution window; the cells keep their state.
    pub fn set_low_res(&mut self)
        requires
            old(self).wf(),
        ensures
            final(self).wf(),
            *final(self) == (Display { width: LOW_WIDTH, height: LOW_HEIGHT, ..*old(self) }),
    {
        self.width = LOW_WIDTH;
        self.height = LOW_HEIGHT;
    }

    /// Selects the high-resolution window; the cells keep their state.
    pub fn set_high_res(&mut self)
        requires
            old(self).wf(),
        ensures
            final(self).wf(),
            *final(self) == (Display { width: GRID_WIDTH, height: GRID_HEIGHT, ..*old(self) }),
    {
        self.width = GRID_WIDTH;
        self.height = GRID_HEIGHT;
    }

    /// Replaces the palette; the cells keep their state, so every cell
    /// at an affected color is repainted by the next read.
    pub fn set_palette(&mut self, on: Color, off: Color)
        requires
            old(self).wf(),
        ensures
            final(self).wf(),
            *final(self) == (Display { color_on: on, color_off: off, ..*old(self) }),
    {
        self.color_on = on;
        self.color_off = off;
    }

    /// Whether the cell at (x, y) of the backing grid is set.
    pub fn pixel(&self, x: usize, y: usize) -> (on: bool)
        requires
            self.wf(),
            x < GRID_WIDTH,
            y < GRID_HEIGHT,
        ensures
            on == self.cells@[y * 128 + x],
    {
        self.cells[y * 128 + x]
    }

    /// The displayed color of the cell at (x, y): purely a function of
    /// its state and the palette.
    pub fn color_at(&self, x: usize, y: usize) -> (c: Color)
        requires
            self.wf(),
            x < GRID_WIDTH,
            y < GRID_HEIGHT,
        ensures
            c == if self.cells@[y * 128 + x] {
                self.color_on
            } else {
                self.color_off
            },
    {
        if self.cells[y * 128 + x] {
            self.color_on
        } else {
            self.color_off
        }
    }

    /// XORs one sprite bit onto the window and reports a collision: a
    /// one bit landing on a set cell clears it and collides, a one bit
    /// landing on a clear cell sets it, a zero bit changes nothing.
    /// Out-of-window coordinates wrap or are discarded per the quirk.
    pub fn set_pixel(&mut self, x: usize, y: usize, on: bool, wrap: bool) -> (col: bool)
        requires
            old(self).wf(),
        ensures
            final(self).wf(),
            final(self).cells@ == px_write(
                old(self).cells@,
                old(self).width as int,
                old(self).height as int,
                x as int,
                y as int,
                on,
                wrap,
            ),
            col == px_collide(
                old(self).cells@,
                old(self).width as int,
                old(self).height as int,
                x as int,
                y as int,
                on,
                wrap,
            ),
            final(self).width == old(self).width,
            final(self).height == old(self).height,
            final(self).color_on == old(self).color_on,
            final(self).color_off == old(self).color_off,
    {
        if !on {
            return false;
        }
        let mut cx = x;
        let mut cy = y;
        if cx >= self.width {
            if wrap {
                cx = cx % self.width;
            } else {
                return false;
            }
        }
        if cy >= self.height {
            if wrap {
                cy = cy % self.height;
            } else {
                return false;
            }
        }
        let k = cy * 128 + cx;
        let was = self.cells[k];
        self.cells.set(k, !was);
        was
    }

    /// Scrolls the active window 4 pixels right; the vacated leftmost
    /// columns are cleared, cells outside the window keep their state.
    pub fn scroll_right(&mut self)
        requires
            old(self).wf(),
        ensures
            final(self).wf(),
            final(self).cells@ == scroll_right_spec(
                old(self).cells@,
                old(self).width as int,
                old(self).height as int,
            ),
            final(self).width == old(self).width,
            final(self).height == old(self).height,
            final(self).color_on == old(self).color_on,
            final(self).color_off == old(self).color_off,
    {
        let ghost g0 = old(self).cells@;
        let ghost w = old(self).width as int;
        let ghost h = old(self).height as int;
        proof {
            assert(g0 =~= sr_partial(g0, w, h, 0, w));
        }
        let mut i: usize = 0;
        while i < self.height
            invariant
                self.wf(),
                g0 == old(self).cells@,
                w == old(self).width as int,
                h == old(self).height as int,
                i <= self.height,
                self.width == old(self).width,
                self.height == old(self).height,
                self.color_on == old(self).color_on,
                self.color_off == old(self).color_off,
                self.cells@ == sr_partial(g0, w, h, i as int, w),
            decreases self.height - i,
        {
            let mut t: usize = self.width;
            while t > 0
                invariant
                    self.wf(),
                    g0 == old(self).cells@,
                    w == old(self).width as int,
                    h == old(self).height as int,
                    t <= self.width,
                    i < self.height,
                    self.width == old(self).width,
                    self.height == old(self).height,
                    self.color_on == old(self).color_on,
                    self.color_off == old(self).color_off,
                    self.cells@ == sr_partial(g0, w, h, i as int, t as int),
                decreases t,
            {
                t -= 1;
                let k = i * 128 + t;
                let val = if t < 4 {
                    false
                } else {
                    self.cells[k - 4]
                };
                self.cells.set(k, val);
                proof {
                    lemma_rc(i as int, t as int);
                    if t >= 4 {
                        lemma_rc(i as int, t as int - 4);
                    }
                    assert forall|k2: int| 0 <= k2 < 8192 implies self.cells@[k2]
                        == sr_partial(g0, w, h, i as int, t as int)[k2] by {
                        lemma_cell(k2);
                    }
                    assert(self.cells@ =~= sr_partial(g0, w, h, i as int, t as int));
                }
            }
            i += 1;
            proof {
                assert(self.cells@ =~= sr_partial(g0, w, h, i as int, w));
            }
        }
        proof {
            assert(self.cells@ =~= scroll_right_spec(g0, w, h));
        }
    }

    /// Scrolls the active window 4 pixels left; the vacated rightmost
    /// columns are cleared, cells outside the window keep their state.
    pub fn scroll_left(&mut self)
        requires
            old(self).wf(),
        ensures
            final(self).wf(),
            final(self).cells@ == scroll_left_spec(
                old(self).cells@,
                old(self).width as int,
                old(self).height as int,
            ),
            final(self).width == old(self).width,
            final(self).height == old(self).height,
            final(self).color_on == old(self).color_on,
            final(self).color_off == old(self).color_off,
    {
        let ghost g0 = old(self).cells@;
        let ghost w = old(self).width as int;
        let ghost h = old(self).height as int;
        proof {
            assert(g0 =~= sl_partial(g0, w, h, 0, 0));
        }
        let mut i: usize = 0;
        while i < self.height
            invariant
                self.wf(),
                g0 == old(self).cells@,
                w == old(self).width as int,
                h == old(self).height as int,
                i <= self.height,
                self.width == old(self).width,
                self.height == old(self).height,
                self.color_on == old(self).color_on,
                self.color_off == old(self).color_off,
                self.cells@ == sl_partial(g0, w, h, i as int, 0),
            decreases self.height - i,
        {
            let mut t: usize = 0;
            while t < self.width
                invariant
                    t <= self.width,
                    self.wf(),
                    g0 == old(self).cells@,
                    w == old(self).width as int,
                    h == old(self).height as int,
                    i < self.height,
                    self.width == old(self).width,
                    self.height == old(self).height,
                    self.color_on == old(self).color_on,
                    self.color_off == old(self).color_off,
                    self.cells@ == sl_partial(g0, w, h, i as int, t as int),
                decreases self.width - t,
            {
                let k = i * 128 + t;
                let val = if t >= self.width - 4 {
                    false
                } else {
                    self.cells[k + 4]
                };
                self.cells.set(k, val);
                t += 1;
                proof {
                    lemma_rc(i as int, t as int - 1);
                    if t as int - 1 < w - 4 {
                        lemma_rc(i as int, t as int + 3);
                    }
                    assert forall|k2: int| 0 <= k2 < 8192 implies self.cells@[k2]
                        == sl_partial(g0, w, h, i as int, t as int)[k2] by {
                        lemma_cell(k2);
                    }
                    assert(self.cells@ =~= sl_partial(g0, w, h, i as int, t as int));
                }
            }
            i += 1;
            proof {
                assert(self.cells@ =~= sl_partial(g0, w, h, i as int, 0));
            }
        }
        proof {
            assert(self.cells@ =~= scroll_left_spec(g0, w, h));
        }
    }

    /// Scrolls the active window n pixels down; the vacated topmost
    /// rows are cleared, cells outside the window keep their state.
    pub fn scroll_down(&mut self, n: usize)
        requires
            old(self).wf(),
            n < 16,
        ensures
            final(self).wf(),
            final(self).cells@ == scroll_down_spec(
                old(self).cells@,
                old(self).width as int,
                old(self).height as int,
                n as int,
            ),
            final(self).width == old(self).width,
            final(self).height == old(self).height,
            final(self).color_on == old(self).color_on,
            final(self).color_off == old(self).color_off,
    {
        let ghost g0 = old(self).cells@;
        let ghost w = old(self).width as int;
        let ghost h = old(self).height as int;
        proof {
            assert(g0 =~= sd_partial(g0, w, h, n as int, 0, h));
        }
        let mut t: usize = 0;
        while t < self.width
            invariant
                self.wf(),
                g0 == old(self).cells@,
                w == old(self).width as int,
                h == old(self).height as int,
                t <= self.width,
                n < 16,
                self.width == old(self).width,
                self.height == old(self).height,
                self.color_on == old(self).color_on,
                self.color_off == old(self).color_off,
                self.cells@ == sd_partial(g0, w, h, n as int, t as int, h),
            decreases self.width - t,
        {
            let mut i: usize = self.height;
            while i > 0
                invariant
                    self.wf(),
                    g0 == old(self).cells@,
                    w == old(self).width as int,
                    h == old(self).height as int,
                    i <= self.height,
                    t < self.width,
                    n < 16,
                    self.width == old(self).width,
                    self.height == old(self).height,
                    self.color_on == old(self).color_on,
                    self.color_off == old(self).color_off,
                    self.cells@ == sd_partial(g0, w, h, n as int, t as int, i as int),
                decreases i,
            {
                i -= 1;
                let k = i * 128 + t;
                let val = if i < n {
                    false
                } else {
                    self.cells[k - 128 * n]
                };
                self.cells.set(k, val);
                proof {
                    lemma_rc(i as int, t as int);
                    if i >= n {
                        lemma_rc(i as int - n as int, t as int);
                    }
                    assert forall|k2: int| 0 <= k2 < 8192 implies self.cells@[k2]
                        == sd_partial(g0, w, h, n as int, t as int, i as int)[k2] by {
                        lemma_cell(k2);
                    }
                    assert(self.cells@ =~= sd_partial(g0, w, h, n as int, t as int, i as int));
                }
            }
            t += 1;
            proof {
                assert(self.cells@ =~= sd_partial(g0, w, h, n as int, t as int, h));
            }
        }
        proof {
            assert(self.cells@ =~= scroll_down_spec(g0, w, h, n as int));
        }
    }
}

} // verus!
