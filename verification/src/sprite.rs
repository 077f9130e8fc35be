//! Sprite drawing, cell by cell.
//!
//! A sprite is a block of memory bytes XORed bit by bit onto the
//! display window. Because a sprite spans at most 16 columns and 16
//! rows while the window spans at least 64 and 32, no two sprite bits
//! land on the same cell, even when coordinates wrap; the final grid
//! and the collision flag therefore have a direct cell-wise statement,
//! which is what the drawing loop is proved against.

use vstd::prelude::*;
use vstd::arithmetic::div_mod::{
    lemma_fundamental_div_mod,
    lemma_fundamental_div_mod_converse_div,
    lemma_fundamental_div_mod_converse_mod,
};
use crate::display::wrap_coord;

verus! {

/// Everything one sprite draw depends on: the memory image, the
/// address register, the origin taken from two registers, the height
/// nibble (zero meaning the fixed 16 x 16 sprite), the active window
/// and the wrap quirk.
pub struct SpriteDraw {
    /// The memory image the sprite rows are read from.
    pub mem: Seq<u8>,
    /// The address register: where the sprite bytes start.
    pub i_reg: int,
    /// Column of the sprite origin.
    pub x0: int,
    /// Row of the sprite origin.
    pub y0: int,
    /// The height nibble of the opcode.
    pub n: u8,
    /// Active window width.
    pub w: int,
    /// Active window height.
    pub h: int,
    /// Whether out-of-window coordinates wrap (true) or clip (false).
    pub wrap: bool,
}

impl SpriteDraw {
    /// Columns of the sprite: 16 for the fixed large sprite, 8 otherwise.
    pub open spec fn cols(&self) -> int {
        if self.n == 0 {
            16
        } else {
            8
        }
    }

    /// Rows of the sprite.
    pub open spec fn rows(&self) -> int {
        if self.n == 0 {
            16
        } else {
            self.n as int
        }
    }

    /// Memory bytes the sprite occupies.
    pub open spec fn bytes(&self) -> int {
        if self.n == 0 {
            32
        } else {
            self.n as int
        }
    }

    /// The draw stays inside memory and the window is one of the two
    /// supported resolutions.
    pub open spec fn wf(&self) -> bool {
        &&& self.mem.len() == 4096
        &&& 0 <= self.i_reg
        &&& self.i_reg + self.bytes() <= 4096
        &&& 0 <= self.x0 < 256
        &&& 0 <= self.y0 < 256
        &&& self.n < 16
        &&& ((self.w == 64 && self.h == 32) || (self.w == 128 && self.h == 64))
    }

    /// The sprite bit at row i, column t: bit 7 - (t % 8) of the
    /// sprite byte at row i, byte t / 8 (rows are stored big-endian).
    pub open spec fn px(&self, i: int, t: int) -> bool {
        let byte = self.mem[self.i_reg + i * (self.cols() / 8) + t / 8];
        (byte >> ((7 - (t % 8)) as u8)) & 1 == 1
    }

    /// The sprite column that lands on window column (or row) `pos` of
    /// an axis with extent `dim`, counted from `origin`.
    pub open spec fn src(&self, pos: int, origin: int, dim: int) -> int {
        if self.wrap {
            (pos - origin) % dim
        } else {
            pos - origin
        }
    }

    /// Which sprite column targets cell k (meaningful when `hit`).
    pub open spec fn hit_t(&self, k: int) -> int {
        self.src(k % 128, self.x0, self.w)
    }

    /// Which sprite row targets cell k (meaningful when `hit`).
    pub open spec fn hit_i(&self, k: int) -> int {
        self.src(k / 128, self.y0, self.h)
    }

    /// Whether any sprite position lands on cell k: the cell is inside
    /// the window and some in-range sprite row and column map to it.
    pub open spec fn hit(&self, k: int) -> bool {
        let c = k % 128;
        let r = k / 128;
        &&& c < self.w
        &&& r < self.h
        &&& 0 <= self.hit_t(k) < self.cols()
        &&& 0 <= self.hit_i(k) < self.rows()
    }

    /// Whether the draw toggles cell k: a one bit of the sprite lands
    /// there.
    pub open spec fn flips(&self, k: int) -> bool {
        self.hit(k) && self.px(self.hit_i(k), self.hit_t(k))
    }

    /// Whether the sprite position that targets cell k comes before
    /// row i, column t in drawing order.
    pub open spec fn lex_before(&self, k: int, i: int, t: int) -> bool {
        self.hit_i(k) < i || (self.hit_i(k) == i && self.hit_t(k) < t)
    }

    /// The grid after the sprite positions before row i, column t have
    /// been applied.
    pub open spec fn drawn_partial(&self, g: Seq<bool>, i: int, t: int) -> Seq<bool> {
        Seq::new(8192, |k: int| if self.flips(k) && self.lex_before(k, i, t) {
            !g[k]
        } else {
            g[k]
        })
    }

    /// Whether a sprite position before row i, column t lands a one
    /// bit on a cell that was set.
    pub open spec fn collides_partial(&self, g: Seq<bool>, i: int, t: int) -> bool {
        exists|k: int| 0 <= k < 8192 && self.flips(k) && #[trigger] self.lex_before(k, i, t) && g[k]
    }

    /// The grid after the whole draw: every cell a one bit lands on is
    /// toggled, every other cell keeps its state.
    pub open spec fn drawn(&self, g: Seq<bool>) -> Seq<bool> {
        Seq::new(8192, |k: int| if self.flips(k) {
            !g[k]
        } else {
            g[k]
        })
    }

    /// Whether the draw collides: some one bit lands on a set cell.
    pub open spec fn collides(&self, g: Seq<bool>) -> bool {
        exists|k: int| 0 <= k < 8192 && #[trigger] self.flips(k) && g[k]
    }

    /// The cell that sprite row i, column t lands on, if any.
    pub open spec fn target(&self, i: int, t: int) -> Option<int> {
        match (wrap_coord(self.x0 + t, self.w, self.wrap), wrap_coord(self.y0 + i, self.h, self.wrap)) {
            (Option::Some(c), Option::Some(r)) => Option::Some(r * 128 + c),
            _ => Option::None,
        }
    }
}

/// Wrapping a coordinate and asking which offset reached it gives the
/// offset back.
proof fn lemma_wrap_src(origin: int, off: int, dim: int)
    requires
        0 <= origin,
        0 <= off < dim,
    ensures
        ((origin + off) % dim - origin) % dim == off,
{
    let dpos = origin + off;
    let q = dpos / dim;
    lemma_fundamental_div_mod(dpos, dim);
    assert(dpos % dim - origin == (-q) * dim + off) by (nonlinear_arith)
        requires
            dpos == dim * q + dpos % dim,
            dpos == origin + off,
    ;
    lemma_fundamental_div_mod_converse_mod(dpos % dim - origin, dim, -q, off);
}

/// Two window positions reached from the same origin by the same
/// wrapped offset are the same position.
proof fn lemma_wrap_unique(origin: int, dim: int, c1: int, c2: int)
    requires
        0 < dim,
        0 <= c1 < dim,
        0 <= c2 < dim,
        (c1 - origin) % dim == (c2 - origin) % dim,
    ensures
        c1 == c2,
{
    let d1 = c1 - origin;
    let d2 = c2 - origin;
    lemma_fundamental_div_mod(d1, dim);
    lemma_fundamental_div_mod(d2, dim);
    let q1 = d1 / dim;
    let q2 = d2 / dim;
    assert(c1 - c2 == dim * (q1 - q2)) by (nonlinear_arith)
        requires
            d1 == dim * q1 + d1 % dim,
            d2 == dim * q2 + d2 % dim,
            d1 % dim == d2 % dim,
            d1 == c1 - origin,
            d2 == c2 - origin,
    ;
    assert(q1 != q2 ==> (c1 - c2 >= dim || c1 - c2 <= -dim)) by (nonlinear_arith)
        requires
            c1 - c2 == dim * (q1 - q2),
            0 < dim,
    ;
}

/// A cell index decomposes into its row and column.
proof fn lemma_cell(k: int)
    requires
        0 <= k < 8192,
    ensures
        k == 128 * (k / 128) + k % 128,
        0 <= k / 128 < 64,
        0 <= k % 128 < 128,
{
    lemma_fundamental_div_mod(k, 128);
}

/// The cell at row r, column c has index 128 * r + c.
proof fn lemma_rc(r: int, c: int)
    requires
        0 <= r,
        0 <= c < 128,
    ensures
        (128 * r + c) / 128 == r,
        (128 * r + c) % 128 == c,
{
    lemma_fundamental_div_mod_converse_div(128 * r + c, 128, r, c);
    lemma_fundamental_div_mod_converse_mod(128 * r + c, 128, r, c);
}

/// When sprite row i, column t lands on a cell, that cell is targeted
/// by exactly that sprite position and by no other; when it lands
/// nowhere, no cell is targeted by that position.
pub proof fn lemma_target(sd: SpriteDraw, i: int, t: int)
    requires
        sd.wf(),
        0 <= i < sd.rows(),
        0 <= t < sd.cols(),
    ensures
        match sd.target(i, t) {
            Option::Some(k0) => {
                &&& 0 <= k0 < 8192
                &&& k0 % 128 < sd.w
                &&& k0 / 128 < sd.h
                &&& sd.hit(k0)
                &&& sd.hit_i(k0) == i
                &&& sd.hit_t(k0) == t
                &&& forall|k2: int|
                    0 <= k2 < 8192 && sd.hit(k2) && sd.hit_i(k2) == i && #[trigger] sd.hit_t(k2)
                        == t ==> k2 == k0
            },
            Option::None => forall|k2: int|
                0 <= k2 < 8192 && sd.hit(k2) ==> !(sd.hit_i(k2) == i && #[trigger] sd.hit_t(k2)
                    == t),
        },
{
    if sd.wrap {
        lemma_wrap_src(sd.x0, t, sd.w);
        lemma_wrap_src(sd.y0, i, sd.h);
        let c = (sd.x0 + t) % sd.w;
        let r = (sd.y0 + i) % sd.h;
        if sd.x0 + t < sd.w {
            lemma_fundamental_div_mod_converse_mod(sd.x0 + t, sd.w, 0, sd.x0 + t);
        }
        if sd.y0 + i < sd.h {
            lemma_fundamental_div_mod_converse_mod(sd.y0 + i, sd.h, 0, sd.y0 + i);
        }
        let k0 = r * 128 + c;
        lemma_rc(r, c);
        assert(sd.target(i, t) == Option::Some(k0));
        assert(sd.hit_t(k0) == t);
        assert(sd.hit_i(k0) == i);
        assert forall|k2: int|
            0 <= k2 < 8192 && sd.hit(k2) && sd.hit_i(k2) == i && #[trigger] sd.hit_t(k2)
                == t implies k2 == k0 by {
            lemma_cell(k2);
            lemma_wrap_unique(sd.x0, sd.w, k2 % 128, c);
            lemma_wrap_unique(sd.y0, sd.h, k2 / 128, r);
        }
    } else {
        if sd.x0 + t < sd.w && sd.y0 + i < sd.h {
            let c = sd.x0 + t;
            let r = sd.y0 + i;
            let k0 = r * 128 + c;
            lemma_rc(r, c);
            assert(sd.target(i, t) == Option::Some(k0));
            assert forall|k2: int|
                0 <= k2 < 8192 && sd.hit(k2) && sd.hit_i(k2) == i && #[trigger] sd.hit_t(k2)
                    == t implies k2 == k0 by {
                lemma_cell(k2);
            }
        } else {
            assert(sd.target(i, t) is None);
            assert forall|k2: int|
                0 <= k2 < 8192 && sd.hit(k2) implies !(sd.hit_i(k2) == i && #[trigger] sd.hit_t(
                k2,
            ) == t) by {
                lemma_cell(k2);
            }
        }
    }
}

/// Nothing comes before the first sprite position: the partial draw at
/// row 0, column 0 is the untouched grid with no collision yet.
pub proof fn lemma_draw_init(sd: SpriteDraw, g: Seq<bool>)
    requires
        g.len() == 8192,
    ensures
        sd.drawn_partial(g, 0, 0) == g,
        !sd.collides_partial(g, 0, 0),
{
    assert(sd.drawn_partial(g, 0, 0) =~= g);
}

/// Applying one more sprite position extends the partial draw: the
/// targeted cell (still carrying its original state) is toggled by a
/// one bit, and the collision flag picks up whether that bit landed on
/// a set cell.
pub proof fn lemma_draw_step(sd: SpriteDraw, g: Seq<bool>, i: int, t: int)
    requires
        sd.wf(),
        g.len() == 8192,
        0 <= i < sd.rows(),
        0 <= t < sd.cols(),
    ensures
        match sd.target(i, t) {
            Option::Some(k0) => {
                &&& 0 <= k0 < 8192
                &&& sd.drawn_partial(g, i, t)[k0] == g[k0]
                &&& (if sd.px(i, t) {
                    sd.drawn_partial(g, i, t + 1) == sd.drawn_partial(g, i, t).update(k0, !g[k0])
                        && sd.collides_partial(g, i, t + 1) == (sd.collides_partial(g, i, t)
                        || g[k0])
                } else {
                    sd.drawn_partial(g, i, t + 1) == sd.drawn_partial(g, i, t)
                        && sd.collides_partial(g, i, t + 1) == sd.collides_partial(g, i, t)
                })
            },
            Option::None => sd.drawn_partial(g, i, t + 1) == sd.drawn_partial(g, i, t)
                && sd.collides_partial(g, i, t + 1) == sd.collides_partial(g, i, t),
        },
{
    lemma_target(sd, i, t);
    match sd.target(i, t) {
        Option::Some(k0) => {
            assert(!sd.lex_before(k0, i, t));
            assert(sd.drawn_partial(g, i, t)[k0] == g[k0]);
            if sd.px(i, t) {
                assert(sd.flips(k0));
                assert forall|k2: int| 0 <= k2 < 8192 implies #[trigger] sd.drawn_partial(g, i, t + 1)[k2]
                    == sd.drawn_partial(g, i, t).update(k0, !g[k0])[k2] by {
                    if k2 != k0 {
                        if sd.flips(k2) && sd.hit_i(k2) == i && sd.hit_t(k2) == t {
                            assert(k2 == k0);
                        }
                    }
                }
                assert(sd.drawn_partial(g, i, t + 1) =~= sd.drawn_partial(g, i, t).update(
                    k0,
                    !g[k0],
                ));
                // collision: one new position is considered, targeting k0
                if sd.collides_partial(g, i, t) {
                    let kw = choose|k: int|
                        0 <= k < 8192 && sd.flips(k) && #[trigger] sd.lex_before(k, i, t) && g[k];
                    assert(sd.lex_before(kw, i, t + 1));
                    assert(sd.collides_partial(g, i, t + 1));
                }
                if g[k0] {
                    assert(sd.lex_before(k0, i, t + 1));
                    assert(sd.collides_partial(g, i, t + 1));
                }
                if sd.collides_partial(g, i, t + 1) {
                    let kw = choose|k: int|
                        0 <= k < 8192 && sd.flips(k) && #[trigger] sd.lex_before(k, i, t + 1)
                            && g[k];
                    if sd.lex_before(kw, i, t) {
                        assert(sd.collides_partial(g, i, t));
                    } else {
                        assert(sd.hit_i(kw) == i && sd.hit_t(kw) == t);
                        assert(kw == k0);
                    }
                }
            } else {
                assert forall|k2: int| 0 <= k2 < 8192 implies #[trigger] sd.drawn_partial(g, i, t + 1)[k2]
                    == sd.drawn_partial(g, i, t)[k2] by {
                    if sd.flips(k2) && sd.hit_i(k2) == i && sd.hit_t(k2) == t {
                        assert(k2 == k0);
                        assert(sd.px(i, t));
                    }
                }
                assert(sd.drawn_partial(g, i, t + 1) =~= sd.drawn_partial(g, i, t));
                if sd.collides_partial(g, i, t) {
                    let kw = choose|k: int|
                        0 <= k < 8192 && sd.flips(k) && #[trigger] sd.lex_before(k, i, t) && g[k];
                    assert(sd.lex_before(kw, i, t + 1));
                }
                if sd.collides_partial(g, i, t + 1) {
                    let kw = choose|k: int|
                        0 <= k < 8192 && sd.flips(k) && #[trigger] sd.lex_before(k, i, t + 1)
                            && g[k];
                    if !sd.lex_before(kw, i, t) {
                        assert(sd.hit_i(kw) == i && sd.hit_t(kw) == t);
                        assert(kw == k0);
                        assert(sd.px(i, t));
                    }
                    assert(sd.collides_partial(g, i, t));
                }
            }
        },
        Option::None => {
            assert forall|k2: int| 0 <= k2 < 8192 implies #[trigger] sd.drawn_partial(g, i, t + 1)[k2]
                == sd.drawn_partial(g, i, t)[k2] by {
                if sd.flips(k2) && sd.hit_i(k2) == i && sd.hit_t(k2) == t {
                    assert(false);
                }
            }
            assert(sd.drawn_partial(g, i, t + 1) =~= sd.drawn_partial(g, i, t));
            if sd.collides_partial(g, i, t) {
                let kw = choose|k: int|
                    0 <= k < 8192 && sd.flips(k) && #[trigger] sd.lex_before(k, i, t) && g[k];
                assert(sd.lex_before(kw, i, t + 1));
            }
            if sd.collides_partial(g, i, t + 1) {
                let kw = choose|k: int|
                    0 <= k < 8192 && sd.flips(k) && #[trigger] sd.lex_before(k, i, t + 1) && g[k];
                if !sd.lex_before(kw, i, t) {
                    assert(sd.hit_i(kw) == i && sd.hit_t(kw) == t);
                    assert(false);
                }
                assert(sd.collides_partial(g, i, t));
            }
        },
    }
}

/// Finishing a sprite row is the same as standing at the start of the
/// next one.
pub proof fn lemma_row_step(sd: SpriteDraw, g: Seq<bool>, i: int)
    requires
        sd.wf(),
        g.len() == 8192,
        0 <= i < sd.rows(),
    ensures
        sd.drawn_partial(g, i, sd.cols()) == sd.drawn_partial(g, i + 1, 0),
        sd.collides_partial(g, i, sd.cols()) == sd.collides_partial(g, i + 1, 0),
{
    assert forall|k: int| 0 <= k < 8192 implies (sd.flips(k) && sd.lex_before(k, i, sd.cols())) == (
    sd.flips(k) && sd.lex_before(k, i + 1, 0)) by {}
    assert(sd.drawn_partial(g, i, sd.cols()) =~= sd.drawn_partial(g, i + 1, 0));
    if sd.collides_partial(g, i, sd.cols()) {
        let kw = choose|k: int|
            0 <= k < 8192 && sd.flips(k) && #[trigger] sd.lex_before(k, i, sd.cols()) && g[k];
        assert(sd.lex_before(kw, i + 1, 0));
    }
    if sd.collides_partial(g, i + 1, 0) {
        let kw = choose|k: int|
            0 <= k < 8192 && sd.flips(k) && #[trigger] sd.lex_before(k, i + 1, 0) && g[k];
        assert(sd.lex_before(kw, i, sd.cols()));
    }
}

/// Standing past the last sprite row is the finished draw.
pub proof fn lemma_draw_done(sd: SpriteDraw, g: Seq<bool>)
    requires
        sd.wf(),
        g.len() == 8192,
    ensures
        sd.drawn_partial(g, sd.rows(), 0) == sd.drawn(g),
        sd.collides_partial(g, sd.rows(), 0) == sd.collides(g),
{
    assert(sd.drawn_partial(g, sd.rows(), 0) =~= sd.drawn(g));
    if sd.collides_partial(g, sd.rows(), 0) {
        let kw = choose|k: int|
            0 <= k < 8192 && sd.flips(k) && #[trigger] sd.lex_before(k, sd.rows(), 0) && g[k];
        assert(sd.flips(kw) && g[kw]);
    }
    if sd.collides(g) {
        let kw = choose|k: int| 0 <= k < 8192 && #[trigger] sd.flips(k) && g[k];
        assert(sd.lex_before(kw, sd.rows(), 0));
        assert(sd.collides_partial(g, sd.rows(), 0));
    }
}

} // verus!
