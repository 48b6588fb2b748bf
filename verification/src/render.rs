//! Text rendering of the grid: one glyph per cell, cells in a row separated
//! by a single space, each row closed by a line break.  A grid with no
//! columns still shows each of its rows as an empty line.  Rendering is a
//! pure function of the grid model, so its output doubles as a test oracle;
//! the lemmas at the end show the line structure and that parsing the
//! glyphs back recovers the cells exactly.

use vstd::prelude::*;
use vstd::arithmetic::div_mod::lemma_fundamental_div_mod_converse;
use vstd::string::StringExecFns;

use crate::bitset::bitset_contains;
use crate::engine::State;

verus! {

/// The glyph that renders one cell.
pub open spec fn glyph(alive: bool) -> char {
    if alive {
        '◼'
    } else {
        '◻'
    }
}

/// The character that follows the cell at linear index `i`: a line break
/// after the last cell of each row, a single space otherwise.
pub open spec fn sep(w: int, i: int) -> char {
    if i % w == w - 1 {
        '\n'
    } else {
        ' '
    }
}

/// A full rendering of a `w` x `h` grid.  Each cell contributes its glyph
/// and one following separator character, in linear (row-major) order; when
/// the grid has no columns, each of its `h` rows is still an empty line,
/// so the output is `h` line breaks.
pub open spec fn render_spec(bits: Seq<bool>, w: int, h: int) -> Seq<char> {
    if w > 0 {
        Seq::new(
            2 * bits.len(),
            |j: int|
                if j % 2 == 0 {
                    glyph(bits[j / 2])
                } else {
                    sep(w, j / 2)
                },
        )
    } else {
        Seq::new(h as nat, |j: int| '\n')
    }
}

/// Reads the alive/dead set back out of a rendering: the glyph of cell `i`
/// stands at offset `2 * i`.
pub open spec fn parse_spec(t: Seq<char>, n: nat) -> Seq<bool> {
    Seq::new(n, |i: int| t[2 * i] == '◼')
}

impl State {
    /// Renders the whole grid as text, rows top to bottom, cells left to
    /// right, a deterministic function of the grid state only.  A grid with
    /// zero width renders as one empty line per row.
    pub fn render(&self) -> (r: String)
        requires
            self.wf(),
        ensures
            r@ == render_spec(self.bits(), self.width as int, self.height as int),
    {
        let mut out = String::new();
        if self.width == 0 {
            let mut y: usize = 0;
            while y < self.height
                invariant
                    y <= self.height,
                    out@.len() == y,
                    forall|j: int| 0 <= j < y ==> out@[j] == '\n',
                decreases self.height - y,
            {
                proof {
                    reveal_strlit("\n");
                }
                out.append("\n");
                y += 1;
            }
            proof {
                assert(out@ =~= render_spec(self.bits(), self.width as int, self.height as int));
            }
        } else {
            let n = self.width * self.height;
            let mut i: usize = 0;
            while i < n
                invariant
                    self.wf(),
                    self.width > 0,
                    n == self.area(),
                    i <= n,
                    out@.len() == 2 * i,
                    forall|j: int|
                        0 <= j < 2 * i ==> out@[j] == render_spec(
                            self.bits(),
                            self.width as int,
                            self.height as int,
                        )[j],
                decreases n - i,
            {
                proof {
                    reveal_strlit("◼");
                    reveal_strlit("◻");
                    reveal_strlit(" ");
                    reveal_strlit("\n");
                }
                if bitset_contains(&self.grid, i) {
                    out.append("◼");
                } else {
                    out.append("◻");
                }
                if i % self.width == self.width - 1 {
                    out.append("\n");
                } else {
                    out.append(" ");
                }
                i += 1;
            }
            proof {
                assert(out@ =~= render_spec(self.bits(), self.width as int, self.height as int));
            }
        }
        out
    }
}

/// The character of a rendering that shows the cell `(x, y)`.
pub open spec fn glyph_at(bits: Seq<bool>, w: int, h: int, x: int, y: int) -> char {
    render_spec(bits, w, h)[2 * (x + w * y)]
}

/// The character that follows the cell `(x, y)` in a rendering.
pub open spec fn sep_at(bits: Seq<bool>, w: int, h: int, x: int, y: int) -> char {
    render_spec(bits, w, h)[2 * (x + w * y) + 1]
}

/// Law: a rendering of a `w` x `h` grid has exactly `h` lines.  Read row by
/// row, the cell glyphs of row `y` stand at the even offsets of its stretch,
/// single spaces stand between them, and one line break closes the row; a
/// grid with no columns renders as `h` line breaks, one empty line per row.
pub proof fn lemma_render_lines(bits: Seq<bool>, w: int, h: int)
    requires
        0 <= w,
        0 <= h,
        bits.len() == w * h,
    ensures
        w == 0 ==> render_spec(bits, w, h).len() == h,
        w == 0 ==> forall|j: int| 0 <= j < h ==> render_spec(bits, w, h)[j] == '\n',
        1 <= w ==> render_spec(bits, w, h).len() == 2 * w * h,
        forall|x: int, y: int|
            0 <= x < w && 0 <= y < h ==> #[trigger] glyph_at(bits, w, h, x, y) == glyph(
                bits[x + w * y],
            ),
        forall|x: int, y: int|
            0 <= x < w && 0 <= y < h ==> #[trigger] sep_at(bits, w, h, x, y) == (
            if x == w - 1 {
                '\n'
            } else {
                ' '
            }),
{
    if w >= 1 {
        assert(2 * bits.len() == 2 * w * h) by (nonlinear_arith)
            requires
                bits.len() == w * h,
        ;
    }
    assert forall|x: int, y: int| 0 <= x < w && 0 <= y < h implies #[trigger] glyph_at(
        bits,
        w,
        h,
        x,
        y,
    ) == glyph(bits[x + w * y]) by {
        lemma_render_cell_chars(bits, w, h, x, y);
    }
    assert forall|x: int, y: int| 0 <= x < w && 0 <= y < h implies #[trigger] sep_at(
        bits,
        w,
        h,
        x,
        y,
    ) == (if x == w - 1 {
        '\n'
    } else {
        ' '
    }) by {
        lemma_render_cell_chars(bits, w, h, x, y);
    }
}

/// The two characters a single in-bounds cell contributes to a rendering:
/// its glyph, then a line break at the row's end or a space within the row.
proof fn lemma_render_cell_chars(bits: Seq<bool>, w: int, h: int, x: int, y: int)
    requires
        bits.len() == w * h,
        0 <= x < w,
        0 <= y < h,
    ensures
        glyph_at(bits, w, h, x, y) == glyph(bits[x + w * y]),
        sep_at(bits, w, h, x, y) == (if x == w - 1 {
            '\n'
        } else {
            ' '
        }),
{
    assert(0 <= x + w * y < w * h) by (nonlinear_arith)
        requires
            0 <= x < w,
            0 <= y < h,
    ;
    assert(x + w * y == y * w + x) by (nonlinear_arith);
    let k = x + w * y;
    lemma_fundamental_div_mod_converse(k, w, y, x);
    lemma_fundamental_div_mod_converse(2 * k, 2, k, 0);
    lemma_fundamental_div_mod_converse(2 * k + 1, 2, k, 1);
    assert(glyph_at(bits, w, h, x, y) == glyph(bits[k]));
    assert(sep_at(bits, w, h, x, y) == sep(w, k));
}

/// Law: rendering loses nothing: parsing the glyphs of a rendering back,
/// cell by cell, recovers exactly the alive/dead set it was made from.
pub proof fn lemma_render_round_trip(bits: Seq<bool>, w: int, h: int)
    requires
        0 <= w,
        0 <= h,
        bits.len() == w * h,
    ensures
        parse_spec(render_spec(bits, w, h), bits.len()) == bits,
{
    if w == 0 {
        assert(bits.len() == 0);
    }
    assert(parse_spec(render_spec(bits, w, h), bits.len()) =~= bits);
}

} // verus!
