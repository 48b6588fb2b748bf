//! Properties of the engine that relate several operations, proved once for
//! all grids: determinism of the transition, bounds on neighbor counts,
//! tolerance of out-of-bounds seeds, and the degenerate zero-area grids.

use vstd::prelude::*;
use vstd::arithmetic::div_mod::lemma_fundamental_div_mod_converse;

use crate::engine::State;
use crate::engine::live_at;
use crate::engine::neighbors_of;
use crate::engine::next_bits_of;
use crate::engine::seeded;

verus! {

/// Law: the transition is a deterministic function of the grid model alone.
/// Two grids of the same dimensions holding the same cells step to the same
/// next cells; that each `next` call moves the generation by exactly 1 is
/// part of its own contract.
pub proof fn lemma_next_deterministic(a: State, b: State)
    requires
        a.width == b.width,
        a.height == b.height,
        a.bits() == b.bits(),
    ensures
        next_bits_of(a.bits(), a.width as int, a.height as int) == next_bits_of(
            b.bits(),
            b.width as int,
            b.height as int,
        ),
{
}

/// Law: every neighbor count lies in [0, 8]; a corner cell's in [0, 3]; any
/// other cell on an edge of the rectangle has a count in [0, 5].
pub proof fn lemma_neighbor_count_bounds(bits: Seq<bool>, w: int, h: int, x: int, y: int)
    ensures
        0 <= neighbors_of(bits, w, h, x, y) <= 8,
        (x == 0 || x == w - 1) && (y == 0 || y == h - 1) ==> neighbors_of(bits, w, h, x, y) <= 3,
        x == 0 || x == w - 1 || y == 0 || y == h - 1 ==> neighbors_of(bits, w, h, x, y) <= 5,
{
    assert(live_at(bits, w, h, x - 1, y - 1) == 0 || live_at(bits, w, h, x - 1, y - 1) == 1);
}

/// Law: batch seeding tolerates clipping.  A batch whose coordinates all lie
/// outside the rectangle changes no cell at all.
pub proof fn lemma_seeded_all_out_of_bounds(
    bits: Seq<bool>,
    w: int,
    h: int,
    coords: Seq<(usize, usize)>,
    enabled: bool,
)
    requires
        forall|i: int|
            0 <= i < coords.len() ==> (#[trigger] coords[i]).0 >= w || coords[i].1 >= h,
    ensures
        seeded(bits, w, h, coords, enabled) == bits,
    decreases coords.len(),
{
    if coords.len() > 0 {
        lemma_seeded_all_out_of_bounds(bits, w, h, coords.drop_last(), enabled);
    }
}

/// Law: batch seeding writes only the cells it names.  An in-bounds cell
/// whose coordinate the batch does not contain keeps its state.
pub proof fn lemma_seeded_untouched(
    bits: Seq<bool>,
    w: int,
    h: int,
    coords: Seq<(usize, usize)>,
    enabled: bool,
    x: int,
    y: int,
)
    requires
        bits.len() == w * h,
        0 <= x < w,
        0 <= y < h,
        forall|i: int|
            0 <= i < coords.len() ==> !((#[trigger] coords[i]).0 == x && coords[i].1 == y),
    ensures
        seeded(bits, w, h, coords, enabled).len() == bits.len(),
        seeded(bits, w, h, coords, enabled)[x + w * y] == bits[x + w * y],
    decreases coords.len(),
{
    assert(0 <= x + w * y < w * h) by (nonlinear_arith)
        requires
            0 <= x < w,
            0 <= y < h,
    ;
    if coords.len() > 0 {
        assert forall|i: int| 0 <= i < coords.len() - 1 implies #[trigger] coords.drop_last()[i]
            == coords[i] by {}
        lemma_seeded_untouched(bits, w, h, coords.drop_last(), enabled, x, y);
        let c = coords.last();
        assert(c == coords[coords.len() - 1]);
        if (c.0 as int) < w && (c.1 as int) < h {
            lemma_flat_index_injective(w, h, c.0 as int, c.1 as int, x, y);
            assert(0 <= (c.0 as int) + w * (c.1 as int) < w * h) by (nonlinear_arith)
                requires
                    0 <= (c.0 as int) < w,
                    0 <= (c.1 as int) < h,
            ;
        }
    }
}

/// Law: a grid with no cells is a fixed point of the transition: when the
/// width or the height is zero, one generation leaves the (empty) cell set
/// unchanged, while `next`'s own contract still moves the counter by 1.
pub proof fn lemma_next_zero_area(s: State)
    requires
        s.wf(),
        s.width == 0 || s.height == 0,
    ensures
        next_bits_of(s.bits(), s.width as int, s.height as int) == s.bits(),
{
    assert(s.width * s.height == 0) by (nonlinear_arith)
        requires
            s.width == 0 || s.height == 0,
    ;
    assert(next_bits_of(s.bits(), s.width as int, s.height as int) =~= s.bits());
}

/// Distinct in-bounds coordinates flatten to distinct linear indices.
proof fn lemma_flat_index_injective(w: int, h: int, x1: int, y1: int, x2: int, y2: int)
    requires
        0 <= x1 < w,
        0 <= y1 < h,
        0 <= x2 < w,
        0 <= y2 < h,
        !(x1 == x2 && y1 == y2),
    ensures
        x1 + w * y1 != x2 + w * y2,
{
    assert(x1 + w * y1 == y1 * w + x1) by (nonlinear_arith);
    assert(x2 + w * y2 == y2 * w + x2) by (nonlinear_arith);
    if x1 + w * y1 == x2 + w * y2 {
        lemma_fundamental_div_mod_converse(x1 + w * y1, w, y1, x1);
        lemma_fundamental_div_mod_converse(x2 + w * y2, w, y2, x2);
    }
}

} // verus!
