//! The grid engine: cell storage, neighbor counting with hard-edge clamping,
//! the fixed survival/birth rule, and the seeding interface.
//!
//! The mathematical model of a grid is a `Seq<bool>` of length
//! `width * height`, addressed row-major as `x + width * y`, together with
//! the two dimensions.  All contracts are stated over that model.

use vstd::prelude::*;
use vstd::arithmetic::div_mod::lemma_fundamental_div_mod_converse;

use fixedbitset::FixedBitSet;

use crate::bitset::bitset_bits;
use crate::bitset::bitset_contains;
use crate::bitset::bitset_set;
use crate::bitset::bitset_toggle;
use crate::bitset::bitset_with_capacity;

verus! {

/// The survival/birth rule: a cell is alive in the next generation exactly
/// when it has three live neighbors, or it is alive and has two.
pub open spec fn rule(alive: bool, neighbors: int) -> bool {
    neighbors == 3 || (alive && neighbors == 2)
}

/// 1 when `(x, y)` lies inside the `w` x `h` rectangle and holds a live
/// cell, 0 otherwise.  Positions outside the rectangle never count.
pub open spec fn live_at(bits: Seq<bool>, w: int, h: int, x: int, y: int) -> int {
    if 0 <= x < w && 0 <= y < h && bits[x + w * y] {
        1
    } else {
        0
    }
}

/// The number of live cells among the up-to-8 positions adjacent to
/// `(x, y)`, counting only positions inside the rectangle.
pub open spec fn neighbors_of(bits: Seq<bool>, w: int, h: int, x: int, y: int) -> int {
    live_at(bits, w, h, x - 1, y - 1) + live_at(bits, w, h, x, y - 1) + live_at(
        bits,
        w,
        h,
        x + 1,
        y - 1,
    ) + live_at(bits, w, h, x - 1, y) + live_at(bits, w, h, x + 1, y) + live_at(
        bits,
        w,
        h,
        x - 1,
        y + 1,
    ) + live_at(bits, w, h, x, y + 1) + live_at(bits, w, h, x + 1, y + 1)
}

/// One whole generation: every cell's next state is the rule applied to its
/// current state and its current neighbor count.
pub open spec fn next_bits_of(bits: Seq<bool>, w: int, h: int) -> Seq<bool> {
    Seq::new(
        (w * h) as nat,
        |i: int| rule(bits[i], neighbors_of(bits, w, h, i % w, i / w)),
    )
}

/// The result of setting every in-bounds coordinate of `coords` to
/// `enabled`, in order; out-of-bounds coordinates are skipped.
pub open spec fn seeded(
    bits: Seq<bool>,
    w: int,
    h: int,
    coords: Seq<(usize, usize)>,
    enabled: bool,
) -> Seq<bool>
    decreases coords.len(),
{
    if coords.len() == 0 {
        bits
    } else {
        let prev = seeded(bits, w, h, coords.drop_last(), enabled);
        let c = coords.last();
        if (c.0 as int) < w && (c.1 as int) < h {
            prev.update((c.0 as int) + w * (c.1 as int), enabled)
        } else {
            prev
        }
    }
}

/// The result of writing every in-bounds entry of `cells`, each with its own
/// value, in order; out-of-bounds entries are skipped.
pub open spec fn stamped(
    bits: Seq<bool>,
    w: int,
    h: int,
    cells: Seq<(usize, usize, bool)>,
) -> Seq<bool>
    decreases cells.len(),
{
    if cells.len() == 0 {
        bits
    } else {
        let prev = stamped(bits, w, h, cells.drop_last());
        let c = cells.last();
        if (c.0 as int) < w && (c.1 as int) < h {
            prev.update((c.0 as int) + w * (c.1 as int), c.2)
        } else {
            prev
        }
    }
}

/// A named seed pattern, stamped onto the grid relative to an anchor cell.
#[derive(Clone, Copy, Debug)]
pub enum Pattern {
    Glider,
    Pulsar,
}

/// The cell writes a pattern makes around the anchor `(x, y)`: a 3x3
/// stamp for the glider; the pulsar is not yet drawn and writes nothing.
pub open spec fn pattern_cells(pattern: Pattern, x: usize, y: usize) -> Seq<(usize, usize, bool)> {
    match pattern {
        Pattern::Glider => seq![
            ((x - 1) as usize, (y - 1) as usize, false),
            (x, (y - 1) as usize, true),
            ((x + 1) as usize, (y - 1) as usize, false),
            ((x - 1) as usize, y, false),
            (x, y, false),
            ((x + 1) as usize, y, true),
            ((x - 1) as usize, (y + 1) as usize, true),
            (x, (y + 1) as usize, true),
            ((x + 1) as usize, (y + 1) as usize, true),
        ],
        Pattern::Pulsar => Seq::empty(),
    }
}

/// A `width` x `height` rectangle of cells with hard edges, stored one bit
/// per cell, together with the number of generations elapsed.
pub struct State {
    pub grid: FixedBitSet,
    pub width: usize,
    pub height: usize,
    pub generation: u32,
}

impl State {
    /// The grid contents as a boolean sequence of length `width * height`.
    pub open spec fn bits(self) -> Seq<bool> {
        bitset_bits(self.grid)
    }

    /// The cell count, `width * height`.
    pub open spec fn area(self) -> int {
        self.width * self.height
    }

    /// Well-formedness: the store holds exactly one bit per cell, and the
    /// cell count is addressable.
    pub open spec fn wf(self) -> bool {
        self.bits().len() == self.area() && self.area() <= usize::MAX
    }

    /// Whether `(x, y)` is a cell of this grid.
    pub open spec fn in_bounds(self, x: int, y: int) -> bool {
        0 <= x < self.width && 0 <= y < self.height
    }

    /// The linear index of `(x, y)` under the row-major flattening.
    pub open spec fn idx_of(self, x: int, y: int) -> int {
        x + self.width * y
    }

    /// The state of the cell at `(x, y)`.
    pub open spec fn cell(self, x: int, y: int) -> bool {
        self.bits()[self.idx_of(x, y)]
    }

    /// The neighbor count of `(x, y)` in this grid's model.
    pub open spec fn neighbors(self, x: int, y: int) -> int {
        neighbors_of(self.bits(), self.width as int, self.height as int, x, y)
    }

    /// Constructs an all-dead grid of the given dimensions at generation 0.
    pub fn new(width: usize, height: usize) -> (s: State)
        requires
            width * height <= usize::MAX,
        ensures
            s.wf(),
            s.width == width,
            s.height == height,
            s.generation == 0,
            s.bits().len() == width * height,
            forall|i: int| 0 <= i < width * height ==> !s.bits()[i],
    {
        let grid = bitset_with_capacity(width * height);
        State { grid, width, height, generation: 0 }
    }

    /// Fallible construction: a grid exactly when the requested cell count
    /// is addressable, `None` — and no partial grid — when `width * height`
    /// overflows the index type.
    pub fn try_new(width: usize, height: usize) -> (r: Option<State>)
        ensures
            r is Some <==> width * height <= usize::MAX,
            r is Some ==> {
                let s = r.unwrap();
                &&& s.wf()
                &&& s.width == width
                &&& s.height == height
                &&& s.generation == 0
                &&& s.bits().len() == width * height
                &&& forall|i: int| 0 <= i < width * height ==> !s.bits()[i]
            },
    {
        match width.checked_mul(height) {
            Some(_) => Some(State::new(width, height)),
            None => None,
        }
    }

    /// Flattens `(x, y)` to its linear index.
    fn get_index(&self, x: usize, y: usize) -> (r: usize)
        requires
            self.wf(),
            x < self.width,
            y < self.height,
        ensures
            r == self.idx_of(x as int, y as int),
            r < self.area(),
    {
        proof {
            assert(x + self.width * y < self.width * self.height) by (nonlinear_arith)
                requires
                    0 <= x < self.width,
                    0 <= y < self.height,
            ;
        }
        x + self.width * y
    }

    /// Recovers `(x, y)` from a linear index.
    fn get_coordinates(&self, idx: usize) -> (r: (usize, usize))
        requires
            self.wf(),
            self.width > 0,
            idx < self.area(),
        ensures
            r.0 < self.width,
            r.1 < self.height,
            r.0 == (idx as int) % (self.width as int),
            r.1 == (idx as int) / (self.width as int),
            self.idx_of(r.0 as int, r.1 as int) == idx,
    {
        proof {
            assert((idx as int) % (self.width as int) < self.width && (idx as int) / (
            self.width as int) < self.height && (idx as int) % (self.width as int) + self.width * (
            (idx as int) / (self.width as int)) == idx) by (nonlinear_arith)
                requires
                    0 < self.width,
                    0 <= idx < self.width * self.height,
            ;
        }
        (idx % self.width, idx / self.width)
    }

    /// Reads one cell through its linear index.
    fn cell_at(&self, x: usize, y: usize) -> (r: bool)
        requires
            self.wf(),
            x < self.width,
            y < self.height,
        ensures
            r == self.cell(x as int, y as int),
    {
        let idx = self.get_index(x, y);
        bitset_contains(&self.grid, idx)
    }

    /// Returns the state of the cell at `(x, y)`.
    pub fn is_alive(&self, x: usize, y: usize) -> (r: bool)
        requires
            self.wf(),
            x < self.width,
            y < self.height,
        ensures
            r == self.cell(x as int, y as int),
    {
        self.cell_at(x, y)
    }

    /// Counts the live cells among the up-to-8 neighbors of `(x, y)`,
    /// never looking past the grid's hard edges.
    pub fn neighbor_count(&self, x: usize, y: usize) -> (r: u8)
        requires
            self.wf(),
            x < self.width,
            y < self.height,
        ensures
            r == self.neighbors(x as int, y as int),
            r <= 8,
    {
        let mut neighbors: u8 = 0;
        // left column
        if x > 0 {
            if y > 0 {
                if self.cell_at(x - 1, y - 1) {
                    neighbors += 1;
                }
            }
            if self.cell_at(x - 1, y) {
                neighbors += 1;
            }
            if y < self.height - 1 {
                if self.cell_at(x - 1, y + 1) {
                    neighbors += 1;
                }
            }
        }
        // same column, above and below
        if y > 0 {
            if self.cell_at(x, y - 1) {
                neighbors += 1;
            }
        }
        if y < self.height - 1 {
            if self.cell_at(x, y + 1) {
                neighbors += 1;
            }
        }
        // right column
        if x < self.width - 1 {
            if y > 0 {
                if self.cell_at(x + 1, y - 1) {
                    neighbors += 1;
                }
            }
            if self.cell_at(x + 1, y) {
                neighbors += 1;
            }
            if y < self.height - 1 {
                if self.cell_at(x + 1, y + 1) {
                    neighbors += 1;
                }
            }
        }
        neighbors
    }

    /// Advances the grid by exactly one generation: every cell's next state
    /// is computed from the frozen current grid, then the grid is replaced
    /// whole and the generation counter increments by one.
    pub fn next(&mut self)
        requires
            old(self).wf(),
            old(self).generation < u32::MAX,
        ensures
            final(self).wf(),
            final(self).width == old(self).width,
            final(self).height == old(self).height,
            final(self).generation == old(self).generation + 1,
            final(self).bits() == next_bits_of(
                old(self).bits(),
                old(self).width as int,
                old(self).height as int,
            ),
            forall|x: int, y: int|
                old(self).in_bounds(x, y) ==> final(self).cell(x, y) == rule(
                    old(self).cell(x, y),
                    old(self).neighbors(x, y),
                ),
    {
        let ghost pre = *self;
        let n = self.width * self.height;
        let mut new_grid = bitset_with_capacity(n);
        let mut idx: usize = 0;
        while idx < n
            invariant
                *self == pre,
                pre.wf(),
                n == pre.area(),
                idx <= n,
                bitset_bits(new_grid).len() == n,
                forall|j: int|
                    0 <= j < idx ==> bitset_bits(new_grid)[j] == next_bits_of(
                        pre.bits(),
                        pre.width as int,
                        pre.height as int,
                    )[j],
            decreases n - idx,
        {
            proof {
                assert(pre.width > 0) by (nonlinear_arith)
                    requires
                        idx < n,
                        n == pre.width * pre.height,
                        0 <= idx,
                ;
            }
            let xy = self.get_coordinates(idx);
            let x: usize = xy.0;
            let y: usize = xy.1;
            let count = self.neighbor_count(x, y);
            let alive = self.cell_at(x, y);
            let live_next = match (alive, count) {
                (true, 2) | (true, 3) | (false, 3) => true,
                _ => false,
            };
            bitset_set(&mut new_grid, idx, live_next);
            proof {
                assert(live_next == rule(pre.bits()[idx as int], pre.neighbors(x as int, y as int)));
            }
            idx += 1;
        }
        self.grid = new_grid;
        self.generation = self.generation + 1;
        proof {
            assert(self.bits() =~= next_bits_of(pre.bits(), pre.width as int, pre.height as int));
            assert forall|x: int, y: int| pre.in_bounds(x, y) implies self.cell(x, y) == rule(
                pre.cell(x, y),
                pre.neighbors(x, y),
            ) by {
                lemma_idx_coords(pre, x, y);
            }
        }
    }

    /// Flips the state of the single cell at `(row, column)`; every other
    /// cell, the dimensions and the generation counter are untouched.
    pub fn toggle_cell(&mut self, row: usize, column: usize)
        requires
            old(self).wf(),
            row < old(self).width,
            column < old(self).height,
        ensures
            final(self).wf(),
            final(self).width == old(self).width,
            final(self).height == old(self).height,
            final(self).generation == old(self).generation,
            final(self).bits() == old(self).bits().update(
                old(self).idx_of(row as int, column as int),
                !old(self).cell(row as int, column as int),
            ),
            final(self).cell(row as int, column as int) == !old(self).cell(
                row as int,
                column as int,
            ),
            forall|x: int, y: int|
                old(self).in_bounds(x, y) && !(x == row && y == column) ==> final(self).cell(x, y)
                    == old(self).cell(x, y),
    {
        let ghost pre = *self;
        let idx = self.get_index(row, column);
        bitset_toggle(&mut self.grid, idx);
        proof {
            lemma_idx_coords(pre, row as int, column as int);
            assert forall|x: int, y: int|
                pre.in_bounds(x, y) && !(x == row && y == column) implies self.cell(x, y)
                == pre.cell(x, y) by {
                lemma_idx_coords(pre, x, y);
            }
        }
    }

    /// Changes the width, reallocating an all-dead store of the new size;
    /// the height and the generation counter are kept.
    pub fn set_width(&mut self, width: usize)
        requires
            old(self).wf(),
            width * old(self).height <= usize::MAX,
        ensures
            final(self).wf(),
            final(self).width == width,
            final(self).height == old(self).height,
            final(self).generation == old(self).generation,
            final(self).bits().len() == width * old(self).height,
            forall|i: int| 0 <= i < width * old(self).height ==> !final(self).bits()[i],
    {
        self.width = width;
        self.grid = bitset_with_capacity(width * self.height);
    }

    /// Changes the height, reallocating an all-dead store of the new size;
    /// the width and the generation counter are kept.
    pub fn set_height(&mut self, height: usize)
        requires
            old(self).wf(),
            old(self).width * height <= usize::MAX,
        ensures
            final(self).wf(),
            final(self).width == old(self).width,
            final(self).height == height,
            final(self).generation == old(self).generation,
            final(self).bits().len() == old(self).width * height,
            forall|i: int| 0 <= i < old(self).width * height ==> !final(self).bits()[i],
    {
        self.height = height;
        self.grid = bitset_with_capacity(self.width * height);
    }

    /// Sets every in-bounds coordinate of the batch to `enabled`, in order;
    /// out-of-bounds coordinates are silently skipped, so a pattern placed
    /// near an edge is clipped rather than rejected.
    pub fn set_cells(&mut self, cells: &[(usize, usize)], enabled: bool)
        requires
            old(self).wf(),
        ensures
            final(self).wf(),
            final(self).width == old(self).width,
            final(self).height == old(self).height,
            final(self).generation == old(self).generation,
            final(self).bits() == seeded(
                old(self).bits(),
                old(self).width as int,
                old(self).height as int,
                cells@,
                enabled,
            ),
    {
        let ghost pre = *self;
        let len = cells.len();
        let mut i: usize = 0;
        while i < len
            invariant
                pre.wf(),
                self.wf(),
                self.width == pre.width,
                self.height == pre.height,
                self.generation == pre.generation,
                i <= len,
                len == cells@.len(),
                self.bits() == seeded(
                    pre.bits(),
                    pre.width as int,
                    pre.height as int,
                    cells@.take(i as int),
                    enabled,
                ),
            decreases len - i,
        {
            let c = cells[i];
            if c.0 < self.width && c.1 < self.height {
                let idx = self.get_index(c.0, c.1);
                bitset_set(&mut self.grid, idx, enabled);
            }
            proof {
                assert(cells@.take(i + 1).drop_last() =~= cells@.take(i as int));
                assert(cells@.take(i + 1).last() == cells@[i as int]);
            }
            i += 1;
        }
        proof {
            assert(cells@.take(len as int) =~= cells@);
        }
    }

    /// Writes every in-bounds entry of the batch, each with its own value,
    /// in order; out-of-bounds entries are silently skipped.
    pub fn set_pattern(&mut self, cells: Vec<(usize, usize, bool)>)
        requires
            old(self).wf(),
        ensures
            final(self).wf(),
            final(self).width == old(self).width,
            final(self).height == old(self).height,
            final(self).generation == old(self).generation,
            final(self).bits() == stamped(
                old(self).bits(),
                old(self).width as int,
                old(self).height as int,
                cells@,
            ),
    {
        let ghost pre = *self;
        let len = cells.len();
        let mut i: usize = 0;
        while i < len
            invariant
                pre.wf(),
                self.wf(),
                self.width == pre.width,
                self.height == pre.height,
                self.generation == pre.generation,
                i <= len,
                len == cells@.len(),
                self.bits() == stamped(
                    pre.bits(),
                    pre.width as int,
                    pre.height as int,
                    cells@.take(i as int),
                ),
            decreases len - i,
        {
            let c = cells[i];
            if c.0 < self.width && c.1 < self.height {
                let idx = self.get_index(c.0, c.1);
                bitset_set(&mut self.grid, idx, c.2);
            }
            proof {
                assert(cells@.take(i + 1).drop_last() =~= cells@.take(i as int));
                assert(cells@.take(i + 1).last() == cells@[i as int]);
            }
            i += 1;
        }
        proof {
            assert(cells@.take(len as int) =~= cells@);
        }
    }

    /// Stamps a named pattern around the anchor `(row, column)` through the
    /// tolerant batch write.  Only the glider's stamp does offset
    /// arithmetic, so only it needs the anchor away from the ends.
    pub fn add_pattern(&mut self, row: usize, column: usize, pattern: Pattern)
        requires
            old(self).wf(),
            pattern is Glider ==> 1 <= row < usize::MAX,
            pattern is Glider ==> 1 <= column < usize::MAX,
        ensures
            final(self).wf(),
            final(self).width == old(self).width,
            final(self).height == old(self).height,
            final(self).generation == old(self).generation,
            final(self).bits() == stamped(
                old(self).bits(),
                old(self).width as int,
                old(self).height as int,
                pattern_cells(pattern, row, column),
            ),
    {
        self.set_pattern(Pattern::cells(pattern, row, column))
    }

    /// A read-only snapshot of the whole grid, one boolean per cell in
    /// linear (row-major) order.
    pub fn get_cells(&self) -> (r: Vec<bool>)
        requires
            self.wf(),
        ensures
            r@ == self.bits(),
    {
        let n = self.width * self.height;
        let mut out: Vec<bool> = Vec::new();
        let mut i: usize = 0;
        while i < n
            invariant
                self.wf(),
                n == self.area(),
                i <= n,
                out@.len() == i,
                forall|j: int| 0 <= j < i ==> out@[j] == self.bits()[j],
            decreases n - i,
        {
            out.push(bitset_contains(&self.grid, i));
            i += 1;
        }
        proof {
            assert(out@ =~= self.bits());
        }
        out
    }

    /// The same snapshot, under the name the display path uses.
    pub fn cells(&self) -> (r: Vec<bool>)
        requires
            self.wf(),
        ensures
            r@ == self.bits(),
    {
        self.get_cells()
    }
}

impl Pattern {
    /// The batch of cell writes that stamps `pattern` around the anchor
    /// `(x, y)`.  The glider's 3x3 stamp reaches one cell to each side of
    /// the anchor, so its anchor must stay away from the ends of `usize`;
    /// the pulsar stamps nothing and accepts any anchor.
    pub fn cells(pattern: Pattern, x: usize, y: usize) -> (r: Vec<(usize, usize, bool)>)
        requires
            pattern is Glider ==> 1 <= x < usize::MAX,
            pattern is Glider ==> 1 <= y < usize::MAX,
        ensures
            r@ == pattern_cells(pattern, x, y),
    {
        match pattern {
            Pattern::Glider => {
                let v: Vec<(usize, usize, bool)> = vec![
                    (x - 1, y - 1, false),
                    (x, y - 1, true),
                    (x + 1, y - 1, false),
                    (x - 1, y, false),
                    (x, y, false),
                    (x + 1, y, true),
                    (x - 1, y + 1, true),
                    (x, y + 1, true),
                    (x + 1, y + 1, true),
                ];
                proof {
                    assert(v@ =~= pattern_cells(pattern, x, y));
                }
                v
            },
            Pattern::Pulsar => {
                let v: Vec<(usize, usize, bool)> = Vec::new();
                proof {
                    assert(v@ =~= pattern_cells(pattern, x, y));
                }
                v
            },
        }
    }
}

/// The flattening is a bijection on the rectangle: the linear index of an
/// in-bounds `(x, y)` divides back into `x` and `y`, and lies below the area.
pub proof fn lemma_idx_coords(s: State, x: int, y: int)
    requires
        s.in_bounds(x, y),
    ensures
        s.idx_of(x, y) % (s.width as int) == x,
        s.idx_of(x, y) / (s.width as int) == y,
        0 <= s.idx_of(x, y) < s.area(),
{
    assert(s.idx_of(x, y) == y * (s.width as int) + x) by (nonlinear_arith);
    lemma_fundamental_div_mod_converse(s.idx_of(x, y), s.width as int, y, x);
    assert(x + s.width * y < s.width * s.height) by (nonlinear_arith)
        requires
            0 <= x < s.width,
            0 <= y < s.height,
    ;
}

} // verus!
