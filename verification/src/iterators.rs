//! Iterators over the index space of a grid: all positions in row-major
//! order, the neighborhood of a position, and whole rows or columns of
//! positions.
//!
//! Each iterator is a small cursor over a fixed walk. The walk itself is
//! described by a spec-level sequence of `(row, col)` pairs, so that what a
//! cursor will yield is pinned down by the construction arguments alone.
use vstd::prelude::*;
use vstd::arithmetic::div_mod::lemma_fundamental_div_mod;
use vstd::arithmetic::div_mod::lemma_fundamental_div_mod_converse;
use vstd::arithmetic::div_mod::lemma_mod_bound;

use crate::ix::BoundedIx2;

verus! {

/// True when `(row, col)` lies inside a grid of `rows` by `cols` cells.
pub open spec fn in_range(row: int, col: int, rows: int, cols: int) -> bool {
    0 <= row < rows && 0 <= col < cols
}

/// The row-major walk of a `rows` by `cols` grid, starting at `(row, col)`:
/// first the rest of the current row, then each following row in full.
pub open spec fn indices_from(row: int, col: int, rows: int, cols: int) -> Seq<(int, int)>
    decreases rows - row, cols - col,
{
    if row < 0 || col < 0 || row >= rows || col >= cols {
        Seq::empty()
    } else if col + 1 < cols {
        seq![(row, col)] + indices_from(row, col + 1, rows, cols)
    } else {
        seq![(row, col)] + indices_from(row + 1, 0, rows, cols)
    }
}

/// Every position of a `rows` by `cols` grid, in row-major order.
pub open spec fn all_indices(rows: int, cols: int) -> Seq<(int, int)> {
    indices_from(0, 0, rows, cols)
}

/// The offset of the `k`-th direction of the eight-way walk, which visits
/// the neighborhood left to right, top to bottom: northwest, north,
/// northeast, west, east, southwest, south, southeast.
pub open spec fn neighbor_offset(k: int) -> (int, int) {
    if k == 0 {
        (-1, -1)
    } else if k == 1 {
        (-1, 0)
    } else if k == 2 {
        (-1, 1)
    } else if k == 3 {
        (0, -1)
    } else if k == 4 {
        (0, 1)
    } else if k == 5 {
        (1, -1)
    } else if k == 6 {
        (1, 0)
    } else {
        (1, 1)
    }
}

/// The in-bounds neighbors of `(row, col)` in the eight-way visitation
/// order, starting at direction `k`.
pub open spec fn neighbor_items_from(row: int, col: int, rows: int, cols: int, k: int) -> Seq<
    (int, int),
>
    decreases 8 - k,
{
    if k < 0 || k >= 8 {
        Seq::empty()
    } else {
        let p = (row + neighbor_offset(k).0, col + neighbor_offset(k).1);
        let rest = neighbor_items_from(row, col, rows, cols, k + 1);
        if in_range(p.0, p.1, rows, cols) {
            seq![p] + rest
        } else {
            rest
        }
    }
}

/// All in-bounds neighbors of `(row, col)`, in the eight-way visitation
/// order.
pub open spec fn neighbor_items(row: int, col: int, rows: int, cols: int) -> Seq<(int, int)> {
    neighbor_items_from(row, col, rows, cols, 0)
}

/// The offset of the `k`-th direction of the cardinal walk, which visits
/// north, east, south, west, in that order.
pub open spec fn cardinal_offset(k: int) -> (int, int) {
    if k == 0 {
        (-1, 0)
    } else if k == 1 {
        (0, 1)
    } else if k == 2 {
        (1, 0)
    } else {
        (0, -1)
    }
}

/// The in-bounds cardinal neighbors of `(row, col)` in visitation order,
/// starting at direction `k`.
pub open spec fn cardinal_items_from(row: int, col: int, rows: int, cols: int, k: int) -> Seq<
    (int, int),
>
    decreases 4 - k,
{
    if k < 0 || k >= 4 {
        Seq::empty()
    } else {
        let p = (row + cardinal_offset(k).0, col + cardinal_offset(k).1);
        let rest = cardinal_items_from(row, col, rows, cols, k + 1);
        if in_range(p.0, p.1, rows, cols) {
            seq![p] + rest
        } else {
            rest
        }
    }
}

/// All in-bounds cardinal neighbors of `(row, col)`, in north, east, south,
/// west order.
pub open spec fn cardinal_items(row: int, col: int, rows: int, cols: int) -> Seq<(int, int)> {
    cardinal_items_from(row, col, rows, cols, 0)
}

/// iterator over vector indices
pub struct V2Indices {
    curr_row: usize,
    curr_col: usize,
    n_rows: usize,
    n_cols: usize,
}

impl V2Indices {
    /// The row the cursor stands on.
    pub closed spec fn cur_row(self) -> int {
        self.curr_row as int
    }

    /// The column the cursor stands on.
    pub closed spec fn cur_col(self) -> int {
        self.curr_col as int
    }

    /// The number of rows of the index space being walked.
    pub closed spec fn row_count(self) -> int {
        self.n_rows as int
    }

    /// The number of columns of the index space being walked.
    pub closed spec fn col_count(self) -> int {
        self.n_cols as int
    }

    /// The positions this iterator has yet to yield.
    pub open spec fn items(self) -> Seq<(int, int)> {
        indices_from(self.cur_row(), self.cur_col(), self.row_count(), self.col_count())
    }

    /// A fresh row-major walk over every position of an `n_rows` by `n_cols`
    /// grid.
    pub fn new(n_rows: usize, n_cols: usize) -> (r: Self)
        ensures
            r.row_count() == n_rows,
            r.col_count() == n_cols,
            r.cur_row() == 0,
            r.cur_col() == 0,
            r.items() == all_indices(n_rows as int, n_cols as int),
    {
        Self { curr_row: 0, curr_col: 0, n_rows, n_cols }
    }

    /// Yield the next position of the walk, left to right, top to bottom.
    pub fn next(&mut self) -> (r: Option<BoundedIx2>)
        ensures
            final(self).row_count() == old(self).row_count(),
            final(self).col_count() == old(self).col_count(),
            r is Some <==> old(self).items().len() > 0,
            old(self).items().len() == 0 ==> final(self).items() == old(self).items(),
            old(self).items().len() > 0 ==> final(self).items() == old(self).items().drop_first(),
            r matches Some(c) ==> (c.row(), c.col()) == old(self).items()[0] && c.row_bound()
                == old(self).row_count() && c.col_bound() == old(self).col_count() && c.row()
                < c.row_bound() && c.col() < c.col_bound(),
    {
        if self.curr_row < self.n_rows && self.curr_col < self.n_cols {
            let c = BoundedIx2::new(self.n_rows, self.n_cols, self.curr_row, self.curr_col)
                .unwrap();
            let ghost items0 = self.items();
            if self.curr_col == self.n_cols - 1 {
                self.curr_col = 0;
                self.curr_row = self.curr_row + 1;
            } else {
                self.curr_col = self.curr_col + 1;
            }
            proof {
                assert(self.items() =~= items0.drop_first());
            }
            Some(c)
        } else {
            None
        }
    }
}

/// iterator over the (in-bounds) neighbors of an index
pub struct Ix2Neighbors {
    start: BoundedIx2,
    curr_ix: u8,
}

impl Ix2Neighbors {
    /// The center whose neighborhood is walked.
    pub closed spec fn start(self) -> BoundedIx2 {
        self.start
    }

    /// The next direction to try, as a position in the eight-way visitation
    /// order.
    pub closed spec fn cursor(self) -> int {
        self.curr_ix as int
    }

    /// The neighbor positions this iterator has yet to yield.
    pub open spec fn items(self) -> Seq<(int, int)> {
        neighbor_items_from(
            self.start().row(),
            self.start().col(),
            self.start().row_bound(),
            self.start().col_bound(),
            self.cursor(),
        )
    }

    /// A fresh walk over the in-bounds neighbors of `start`, left to right,
    /// top to bottom.
    pub fn new(start: BoundedIx2) -> (r: Self)
        ensures
            r.start() == start,
            r.cursor() == 0,
            r.items() == neighbor_items(
                start.row(),
                start.col(),
                start.row_bound(),
                start.col_bound(),
            ),
    {
        Self { start, curr_ix: 0 }
    }

    /// Yield the next in-bounds neighbor, skipping the directions that step
    /// off the grid.
    pub fn next(&mut self) -> (r: Option<BoundedIx2>)
        ensures
            final(self).start() == old(self).start(),
            r is Some <==> old(self).items().len() > 0,
            old(self).items().len() == 0 ==> final(self).items() == old(self).items(),
            old(self).items().len() > 0 ==> final(self).items() == old(self).items().drop_first(),
            r matches Some(c) ==> (c.row(), c.col()) == old(self).items()[0] && c.same_bounds(
                old(self).start(),
            ) && c.row() < c.row_bound() && c.col() < c.col_bound(),
    {
        let ghost items0 = self.items();
        let ghost start0 = self.start;
        #[verifier::loop_isolation(false)]
        while self.curr_ix < 8
            invariant
                self.start == start0,
                self.items() == items0,
            decreases 8 - self.curr_ix,
        {
            proof {
                use_type_invariant(&self.start);
            }
            let k = self.curr_ix;
            let res = if k == 0 {
                self.start.northwest()
            } else if k == 1 {
                self.start.north()
            } else if k == 2 {
                self.start.northeast()
            } else if k == 3 {
                self.start.west()
            } else if k == 4 {
                self.start.east()
            } else if k == 5 {
                self.start.southwest()
            } else if k == 6 {
                self.start.south()
            } else {
                self.start.southeast()
            };
            self.curr_ix = k + 1;
            if res.is_some() {
                proof {
                    assert(self.items() =~= items0.drop_first());
                }
                return res;
            }
            proof {
                assert(self.items() =~= items0);
            }
        }
        None
    }
}

/// iterator over the (in-bounds) cardinal neighbors (north, east, south, west) of an index
pub struct Ix2CardinalNeighbors {
    start: BoundedIx2,
    curr_ix: u8,
}

impl Ix2CardinalNeighbors {
    /// The center whose cardinal neighborhood is walked.
    pub closed spec fn start(self) -> BoundedIx2 {
        self.start
    }

    /// The next direction to try, as a position in the north, east, south,
    /// west visitation order.
    pub closed spec fn cursor(self) -> int {
        self.curr_ix as int
    }

    /// The cardinal neighbor positions this iterator has yet to yield.
    pub open spec fn items(self) -> Seq<(int, int)> {
        cardinal_items_from(
            self.start().row(),
            self.start().col(),
            self.start().row_bound(),
            self.start().col_bound(),
            self.cursor(),
        )
    }

    /// A fresh walk over the in-bounds cardinal neighbors of `start`, in
    /// north, east, south, west order.
    pub fn new(start: BoundedIx2) -> (r: Self)
        ensures
            r.start() == start,
            r.cursor() == 0,
            r.items() == cardinal_items(
                start.row(),
                start.col(),
                start.row_bound(),
                start.col_bound(),
            ),
    {
        Self { start, curr_ix: 0 }
    }

    /// Yield the next in-bounds cardinal neighbor, skipping the directions
    /// that step off the grid.
    pub fn next(&mut self) -> (r: Option<BoundedIx2>)
        ensures
            final(self).start() == old(self).start(),
            r is Some <==> old(self).items().len() > 0,
            old(self).items().len() == 0 ==> final(self).items() == old(self).items(),
            old(self).items().len() > 0 ==> final(self).items() == old(self).items().drop_first(),
            r matches Some(c) ==> (c.row(), c.col()) == old(self).items()[0] && c.same_bounds(
                old(self).start(),
            ) && c.row() < c.row_bound() && c.col() < c.col_bound(),
    {
        let ghost items0 = self.items();
        let ghost start0 = self.start;
        #[verifier::loop_isolation(false)]
        while self.curr_ix < 4
            invariant
                self.start == start0,
                self.items() == items0,
            decreases 4 - self.curr_ix,
        {
            proof {
                use_type_invariant(&self.start);
            }
            let k = self.curr_ix;
            let res = if k == 0 {
                self.start.north()
            } else if k == 1 {
                self.start.east()
            } else if k == 2 {
                self.start.south()
            } else {
                self.start.west()
            };
            self.curr_ix = k + 1;
            if res.is_some() {
                proof {
                    assert(self.items() =~= items0.drop_first());
                }
                return res;
            }
            proof {
                assert(self.items() =~= items0);
            }
        }
        None
    }
}

/// iterator over rows of indices, top to bottom
pub struct BoundedIx2Rows {
    curr_row: usize,
    n_rows: usize,
    n_cols: usize,
}

impl BoundedIx2Rows {
    /// The row the cursor stands on.
    pub closed spec fn cur_row(self) -> int {
        self.curr_row as int
    }

    /// The number of rows of the index space being walked.
    pub closed spec fn row_count(self) -> int {
        self.n_rows as int
    }

    /// The number of columns of the index space being walked.
    pub closed spec fn col_count(self) -> int {
        self.n_cols as int
    }

    /// A fresh walk over the rows of an `n_rows` by `n_cols` grid.
    pub fn new(n_rows: usize, n_cols: usize) -> (r: Self)
        ensures
            r.cur_row() == 0,
            r.row_count() == n_rows,
            r.col_count() == n_cols,
    {
        Self { curr_row: 0, n_rows, n_cols }
    }

    /// Yield the positions of the next row, left to right.
    pub fn next(&mut self) -> (r: Option<Vec<BoundedIx2>>)
        ensures
            final(self).row_count() == old(self).row_count(),
            final(self).col_count() == old(self).col_count(),
            r is Some <==> old(self).cur_row() < old(self).row_count(),
            r is None ==> final(self).cur_row() == old(self).cur_row(),
            r is Some ==> final(self).cur_row() == old(self).cur_row() + 1,
            r matches Some(v) ==> v@.len() == old(self).col_count() && forall|j: int|
                0 <= j < v@.len() ==> (#[trigger] v@[j]).row() == old(self).cur_row() && v@[j].col()
                    == j && v@[j].row_bound() == old(self).row_count() && v@[j].col_bound() == old(
                    self,
                ).col_count(),
    {
        let row = self.curr_row;
        let nr = self.n_rows;
        let nc = self.n_cols;
        if row < nr {
            let mut v: Vec<BoundedIx2> = Vec::new();
            let mut c: usize = 0;
            while c < nc
                invariant
                    row < nr,
                    c <= nc,
                    v@.len() == c,
                    forall|j: int|
                        0 <= j < v@.len() ==> (#[trigger] v@[j]).row() == row && v@[j].col() == j
                            && v@[j].row_bound() == nr && v@[j].col_bound() == nc,
                decreases nc - c,
            {
                let ix = BoundedIx2::new(nr, nc, row, c).unwrap();
                v.push(ix);
                c = c + 1;
            }
            self.curr_row = row + 1;
            Some(v)
        } else {
            None
        }
    }
}

/// iterator over columns of indices, left to right
pub struct BoundedIx2Cols {
    curr_col: usize,
    n_rows: usize,
    n_cols: usize,
}

impl BoundedIx2Cols {
    /// The column the cursor stands on.
    pub closed spec fn cur_col(self) -> int {
        self.curr_col as int
    }

    /// The number of rows of the index space being walked.
    pub closed spec fn row_count(self) -> int {
        self.n_rows as int
    }

    /// The number of columns of the index space being walked.
    pub closed spec fn col_count(self) -> int {
        self.n_cols as int
    }

    /// A fresh walk over the columns of an `n_rows` by `n_cols` grid.
    pub fn new(n_rows: usize, n_cols: usize) -> (r: Self)
        ensures
            r.cur_col() == 0,
            r.row_count() == n_rows,
            r.col_count() == n_cols,
    {
        Self { curr_col: 0, n_rows, n_cols }
    }

    /// Yield the positions of the next column, top to bottom.
    pub fn next(&mut self) -> (r: Option<Vec<BoundedIx2>>)
        ensures
            final(self).row_count() == old(self).row_count(),
            final(self).col_count() == old(self).col_count(),
            r is Some <==> old(self).cur_col() < old(self).col_count(),
            r is None ==> final(self).cur_col() == old(self).cur_col(),
            r is Some ==> final(self).cur_col() == old(self).cur_col() + 1,
            r matches Some(v) ==> v@.len() == old(self).row_count() && forall|j: int|
                0 <= j < v@.len() ==> (#[trigger] v@[j]).col() == old(self).cur_col() && v@[j].row()
                    == j && v@[j].row_bound() == old(self).row_count() && v@[j].col_bound() == old(
                    self,
                ).col_count(),
    {
        let col = self.curr_col;
        let nr = self.n_rows;
        let nc = self.n_cols;
        if col < nc {
            let mut v: Vec<BoundedIx2> = Vec::new();
            let mut r: usize = 0;
            while r < nr
                invariant
                    col < nc,
                    r <= nr,
                    v@.len() == r,
                    forall|j: int|
                        0 <= j < v@.len() ==> (#[trigger] v@[j]).col() == col && v@[j].row() == j
                            && v@[j].row_bound() == nr && v@[j].col_bound() == nc,
                decreases nr - r,
            {
                let ix = BoundedIx2::new(nr, nc, r, col).unwrap();
                v.push(ix);
                r = r + 1;
            }
            self.curr_col = col + 1;
            Some(v)
        } else {
            None
        }
    }
}

proof fn lemma_indices_from_formula(row: int, col: int, rows: int, cols: int)
    requires
        0 <= row,
        0 <= col < cols,
    ensures
        row < rows ==> indices_from(row, col, rows, cols).len() == (rows - row) * cols - col,
        row >= rows ==> indices_from(row, col, rows, cols).len() == 0,
        forall|i: int|
            0 <= i < indices_from(row, col, rows, cols).len() ==> #[trigger] indices_from(
                row,
                col,
                rows,
                cols,
            )[i] == ((row * cols + col + i) / cols, (row * cols + col + i) % cols),
    decreases rows - row, cols - col,
{
    let s = indices_from(row, col, rows, cols);
    if row < rows {
        lemma_fundamental_div_mod_converse(row * cols + col, cols, row, col);
        if col + 1 < cols {
            lemma_indices_from_formula(row, col + 1, rows, cols);
            let rest = indices_from(row, col + 1, rows, cols);
            assert(s == seq![(row, col)] + rest);
            assert forall|i: int|
                0 <= i < s.len() implies #[trigger] s[i] == (
                (row * cols + col + i) / cols,
                (row * cols + col + i) % cols,
            ) by {
                if i > 0 {
                    assert(s[i] == rest[i - 1]);
                    assert(rest[i - 1] == (
                        (row * cols + (col + 1) + (i - 1)) / cols,
                        (row * cols + (col + 1) + (i - 1)) % cols,
                    ));
                }
            }
        } else {
            lemma_indices_from_formula(row + 1, 0, rows, cols);
            let rest = indices_from(row + 1, 0, rows, cols);
            assert(s == seq![(row, col)] + rest);
            assert((rows - row) * cols - cols == (rows - (row + 1)) * cols) by (nonlinear_arith);
            assert((row + 1) * cols == row * cols + cols) by (nonlinear_arith);
            assert forall|i: int|
                0 <= i < s.len() implies #[trigger] s[i] == (
                (row * cols + col + i) / cols,
                (row * cols + col + i) % cols,
            ) by {
                if i > 0 {
                    assert(s[i] == rest[i - 1]);
                    assert(rest[i - 1] == (
                        ((row + 1) * cols + 0 + (i - 1)) / cols,
                        ((row + 1) * cols + 0 + (i - 1)) % cols,
                    ));
                    assert((row + 1) * cols + 0 + (i - 1) == row * cols + col + i);
                }
            }
        }
    }
}

/// The row-major walk of a `rows` by `cols` grid visits exactly `rows * cols`
/// positions, the position at offset `i` is `(i / cols, i % cols)`, every
/// position visited lies in range, and no position is visited twice.
pub proof fn lemma_all_indices_row_major(rows: int, cols: int)
    requires
        0 < rows,
        0 < cols,
    ensures
        all_indices(rows, cols).len() == rows * cols,
        forall|i: int|
            0 <= i < rows * cols ==> #[trigger] all_indices(rows, cols)[i] == (
                i / cols,
                i % cols,
            ),
        forall|i: int|
            0 <= i < rows * cols ==> in_range(
                (#[trigger] all_indices(rows, cols)[i]).0,
                all_indices(rows, cols)[i].1,
                rows,
                cols,
            ),
        forall|i: int, j: int|
            0 <= i < rows * cols && 0 <= j < rows * cols && i != j ==> #[trigger] all_indices(
                rows,
                cols,
            )[i] != #[trigger] all_indices(rows, cols)[j],
{
    lemma_indices_from_formula(0, 0, rows, cols);
    let s = all_indices(rows, cols);
    assert(s.len() == rows * cols);
    assert forall|i: int| 0 <= i < rows * cols implies #[trigger] s[i] == (i / cols, i % cols) by {
        assert(0 * cols + 0 + i == i);
    }
    assert forall|i: int|
        0 <= i < rows * cols implies in_range((#[trigger] s[i]).0, s[i].1, rows, cols) by {
        lemma_mod_bound(i, cols);
        lemma_fundamental_div_mod(i, cols);
        assert(0 <= i / cols < rows) by (nonlinear_arith)
            requires
                i == cols * (i / cols) + i % cols,
                0 <= i % cols < cols,
                0 <= i < rows * cols,
                0 < cols,
        ;
    }
    assert forall|i: int, j: int|
        0 <= i < rows * cols && 0 <= j < rows * cols && i != j implies #[trigger] s[i]
        != #[trigger] s[j] by {
        lemma_fundamental_div_mod(i, cols);
        lemma_fundamental_div_mod(j, cols);
    }
}

/// The position at row-major offset `r * cols + c` of the full walk is
/// exactly `(r, c)`: every pair is covered once, in row-major order.
pub proof fn lemma_all_indices_at(rows: int, cols: int, r: int, c: int)
    requires
        0 < rows,
        0 < cols,
        0 <= r < rows,
        0 <= c < cols,
    ensures
        0 <= r * cols + c < rows * cols,
        all_indices(rows, cols)[r * cols + c] == (r, c),
{
    lemma_all_indices_row_major(rows, cols);
    assert(0 <= r * cols + c < rows * cols) by (nonlinear_arith)
        requires
            0 <= r < rows,
            0 <= c < cols,
    ;
    lemma_fundamental_div_mod_converse(r * cols + c, cols, r, c);
}

/// Walking the eight-way neighborhood is deterministic: two walks whose
/// centers and cursors agree yield the same sequence of positions, so
/// constructing the iterator twice for the same coordinate gives identical
/// sequences both times.
pub proof fn lemma_neighbors_deterministic(a: Ix2Neighbors, b: Ix2Neighbors)
    requires
        a.start() == b.start(),
        a.cursor() == b.cursor(),
    ensures
        a.items() == b.items(),
{
}

} // verus!
