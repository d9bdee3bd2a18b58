//! 2d vector type, parameterized at run time by number of rows and columns.
use vstd::prelude::*;

use crate::errors::VError;
use crate::ix::BoundedIx2;
use crate::ix::lemma_flat_bound;
use crate::iterators::Ix2CardinalNeighbors;
use crate::iterators::Ix2Neighbors;
use crate::iterators::all_indices;
use crate::iterators::cardinal_items;
use crate::iterators::neighbor_items;
use vstd::slice::slice_index_get;
use vstd::slice::slice_subrange;

pub use crate::iterators::V2Indices;

verus! {

/// The flat contents of a grid with a new rightmost column spliced in,
/// from row `r` on: each original row of `cols` elements is followed
/// immediately by the corresponding element of the new column.
pub open spec fn with_col_from<T>(data: Seq<T>, col: Seq<T>, cols: int, r: int) -> Seq<T>
    decreases col.len() - r,
{
    if r < 0 || r >= col.len() {
        Seq::empty()
    } else {
        data.subrange(r * cols, (r + 1) * cols) + seq![col[r]] + with_col_from(
            data,
            col,
            cols,
            r + 1,
        )
    }
}

/// The flat contents of a grid of `col.len()` rows by `cols` columns after
/// the column `col` is added at the rightmost position of every row.
pub open spec fn with_col<T>(data: Seq<T>, col: Seq<T>, cols: int) -> Seq<T> {
    with_col_from(data, col, cols, 0)
}

proof fn lemma_with_col_from_len<T>(data: Seq<T>, col: Seq<T>, cols: int, k: int)
    requires
        0 <= cols,
        0 <= k,
        data.len() == col.len() * cols,
    ensures
        k < col.len() ==> with_col_from(data, col, cols, k).len() == (col.len() - k) * (cols + 1),
        k >= col.len() ==> with_col_from(data, col, cols, k).len() == 0,
    decreases col.len() - k,
{
    if k < col.len() {
        lemma_with_col_from_len(data, col, cols, k + 1);
        assert(0 <= k * cols) by (nonlinear_arith)
            requires
                0 <= k,
                0 <= cols,
        ;
        assert((k + 1) * cols <= col.len() * cols) by (nonlinear_arith)
            requires
                0 <= cols,
                k + 1 <= col.len(),
        ;
        assert(k * cols + cols == (k + 1) * cols) by (nonlinear_arith);
        assert(data.subrange(k * cols, (k + 1) * cols).len() == cols);
        assert((col.len() - k) * (cols + 1) == (col.len() - (k + 1)) * (cols + 1) + (cols + 1))
            by (nonlinear_arith);
        if k + 1 == col.len() {
            assert((col.len() - (k + 1)) * (cols + 1) == 0) by (nonlinear_arith)
                requires
                    k + 1 == col.len(),
            ;
        }
    }
}

proof fn lemma_with_col_from_index<T>(data: Seq<T>, col: Seq<T>, cols: int, k: int, r: int, c: int)
    requires
        0 <= cols,
        data.len() == col.len() * cols,
        0 <= k <= r < col.len(),
        0 <= c <= cols,
    ensures
        c < cols ==> with_col_from(data, col, cols, k)[(r - k) * (cols + 1) + c] == data[r * cols
            + c],
        c == cols ==> with_col_from(data, col, cols, k)[(r - k) * (cols + 1) + c] == col[r],
    decreases r - k,
{
    lemma_with_col_from_len(data, col, cols, k + 1);
    assert(0 <= k * cols) by (nonlinear_arith)
        requires
            0 <= k,
            0 <= cols,
    ;
    assert((k + 1) * cols <= col.len() * cols) by (nonlinear_arith)
        requires
            0 <= cols,
            k + 1 <= col.len(),
    ;
    assert(k * cols + cols == (k + 1) * cols) by (nonlinear_arith);
    let sub = data.subrange(k * cols, (k + 1) * cols);
    assert(sub.len() == cols);
    let s = with_col_from(data, col, cols, k);
    let rest = with_col_from(data, col, cols, k + 1);
    assert(s == sub + seq![col[k]] + rest);
    let i = (r - k) * (cols + 1) + c;
    if k == r {
        assert((r - k) * (cols + 1) == 0) by (nonlinear_arith)
            requires
                r == k,
        ;
        if c < cols {
            assert(s[i] == sub[c]);
            assert(sub[c] == data[k * cols + c]);
        } else {
            assert(s[i] == (sub + seq![col[k]])[cols]);
            assert(s[i] == col[k]);
        }
    } else {
        lemma_with_col_from_index(data, col, cols, k + 1, r, c);
        assert((r - k) * (cols + 1) == (r - (k + 1)) * (cols + 1) + (cols + 1))
            by (nonlinear_arith);
        assert((r - (k + 1)) * (cols + 1) >= 0) by (nonlinear_arith)
            requires
                k + 1 <= r,
                0 <= cols,
        ;
        assert((r - (k + 1)) * (cols + 1) + c < (col.len() - (k + 1)) * (cols + 1))
            by (nonlinear_arith)
            requires
                k + 1 <= r,
                r < col.len(),
                0 <= c <= cols,
        ;
        assert(s[i] == rest[i - (cols + 1)]);
        assert(i - (cols + 1) == (r - (k + 1)) * (cols + 1) + c);
    }
}

/// The column really is interleaved at each row boundary, not appended en
/// masse: in the grown contents of shape `col.len()` by `cols + 1`, the cell
/// at `(r, c)` holds the old cell `(r, c)` when `c < cols`, and the new
/// column's `r`-th element when `c == cols`.
pub proof fn lemma_with_col_cells<T>(data: Seq<T>, col: Seq<T>, cols: int, r: int, c: int)
    requires
        0 <= cols,
        data.len() == col.len() * cols,
        0 <= r < col.len(),
        0 <= c <= cols,
    ensures
        with_col(data, col, cols).len() == col.len() * (cols + 1),
        c < cols ==> with_col(data, col, cols)[r * (cols + 1) + c] == data[r * cols + c],
        c == cols ==> with_col(data, col, cols)[r * (cols + 1) + c] == col[r],
{
    lemma_with_col_from_len(data, col, cols, 0);
    lemma_with_col_from_index(data, col, cols, 0, r, c);
}

/// 2d vector type: a flat, row-major backing vector of exactly
/// `n_rows * n_cols` elements.
pub struct V2<T> {
    data: Vec<T>,
    n_rows: usize,
    n_cols: usize,
}

impl<T> View for V2<T> {
    type V = Seq<T>;

    /// The flat, row-major sequence of stored elements.
    closed spec fn view(&self) -> Seq<T> {
        self.data@
    }
}

impl<T> V2<T> {
    /// The number of rows.
    pub closed spec fn row_count(self) -> int {
        self.n_rows as int
    }

    /// The number of columns.
    pub closed spec fn col_count(self) -> int {
        self.n_cols as int
    }

    /// The invariant every live grid satisfies: the dimensions are counts,
    /// and the backing vector holds exactly one element per cell.
    #[verifier::type_invariant]
    pub open spec fn wf(self) -> bool {
        0 <= self.row_count() && 0 <= self.col_count() && self@.len() == self.row_count()
            * self.col_count()
    }

    /// True when `ix` is a position of a grid of exactly this shape, so that
    /// it can address one of this grid's cells.
    pub open spec fn fits(self, ix: BoundedIx2) -> bool {
        ix.row_bound() == self.row_count() && ix.col_bound() == self.col_count()
    }

    /// create a new 2d vector from a preexisting 1d vector
    ///
    /// errors if the provided data is the wrong length
    pub fn new(n_rows: usize, n_cols: usize, data: Vec<T>) -> (r: Result<Self, VError>)
        requires
            n_rows * n_cols <= usize::MAX,
        ensures
            r is Ok <==> data@.len() == n_rows * n_cols,
            r matches Ok(g) ==> g@ == data@ && g.row_count() == n_rows && g.col_count() == n_cols,
            r matches Err(e) ==> e == (VError::SizingError {
                expected: (n_rows * n_cols) as usize,
                actual: data@.len() as usize,
            }),
    {
        let cells = n_rows * n_cols;
        if cells != data.len() {
            Err(VError::size_error(cells, data.len()))
        } else {
            Ok(Self { data, n_rows, n_cols })
        }
    }

    /// create a new 2d vector of `n_rows * n_cols` default-valued elements
    ///
    /// total: any shape whose cell count fits in a vector can be built
    pub fn default_fill(n_rows: usize, n_cols: usize) -> (r: Self) where T: Default
        requires
            n_rows * n_cols <= usize::MAX,
        ensures
            r.row_count() == n_rows,
            r.col_count() == n_cols,
            r@.len() == n_rows * n_cols,
            forall|j: int| 0 <= j < r@.len() ==> call_ensures(T::default, (), #[trigger] r@[j]),
    {
        let len = n_rows * n_cols;
        let mut data: Vec<T> = Vec::with_capacity(len);
        let mut i: usize = 0;
        while i < len
            invariant
                i <= len,
                data@.len() == i,
                forall|j: int| 0 <= j < data@.len() ==> call_ensures(
                    T::default,
                    (),
                    #[trigger] data@[j],
                ),
            decreases len - i,
        {
            data.push(T::default());
            i = i + 1;
        }
        V2 { data, n_rows, n_cols }
    }

    fn convert_ix(&self, col_ix: usize, row_ix: usize) -> (r: usize)
        requires
            row_ix * self.col_count() + col_ix < self@.len(),
        ensures
            r == row_ix * self.col_count() + col_ix,
    {
        // the length, a usize, bounds the flat offset, so the arithmetic
        // cannot overflow
        let _len = self.data.len();
        row_ix * self.n_cols + col_ix
    }

    /// get a value by 2d index
    ///
    /// a `BoundedIx2` of this grid's shape is always in range, so the lookup
    /// cannot fail
    pub fn get(&self, ix: BoundedIx2) -> (r: &T)
        requires
            self.fits(ix),
        ensures
            *r == self@[ix.flat()],
    {
        proof {
            use_type_invariant(&*self);
            use_type_invariant(&ix);
            lemma_flat_bound(ix);
        }
        let i = self.convert_ix(ix.x(), ix.y());
        &self.data[i]
    }

    /// get a mutable value by 2d index
    ///
    /// a `BoundedIx2` of this grid's shape is always in range, so the lookup
    /// cannot fail
    pub fn get_mut(&mut self, ix: BoundedIx2) -> (r: &mut T)
        requires
            old(self).fits(ix),
        ensures
            *r == old(self)@[ix.flat()],
            final(self)@ == old(self)@.update(ix.flat(), *final(r)),
            final(self).row_count() == old(self).row_count(),
            final(self).col_count() == old(self).col_count(),
    {
        proof {
            use_type_invariant(&*self);
            use_type_invariant(&ix);
            lemma_flat_bound(ix);
        }
        let i = self.convert_ix(ix.x(), ix.y());
        &mut self.data[i]
    }

    /// alter a value in-place
    ///
    /// the range check is defensive: a `BoundedIx2` of this grid's shape
    /// always addresses a cell, so the update always happens
    pub fn mutate_at<F: Fn(&T) -> T>(&mut self, ix: BoundedIx2, f: F)
        requires
            old(self).fits(ix),
            call_requires(f, (&old(self)@[ix.flat()],)),
        ensures
            final(self)@ == old(self)@.update(ix.flat(), final(self)@[ix.flat()]),
            call_ensures(f, (&old(self)@[ix.flat()],), final(self)@[ix.flat()]),
            final(self).row_count() == old(self).row_count(),
            final(self).col_count() == old(self).col_count(),
    {
        proof {
            use_type_invariant(&*self);
            use_type_invariant(&ix);
            lemma_flat_bound(ix);
        }
        let i = self.convert_ix(ix.x(), ix.y());
        if i < self.data.len() {
            let new_v = f(&self.data[i]);
            let slot = &mut self.data[i];
            *slot = new_v;
        }
    }

    /// an iterator over indices from left to right, top to bottom
    pub fn indices(&self) -> (r: V2Indices)
        ensures
            r.cur_row() == 0,
            r.cur_col() == 0,
            r.row_count() == self.row_count(),
            r.col_count() == self.col_count(),
            r.items() == all_indices(self.row_count(), self.col_count()),
    {
        V2Indices::new(self.n_rows, self.n_cols)
    }

    /// an iterator over the vector's rows from top to bottom
    pub fn rows<'a>(&'a self) -> (r: V2Rows<'a, T>)
        ensures
            r.data_seq() == self@,
            r.cur_row() == 0,
            r.row_count() == self.row_count(),
            r.col_count() == self.col_count(),
    {
        proof {
            use_type_invariant(&*self);
        }
        V2Rows::new(self.data.as_slice(), self.n_rows, self.n_cols)
    }

    /// an iterator over the vector's columns from left to right
    pub fn cols<'a>(&'a self) -> (r: V2Cols<'a, T>)
        ensures
            r.data_seq() == self@,
            r.cur_col() == 0,
            r.row_count() == self.row_count(),
            r.col_count() == self.col_count(),
    {
        proof {
            use_type_invariant(&*self);
        }
        V2Cols::new(self.data.as_slice(), self.n_rows, self.n_cols)
    }

    /// an iterator over the neighboring values of a position in the vector
    ///
    /// the iterator starts at the "upper-left" and proceeds left to right,
    /// top to bottom; only in-bounds results will be returned
    ///
    /// given a 2d vector like
    ///
    /// `0 1 2`
    /// `3 4 5`
    /// `6 7 8`
    ///
    /// the neighbors of `4` are `[0,1,2,3,5,6,7,8]`, while the neighbors of
    /// `2` would be `[1,4,5]`
    pub fn neighbors_of<'a>(&'a self, ix: BoundedIx2) -> (r: V2Neighbors<'a, T>)
        requires
            self.fits(ix),
        ensures
            r.wf(),
            r.data_seq() == self@,
            r.walk().start() == ix,
            r.items() == neighbor_items(
                ix.row(),
                ix.col(),
                self.row_count(),
                self.col_count(),
            ).map_values(|p: (int, int)| self@[p.0 * self.col_count() + p.1]),
    {
        proof {
            use_type_invariant(&*self);
        }
        let it = V2Neighbors::new(self.data.as_slice(), ix);
        proof {
            assert(it.items() =~= neighbor_items(
                ix.row(),
                ix.col(),
                self.row_count(),
                self.col_count(),
            ).map_values(|p: (int, int)| self@[p.0 * self.col_count() + p.1]));
        }
        it
    }

    /// an iterator over the cardinal neighbors of a position in the vector
    ///
    /// like [`V2::neighbors_of`], excluding "diagonals"; the visitation
    /// order is north, east, south, west
    pub fn cardinal_neighbors_of<'a>(&'a self, ix: BoundedIx2) -> (r: V2CardinalNeighbors<'a, T>)
        requires
            self.fits(ix),
        ensures
            r.wf(),
            r.data_seq() == self@,
            r.walk().start() == ix,
            r.items() == cardinal_items(
                ix.row(),
                ix.col(),
                self.row_count(),
                self.col_count(),
            ).map_values(|p: (int, int)| self@[p.0 * self.col_count() + p.1]),
    {
        proof {
            use_type_invariant(&*self);
        }
        let it = V2CardinalNeighbors::new(self.data.as_slice(), ix);
        proof {
            assert(it.items() =~= cardinal_items(
                ix.row(),
                ix.col(),
                self.row_count(),
                self.col_count(),
            ).map_values(|p: (int, int)| self@[p.0 * self.col_count() + p.1]));
        }
        it
    }

    /// an iterator over tuples of corresponding indices and values, left to
    /// right, top to bottom
    pub fn indexed<'a>(&'a self) -> (r: V2Indexed<'a, T>)
        ensures
            r.wf(),
            r.data_seq() == self@,
            r.walk().row_count() == self.row_count(),
            r.walk().col_count() == self.col_count(),
            r.index_items() == all_indices(self.row_count(), self.col_count()),
    {
        proof {
            use_type_invariant(&*self);
        }
        V2Indexed::new(self.data.as_slice(), self.n_rows, self.n_cols)
    }

    /// possibly get the index "north" (same column, previous row)
    pub fn north_ix(&self, ix: BoundedIx2) -> (r: Option<BoundedIx2>)
        ensures
            r is Some <==> ix.has_north(),
            r matches Some(c) ==> c.row() == ix.row() - 1 && c.col() == ix.col()
                && c.same_bounds(ix),
    {
        ix.dec_row()
    }

    /// possibly get the index "south" (same column, following row)
    pub fn south_ix(&self, ix: BoundedIx2) -> (r: Option<BoundedIx2>)
        ensures
            r is Some <==> ix.has_south(),
            r matches Some(c) ==> c.row() == ix.row() + 1 && c.col() == ix.col()
                && c.same_bounds(ix),
    {
        ix.inc_row()
    }

    /// possibly get the index "east" (same row, following column)
    pub fn east_ix(&self, ix: BoundedIx2) -> (r: Option<BoundedIx2>)
        ensures
            r is Some <==> ix.has_east(),
            r matches Some(c) ==> c.row() == ix.row() && c.col() == ix.col() + 1
                && c.same_bounds(ix),
    {
        ix.inc_col()
    }

    /// possibly get the index "west" (same row, previous column)
    pub fn west_ix(&self, ix: BoundedIx2) -> (r: Option<BoundedIx2>)
        ensures
            r is Some <==> ix.has_west(),
            r matches Some(c) ==> c.row() == ix.row() && c.col() == ix.col() - 1
                && c.same_bounds(ix),
    {
        ix.dec_col()
    }

    /// possibly get the index "northeast" (previous row, following column)
    pub fn northeast_ix(&self, ix: BoundedIx2) -> (r: Option<BoundedIx2>)
        ensures
            r is Some <==> ix.has_northeast(),
            r matches Some(c) ==> c.row() == ix.row() - 1 && c.col() == ix.col() + 1
                && c.same_bounds(ix),
    {
        ix.northeast()
    }

    /// possibly get the index "northwest" (previous row, previous column)
    pub fn northwest_ix(&self, ix: BoundedIx2) -> (r: Option<BoundedIx2>)
        ensures
            r is Some <==> ix.has_northwest(),
            r matches Some(c) ==> c.row() == ix.row() - 1 && c.col() == ix.col() - 1
                && c.same_bounds(ix),
    {
        ix.northwest()
    }

    /// possibly get the index "southeast" (following row, following column)
    pub fn southeast_ix(&self, ix: BoundedIx2) -> (r: Option<BoundedIx2>)
        ensures
            r is Some <==> ix.has_southeast(),
            r matches Some(c) ==> c.row() == ix.row() + 1 && c.col() == ix.col() + 1
                && c.same_bounds(ix),
    {
        ix.southeast()
    }

    /// possibly get the index "southwest" (following row, previous column)
    pub fn southwest_ix(&self, ix: BoundedIx2) -> (r: Option<BoundedIx2>)
        ensures
            r is Some <==> ix.has_southwest(),
            r matches Some(c) ==> c.row() == ix.row() + 1 && c.col() == ix.col() - 1
                && c.same_bounds(ix),
    {
        ix.southwest()
    }

    /// possibly get a reference to the value "north" (same column, previous row)
    pub fn north_of(&self, ix: BoundedIx2) -> (r: Option<&T>)
        requires
            self.fits(ix),
        ensures
            r is Some <==> ix.has_north(),
            r matches Some(v) ==> *v == self@[(ix.row() - 1) * self.col_count() + ix.col()],
    {
        match self.north_ix(ix) {
            Some(i) => Some(self.get(i)),
            None => None,
        }
    }

    /// possibly get a reference to the value "south" (same column, following row)
    pub fn south_of(&self, ix: BoundedIx2) -> (r: Option<&T>)
        requires
            self.fits(ix),
        ensures
            r is Some <==> ix.has_south(),
            r matches Some(v) ==> *v == self@[(ix.row() + 1) * self.col_count() + ix.col()],
    {
        match self.south_ix(ix) {
            Some(i) => Some(self.get(i)),
            None => None,
        }
    }

    /// possibly get a reference to the value "east" (same row, following column)
    pub fn east_of(&self, ix: BoundedIx2) -> (r: Option<&T>)
        requires
            self.fits(ix),
        ensures
            r is Some <==> ix.has_east(),
            r matches Some(v) ==> *v == self@[ix.row() * self.col_count() + ix.col() + 1],
    {
        match self.east_ix(ix) {
            Some(i) => Some(self.get(i)),
            None => None,
        }
    }

    /// possibly get a reference to the value "west" (same row, previous column)
    pub fn west_of(&self, ix: BoundedIx2) -> (r: Option<&T>)
        requires
            self.fits(ix),
        ensures
            r is Some <==> ix.has_west(),
            r matches Some(v) ==> *v == self@[ix.row() * self.col_count() + ix.col() - 1],
    {
        match self.west_ix(ix) {
            Some(i) => Some(self.get(i)),
            None => None,
        }
    }

    /// possibly get a reference to the value "northeast" (previous row, following column)
    pub fn northeast_of(&self, ix: BoundedIx2) -> (r: Option<&T>)
        requires
            self.fits(ix),
        ensures
            r is Some <==> ix.has_northeast(),
            r matches Some(v) ==> *v == self@[(ix.row() - 1) * self.col_count() + ix.col() + 1],
    {
        match self.northeast_ix(ix) {
            Some(i) => Some(self.get(i)),
            None => None,
        }
    }

    /// possibly get a reference to the value "northwest" (previous row, previous column)
    pub fn northwest_of(&self, ix: BoundedIx2) -> (r: Option<&T>)
        requires
            self.fits(ix),
        ensures
            r is Some <==> ix.has_northwest(),
            r matches Some(v) ==> *v == self@[(ix.row() - 1) * self.col_count() + ix.col() - 1],
    {
        match self.northwest_ix(ix) {
            Some(i) => Some(self.get(i)),
            None => None,
        }
    }

    /// possibly get a reference to the value "southeast" (following row, following column)
    pub fn southeast_of(&self, ix: BoundedIx2) -> (r: Option<&T>)
        requires
            self.fits(ix),
        ensures
            r is Some <==> ix.has_southeast(),
            r matches Some(v) ==> *v == self@[(ix.row() + 1) * self.col_count() + ix.col() + 1],
    {
        match self.southeast_ix(ix) {
            Some(i) => Some(self.get(i)),
            None => None,
        }
    }

    /// possibly get a reference to the value "southwest" (following row, previous column)
    pub fn southwest_of(&self, ix: BoundedIx2) -> (r: Option<&T>)
        requires
            self.fits(ix),
        ensures
            r is Some <==> ix.has_southwest(),
            r matches Some(v) ==> *v == self@[(ix.row() + 1) * self.col_count() + ix.col() - 1],
    {
        match self.southwest_ix(ix) {
            Some(i) => Some(self.get(i)),
            None => None,
        }
    }

    /// possibly get a mutable reference to the value "north" (same column, previous row)
    pub fn north_of_mut(&mut self, ix: BoundedIx2) -> (r: Option<&mut T>)
        requires
            old(self).fits(ix),
        ensures
            r is Some <==> ix.has_north(),
            r is None ==> final(self)@ == old(self)@ && final(self).row_count() == old(
                self,
            ).row_count() && final(self).col_count() == old(self).col_count(),
            r matches Some(m) ==> *m == old(self)@[(ix.row() - 1) * old(self).col_count()
                + ix.col()] && final(self)@ == old(self)@.update(
                (ix.row() - 1) * old(self).col_count() + ix.col(),
                *final(m),
            ) && final(self).row_count() == old(self).row_count() && final(self).col_count() == old(
                self,
            ).col_count(),
    {
        match self.north_ix(ix) {
            Some(i) => Some(self.get_mut(i)),
            None => None,
        }
    }

    /// possibly get a mutable reference to the value "south" (same column, following row)
    pub fn south_of_mut(&mut self, ix: BoundedIx2) -> (r: Option<&mut T>)
        requires
            old(self).fits(ix),
        ensures
            r is Some <==> ix.has_south(),
            r is None ==> final(self)@ == old(self)@ && final(self).row_count() == old(
                self,
            ).row_count() && final(self).col_count() == old(self).col_count(),
            r matches Some(m) ==> *m == old(self)@[(ix.row() + 1) * old(self).col_count()
                + ix.col()] && final(self)@ == old(self)@.update(
                (ix.row() + 1) * old(self).col_count() + ix.col(),
                *final(m),
            ) && final(self).row_count() == old(self).row_count() && final(self).col_count() == old(
                self,
            ).col_count(),
    {
        match self.south_ix(ix) {
            Some(i) => Some(self.get_mut(i)),
            None => None,
        }
    }

    /// possibly get a mutable reference to the value "east" (same row, following column)
    pub fn east_of_mut(&mut self, ix: BoundedIx2) -> (r: Option<&mut T>)
        requires
            old(self).fits(ix),
        ensures
            r is Some <==> ix.has_east(),
            r is None ==> final(self)@ == old(self)@ && final(self).row_count() == old(
                self,
            ).row_count() && final(self).col_count() == old(self).col_count(),
            r matches Some(m) ==> *m == old(self)@[ix.row() * old(self).col_count() + ix.col() + 1]
                && final(self)@ == old(self)@.update(
                ix.row() * old(self).col_count() + ix.col() + 1,
                *final(m),
            ) && final(self).row_count() == old(self).row_count() && final(self).col_count() == old(
                self,
            ).col_count(),
    {
        match self.east_ix(ix) {
            Some(i) => Some(self.get_mut(i)),
            None => None,
        }
    }

    /// possibly get a mutable reference to the value "west" (same row, previous column)
    pub fn west_of_mut(&mut self, ix: BoundedIx2) -> (r: Option<&mut T>)
        requires
            old(self).fits(ix),
        ensures
            r is Some <==> ix.has_west(),
            r is None ==> final(self)@ == old(self)@ && final(self).row_count() == old(
                self,
            ).row_count() && final(self).col_count() == old(self).col_count(),
            r matches Some(m) ==> *m == old(self)@[ix.row() * old(self).col_count() + ix.col() - 1]
                && final(self)@ == old(self)@.update(
                ix.row() * old(self).col_count() + ix.col() - 1,
                *final(m),
            ) && final(self).row_count() == old(self).row_count() && final(self).col_count() == old(
                self,
            ).col_count(),
    {
        match self.west_ix(ix) {
            Some(i) => Some(self.get_mut(i)),
            None => None,
        }
    }

    /// possibly get a mutable reference to the value "northeast" (previous row, following column)
    pub fn northeast_of_mut(&mut self, ix: BoundedIx2) -> (r: Option<&mut T>)
        requires
            old(self).fits(ix),
        ensures
            r is Some <==> ix.has_northeast(),
            r is None ==> final(self)@ == old(self)@ && final(self).row_count() == old(
                self,
            ).row_count() && final(self).col_count() == old(self).col_count(),
            r matches Some(m) ==> *m == old(self)@[(ix.row() - 1) * old(self).col_count()
                + ix.col() + 1] && final(self)@ == old(self)@.update(
                (ix.row() - 1) * old(self).col_count() + ix.col() + 1,
                *final(m),
            ) && final(self).row_count() == old(self).row_count() && final(self).col_count() == old(
                self,
            ).col_count(),
    {
        match self.northeast_ix(ix) {
            Some(i) => Some(self.get_mut(i)),
            None => None,
        }
    }

    /// possibly get a mutable reference to the value "northwest" (previous row, previous column)
    pub fn northwest_of_mut(&mut self, ix: BoundedIx2) -> (r: Option<&mut T>)
        requires
            old(self).fits(ix),
        ensures
            r is Some <==> ix.has_northwest(),
            r is None ==> final(self)@ == old(self)@ && final(self).row_count() == old(
                self,
            ).row_count() && final(self).col_count() == old(self).col_count(),
            r matches Some(m) ==> *m == old(self)@[(ix.row() - 1) * old(self).col_count()
                + ix.col() - 1] && final(self)@ == old(self)@.update(
                (ix.row() - 1) * old(self).col_count() + ix.col() - 1,
                *final(m),
            ) && final(self).row_count() == old(self).row_count() && final(self).col_count() == old(
                self,
            ).col_count(),
    {
        match self.northwest_ix(ix) {
            Some(i) => Some(self.get_mut(i)),
            None => None,
        }
    }

    /// possibly get a mutable reference to the value "southeast" (following row, following column)
    pub fn southeast_of_mut(&mut self, ix: BoundedIx2) -> (r: Option<&mut T>)
        requires
            old(self).fits(ix),
        ensures
            r is Some <==> ix.has_southeast(),
            r is None ==> final(self)@ == old(self)@ && final(self).row_count() == old(
                self,
            ).row_count() && final(self).col_count() == old(self).col_count(),
            r matches Some(m) ==> *m == old(self)@[(ix.row() + 1) * old(self).col_count()
                + ix.col() + 1] && final(self)@ == old(self)@.update(
                (ix.row() + 1) * old(self).col_count() + ix.col() + 1,
                *final(m),
            ) && final(self).row_count() == old(self).row_count() && final(self).col_count() == old(
                self,
            ).col_count(),
    {
        match self.southeast_ix(ix) {
            Some(i) => Some(self.get_mut(i)),
            None => None,
        }
    }

    /// possibly get a mutable reference to the value "southwest" (following row, previous column)
    pub fn southwest_of_mut(&mut self, ix: BoundedIx2) -> (r: Option<&mut T>)
        requires
            old(self).fits(ix),
        ensures
            r is Some <==> ix.has_southwest(),
            r is None ==> final(self)@ == old(self)@ && final(self).row_count() == old(
                self,
            ).row_count() && final(self).col_count() == old(self).col_count(),
            r matches Some(m) ==> *m == old(self)@[(ix.row() + 1) * old(self).col_count()
                + ix.col() - 1] && final(self)@ == old(self)@.update(
                (ix.row() + 1) * old(self).col_count() + ix.col() - 1,
                *final(m),
            ) && final(self).row_count() == old(self).row_count() && final(self).col_count() == old(
                self,
            ).col_count(),
    {
        match self.southwest_ix(ix) {
            Some(i) => Some(self.get_mut(i)),
            None => None,
        }
    }

    /// create a new vector from this one with an additional row appended at
    /// the bottom
    ///
    /// errors if the length of the new row doesn't match the number of
    /// columns in the vector
    pub fn add_row(self, row: Vec<T>) -> (r: Result<V2<T>, VError>)
        requires
            self.row_count() < usize::MAX,
        ensures
            r is Ok <==> row@.len() == self.col_count(),
            r matches Ok(g) ==> g@ == self@ + row@ && g.row_count() == self.row_count() + 1
                && g.col_count() == self.col_count(),
            r matches Err(e) ==> e == (VError::SizingError {
                expected: self.col_count() as usize,
                actual: row@.len() as usize,
            }),
    {
        proof {
            use_type_invariant(&self);
        }
        if row.len() != self.n_cols {
            Err(VError::size_error(self.n_cols, row.len()))
        } else {
            let V2 { mut data, n_rows, n_cols } = self;
            let mut row = row;
            data.append(&mut row);
            proof {
                assert((n_rows + 1) * n_cols == n_rows * n_cols + n_cols) by (nonlinear_arith);
            }
            Ok(V2 { data, n_rows: n_rows + 1, n_cols })
        }
    }

    /// create a new vector from this one with an additional column at the
    /// rightmost position of every row
    ///
    /// errors if the length of the new column doesn't match the number of
    /// rows in the vector
    #[verifier::loop_isolation(false)]
    pub fn add_col(self, col: Vec<T>) -> (r: Result<V2<T>, VError>)
        requires
            self.col_count() < usize::MAX,
        ensures
            r is Ok <==> col@.len() == self.row_count(),
            r matches Ok(g) ==> g@ == with_col(self@, col@, self.col_count()) && g.row_count()
                == self.row_count() && g.col_count() == self.col_count() + 1,
            r matches Err(e) ==> e == (VError::SizingError {
                expected: self.row_count() as usize,
                actual: col@.len() as usize,
            }),
    {
        proof {
            use_type_invariant(&self);
        }
        if col.len() != self.n_rows {
            Err(VError::size_error(self.n_rows, col.len()))
        } else {
            let V2 { mut data, n_rows, n_cols } = self;
            let mut col = col;
            let ghost d0 = data@;
            let ghost c0 = col@;
            let mut new_data: Vec<T> = Vec::new();
            let mut r: usize = 0;
            while r < n_rows
                invariant
                    r <= n_rows,
                    data@ == d0.skip(r * n_cols),
                    col@ == c0.skip(r as int),
                    new_data@.len() == r * (n_cols + 1),
                    new_data@ + with_col_from(d0, c0, n_cols as int, r as int) == with_col(
                        d0,
                        c0,
                        n_cols as int,
                    ),
                decreases n_rows - r,
            {
                let ghost nd0 = new_data@;
                proof {
                    assert(r * n_cols + n_cols <= n_rows * n_cols) by (nonlinear_arith)
                        requires
                            0 <= r < n_rows,
                    ;
                    assert(new_data@ =~= nd0 + d0.subrange(r * n_cols, r * n_cols + 0));
                }
                let mut c: usize = 0;
                while c < n_cols
                    invariant
                        c <= n_cols,
                        data@ == d0.skip(r * n_cols + c),
                        new_data@ == nd0 + d0.subrange(r * n_cols, r * n_cols + c),
                    decreases n_cols - c,
                {
                    proof {
                        assert(r * n_cols + c < n_rows * n_cols) by (nonlinear_arith)
                            requires
                                0 <= r < n_rows,
                                0 <= c < n_cols,
                        ;
                    }
                    let x = data.remove(0);
                    new_data.push(x);
                    proof {
                        assert(data@ =~= d0.skip(r * n_cols + c + 1));
                        assert(new_data@ =~= nd0 + d0.subrange(
                            r * n_cols,
                            r * n_cols + c + 1,
                        ));
                    }
                    c = c + 1;
                }
                let y = col.remove(0);
                new_data.push(y);
                r = r + 1;
                proof {
                    assert(r * n_cols == (r - 1) * n_cols + n_cols) by (nonlinear_arith);
                    assert(r * (n_cols + 1) == (r - 1) * (n_cols + 1) + n_cols + 1)
                        by (nonlinear_arith);
                    assert(data@ =~= d0.skip(r * n_cols));
                    assert(col@ =~= c0.skip(r as int));
                    assert(new_data@ + with_col_from(d0, c0, n_cols as int, r as int) =~= with_col(
                        d0,
                        c0,
                        n_cols as int,
                    ));
                }
            }
            Ok(V2 { data: new_data, n_rows, n_cols: n_cols + 1 })
        }
    }
}

impl<T: Clone> Clone for V2<T> {
    /// A copy of this vector: the same shape, each element a clone of the
    /// original's.
    fn clone(&self) -> (r: Self)
        ensures
            r.row_count() == self.row_count(),
            r.col_count() == self.col_count(),
            r@.len() == self@.len(),
            forall|i: int| 0 <= i < self@.len() ==> cloned::<T>(self@[i], #[trigger] r@[i]),
    {
        proof {
            use_type_invariant(&*self);
        }
        V2 { data: self.data.clone(), n_rows: self.n_rows, n_cols: self.n_cols }
    }
}

/// iterator over vector rows, top to bottom
pub struct V2Rows<'a, T> {
    curr_row: usize,
    n_rows: usize,
    n_cols: usize,
    data: &'a [T],
}

impl<'a, T> V2Rows<'a, T> {
    /// The flat, row-major contents of the vector being walked.
    pub closed spec fn data_seq(self) -> Seq<T> {
        self.data@
    }

    /// The row the cursor stands on.
    pub closed spec fn cur_row(self) -> int {
        self.curr_row as int
    }

    /// The number of rows being walked.
    pub closed spec fn row_count(self) -> int {
        self.n_rows as int
    }

    /// The number of columns per row.
    pub closed spec fn col_count(self) -> int {
        self.n_cols as int
    }

    /// The walked data is the flat contents of a grid of the stated shape,
    /// and the cursor never runs past the last row.
    #[verifier::type_invariant]
    pub open spec fn wf(self) -> bool {
        self.data_seq().len() == self.row_count() * self.col_count() && self.cur_row()
            <= self.row_count()
    }

    /// A fresh walk over the rows of a grid whose flat, row-major contents
    /// are `data`.
    pub fn new(data: &'a [T], n_rows: usize, n_cols: usize) -> (r: Self)
        requires
            data@.len() == n_rows * n_cols,
        ensures
            r.data_seq() == data@,
            r.cur_row() == 0,
            r.row_count() == n_rows,
            r.col_count() == n_cols,
    {
        Self { data, curr_row: 0, n_rows, n_cols }
    }

    /// Yield the next row as a slice of `col_count` elements.
    pub fn next(&mut self) -> (r: Option<&'a [T]>)
        ensures
            final(self).data_seq() == old(self).data_seq(),
            final(self).row_count() == old(self).row_count(),
            final(self).col_count() == old(self).col_count(),
            r is Some <==> old(self).cur_row() < old(self).row_count(),
            r is None ==> final(self).cur_row() == old(self).cur_row(),
            r is Some ==> final(self).cur_row() == old(self).cur_row() + 1,
            r matches Some(s) ==> s@ == old(self).data_seq().subrange(
                old(self).cur_row() * old(self).col_count(),
                (old(self).cur_row() + 1) * old(self).col_count(),
            ),
    {
        proof {
            use_type_invariant(&*self);
        }
        // the length, a usize, bounds the flat offsets used below, so their
        // arithmetic cannot overflow
        let _len = self.data.len();
        if self.curr_row == self.n_rows {
            None
        } else {
            proof {
                assert(self.curr_row * self.n_cols + self.n_cols <= self.n_rows * self.n_cols)
                    by (nonlinear_arith)
                    requires
                        0 <= self.curr_row < self.n_rows,
                ;
                assert((self.curr_row + 1) * self.n_cols == self.curr_row * self.n_cols
                    + self.n_cols) by (nonlinear_arith);
            }
            let start = self.curr_row * self.n_cols;
            let end = start + self.n_cols;
            self.curr_row = self.curr_row + 1;
            Some(slice_subrange(self.data, start, end))
        }
    }
}

/// iterator over vector columns, left to right
pub struct V2Cols<'a, T> {
    curr_col: usize,
    n_rows: usize,
    n_cols: usize,
    data: &'a [T],
}

impl<'a, T> V2Cols<'a, T> {
    /// The flat, row-major contents of the vector being walked.
    pub closed spec fn data_seq(self) -> Seq<T> {
        self.data@
    }

    /// The column the cursor stands on.
    pub closed spec fn cur_col(self) -> int {
        self.curr_col as int
    }

    /// The number of rows per column.
    pub closed spec fn row_count(self) -> int {
        self.n_rows as int
    }

    /// The number of columns being walked.
    pub closed spec fn col_count(self) -> int {
        self.n_cols as int
    }

    /// The walked data is the flat contents of a grid of the stated shape,
    /// and the cursor never runs past the last column.
    #[verifier::type_invariant]
    pub open spec fn wf(self) -> bool {
        self.data_seq().len() == self.row_count() * self.col_count() && self.cur_col()
            <= self.col_count()
    }

    /// A fresh walk over the columns of a grid whose flat, row-major
    /// contents are `data`.
    pub fn new(data: &'a [T], n_rows: usize, n_cols: usize) -> (r: Self)
        requires
            data@.len() == n_rows * n_cols,
        ensures
            r.data_seq() == data@,
            r.cur_col() == 0,
            r.row_count() == n_rows,
            r.col_count() == n_cols,
    {
        Self { data, curr_col: 0, n_rows, n_cols }
    }

    /// Yield the next column, top to bottom, as references to the one
    /// element it holds in each row; columns are not contiguous in row-major
    /// storage, so the column is reconstructed element by element.
    pub fn next(&mut self) -> (r: Option<Vec<&'a T>>)
        ensures
            final(self).data_seq() == old(self).data_seq(),
            final(self).row_count() == old(self).row_count(),
            final(self).col_count() == old(self).col_count(),
            r is Some <==> old(self).cur_col() < old(self).col_count(),
            r is None ==> final(self).cur_col() == old(self).cur_col(),
            r is Some ==> final(self).cur_col() == old(self).cur_col() + 1,
            r matches Some(v) ==> v@.len() == old(self).row_count() && forall|j: int|
                0 <= j < v@.len() ==> *(#[trigger] v@[j]) == old(self).data_seq()[j * old(
                    self,
                ).col_count() + old(self).cur_col()],
    {
        proof {
            use_type_invariant(&*self);
        }
        // the length, a usize, bounds the flat offsets used below, so their
        // arithmetic cannot overflow
        let _len = self.data.len();
        if self.curr_col == self.n_cols {
            None
        } else {
            let mut v: Vec<&'a T> = Vec::new();
            let col = self.curr_col;
            let nr = self.n_rows;
            let nc = self.n_cols;
            let mut row_ix: usize = 0;
            #[verifier::loop_isolation(false)]
            while row_ix < nr
                invariant
                    row_ix <= nr,
                    v@.len() == row_ix,
                    forall|j: int|
                        0 <= j < v@.len() ==> *(#[trigger] v@[j]) == self.data_seq()[j * nc + col],
                decreases nr - row_ix,
            {
                proof {
                    assert(row_ix * nc + col < nr * nc) by (nonlinear_arith)
                        requires
                            0 <= row_ix < nr,
                            0 <= col < nc,
                    ;
                }
                let i = row_ix * nc + col;
                v.push(slice_index_get(self.data, i));
                row_ix = row_ix + 1;
            }
            self.curr_col = col + 1;
            Some(v)
        }
    }
}

/// iterator over neighbors
///
/// delegates to the coordinate neighbor walk and maps each yielded position
/// to its stored value
pub struct V2Neighbors<'a, T> {
    data: &'a [T],
    inner: Ix2Neighbors,
}

impl<'a, T> V2Neighbors<'a, T> {
    /// The flat, row-major contents of the vector being walked.
    pub closed spec fn data_seq(self) -> Seq<T> {
        self.data@
    }

    /// The coordinate walk this iterator follows.
    pub closed spec fn walk(self) -> Ix2Neighbors {
        self.inner
    }

    /// The walked data is the flat contents of a grid of the center's shape.
    pub open spec fn wf(self) -> bool {
        self.data_seq().len() == self.walk().start().row_bound() * self.walk().start().col_bound()
    }

    /// The neighboring values this iterator has yet to yield, in the
    /// eight-way visitation order.
    pub open spec fn items(self) -> Seq<T> {
        self.walk().items().map_values(
            |p: (int, int)|
                self.data_seq()[p.0 * self.walk().start().col_bound() + p.1],
        )
    }

    fn new(data: &'a [T], start: BoundedIx2) -> (r: Self)
        requires
            data@.len() == start.row_bound() * start.col_bound(),
        ensures
            r.wf(),
            r.data_seq() == data@,
            r.walk().start() == start,
            r.walk().cursor() == 0,
    {
        Self { data, inner: Ix2Neighbors::new(start) }
    }

    /// Yield the next in-bounds neighboring value, skipping the directions
    /// that step off the grid.
    pub fn next(&mut self) -> (r: Option<&'a T>)
        requires
            old(self).wf(),
        ensures
            final(self).wf(),
            final(self).data_seq() == old(self).data_seq(),
            final(self).walk().start() == old(self).walk().start(),
            r is Some <==> old(self).items().len() > 0,
            old(self).items().len() == 0 ==> final(self).items() == old(self).items(),
            old(self).items().len() > 0 ==> final(self).items() == old(self).items().drop_first(),
            r matches Some(v) ==> *v == old(self).items()[0],
    {
        // the length, a usize, bounds the flat offsets used below, so their
        // arithmetic cannot overflow
        let _len = self.data.len();
        let res = self.inner.next();
        match res {
            Some(c) => {
                proof {
                    use_type_invariant(&c);
                    lemma_flat_bound(c);
                    assert(self.items() =~= old(self).items().drop_first());
                }
                let i = c.as_usize();
                Some(slice_index_get(self.data, i))
            },
            None => None,
        }
    }
}

/// iterator over cardinal neighbors
///
/// delegates to the coordinate cardinal walk and maps each yielded position
/// to its stored value
pub struct V2CardinalNeighbors<'a, T> {
    data: &'a [T],
    inner: Ix2CardinalNeighbors,
}

impl<'a, T> V2CardinalNeighbors<'a, T> {
    /// The flat, row-major contents of the vector being walked.
    pub closed spec fn data_seq(self) -> Seq<T> {
        self.data@
    }

    /// The coordinate walk this iterator follows.
    pub closed spec fn walk(self) -> Ix2CardinalNeighbors {
        self.inner
    }

    /// The walked data is the flat contents of a grid of the center's shape.
    pub open spec fn wf(self) -> bool {
        self.data_seq().len() == self.walk().start().row_bound() * self.walk().start().col_bound()
    }

    /// The cardinal neighboring values this iterator has yet to yield, in
    /// north, east, south, west order.
    pub open spec fn items(self) -> Seq<T> {
        self.walk().items().map_values(
            |p: (int, int)|
                self.data_seq()[p.0 * self.walk().start().col_bound() + p.1],
        )
    }

    /// A fresh walk over the in-bounds cardinal neighboring values of
    /// `start` within the flat, row-major contents `data`.
    pub fn new(data: &'a [T], start: BoundedIx2) -> (r: Self)
        requires
            data@.len() == start.row_bound() * start.col_bound(),
        ensures
            r.wf(),
            r.data_seq() == data@,
            r.walk().start() == start,
            r.walk().cursor() == 0,
    {
        Self { data, inner: Ix2CardinalNeighbors::new(start) }
    }

    /// Yield the next in-bounds cardinal neighboring value, skipping the
    /// directions that step off the grid.
    pub fn next(&mut self) -> (r: Option<&'a T>)
        requires
            old(self).wf(),
        ensures
            final(self).wf(),
            final(self).data_seq() == old(self).data_seq(),
            final(self).walk().start() == old(self).walk().start(),
            r is Some <==> old(self).items().len() > 0,
            old(self).items().len() == 0 ==> final(self).items() == old(self).items(),
            old(self).items().len() > 0 ==> final(self).items() == old(self).items().drop_first(),
            r matches Some(v) ==> *v == old(self).items()[0],
    {
        // the length, a usize, bounds the flat offsets used below, so their
        // arithmetic cannot overflow
        let _len = self.data.len();
        let res = self.inner.next();
        match res {
            Some(c) => {
                proof {
                    use_type_invariant(&c);
                    lemma_flat_bound(c);
                    assert(self.items() =~= old(self).items().drop_first());
                }
                let i = c.as_usize();
                Some(slice_index_get(self.data, i))
            },
            None => None,
        }
    }
}

/// iterator over `(index, reference to value)` tuples
pub struct V2Indexed<'a, T> {
    data: &'a [T],
    inner: V2Indices,
}

impl<'a, T> V2Indexed<'a, T> {
    /// The flat, row-major contents of the vector being walked.
    pub closed spec fn data_seq(self) -> Seq<T> {
        self.data@
    }

    /// The coordinate walk this iterator follows.
    pub closed spec fn walk(self) -> V2Indices {
        self.inner
    }

    /// The walked data is the flat contents of a grid of the walked shape.
    pub open spec fn wf(self) -> bool {
        self.data_seq().len() == self.walk().row_count() * self.walk().col_count()
    }

    /// The positions this iterator has yet to pair with their values.
    pub open spec fn index_items(self) -> Seq<(int, int)> {
        self.walk().items()
    }

    fn new(data: &'a [T], n_rows: usize, n_cols: usize) -> (r: Self)
        requires
            data@.len() == n_rows * n_cols,
        ensures
            r.wf(),
            r.data_seq() == data@,
            r.walk().row_count() == n_rows,
            r.walk().col_count() == n_cols,
            r.index_items() == all_indices(n_rows as int, n_cols as int),
    {
        Self { data, inner: V2Indices::new(n_rows, n_cols) }
    }

    /// Yield the next position together with a reference to the value it
    /// addresses, left to right, top to bottom.
    pub fn next(&mut self) -> (r: Option<(BoundedIx2, &'a T)>)
        requires
            old(self).wf(),
        ensures
            final(self).wf(),
            final(self).data_seq() == old(self).data_seq(),
            final(self).walk().row_count() == old(self).walk().row_count(),
            final(self).walk().col_count() == old(self).walk().col_count(),
            r is Some <==> old(self).index_items().len() > 0,
            old(self).index_items().len() == 0 ==> final(self).index_items() == old(
                self,
            ).index_items(),
            old(self).index_items().len() > 0 ==> final(self).index_items() == old(
                self,
            ).index_items().drop_first(),
            r matches Some(p) ==> (p.0.row(), p.0.col()) == old(self).index_items()[0]
                && p.0.row_bound() == old(self).walk().row_count() && p.0.col_bound() == old(
                self,
            ).walk().col_count() && *p.1 == old(self).data_seq()[p.0.flat()],
    {
        // the length, a usize, bounds the flat offsets used below, so their
        // arithmetic cannot overflow
        let _len = self.data.len();
        let res = self.inner.next();
        match res {
            Some(c) => {
                proof {
                    use_type_invariant(&c);
                    lemma_flat_bound(c);
                }
                let i = c.as_usize();
                Some((c, slice_index_get(self.data, i)))
            },
            None => None,
        }
    }
}

} // verus!
