//! Bounds-checked two-dimensional index type.
use vstd::prelude::*;

verus! {

/// A position inside a grid of `n_rows` by `n_cols` cells.
///
/// Every live value satisfies `row_ix < n_rows && col_ix < n_cols`: the only
/// public constructors validate their arguments, and the directional steps
/// re-validate, so an out-of-range position can never materialize.
#[derive(Debug, Clone, Copy, PartialEq, Eq, Structural, Ord)]
pub struct BoundedIx2 {
    /// y-coordinate
    row_ix: usize,
    /// x-coordinate
    col_ix: usize,
    /// number of rows in the grid this position lies in
    n_rows: usize,
    /// number of columns in the grid this position lies in
    n_cols: usize,
}

impl BoundedIx2 {
    /// The invariant every live position satisfies: it lies inside its
    /// bounds.
    #[verifier::type_invariant]
    pub open spec fn in_bounds(self) -> bool {
        0 <= self.row() < self.row_bound() && 0 <= self.col() < self.col_bound()
    }

    /// The row index, as a mathematical integer.
    pub closed spec fn row(self) -> int {
        self.row_ix as int
    }

    /// The column index, as a mathematical integer.
    pub closed spec fn col(self) -> int {
        self.col_ix as int
    }

    /// The row count of the grid this position belongs to.
    pub closed spec fn row_bound(self) -> int {
        self.n_rows as int
    }

    /// The column count of the grid this position belongs to.
    pub closed spec fn col_bound(self) -> int {
        self.n_cols as int
    }

    /// The flat, row-major offset this position addresses.
    pub open spec fn flat(self) -> int {
        self.row() * self.col_bound() + self.col()
    }

    /// True when another position lies in a grid of the same shape.
    pub open spec fn same_bounds(self, other: BoundedIx2) -> bool {
        self.row_bound() == other.row_bound() && self.col_bound() == other.col_bound()
    }

    /// There is a row above this one.
    pub open spec fn has_north(self) -> bool {
        self.row() > 0
    }

    /// There is a row below this one.
    pub open spec fn has_south(self) -> bool {
        self.row() + 1 < self.row_bound()
    }

    /// There is a column to the right of this one.
    pub open spec fn has_east(self) -> bool {
        self.col() + 1 < self.col_bound()
    }

    /// There is a column to the left of this one.
    pub open spec fn has_west(self) -> bool {
        self.col() > 0
    }

    /// The position up and to the right exists.
    pub open spec fn has_northeast(self) -> bool {
        self.has_north() && self.has_east()
    }

    /// The position up and to the left exists.
    pub open spec fn has_northwest(self) -> bool {
        self.has_north() && self.has_west()
    }

    /// The position down and to the right exists.
    pub open spec fn has_southeast(self) -> bool {
        self.has_south() && self.has_east()
    }

    /// The position down and to the left exists.
    pub open spec fn has_southwest(self) -> bool {
        self.has_south() && self.has_west()
    }

    /// The smallest position of an `n_rows` by `n_cols` grid: `(0, 0)`.
    pub fn min(n_rows: usize, n_cols: usize) -> (r: Self)
        requires
            n_rows > 0,
            n_cols > 0,
        ensures
            r.row() == 0,
            r.col() == 0,
            r.row_bound() == n_rows,
            r.col_bound() == n_cols,
    {
        Self { row_ix: 0, col_ix: 0, n_rows, n_cols }
    }

    /// The largest position of an `n_rows` by `n_cols` grid:
    /// `(n_rows - 1, n_cols - 1)`.
    pub fn max(n_rows: usize, n_cols: usize) -> (r: Self)
        requires
            n_rows > 0,
            n_cols > 0,
        ensures
            r.row() == n_rows - 1,
            r.col() == n_cols - 1,
            r.row_bound() == n_rows,
            r.col_bound() == n_cols,
    {
        Self { row_ix: n_rows - 1, col_ix: n_cols - 1, n_rows, n_cols }
    }

    /// Validated constructor: succeeds exactly when `(row_ix, col_ix)` lies
    /// inside an `n_rows` by `n_cols` grid.
    pub fn new(n_rows: usize, n_cols: usize, row_ix: usize, col_ix: usize) -> (r: Option<Self>)
        ensures
            r is Some <==> row_ix < n_rows && col_ix < n_cols,
            r matches Some(c) ==> c.row() == row_ix && c.col() == col_ix && c.row_bound()
                == n_rows && c.col_bound() == n_cols,
    {
        if col_ix < n_cols && row_ix < n_rows {
            Some(Self { row_ix, col_ix, n_rows, n_cols })
        } else {
            None
        }
    }

    /// x-coordinate
    pub fn x(&self) -> (r: usize)
        ensures
            r == self.col(),
    {
        self.col_ix
    }

    /// y-coordinate
    pub fn y(&self) -> (r: usize)
        ensures
            r == self.row(),
    {
        self.row_ix
    }

    /// convert to 1d index
    pub fn as_usize(&self) -> (r: usize)
        requires
            self.flat() <= usize::MAX,
        ensures
            r == self.flat(),
    {
        self.row_ix * self.n_cols + self.col_ix
    }

    /// increase row by 1, returning `None` if out of bounds
    pub fn inc_row(&self) -> (r: Option<Self>)
        ensures
            r is Some <==> self.has_south(),
            r matches Some(c) ==> c.row() == self.row() + 1 && c.col() == self.col()
                && c.same_bounds(*self),
    {
        proof {
            use_type_invariant(&*self);
        }
        if self.row_ix + 1 < self.n_rows {
            Some(Self { row_ix: self.row_ix + 1, col_ix: self.col_ix, n_rows: self.n_rows, n_cols: self.n_cols })
        } else {
            None
        }
    }

    /// increase col by 1, returning `None` if out of bounds
    pub fn inc_col(&self) -> (r: Option<Self>)
        ensures
            r is Some <==> self.has_east(),
            r matches Some(c) ==> c.row() == self.row() && c.col() == self.col() + 1
                && c.same_bounds(*self),
    {
        proof {
            use_type_invariant(&*self);
        }
        if self.col_ix + 1 < self.n_cols {
            Some(Self { row_ix: self.row_ix, col_ix: self.col_ix + 1, n_rows: self.n_rows, n_cols: self.n_cols })
        } else {
            None
        }
    }

    /// decrease row by 1, returning `None` if out of bounds
    pub fn dec_row(&self) -> (r: Option<Self>)
        ensures
            r is Some <==> self.has_north(),
            r matches Some(c) ==> c.row() == self.row() - 1 && c.col() == self.col()
                && c.same_bounds(*self),
    {
        proof {
            use_type_invariant(&*self);
        }
        if self.row_ix == 0 {
            None
        } else {
            Some(Self { row_ix: self.row_ix - 1, col_ix: self.col_ix, n_rows: self.n_rows, n_cols: self.n_cols })
        }
    }

    /// decrease col by 1, returning `None` if out of bounds
    pub fn dec_col(&self) -> (r: Option<Self>)
        ensures
            r is Some <==> self.has_west(),
            r matches Some(c) ==> c.row() == self.row() && c.col() == self.col() - 1
                && c.same_bounds(*self),
    {
        proof {
            use_type_invariant(&*self);
        }
        if self.col_ix == 0 {
            None
        } else {
            Some(Self { row_ix: self.row_ix, col_ix: self.col_ix - 1, n_rows: self.n_rows, n_cols: self.n_cols })
        }
    }

    /// decrease row by 1, returning `None` if out of bounds
    pub fn north(&self) -> (r: Option<Self>)
        ensures
            r is Some <==> self.has_north(),
            r matches Some(c) ==> c.row() == self.row() - 1 && c.col() == self.col()
                && c.same_bounds(*self),
    {
        self.dec_row()
    }

    /// increase row by 1, returning `None` if out of bounds
    pub fn south(&self) -> (r: Option<Self>)
        ensures
            r is Some <==> self.has_south(),
            r matches Some(c) ==> c.row() == self.row() + 1 && c.col() == self.col()
                && c.same_bounds(*self),
    {
        self.inc_row()
    }

    /// increase col by 1, returning `None` if out of bounds
    pub fn east(&self) -> (r: Option<Self>)
        ensures
            r is Some <==> self.has_east(),
            r matches Some(c) ==> c.row() == self.row() && c.col() == self.col() + 1
                && c.same_bounds(*self),
    {
        self.inc_col()
    }

    /// decrease col by 1, returning `None` if out of bounds
    pub fn west(&self) -> (r: Option<Self>)
        ensures
            r is Some <==> self.has_west(),
            r matches Some(c) ==> c.row() == self.row() && c.col() == self.col() - 1
                && c.same_bounds(*self),
    {
        self.dec_col()
    }

    /// decrease row by 1 and increase col by 1, returning `None` if out of bounds
    pub fn northeast(&self) -> (r: Option<Self>)
        ensures
            r is Some <==> self.has_northeast(),
            r matches Some(c) ==> c.row() == self.row() - 1 && c.col() == self.col() + 1
                && c.same_bounds(*self),
    {
        match self.dec_row() {
            Some(i) => i.inc_col(),
            None => None,
        }
    }

    /// decrease row by 1 and decrease col by 1, returning `None` if out of bounds
    pub fn northwest(&self) -> (r: Option<Self>)
        ensures
            r is Some <==> self.has_northwest(),
            r matches Some(c) ==> c.row() == self.row() - 1 && c.col() == self.col() - 1
                && c.same_bounds(*self),
    {
        match self.dec_row() {
            Some(i) => i.dec_col(),
            None => None,
        }
    }

    /// increase row by 1 and increase col by 1, returning `None` if out of bounds
    pub fn southeast(&self) -> (r: Option<Self>)
        ensures
            r is Some <==> self.has_southeast(),
            r matches Some(c) ==> c.row() == self.row() + 1 && c.col() == self.col() + 1
                && c.same_bounds(*self),
    {
        match self.inc_row() {
            Some(i) => i.inc_col(),
            None => None,
        }
    }

    /// increase row by 1 and decrease col by 1, returning `None` if out of bounds
    pub fn southwest(&self) -> (r: Option<Self>)
        ensures
            r is Some <==> self.has_southwest(),
            r matches Some(c) ==> c.row() == self.row() + 1 && c.col() == self.col() - 1
                && c.same_bounds(*self),
    {
        match self.inc_row() {
            Some(i) => i.dec_col(),
            None => None,
        }
    }
}

impl vstd::std_specs::cmp::PartialOrdSpecImpl for BoundedIx2 {
    open spec fn obeys_partial_cmp_spec() -> bool {
        true
    }

    open spec fn partial_cmp_spec(&self, other: &Self) -> Option<core::cmp::Ordering> {
        if self.row() != other.row() {
            if self.row() < other.row() {
                Some(core::cmp::Ordering::Less)
            } else {
                Some(core::cmp::Ordering::Greater)
            }
        } else if self.col() != other.col() {
            if self.col() < other.col() {
                Some(core::cmp::Ordering::Less)
            } else {
                Some(core::cmp::Ordering::Greater)
            }
        } else if self.row_bound() != other.row_bound() {
            if self.row_bound() < other.row_bound() {
                Some(core::cmp::Ordering::Less)
            } else {
                Some(core::cmp::Ordering::Greater)
            }
        } else if self.col_bound() != other.col_bound() {
            if self.col_bound() < other.col_bound() {
                Some(core::cmp::Ordering::Less)
            } else {
                Some(core::cmp::Ordering::Greater)
            }
        } else {
            Some(core::cmp::Ordering::Equal)
        }
    }
}

/// Row-major ordering: positions compare by row first, then by column; the
/// bounds only break ties between positions taken from grids of different
/// shapes.
impl PartialOrd for BoundedIx2 {
    fn partial_cmp(&self, other: &Self) -> (r: Option<core::cmp::Ordering>) {
        if self.row_ix != other.row_ix {
            if self.row_ix < other.row_ix {
                Some(core::cmp::Ordering::Less)
            } else {
                Some(core::cmp::Ordering::Greater)
            }
        } else if self.col_ix != other.col_ix {
            if self.col_ix < other.col_ix {
                Some(core::cmp::Ordering::Less)
            } else {
                Some(core::cmp::Ordering::Greater)
            }
        } else if self.n_rows != other.n_rows {
            if self.n_rows < other.n_rows {
                Some(core::cmp::Ordering::Less)
            } else {
                Some(core::cmp::Ordering::Greater)
            }
        } else if self.n_cols != other.n_cols {
            if self.n_cols < other.n_cols {
                Some(core::cmp::Ordering::Less)
            } else {
                Some(core::cmp::Ordering::Greater)
            }
        } else {
            Some(core::cmp::Ordering::Equal)
        }
    }
}

/// A valid position always maps in-range: its flat offset lies strictly
/// below `row_bound * col_bound`, the length of the backing storage of a
/// grid of that shape.
pub proof fn lemma_flat_bound(c: BoundedIx2)
    requires
        c.in_bounds(),
    ensures
        0 <= c.flat() < c.row_bound() * c.col_bound(),
{
    assert(0 <= c.row() * c.col_bound() + c.col() < c.row_bound() * c.col_bound())
        by (nonlinear_arith)
        requires
            0 <= c.row() < c.row_bound(),
            0 <= c.col() < c.col_bound(),
    ;
}

/// At the edges of the grid, every step that would leave the valid range is
/// unavailable: in the top row nothing lies north, northeast or northwest; in
/// the bottom row nothing lies south, southeast or southwest; and the
/// symmetric laws hold for the leftmost and rightmost columns.
pub proof fn lemma_boundary_steps(c: BoundedIx2)
    ensures
        c.row() == 0 ==> !c.has_north() && !c.has_northeast() && !c.has_northwest(),
        c.row() == c.row_bound() - 1 ==> !c.has_south() && !c.has_southeast()
            && !c.has_southwest(),
        c.col() == 0 ==> !c.has_west() && !c.has_northwest() && !c.has_southwest(),
        c.col() == c.col_bound() - 1 ==> !c.has_east() && !c.has_northeast()
            && !c.has_southeast(),
{
}

} // verus!
