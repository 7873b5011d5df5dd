//! A dense matrix of cells that can be resized in place.

use vstd::prelude::*;
use crate::grid::{
    cell_at, cell_or, clamped, col_count, filled, in_bounds, is_grid, resized, resized_by,
    resized_to, row_count, with_cell,
};
use crate::position::Position;

verus! {

/// Why a matrix operation was refused.
#[derive(Clone, Copy, Debug, PartialEq, Eq, Structural)]
pub enum MatrixError {
    /// The position lies past the last row or the last column.
    OutOfBounds,
}

/// A dense two-dimensional container. `row_count` and `col_count` are the
/// last valid index of each axis, so the matrix holds `row_count + 1` rows of
/// `col_count + 1` cells. Cells that a resize creates hold the matrix's zero.
#[derive(Debug)]
pub struct Matrix<T> {
    row_count: usize,
    col_count: usize,
    cells: Vec<Vec<T>>,
    zero: T,
}

impl<T> View for Matrix<T> {
    type V = Seq<Seq<T>>;

    /// The rows of the matrix, first row first.
    closed spec fn view(&self) -> Seq<Seq<T>> {
        Seq::new(self.cells@.len(), |r: int| self.cells@[r]@)
    }
}

impl<T> Matrix<T> {
    /// The value that cells created by a resize receive.
    pub closed spec fn zero(&self) -> T {
        self.zero
    }

    /// The stored last indices are those of the rows held.
    pub closed spec fn counts_agree(&self) -> bool {
        &&& self.row_count + 1 == self.cells@.len()
        &&& self.col_count + 1 == self.cells@[0]@.len()
    }

    /// The matrix is a grid whose rows and columns the machine can count, and
    /// its stored last indices describe it.
    pub open spec fn wf(&self) -> bool {
        &&& is_grid(self@)
        &&& row_count(self@) < usize::MAX
        &&& col_count(self@) < usize::MAX
        &&& self.counts_agree()
    }
}

impl<T: Copy> Matrix<T> {
    /// A matrix with last indices `count.row` and `count.col` whose every cell
    /// is `zero`.
    pub fn new(count: Position, zero: T) -> (m: Matrix<T>)
        requires
            count.row < usize::MAX,
            count.col < usize::MAX,
        ensures
            m.wf(),
            m@ == filled(count.row as nat, count.col as nat, zero),
            m.zero() == zero,
    {
        let mut cells: Vec<Vec<T>> = Vec::new();
        let mut r: usize = 0;
        while r <= count.row
            invariant
                count.row < usize::MAX,
                count.col < usize::MAX,
                r <= count.row + 1,
                cells@.len() == r,
                forall|i: int| 0 <= i < r ==> (#[trigger] cells@[i])@ == Seq::new(
                    (count.col + 1) as nat,
                    |c: int| zero,
                ),
            decreases count.row + 1 - r,
        {
            let row = zero_row(count.col + 1, zero);
            cells.push(row);
            r += 1;
        }
        let m = Matrix { row_count: count.row, col_count: count.col, cells, zero };
        assert(m@ =~= filled(count.row as nat, count.col as nat, zero));
        m
    }

    /// The last valid row index.
    pub fn row_count(&self) -> (n: usize)
        requires
            self.wf(),
        ensures
            n == row_count(self@),
            n < usize::MAX,
    {
        self.row_count
    }

    /// The last valid column index.
    pub fn col_count(&self) -> (n: usize)
        requires
            self.wf(),
        ensures
            n == col_count(self@),
            n < usize::MAX,
    {
        self.col_count
    }

    /// The last valid index of each axis, as a position: that of the last cell.
    pub fn count(&self) -> (last: Position)
        requires
            self.wf(),
        ensures
            last.row == row_count(self@),
            last.col == col_count(self@),
            last.row < usize::MAX,
            last.col < usize::MAX,
    {
        Position { row: self.row_count(), col: self.col_count() }
    }

    /// Reads the cell at `pos`.
    pub fn get(&self, pos: Position) -> (res: Result<T, MatrixError>)
        requires
            self.wf(),
        ensures
            in_bounds(self@, pos) ==> res == Ok::<T, MatrixError>(cell_at(self@, pos)),
            !in_bounds(self@, pos) ==> res == Err::<T, MatrixError>(MatrixError::OutOfBounds),
    {
        if pos.row > self.row_count || pos.col > self.col_count {
            return Err(MatrixError::OutOfBounds);
        }
        assert(self@[pos.row as int] == self.cells@[pos.row as int]@);
        Ok(self.cells[pos.row][pos.col])
    }

    /// The cell at `pos`, for a position known to lie within the matrix.
    pub(crate) fn at(&self, pos: Position) -> (value: T)
        requires
            self.wf(),
            in_bounds(self@, pos),
        ensures
            value == cell_at(self@, pos),
    {
        assert(self@[pos.row as int] == self.cells@[pos.row as int]@);
        self.cells[pos.row][pos.col]
    }

    /// Whether moving the last indices by `row_delta` and `col_delta` leaves
    /// the number of rows and of columns within what the machine can count.
    pub fn can_resize_by(&self, row_delta: isize, col_delta: isize) -> (ok: bool)
        requires
            self.wf(),
        ensures
            ok == (row_count(self@) + row_delta < usize::MAX && col_count(self@) + col_delta
                < usize::MAX),
    {
        fits(self.row_count, row_delta) && fits(self.col_count, col_delta)
    }

    /// Overwrites the cell at `pos` with `value`; every other cell stays.
    pub fn set(&mut self, pos: Position, value: T) -> (res: Result<(), MatrixError>)
        requires
            old(self).wf(),
        ensures
            final(self).wf(),
            final(self).zero() == old(self).zero(),
            in_bounds(old(self)@, pos) ==> res is Ok && final(self)@ == with_cell(
                old(self)@,
                pos,
                value,
            ),
            !in_bounds(old(self)@, pos) ==> res == Err::<(), MatrixError>(
                MatrixError::OutOfBounds,
            ) && final(self)@ == old(self)@,
    {
        if pos.row > self.row_count || pos.col > self.col_count {
            return Err(MatrixError::OutOfBounds);
        }
        assert(self@[pos.row as int] == self.cells@[pos.row as int]@);
        self.cells[pos.row][pos.col] = value;
        assert(self@ =~= with_cell(old(self)@, pos, value));
        Ok(())
    }

    /// Cuts or grows the matrix at the high-index end of each axis so that its
    /// last indices become `row_count` and `col_count`.
    fn resize(&mut self, row_count: usize, col_count: usize)
        requires
            old(self).wf(),
            row_count < usize::MAX,
            col_count < usize::MAX,
        ensures
            final(self).wf(),
            final(self).zero() == old(self).zero(),
            final(self)@ == resized(
                old(self)@,
                row_count as nat,
                col_count as nat,
                old(self).zero(),
            ),
    {
        let zero = self.zero;
        let ghost before = self@;
        self.cells.truncate(row_count + 1);
        let kept: usize = self.cells.len();
        let mut r: usize = 0;
        while r < kept
            invariant
                col_count < usize::MAX,
                r <= kept,
                kept == self.cells@.len(),
                kept <= before.len(),
                zero == self.zero,
                forall|i: int|
                    0 <= i < r ==> (#[trigger] self.cells@[i])@ == Seq::new(
                        (col_count + 1) as nat,
                        |c: int| cell_or(before, i, c, zero),
                    ),
                forall|i: int| r <= i < kept ==> (#[trigger] self.cells@[i])@ == before[i],
            decreases kept - r,
        {
            fit_row(&mut self.cells[r], col_count + 1, zero);
            assert(self.cells@[r as int]@ =~= Seq::new(
                (col_count + 1) as nat,
                |c: int| cell_or(before, r as int, c, zero),
            ));
            r += 1;
        }
        while self.cells.len() <= row_count
            invariant
                row_count < usize::MAX,
                col_count < usize::MAX,
                kept <= self.cells@.len() <= row_count + 1,
                before.len() <= kept || kept == row_count + 1,
                zero == self.zero,
                forall|i: int|
                    0 <= i < self.cells@.len() ==> (#[trigger] self.cells@[i])@ == Seq::new(
                        (col_count + 1) as nat,
                        |c: int| cell_or(before, i, c, zero),
                    ),
            decreases row_count + 1 - self.cells@.len(),
        {
            let ghost at = self.cells@.len() as int;
            let row = zero_row(col_count + 1, zero);
            assert(row@ =~= Seq::new((col_count + 1) as nat, |c: int| cell_or(before, at, c, zero)));
            self.cells.push(row);
        }
        self.row_count = row_count;
        self.col_count = col_count;
        assert(self@ =~= resized(before, row_count as nat, col_count as nat, zero));
    }

    /// Sets the last indices to `new_row_count` and `new_col_count`, a
    /// negative request counting as zero. Rows and columns are dropped or
    /// added at the high-index end: a cell that stays keeps its value, a cell
    /// that is added holds the matrix's zero.
    pub fn resize_to_absolute(&mut self, new_row_count: isize, new_col_count: isize)
        requires
            old(self).wf(),
        ensures
            final(self).wf(),
            final(self).zero() == old(self).zero(),
            final(self)@ == resized_to(
                old(self)@,
                new_row_count as int,
                new_col_count as int,
                old(self).zero(),
            ),
            row_count(final(self)@) == clamped(0, new_row_count as int),
            col_count(final(self)@) == clamped(0, new_col_count as int),
    {
        let rows: usize = offset_count(0, new_row_count);
        let cols: usize = offset_count(0, new_col_count);
        self.resize(rows, cols);
    }

    /// Moves the last indices by `row_delta` and `col_delta`, neither going
    /// below zero. Rows and columns are dropped or added at the high-index
    /// end: a cell that stays keeps its value, a cell that is added holds the
    /// matrix's zero.
    pub fn resize_by_delta(&mut self, row_delta: isize, col_delta: isize)
        requires
            old(self).wf(),
            row_count(old(self)@) + row_delta < usize::MAX,
            col_count(old(self)@) + col_delta < usize::MAX,
        ensures
            final(self).wf(),
            final(self).zero() == old(self).zero(),
            final(self)@ == resized_by(
                old(self)@,
                row_delta as int,
                col_delta as int,
                old(self).zero(),
            ),
            row_count(final(self)@) == clamped(row_count(old(self)@), row_delta as int),
            col_count(final(self)@) == clamped(col_count(old(self)@), col_delta as int),
    {
        let rows: usize = offset_count(self.row_count, row_delta);
        let cols: usize = offset_count(self.col_count, col_delta);
        self.resize(rows, cols);
    }
}

impl<T: Copy> Clone for Matrix<T> {
    /// A copy with a backing store of its own: the same cells and the same
    /// zero.
    fn clone(&self) -> (copy: Self)
        ensures
            copy@ == self@,
            copy.zero() == self.zero(),
            self.wf() ==> copy.wf(),
    {
        let mut cells: Vec<Vec<T>> = Vec::new();
        let mut r: usize = 0;
        while r < self.cells.len()
            invariant
                r <= self.cells@.len(),
                cells@.len() == r,
                forall|i: int| 0 <= i < r ==> (#[trigger] cells@[i])@ == self.cells@[i]@,
            decreases self.cells@.len() - r,
        {
            let row = copy_row(&self.cells[r]);
            cells.push(row);
            r += 1;
        }
        let copy = Matrix {
            row_count: self.row_count,
            col_count: self.col_count,
            cells,
            zero: self.zero,
        };
        assert(copy@ =~= self@);
        copy
    }
}

/// A copy of `row`.
fn copy_row<T: Copy>(row: &Vec<T>) -> (copy: Vec<T>)
    ensures
        copy@ == row@,
{
    let mut copy: Vec<T> = Vec::new();
    let mut c: usize = 0;
    while c < row.len()
        invariant
            c <= row@.len(),
            copy@.len() == c,
            forall|i: int| 0 <= i < c ==> copy@[i] == row@[i],
        decreases row@.len() - c,
    {
        copy.push(row[c]);
        c += 1;
    }
    assert(copy@ =~= row@);
    copy
}

/// Whether `count` moved by `delta` stays below the largest `usize`.
fn fits(count: usize, delta: isize) -> (ok: bool)
    ensures
        ok == (count + delta < usize::MAX),
{
    delta < 0 || (delta as usize) < usize::MAX - count
}

/// `count` moved by `delta`, stopping at zero.
fn offset_count(count: usize, delta: isize) -> (n: usize)
    requires
        count + delta < usize::MAX,
    ensures
        n == clamped(count as nat, delta as int),
        n < usize::MAX,
{
    if delta >= 0 {
        count + (delta as usize)
    } else {
        let back: usize = (-(delta + 1)) as usize + 1;
        if back > count {
            0
        } else {
            count - back
        }
    }
}

/// Cuts or grows `row` at its end to `len` cells; added cells are `zero`.
fn fit_row<T: Copy>(row: &mut Vec<T>, len: usize, zero: T)
    ensures
        final(row)@.len() == len,
        forall|c: int|
            0 <= c < len ==> #[trigger] final(row)@[c] == if c < old(row)@.len() {
                old(row)@[c]
            } else {
                zero
            },
{
    row.truncate(len);
    while row.len() < len
        invariant
            row@.len() <= len,
            old(row)@.len() <= row@.len() || row@.len() == len,
            forall|c: int|
                0 <= c < row@.len() ==> #[trigger] row@[c] == if c < old(row)@.len() {
                    old(row)@[c]
                } else {
                    zero
                },
        decreases len - row@.len(),
    {
        row.push(zero);
    }
}

/// A row of `len` cells, each `zero`.
fn zero_row<T: Copy>(len: usize, zero: T) -> (row: Vec<T>)
    ensures
        row@ == Seq::new(len as nat, |c: int| zero),
{
    let mut row: Vec<T> = Vec::new();
    let mut c: usize = 0;
    while c < len
        invariant
            c <= len,
            row@.len() == c,
            forall|i: int| 0 <= i < c ==> row@[i] == zero,
        decreases len - c,
    {
        row.push(zero);
        c += 1;
    }
    assert(row@ =~= Seq::new(len as nat, |c: int| zero));
    row
}

} // verus!
