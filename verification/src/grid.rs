//! The mathematical model of a matrix: a sequence of rows of cells, and what
//! writing one cell and resizing do to it.

use vstd::prelude::*;
use crate::position::Position;

verus! {

/// A grid has at least one row, and every row has the same length, which is
/// at least one.
pub open spec fn is_grid<T>(g: Seq<Seq<T>>) -> bool {
    &&& g.len() >= 1
    &&& g[0].len() >= 1
    &&& forall|r: int| 0 <= r < g.len() ==> (#[trigger] g[r]).len() == g[0].len()
}

/// The last valid row index of `g`.
pub open spec fn row_count<T>(g: Seq<Seq<T>>) -> nat {
    (g.len() - 1) as nat
}

/// The last valid column index of `g`.
pub open spec fn col_count<T>(g: Seq<Seq<T>>) -> nat {
    (g[0].len() - 1) as nat
}

/// Whether `pos` names a cell of `g`.
pub open spec fn in_bounds<T>(g: Seq<Seq<T>>, pos: Position) -> bool {
    pos.row <= row_count(g) && pos.col <= col_count(g)
}

/// The cell of `g` at `pos`.
pub open spec fn cell_at<T>(g: Seq<Seq<T>>, pos: Position) -> T {
    g[pos.row as int][pos.col as int]
}

/// The grid with last indices `row_count` and `col_count` whose every cell is
/// `zero`.
pub open spec fn filled<T>(row_count: nat, col_count: nat, zero: T) -> Seq<Seq<T>> {
    Seq::new(row_count + 1, |r: int| Seq::new(col_count + 1, |c: int| zero))
}

/// `g` with the cell at `pos` overwritten by `value`.
pub open spec fn with_cell<T>(g: Seq<Seq<T>>, pos: Position, value: T) -> Seq<Seq<T>> {
    g.update(pos.row as int, g[pos.row as int].update(pos.col as int, value))
}

/// The cell of `g` at row `r` and column `c` where there is one, else `zero`.
pub open spec fn cell_or<T>(g: Seq<Seq<T>>, r: int, c: int, zero: T) -> T {
    if 0 <= r < g.len() && 0 <= c < g[r].len() {
        g[r][c]
    } else {
        zero
    }
}

/// `g` cut or grown at the high-index end of each axis to the last indices
/// `row_count` and `col_count`: a cell that `g` has keeps its place and value,
/// every other cell is `zero`.
pub open spec fn resized<T>(g: Seq<Seq<T>>, row_count: nat, col_count: nat, zero: T) -> Seq<
    Seq<T>,
> {
    Seq::new(row_count + 1, |r: int| Seq::new(col_count + 1, |c: int| cell_or(g, r, c, zero)))
}

/// `count` moved by `delta`, stopping at zero.
pub open spec fn clamped(count: nat, delta: int) -> nat {
    if count + delta < 0 {
        0
    } else {
        (count + delta) as nat
    }
}

/// `g` resized by a signed change of each last index.
pub open spec fn resized_by<T>(g: Seq<Seq<T>>, row_delta: int, col_delta: int, zero: T) -> Seq<
    Seq<T>,
> {
    resized(g, clamped(row_count(g), row_delta), clamped(col_count(g), col_delta), zero)
}

/// `g` resized to requested last indices, a negative request counting as zero.
pub open spec fn resized_to<T>(g: Seq<Seq<T>>, rows: int, cols: int, zero: T) -> Seq<Seq<T>> {
    resized(g, clamped(0, rows), clamped(0, cols), zero)
}

/// Writing a cell and reading it back gives what was written; the grid keeps
/// its shape and every other cell keeps its value.
pub proof fn lemma_set_then_get<T>(g: Seq<Seq<T>>, pos: Position, value: T)
    requires
        is_grid(g),
        in_bounds(g, pos),
    ensures
        is_grid(with_cell(g, pos, value)),
        row_count(with_cell(g, pos, value)) == row_count(g),
        col_count(with_cell(g, pos, value)) == col_count(g),
        cell_at(with_cell(g, pos, value), pos) == value,
        forall|other: Position|
            in_bounds(g, other) && other != pos ==> cell_at(with_cell(g, pos, value), other)
                == cell_at(g, other),
{
    let after = with_cell(g, pos, value);
    assert(forall|r: int| 0 <= r < after.len() ==> (#[trigger] after[r]).len() == g[r].len());
    assert(after[0].len() == g[0].len());
}

/// A resized grid is a grid with the last indices asked for. Each of its
/// cells that the grid had before holds the value it held there, and each
/// other cell holds `zero`.
pub proof fn lemma_resized_cells<T>(g: Seq<Seq<T>>, rows: nat, cols: nat, zero: T)
    requires
        is_grid(g),
    ensures
        is_grid(resized(g, rows, cols, zero)),
        row_count(resized(g, rows, cols, zero)) == rows,
        col_count(resized(g, rows, cols, zero)) == cols,
        forall|pos: Position|
            in_bounds(resized(g, rows, cols, zero), pos) ==> cell_at(
                resized(g, rows, cols, zero),
                pos,
            ) == if in_bounds(g, pos) {
                cell_at(g, pos)
            } else {
                zero
            },
{
    let after = resized(g, rows, cols, zero);
    assert forall|pos: Position| in_bounds(after, pos) implies cell_at(after, pos) == if in_bounds(
        g,
        pos,
    ) {
        cell_at(g, pos)
    } else {
        zero
    } by {
        if pos.row < g.len() {
            assert(g[pos.row as int].len() == g[0].len());
        }
    }
}

/// Neither kind of resize gives a negative last index, however far below
/// zero the request goes: the index stops at zero.
pub proof fn lemma_resize_never_negative<T>(g: Seq<Seq<T>>, rows: int, cols: int, zero: T)
    requires
        is_grid(g),
    ensures
        is_grid(resized_by(g, rows, cols, zero)),
        row_count(resized_by(g, rows, cols, zero)) == clamped(row_count(g), rows) >= 0,
        col_count(resized_by(g, rows, cols, zero)) == clamped(col_count(g), cols) >= 0,
        row_count(g) + rows <= 0 ==> row_count(resized_by(g, rows, cols, zero)) == 0,
        col_count(g) + cols <= 0 ==> col_count(resized_by(g, rows, cols, zero)) == 0,
        is_grid(resized_to(g, rows, cols, zero)),
        row_count(resized_to(g, rows, cols, zero)) == clamped(0, rows) >= 0,
        col_count(resized_to(g, rows, cols, zero)) == clamped(0, cols) >= 0,
        rows <= 0 ==> row_count(resized_to(g, rows, cols, zero)) == 0,
        cols <= 0 ==> col_count(resized_to(g, rows, cols, zero)) == 0,
{
    lemma_resized_cells(g, clamped(row_count(g), rows), clamped(col_count(g), cols), zero);
    lemma_resized_cells(g, clamped(0, rows), clamped(0, cols), zero);
}

/// A resize by nothing changes nothing, however often it is repeated. So
/// does a shrink of a grid that has one row and one column left.
pub proof fn lemma_resize_noop<T>(g: Seq<Seq<T>>, rows: int, cols: int, zero: T)
    requires
        is_grid(g),
        rows == 0 || (rows < 0 && row_count(g) == 0),
        cols == 0 || (cols < 0 && col_count(g) == 0),
    ensures
        resized_by(g, rows, cols, zero) == g,
{
    let after = resized_by(g, rows, cols, zero);
    assert forall|r: int| 0 <= r < g.len() implies #[trigger] after[r] =~= g[r] by {
        assert(g[r].len() == g[0].len());
    }
    assert(after =~= g);
}

/// Growing a grid and then shrinking it by the same amounts gives the grid
/// back: the last indices are what they were, and so is every cell. The
/// cells that the growth added are gone.
pub proof fn lemma_grow_then_shrink<T>(g: Seq<Seq<T>>, rows: nat, cols: nat, zero: T)
    requires
        is_grid(g),
    ensures
        resized_by(resized_by(g, rows as int, cols as int, zero), -rows, -cols, zero) == g,
{
    let grown = resized_by(g, rows as int, cols as int, zero);
    let back = resized_by(grown, -rows, -cols, zero);
    lemma_resized_cells(g, row_count(g) + rows, col_count(g) + cols, zero);
    assert(back.len() == g.len());
    assert forall|r: int| 0 <= r < g.len() implies #[trigger] back[r] =~= g[r] by {
        assert(g[r].len() == g[0].len());
        assert(grown[r].len() == grown[0].len());
        assert forall|c: int| 0 <= c < g[r].len() implies back[r][c] == g[r][c] by {
            assert(back[r][c] == cell_or(grown, r, c, zero));
            assert(grown[r][c] == cell_or(g, r, c, zero));
        }
    }
    assert(back =~= g);
}

/// Shrinking a grid and then growing it by the same amounts gives back the
/// last indices and the cells that survived the shrink; the cells that it
/// dropped come back as `zero`.
pub proof fn lemma_shrink_then_grow<T>(g: Seq<Seq<T>>, rows: nat, cols: nat, zero: T)
    requires
        is_grid(g),
        rows <= row_count(g),
        cols <= col_count(g),
    ensures
        is_grid(resized_by(resized_by(g, -rows, -cols, zero), rows as int, cols as int, zero)),
        row_count(resized_by(resized_by(g, -rows, -cols, zero), rows as int, cols as int, zero))
            == row_count(g),
        col_count(resized_by(resized_by(g, -rows, -cols, zero), rows as int, cols as int, zero))
            == col_count(g),
        forall|pos: Position|
            in_bounds(g, pos) ==> cell_at(
                resized_by(resized_by(g, -rows, -cols, zero), rows as int, cols as int, zero),
                pos,
            ) == if pos.row <= row_count(g) - rows && pos.col <= col_count(g) - cols {
                cell_at(g, pos)
            } else {
                zero
            },
{
    let shrunk = resized_by(g, -rows, -cols, zero);
    let back = resized_by(shrunk, rows as int, cols as int, zero);
    lemma_resized_cells(g, (row_count(g) - rows) as nat, (col_count(g) - cols) as nat, zero);
    lemma_resized_cells(shrunk, row_count(g), col_count(g), zero);
    assert forall|pos: Position| in_bounds(g, pos) implies cell_at(back, pos) == if pos.row
        <= row_count(g) - rows && pos.col <= col_count(g) - cols {
        cell_at(g, pos)
    } else {
        zero
    } by {
        assert(in_bounds(back, pos));
        if in_bounds(shrunk, pos) {
            assert(cell_at(shrunk, pos) == cell_at(g, pos));
        }
    }
}

/// A copy is independent of the grid it was made from: writing a cell of
/// that grid leaves every cell of the copy as it was when the copy was made.
pub proof fn lemma_copy_independent<T>(
    source: Seq<Seq<T>>,
    copy: Seq<Seq<T>>,
    pos: Position,
    value: T,
)
    requires
        is_grid(source),
        copy == source,
        in_bounds(source, pos),
    ensures
        forall|other: Position|
            in_bounds(copy, other) ==> cell_at(copy, other) == cell_at(source, other),
        forall|other: Position|
            in_bounds(copy, other) && other != pos ==> cell_at(copy, other) == cell_at(
                with_cell(source, pos, value),
                other,
            ),
        cell_at(with_cell(source, pos, value), pos) == value,
        cell_at(copy, pos) == cell_at(source, pos),
{
    lemma_set_then_get(source, pos, value);
}

} // verus!
