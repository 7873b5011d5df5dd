//! The editor's state and its update loop.
//!
//! The state holds the matrix that the user edits and the matrix that the
//! solver last derived from it. Events are handled one at a time, each to
//! completion. Solving is the caller's work: on `Evaluate` the loop hands out
//! a copy of the source, and the caller reports what became of it with
//! `solved`. At most one such request is open at a time.

use vstd::prelude::*;
use crate::grid::{col_count, filled, in_bounds, resized_by, row_count, with_cell};
use crate::matrix::Matrix;
use crate::position::Position;
use crate::table::{cell_id, is_cell_of, is_table_of, Cell};

verus! {

/// The phase that an evaluation starts the solver in.
pub const EVALUATE_PHASE: usize = 0;

/// What a counter control emits when one of its two buttons is pressed.
#[derive(Clone, Copy, Debug, PartialEq, Eq, Structural)]
pub enum CounterEvent {
    Increment,
    Decrement,
}

/// An event for the update loop.
#[derive(Debug)]
pub enum AppMsg<T> {
    /// The cell at the given row and column was given a new value.
    Edited((usize, usize), T),
    /// The last row index and the last column index are to move by the given
    /// amounts.
    Resize((isize, isize)),
    /// The target is to be derived anew from the source.
    Evaluate,
}

/// The solver gave no result.
#[derive(Clone, Copy, Debug, PartialEq, Eq, Structural)]
pub struct SolveFailure;

/// What the caller has to do once an event is handled.
#[derive(Debug)]
pub enum Effect<T> {
    /// Show the state anew.
    Render,
    /// Run the solver on this matrix in this phase, report the outcome with
    /// `solved`, and show the state anew.
    Solve(Matrix<T>, usize),
}

/// The two tables that the state is shown as.
#[derive(Debug)]
pub struct Page<T> {
    /// The source, every cell editable.
    pub source: Vec<Vec<Cell<T>>>,
    /// The target, every cell read-only.
    pub target: Vec<Vec<Cell<T>>>,
}

/// The editor's state: the source that the user edits, the target that the
/// solver derived, and whether a request to the solver is open.
#[derive(Debug)]
pub struct App<T> {
    source: Matrix<T>,
    target: Matrix<T>,
    evaluating: bool,
}

impl<T: Copy> App<T> {
    /// The matrix that the user edits.
    pub closed spec fn spec_source(&self) -> &Matrix<T> {
        &self.source
    }

    /// The matrix that the solver last derived.
    pub closed spec fn spec_target(&self) -> &Matrix<T> {
        &self.target
    }

    /// Whether a request to the solver is open.
    pub closed spec fn spec_is_evaluating(&self) -> bool {
        self.evaluating
    }

    /// Both matrices are well formed.
    pub open spec fn wf(&self) -> bool {
        self.source().wf() && self.target().wf()
    }

    /// Whether the machine can count the rows and columns that `msg` asks for.
    pub open spec fn fits(&self, msg: AppMsg<T>) -> bool {
        match msg {
            AppMsg::Resize((row_delta, col_delta)) => {
                &&& row_count(self.source()@) + row_delta < usize::MAX
                &&& col_count(self.source()@) + col_delta < usize::MAX
            },
            _ => true,
        }
    }

    /// The state at the start of a session: source and target both two by
    /// two, every cell `zero`, and no request to the solver open.
    pub fn create(zero: T) -> (app: App<T>)
        ensures
            app.wf(),
            app.source()@ == filled(1, 1, zero),
            app.source().zero() == zero,
            app.target()@ == filled(1, 1, zero),
            app.target().zero() == zero,
            !app.is_evaluating(),
    {
        App {
            source: Matrix::new(Position::new(1, 1), zero),
            target: Matrix::new(Position::new(1, 1), zero),
            evaluating: false,
        }
    }

    /// The matrix that the user edits.
    #[verifier::when_used_as_spec(spec_source)]
    pub fn source(&self) -> (m: &Matrix<T>)
        ensures
            m == self.spec_source(),
    {
        &self.source
    }

    /// The matrix that the solver last derived.
    #[verifier::when_used_as_spec(spec_target)]
    pub fn target(&self) -> (m: &Matrix<T>)
        ensures
            m == self.spec_target(),
    {
        &self.target
    }

    /// Whether a request to the solver is open.
    #[verifier::when_used_as_spec(spec_is_evaluating)]
    pub fn is_evaluating(&self) -> (open: bool)
        ensures
            open == self.spec_is_evaluating(),
    {
        self.evaluating
    }

    /// The event that the row counter's `event` stands for: one row more or
    /// one row less.
    pub fn row_counter(event: CounterEvent) -> (msg: AppMsg<T>)
        ensures
            event == CounterEvent::Increment ==> msg == AppMsg::<T>::Resize((1isize, 0isize)),
            event == CounterEvent::Decrement ==> msg == AppMsg::<T>::Resize((-1isize, 0isize)),
    {
        match event {
            CounterEvent::Increment => AppMsg::Resize((1, 0)),
            CounterEvent::Decrement => AppMsg::Resize((-1, 0)),
        }
    }

    /// The event that the column counter's `event` stands for: one column
    /// more or one column less.
    pub fn col_counter(event: CounterEvent) -> (msg: AppMsg<T>)
        ensures
            event == CounterEvent::Increment ==> msg == AppMsg::<T>::Resize((0isize, 1isize)),
            event == CounterEvent::Decrement ==> msg == AppMsg::<T>::Resize((0isize, -1isize)),
    {
        match event {
            CounterEvent::Increment => AppMsg::Resize((0, 1)),
            CounterEvent::Decrement => AppMsg::Resize((0, -1)),
        }
    }

    /// Handles one event and says what the caller has to do next.
    ///
    /// An edit overwrites one cell of the source; one that names no cell of
    /// the source changes nothing. A resize moves the source's last indices,
    /// read at this moment, neither going below zero. An evaluation hands out
    /// a copy of the source for the solver, unless a request is open already:
    /// then it is dropped. The target is never touched here.
    pub fn update(&mut self, msg: AppMsg<T>) -> (effect: Effect<T>)
        requires
            old(self).wf(),
            old(self).fits(msg),
        ensures
            final(self).wf(),
            final(self).target() == old(self).target(),
            final(self).source().zero() == old(self).source().zero(),
            match msg {
                AppMsg::Edited((row, col), value) => {
                    &&& effect is Render
                    &&& final(self).is_evaluating() == old(self).is_evaluating()
                    &&& final(self).source()@ == if in_bounds(
                        old(self).source()@,
                        Position { row, col },
                    ) {
                        with_cell(old(self).source()@, Position { row, col }, value)
                    } else {
                        old(self).source()@
                    }
                },
                AppMsg::Resize((row_delta, col_delta)) => {
                    &&& effect is Render
                    &&& final(self).is_evaluating() == old(self).is_evaluating()
                    &&& final(self).source()@ == resized_by(
                        old(self).source()@,
                        row_delta as int,
                        col_delta as int,
                        old(self).source().zero(),
                    )
                },
                AppMsg::Evaluate => {
                    &&& final(self).source()@ == old(self).source()@
                    &&& final(self).is_evaluating()
                    &&& if old(self).is_evaluating() {
                        effect is Render
                    } else {
                        &&& effect matches Effect::Solve(input, phase)
                        &&& input.wf()
                        &&& input@ == old(self).source()@
                        &&& input.zero() == old(self).source().zero()
                        &&& phase == EVALUATE_PHASE
                    }
                },
            },
    {
        match msg {
            AppMsg::Edited((row, col), value) => {
                let _ = self.source.set(Position::new(row, col), value);
                Effect::Render
            },
            AppMsg::Resize((row_delta, col_delta)) => {
                self.source.resize_by_delta(row_delta, col_delta);
                Effect::Render
            },
            AppMsg::Evaluate => {
                if self.evaluating {
                    Effect::Render
                } else {
                    self.evaluating = true;
                    Effect::Solve(self.source.clone(), EVALUATE_PHASE)
                }
            },
        }
    }

    /// Takes the solver's answer to the open request and says whether the
    /// state has to be shown anew.
    ///
    /// A result becomes the target as it is. After a failure the target stays
    /// what it was. Either way the request is closed. Where no request was
    /// open the answer is dropped and nothing changes.
    pub fn solved(&mut self, outcome: Result<Matrix<T>, SolveFailure>) -> (render: bool)
        requires
            old(self).wf(),
            outcome matches Ok(result) ==> result.wf(),
        ensures
            final(self).wf(),
            final(self).source() == old(self).source(),
            !final(self).is_evaluating(),
            render == old(self).is_evaluating(),
            final(self).target() == match outcome {
                Ok(result) if old(self).is_evaluating() => result,
                _ => *old(self).target(),
            },
    {
        if !self.evaluating {
            return false;
        }
        self.evaluating = false;
        match outcome {
            Ok(result) => {
                self.target = result;
            },
            Err(_) => {},
        }
        true
    }

    /// The table that `matrix` is shown as: one cell for each position, row
    /// by row, each with its identifier and its value, all of them editable or
    /// all of them read-only.
    pub fn view_table(&self, matrix: &Matrix<T>, editable: bool) -> (table: Vec<Vec<Cell<T>>>)
        requires
            matrix.wf(),
        ensures
            is_table_of(table@, matrix@, editable),
    {
        let last = matrix.count();
        let mut table: Vec<Vec<Cell<T>>> = Vec::new();
        let mut r: usize = 0;
        while r <= last.row
            invariant
                matrix.wf(),
                last.row == row_count(matrix@),
                last.col == col_count(matrix@),
                last.row < usize::MAX,
                last.col < usize::MAX,
                r <= last.row + 1,
                table@.len() == r,
                forall|i: int| 0 <= i < r ==> (#[trigger] table@[i])@.len() == last.col + 1,
                forall|i: int, j: int|
                    0 <= i < r && 0 <= j <= last.col ==> is_cell_of(
                        #[trigger] table@[i]@[j],
                        matrix@,
                        Position { row: i as usize, col: j as usize },
                        editable,
                    ),
            decreases last.row + 1 - r,
        {
            let mut row: Vec<Cell<T>> = Vec::new();
            let mut c: usize = 0;
            while c <= last.col
                invariant
                    matrix.wf(),
                    last.row == row_count(matrix@),
                    last.col == col_count(matrix@),
                    last.col < usize::MAX,
                    r <= last.row,
                    c <= last.col + 1,
                    row@.len() == c,
                    forall|j: int|
                        0 <= j < c ==> is_cell_of(
                            #[trigger] row@[j],
                            matrix@,
                            Position { row: r, col: j as usize },
                            editable,
                        ),
                decreases last.col + 1 - c,
            {
                let position = Position::new(r, c);
                row.push(
                    Cell { position, id: cell_id(position), value: matrix.at(position), editable },
                );
                c += 1;
            }
            table.push(row);
            r += 1;
        }
        table
    }

    /// The page that the state is shown as: the source as a table of editable
    /// cells, the target as a table of read-only cells.
    pub fn view(&self) -> (page: Page<T>)
        requires
            self.wf(),
        ensures
            is_table_of(page.source@, self.source()@, true),
            is_table_of(page.target@, self.target()@, false),
    {
        Page {
            source: self.view_table(&self.source, true),
            target: self.view_table(&self.target, false),
        }
    }
}

} // verus!
