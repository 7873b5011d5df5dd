use matrix_editor::app::{App, AppMsg, CounterEvent, Effect, SolveFailure, EVALUATE_PHASE};
use matrix_editor::matrix::{Matrix, MatrixError};
use matrix_editor::position::Position;

fn cells(m: &Matrix<f64>) -> Vec<Vec<f64>> {
    let mut out = Vec::new();
    for r in 0..=m.row_count() {
        let mut row = Vec::new();
        for c in 0..=m.col_count() {
            row.push(m.get(Position::new(r, c)).unwrap());
        }
        out.push(row);
    }
    out
}

fn doubled(m: &Matrix<f64>) -> Matrix<f64> {
    let mut out = m.clone();
    for r in 0..=m.row_count() {
        for c in 0..=m.col_count() {
            let pos = Position::new(r, c);
            out.set(pos, m.get(pos).unwrap() * 2.0 + 1.0).unwrap();
        }
    }
    out
}

#[test]
fn create_gives_two_zero_matrices() {
    let app = App::create(0.0);
    assert_eq!(cells(app.source()), vec![vec![0.0, 0.0], vec![0.0, 0.0]]);
    assert_eq!(cells(app.target()), vec![vec![0.0, 0.0], vec![0.0, 0.0]]);
    assert!(!app.is_evaluating());
}

#[test]
fn edited_writes_the_source_only() {
    let mut app = App::create(0.0);
    let effect = app.update(AppMsg::Edited((1, 0), 3.5));
    assert!(matches!(effect, Effect::Render));
    assert_eq!(cells(app.source()), vec![vec![0.0, 0.0], vec![3.5, 0.0]]);
    assert_eq!(cells(app.target()), vec![vec![0.0, 0.0], vec![0.0, 0.0]]);
}

#[test]
fn edited_out_of_bounds_changes_nothing() {
    let mut app = App::create(0.0);
    let effect = app.update(AppMsg::Edited((2, 0), 3.5));
    assert!(matches!(effect, Effect::Render));
    let effect = app.update(AppMsg::Edited((0, 2), 3.5));
    assert!(matches!(effect, Effect::Render));
    assert_eq!(cells(app.source()), vec![vec![0.0, 0.0], vec![0.0, 0.0]]);
    assert_eq!(app.source().get(Position::new(2, 0)), Err(MatrixError::OutOfBounds));
}

#[test]
fn resize_moves_the_source_only() {
    let mut app = App::create(0.0);
    let effect = app.update(AppMsg::Resize((1, -1)));
    assert!(matches!(effect, Effect::Render));
    assert_eq!(cells(app.source()), vec![vec![0.0], vec![0.0], vec![0.0]]);
    assert_eq!(cells(app.target()), vec![vec![0.0, 0.0], vec![0.0, 0.0]]);
}

#[test]
fn resize_stops_at_the_zero_boundary() {
    let mut app = App::create(0.0);
    app.update(AppMsg::Edited((0, 0), 2.0));
    for _ in 0..5 {
        let effect = app.update(App::row_counter(CounterEvent::Decrement));
        assert!(matches!(effect, Effect::Render));
        let effect = app.update(App::col_counter(CounterEvent::Decrement));
        assert!(matches!(effect, Effect::Render));
    }
    assert_eq!(app.source().row_count(), 0);
    assert_eq!(app.source().col_count(), 0);
    assert_eq!(cells(app.source()), vec![vec![2.0]]);
    app.update(AppMsg::Resize((isize::MIN, isize::MIN)));
    assert_eq!(cells(app.source()), vec![vec![2.0]]);
}

#[test]
fn counters_give_resize_events() {
    assert!(matches!(
        App::<f64>::row_counter(CounterEvent::Increment),
        AppMsg::Resize((1, 0))
    ));
    assert!(matches!(
        App::<f64>::row_counter(CounterEvent::Decrement),
        AppMsg::Resize((-1, 0))
    ));
    assert!(matches!(
        App::<f64>::col_counter(CounterEvent::Increment),
        AppMsg::Resize((0, 1))
    ));
    assert!(matches!(
        App::<f64>::col_counter(CounterEvent::Decrement),
        AppMsg::Resize((0, -1))
    ));
}

#[test]
fn counter_resize_reads_the_current_size() {
    let mut app = App::create(0.0);
    // three presses queued before anything is shown anew
    let first = App::row_counter(CounterEvent::Increment);
    let second = App::row_counter(CounterEvent::Increment);
    let third = App::row_counter(CounterEvent::Decrement);
    app.update(first);
    app.update(second);
    app.update(third);
    assert_eq!(app.source().row_count(), 2);
    assert_eq!(app.source().col_count(), 1);
}

#[test]
fn evaluate_hands_out_a_copy_of_the_source() {
    let mut app = App::create(0.0);
    app.update(AppMsg::Edited((0, 1), 4.0));
    let effect = app.update(AppMsg::Evaluate);
    assert!(app.is_evaluating());
    match effect {
        Effect::Solve(input, phase) => {
            assert_eq!(phase, 0);
            assert_eq!(phase, EVALUATE_PHASE);
            assert_eq!(cells(&input), vec![vec![0.0, 4.0], vec![0.0, 0.0]]);
        }
        Effect::Render => panic!("no request to the solver"),
    }
    // the target waits for the solver
    assert_eq!(cells(app.target()), vec![vec![0.0, 0.0], vec![0.0, 0.0]]);
    assert_eq!(cells(app.source()), vec![vec![0.0, 4.0], vec![0.0, 0.0]]);
}

#[test]
fn solved_result_becomes_the_target() {
    let mut app = App::create(0.0);
    app.update(AppMsg::Edited((1, 1), 3.0));
    let input = match app.update(AppMsg::Evaluate) {
        Effect::Solve(input, _) => input,
        Effect::Render => panic!("no request to the solver"),
    };
    let render = app.solved(Ok(doubled(&input)));
    assert!(render);
    assert!(!app.is_evaluating());
    assert_eq!(cells(app.target()), vec![vec![1.0, 1.0], vec![1.0, 7.0]]);
    assert_eq!(cells(app.source()), vec![vec![0.0, 0.0], vec![0.0, 3.0]]);
}

#[test]
fn solved_result_may_have_another_shape() {
    let mut app = App::create(0.0);
    assert!(matches!(app.update(AppMsg::Evaluate), Effect::Solve(_, 0)));
    let mut result = Matrix::new(Position::new(0, 2), 0.0);
    result.set(Position::new(0, 2), 9.0).unwrap();
    assert!(app.solved(Ok(result)));
    assert_eq!(cells(app.target()), vec![vec![0.0, 0.0, 9.0]]);
}

#[test]
fn solve_failure_leaves_the_target() {
    let mut app = App::create(0.0);
    assert!(matches!(app.update(AppMsg::Evaluate), Effect::Solve(_, 0)));
    let mut first = Matrix::new(Position::new(0, 0), 0.0);
    first.set(Position::new(0, 0), 8.0).unwrap();
    assert!(app.solved(Ok(first)));
    app.update(AppMsg::Edited((0, 0), 1.0));
    assert!(matches!(app.update(AppMsg::Evaluate), Effect::Solve(_, 0)));
    let render = app.solved(Err(SolveFailure));
    assert!(render);
    assert!(!app.is_evaluating());
    assert_eq!(cells(app.target()), vec![vec![8.0]]);
    assert_eq!(cells(app.source()), vec![vec![1.0, 0.0], vec![0.0, 0.0]]);
}

#[test]
fn second_evaluate_is_dropped_while_one_is_open() {
    let mut app = App::create(0.0);
    assert!(matches!(app.update(AppMsg::Evaluate), Effect::Solve(_, 0)));
    assert!(matches!(app.update(AppMsg::Evaluate), Effect::Render));
    assert!(app.is_evaluating());
    assert!(app.solved(Err(SolveFailure)));
    assert!(matches!(app.update(AppMsg::Evaluate), Effect::Solve(_, 0)));
}

#[test]
fn answer_without_request_is_dropped() {
    let mut app = App::create(0.0);
    let mut stray = Matrix::new(Position::new(0, 0), 0.0);
    stray.set(Position::new(0, 0), 5.0).unwrap();
    let render = app.solved(Ok(stray));
    assert!(!render);
    assert!(!app.is_evaluating());
    assert_eq!(cells(app.target()), vec![vec![0.0, 0.0], vec![0.0, 0.0]]);
}

#[test]
fn edits_while_evaluating_do_not_reach_the_request() {
    let mut app = App::create(0.0);
    let input = match app.update(AppMsg::Evaluate) {
        Effect::Solve(input, _) => input,
        Effect::Render => panic!("no request to the solver"),
    };
    app.update(AppMsg::Edited((0, 0), 6.0));
    app.update(AppMsg::Resize((1, 0)));
    assert!(app.is_evaluating());
    assert_eq!(cells(&input), vec![vec![0.0, 0.0], vec![0.0, 0.0]]);
    assert!(app.solved(Ok(input)));
    assert_eq!(cells(app.target()), vec![vec![0.0, 0.0], vec![0.0, 0.0]]);
    assert_eq!(cells(app.source()), vec![vec![6.0, 0.0], vec![0.0, 0.0], vec![0.0, 0.0]]);
}

#[test]
fn session_from_edit_to_evaluated_target() {
    let mut app = App::create(0.0);
    assert_eq!(app.source().row_count(), 1);
    assert_eq!(app.source().col_count(), 1);

    assert!(matches!(app.update(AppMsg::Edited((0, 0), 5.0)), Effect::Render));
    assert!(matches!(
        app.update(App::row_counter(CounterEvent::Increment)),
        Effect::Render
    ));
    assert_eq!(app.source().row_count(), 2);
    assert_eq!(cells(app.source()), vec![vec![5.0, 0.0], vec![0.0, 0.0], vec![0.0, 0.0]]);

    let (input, phase) = match app.update(AppMsg::Evaluate) {
        Effect::Solve(input, phase) => (input, phase),
        Effect::Render => panic!("no request to the solver"),
    };
    assert_eq!(phase, 0);
    assert_eq!(cells(&input), cells(app.source()));
    assert!(app.solved(Ok(doubled(&input))));

    // the page shows what the solver returned, not the copy it was given
    let page = app.view();
    let shown: Vec<Vec<f64>> =
        page.target.iter().map(|row| row.iter().map(|cell| cell.value).collect()).collect();
    assert_eq!(shown, vec![vec![11.0, 1.0], vec![1.0, 1.0], vec![1.0, 1.0]]);
    assert!(page.target.iter().all(|row| row.iter().all(|cell| !cell.editable)));
    let edited: Vec<Vec<f64>> =
        page.source.iter().map(|row| row.iter().map(|cell| cell.value).collect()).collect();
    assert_eq!(edited, vec![vec![5.0, 0.0], vec![0.0, 0.0], vec![0.0, 0.0]]);
    assert!(page.source.iter().all(|row| row.iter().all(|cell| cell.editable)));
    assert_eq!(page.source[2][1].id, "2-1");
    assert_eq!(page.target[2][1].id, "2-1");
}
