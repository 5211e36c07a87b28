use reinforce::grid::{Direction, Grid, GridPos};
use reinforce::ReinforcementState;

/// Builds a `height` by `width` grid whose cell at column x, row y scores
/// `f(GridPos { x, y })`.
fn grid_from_fn<T, F: FnMut(GridPos) -> T>(width: usize, height: usize, mut f: F) -> Grid<T> {
    let mut rows: Vec<Vec<T>> = Vec::new();
    let mut y: usize = 0;
    while y < height {
        let mut row: Vec<T> = Vec::new();
        let mut x: usize = 0;
        while x < width {
            row.push(f(GridPos { x, y }));
            x += 1;
        }
        rows.push(row);
        y += 1;
    }
    Grid { rows }
}

#[test]
fn test() {
    let grid = grid_from_fn(10, 10, |GridPos { x, y }| {
        if x == y && x == 4 {
            2.0
        } else {
            1.0
        }
    });
    let pos = GridPos { x: 3, y: 4 };
    assert_eq!(Some(Direction::Right), pos.best_action(&grid));
    assert_eq!(Some(GridPos { x: 4, y: 4 }), pos.take_best_action(&grid));
}

#[test]
fn empty_action_set_returns_none() {
    let grid = grid_from_fn(1, 1, |_| 1.0);
    let pos = GridPos { x: 0, y: 0 };
    assert_eq!(None, pos.best_action(&grid));
    assert_eq!(None, pos.take_best_action(&grid));
}

#[test]
fn nonempty_action_set_returns_some() {
    let grid = grid_from_fn(2, 1, |_| 1.0);
    let pos = GridPos { x: 0, y: 0 };
    assert_eq!(Some(Direction::Right), pos.best_action(&grid));
    assert_eq!(Some(GridPos { x: 1, y: 0 }), pos.take_best_action(&grid));
}

#[test]
fn selects_maximal_score() {
    // From the centre of a 3 by 3 grid the step right lands on the only cell
    // scoring 9.0; every other neighbour scores less.
    let grid = grid_from_fn(3, 3, |GridPos { x, y }| {
        if x == 2 && y == 1 {
            9.0
        } else {
            (x + y) as f64
        }
    });
    let pos = GridPos { x: 1, y: 1 };
    assert_eq!(Some(Direction::Right), pos.best_action(&grid));

    let int_grid = grid_from_fn(3, 3, |GridPos { x, y }| {
        if x == 1 && y == 2 {
            9u64
        } else {
            1u64
        }
    });
    assert_eq!(Some(Direction::Down), pos.best_action(&int_grid));
}

#[test]
fn repeated_calls_agree() {
    let grid = grid_from_fn(4, 4, |GridPos { x, y }| (3 * x + 7 * y) as f64 * 0.25);
    let pos = GridPos { x: 2, y: 1 };
    let first = pos.best_action(&grid);
    let second = pos.best_action(&grid);
    assert_eq!(first, second);
    assert_eq!(Some(Direction::Down), first);
}

#[test]
fn tie_break_keeps_earlier_action() {
    // The cells above and to the right of the centre score the same; the step
    // up is enumerated first, so it must win the tie.
    let grid = grid_from_fn(3, 3, |GridPos { x, y }| {
        if (x == 1 && y == 0) || (x == 2 && y == 1) {
            5.0
        } else {
            1.0
        }
    });
    let pos = GridPos { x: 1, y: 1 };
    assert_eq!(Some(Direction::Up), pos.best_action(&grid));

    // All four neighbours tie: the first enumerated step still wins.
    let flat = grid_from_fn(3, 3, |_| 4u64);
    assert_eq!(Some(Direction::Up), pos.best_action(&flat));
}

#[test]
fn incomparable_scores_still_select() {
    // The best score so far is displaced whenever it is incomparable with the
    // candidate: 2.0 above loses to the not-a-number on the right, which then
    // loses to the 1.0 below.
    let grid = grid_from_fn(3, 3, |GridPos { x, y }| {
        if x == 1 && y == 0 {
            2.0
        } else if x == 2 && y == 1 {
            f64::NAN
        } else {
            1.0
        }
    });
    let pos = GridPos { x: 1, y: 1 };
    assert_eq!(Some(Direction::Down), pos.best_action(&grid));
    assert_eq!(Some(GridPos { x: 1, y: 2 }), pos.take_best_action(&grid));

    // Every neighbour scores not-a-number: each pair is incomparable, so the
    // last enumerated step is selected, and selection still returns one.
    let all_nan = grid_from_fn(3, 3, |_| f64::NAN);
    assert_eq!(Some(Direction::Left), pos.best_action(&all_nan));
}

#[test]
fn take_best_action_applies_best_action() {
    let grid = grid_from_fn(4, 4, |GridPos { x, y }| (x * y) as f64);
    let pos = GridPos { x: 2, y: 2 };
    let best = pos.best_action(&grid).unwrap();
    let applied = pos.take_action(best, &grid);
    assert_eq!(Some(applied), pos.take_best_action(&grid));
}
