//! A grid-walking consumer of the decision interface: the state is a cell
//! position, the context is a grid of per-cell scores, an action is a step to
//! one of the four neighbouring cells, and the score of a step is the score
//! of the cell it lands on.

use crate::reinforcement_state::ReinforcementState;
use vstd::prelude::*;

verus! {

/// A position on a grid, as column `x` and row `y`.
#[derive(Clone, Copy, PartialEq, Eq, Debug)]
pub struct GridPos {
    pub x: usize,
    pub y: usize,
}

/// A grid of per-cell scores, stored row by row.
pub struct Grid<T> {
    pub rows: Vec<Vec<T>>,
}

/// One step from a cell to a neighbouring cell.
#[derive(Clone, Copy, PartialEq, Eq, Debug)]
pub enum Direction {
    Up,
    Right,
    Down,
    Left,
}

/// The column one step in `d` from column `x`.
pub open spec fn step_x(x: int, d: Direction) -> int {
    match d {
        Direction::Right => x + 1,
        Direction::Left => x - 1,
        _ => x,
    }
}

/// The row one step in `d` from row `y`.
pub open spec fn step_y(y: int, d: Direction) -> int {
    match d {
        Direction::Up => y - 1,
        Direction::Down => y + 1,
        _ => y,
    }
}

/// Whether `(x, y)` is a cell of the grid.
pub open spec fn cell_in_grid<T>(g: &Grid<T>, x: int, y: int) -> bool {
    0 <= y < g.rows.len() && 0 <= x < g.rows@[y].len()
}

/// Whether one step in `d` from `p` lands on a cell of the grid.
pub open spec fn step_in_grid<T>(g: &Grid<T>, p: GridPos, d: Direction) -> bool {
    cell_in_grid(g, step_x(p.x as int, d), step_y(p.y as int, d))
}

/// A singleton of `d` when one step in `d` from `p` stays on the grid,
/// otherwise empty: the building block of the enumeration order.
pub open spec fn dir_if<T>(g: &Grid<T>, p: GridPos, d: Direction) -> Seq<Direction> {
    if step_in_grid(g, p, d) {
        seq![d]
    } else {
        Seq::empty()
    }
}

/// Whether one step in `d` from `p` lands on a cell of the grid.
fn step_stays<T>(g: &Grid<T>, p: &GridPos, d: Direction) -> (r: bool)
    ensures
        r == step_in_grid(g, *p, d),
{
    match d {
        Direction::Up => p.y >= 1 && p.y - 1 < g.rows.len() && p.x < g.rows[p.y - 1].len(),
        Direction::Right => {
            if p.y < g.rows.len() {
                let w: usize = g.rows[p.y].len();
                w >= 1 && p.x < w - 1
            } else {
                false
            }
        },
        Direction::Down => {
            let h: usize = g.rows.len();
            h >= 1 && p.y < h - 1 && p.x < g.rows[p.y + 1].len()
        },
        Direction::Left => p.x >= 1 && p.y < g.rows.len() && p.x - 1 < g.rows[p.y].len(),
    }
}

/// An action that the position enumerates is a step that stays on the grid.
proof fn lemma_enumerated_step<T: Copy>(g: &Grid<T>, p: GridPos, d: Direction)
    requires
        p.spec_actions(g).contains(d),
    ensures
        step_in_grid(g, p, d),
{
    let s = p.spec_actions(g);
    let i: int = choose|i: int| 0 <= i < s.len() && s[i] == d;
    assert(s[i] == d);
}

impl<T: Copy> ReinforcementState<T> for GridPos {
    type Action = Direction;

    type Context = Grid<T>;

    /// The steps that stay on the grid, enumerated in the fixed order up,
    /// right, down, left.
    open spec fn spec_actions(&self, context: &Grid<T>) -> Seq<Direction> {
        dir_if(context, *self, Direction::Up) + dir_if(context, *self, Direction::Right) + dir_if(
            context,
            *self,
            Direction::Down,
        ) + dir_if(context, *self, Direction::Left)
    }

    /// The score of the cell the step lands on.
    open spec fn spec_evaluate(&self, action: &Direction, context: &Grid<T>) -> T {
        context.rows@[step_y(self.y as int, *action)]@[step_x(self.x as int, *action)]
    }

    /// The neighbouring position the step leads to.
    open spec fn spec_take_action(self, action: Direction, context: &Grid<T>) -> GridPos {
        GridPos {
            x: step_x(self.x as int, action) as usize,
            y: step_y(self.y as int, action) as usize,
        }
    }

    fn evaluate(&self, action: &Direction, context: &Grid<T>) -> (score: T)
        ensures
            score == self.spec_evaluate(action, context),
    {
        proof {
            lemma_enumerated_step(context, *self, *action);
        }
        match action {
            Direction::Up => context.rows[self.y - 1][self.x],
            Direction::Right => context.rows[self.y][self.x + 1],
            Direction::Down => context.rows[self.y + 1][self.x],
            Direction::Left => context.rows[self.y][self.x - 1],
        }
    }

    fn actions(&self, context: &Grid<T>) -> (acts: Vec<Direction>)
        ensures
            acts@ == self.spec_actions(context),
    {
        let mut v: Vec<Direction> = Vec::new();
        if step_stays(context, self, Direction::Up) {
            v.push(Direction::Up);
        }
        if step_stays(context, self, Direction::Right) {
            v.push(Direction::Right);
        }
        if step_stays(context, self, Direction::Down) {
            v.push(Direction::Down);
        }
        if step_stays(context, self, Direction::Left) {
            v.push(Direction::Left);
        }
        proof {
            assert(v@ =~= self.spec_actions(context));
        }
        v
    }

    fn take_action(self, action: Direction, context: &Grid<T>) -> (next: GridPos)
        ensures
            next == self.spec_take_action(action, context),
    {
        proof {
            lemma_enumerated_step(context, self, action);
        }
        match action {
            Direction::Up => GridPos { x: self.x, y: self.y - 1 },
            Direction::Right => GridPos { x: self.x + 1, y: self.y },
            Direction::Down => GridPos { x: self.x, y: self.y + 1 },
            Direction::Left => GridPos { x: self.x - 1, y: self.y },
        }
    }
}

} // verus!
