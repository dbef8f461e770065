use vstd::arithmetic::div_mod::{lemma_fundamental_div_mod, lemma_fundamental_div_mod_converse};
use vstd::prelude::*;

verus! {

/// One of the four headings a snake can travel in.
#[derive(Clone, Copy, Debug, PartialEq, Eq, Structural)]
pub enum Direction {
    Up,
    Down,
    Left,
    Right,
}

/// The cell one step from `cell` in direction `d` on a torus of side `width`:
/// the row or the column moves by one, modulo `width`.
pub open spec fn step_cell(width: int, cell: int, d: Direction) -> int {
    let row = cell / width;
    let col = cell % width;
    match d {
        Direction::Up => ((row + width - 1) % width) * width + col,
        Direction::Down => ((row + 1) % width) * width + col,
        Direction::Left => row * width + (col + width - 1) % width,
        Direction::Right => row * width + (col + 1) % width,
    }
}

/// A cell index lies on the grid of side `width`.
pub open spec fn on_grid(width: int, cell: int) -> bool {
    0 <= cell < width * width
}

/// Row `row` and column `col` name the cell `row * width + col`, which lies on the grid.
pub proof fn lemma_cell_of_coords(width: int, row: int, col: int)
    requires
        0 < width,
        0 <= row < width,
        0 <= col < width,
    ensures
        (row * width + col) / width == row,
        (row * width + col) % width == col,
        on_grid(width, row * width + col),
{
    lemma_fundamental_div_mod_converse(row * width + col, width, row, col);
    assert(0 <= row * width + col < width * width) by (nonlinear_arith)
        requires
            0 <= row < width,
            0 <= col < width,
    ;
}

/// A cell on the grid splits into its row and column, each below `width`.
pub proof fn lemma_coords_of_cell(width: int, cell: int)
    requires
        0 < width,
        on_grid(width, cell),
    ensures
        0 <= cell / width < width,
        0 <= cell % width < width,
        cell == (cell / width) * width + cell % width,
{
    lemma_fundamental_div_mod(cell, width);
    let q = cell / width;
    let r = cell % width;
    assert(0 <= r < width && 0 <= q < width) by (nonlinear_arith)
        requires
            0 < width,
            0 <= cell < width * width,
            cell == width * q + r,
            r == cell % width,
    ;
    assert(width * q == q * width) by (nonlinear_arith);
}

/// `x % width` for `x` below `2 * width`.
proof fn lemma_wrap(x: int, width: int)
    requires
        0 < width,
        0 <= x < 2 * width,
    ensures
        x % width == (if x < width { x } else { x - width }),
{
    if x < width {
        lemma_fundamental_div_mod_converse(x, width, 0, x);
    } else {
        lemma_fundamental_div_mod_converse(x, width, 1, x - width);
    }
}

/// Stepping never leaves the grid.
pub proof fn lemma_step_on_grid(width: int, cell: int, d: Direction)
    requires
        0 < width,
        on_grid(width, cell),
    ensures
        on_grid(width, step_cell(width, cell, d)),
{
    lemma_coords_of_cell(width, cell);
    let row = cell / width;
    let col = cell % width;
    lemma_wrap(row + width - 1, width);
    lemma_wrap(row + 1, width);
    lemma_wrap(col + width - 1, width);
    lemma_wrap(col + 1, width);
    match d {
        Direction::Up => lemma_cell_of_coords(width, (row + width - 1) % width, col),
        Direction::Down => lemma_cell_of_coords(width, (row + 1) % width, col),
        Direction::Left => lemma_cell_of_coords(width, row, (col + width - 1) % width),
        Direction::Right => lemma_cell_of_coords(width, row, (col + 1) % width),
    }
}

/// The heading that undoes a step in `d`.
pub open spec fn opposite(d: Direction) -> Direction {
    match d {
        Direction::Up => Direction::Down,
        Direction::Down => Direction::Up,
        Direction::Left => Direction::Right,
        Direction::Right => Direction::Left,
    }
}

/// A step in any direction followed by a step in the opposite one comes back
/// to the start, for every cell on the grid.
pub proof fn lemma_step_round_trip(width: int, cell: int, d: Direction)
    requires
        0 < width,
        on_grid(width, cell),
    ensures
        step_cell(width, step_cell(width, cell, d), opposite(d)) == cell,
{
    lemma_coords_of_cell(width, cell);
    let row = cell / width;
    let col = cell % width;
    lemma_wrap(row + width - 1, width);
    lemma_wrap(row + 1, width);
    lemma_wrap(col + width - 1, width);
    lemma_wrap(col + 1, width);
    let (r2, c2) = match d {
        Direction::Up => ((row + width - 1) % width, col),
        Direction::Down => ((row + 1) % width, col),
        Direction::Left => (row, (col + width - 1) % width),
        Direction::Right => (row, (col + 1) % width),
    };
    lemma_cell_of_coords(width, r2, c2);
    lemma_wrap(r2 + width - 1, width);
    lemma_wrap(r2 + 1, width);
    lemma_wrap(c2 + width - 1, width);
    lemma_wrap(c2 + 1, width);
}

/// The cell next to `cell` in `direction` on the torus of side `width`.
pub fn step(width: usize, cell: usize, direction: Direction) -> (next: usize)
    requires
        0 < width,
        width * width <= usize::MAX,
        cell < width * width,
    ensures
        next == step_cell(width as int, cell as int, direction),
        next < width * width,
{
    proof {
        lemma_coords_of_cell(width as int, cell as int);
        lemma_step_on_grid(width as int, cell as int, direction);
        lemma_wrap(cell / width + width - 1, width as int);
        lemma_wrap(cell / width + 1, width as int);
        lemma_wrap(cell % width + width - 1, width as int);
        lemma_wrap(cell % width + 1, width as int);
    }
    let row = cell / width;
    let col = cell % width;
    match direction {
        Direction::Up => {
            if row == 0 {
                proof {
                    assert((width - 1) * width == width * width - width) by (nonlinear_arith);
                    assert((row + width - 1) % width as int == width - 1);
                }
                (width - 1) * width + col
            } else {
                proof {
                    assert((row - 1) * width == row * width - width) by (nonlinear_arith);
                    assert((row + width - 1) % width as int == row - 1);
                }
                cell - width
            }
        },
        Direction::Down => {
            if row + 1 == width {
                proof {
                    let wrapped = (row + 1) % width as int;
                    assert(wrapped * width == 0) by (nonlinear_arith)
                        requires
                            wrapped == 0,
                    ;
                }
                assert(col == step_cell(width as int, cell as int, direction));
                col
            } else {
                proof {
                    assert((row + 1) * width == row * width + width) by (nonlinear_arith);
                }
                cell + width
            }
        },
        Direction::Left => {
            if col == 0 {
                cell + width - 1
            } else {
                cell - 1
            }
        },
        Direction::Right => {
            if col + 1 == width {
                cell + 1 - width
            } else {
                cell + 1
            }
        },
    }
}

} // verus!
