//! Cells of the 7-column by 6-row grid and the spec-level model of the board:
//! cell lookup with out-of-range positions reading as `Empty`, the bottom-up
//! fill discipline, and win detection as four-in-a-row through a given cell.

use vstd::prelude::*;

verus! {

/// One cell of the grid: empty, or holding a piece of one of the two colors.
#[derive(Clone, Copy, PartialEq, Eq, Structural, Debug)]
pub enum GameCell {
    Empty,
    Red,
    Yellow,
}

/// Number of columns of the grid.
pub open spec fn num_cols() -> int {
    7
}

/// Number of rows of each column.
pub open spec fn num_rows() -> int {
    6
}

/// A board is a flat sequence of 42 cells; column `c` occupies indices
/// `c * 6 .. c * 6 + 6`, bottom row first.
pub open spec fn board_len_ok(b: Seq<GameCell>) -> bool {
    b.len() == num_cols() * num_rows()
}

/// The cell at column `c`, row `r`; positions outside the grid read as
/// `Empty`, so out-of-range lookups terminate runs instead of failing.
pub open spec fn cell_at(b: Seq<GameCell>, c: int, r: int) -> GameCell {
    if 0 <= c < num_cols() && 0 <= r < num_rows() {
        b[c * num_rows() + r]
    } else {
        GameCell::Empty
    }
}

/// Columns fill bottom-up: a piece never rests on an empty cell.
pub open spec fn stacked(b: Seq<GameCell>) -> bool {
    forall|c: int, r: int|
        0 <= c < num_cols() && 0 < r < num_rows() && #[trigger] cell_at(b, c, r)
            != GameCell::Empty ==> cell_at(b, c, r - 1) != GameCell::Empty
}

/// A well-formed board: 42 cells, filled bottom-up.
pub open spec fn board_wf(b: Seq<GameCell>) -> bool {
    board_len_ok(b) && stacked(b)
}

/// The first empty row of column `c` at or above row `r`; 6 if the rest of
/// the column is full. With `r == 0` this is where a dropped piece lands.
pub open spec fn first_empty_row(b: Seq<GameCell>, c: int, r: int) -> int
    decreases num_rows() - r,
{
    if r < 0 || r >= num_rows() {
        num_rows()
    } else if cell_at(b, c, r) == GameCell::Empty {
        r
    } else {
        first_empty_row(b, c, r + 1)
    }
}

/// Row where a piece dropped into column `c` lands; 6 means the column is full.
pub open spec fn drop_row(b: Seq<GameCell>, c: int) -> int {
    first_empty_row(b, c, 0)
}

/// No cell of the grid is empty.
pub open spec fn board_full(b: Seq<GameCell>) -> bool {
    forall|c: int, r: int|
        0 <= c < num_cols() && 0 <= r < num_rows() ==> #[trigger] cell_at(b, c, r)
            != GameCell::Empty
}

/// Four consecutive cells of color `color`, starting at `(c0, r0)` and
/// stepping by `(dc, dr)`.
pub open spec fn run_of_four(
    b: Seq<GameCell>,
    color: GameCell,
    c0: int,
    r0: int,
    dc: int,
    dr: int,
) -> bool {
    forall|k: int| 0 <= k < 4 ==> #[trigger] cell_at(b, c0 + k * dc, r0 + k * dr) == color
}

/// Four consecutive cells of color `color` along direction `(dc, dr)` in a
/// window that includes `(c, r)` (the window starts `s` steps before it).
pub open spec fn dir_win(
    b: Seq<GameCell>,
    color: GameCell,
    c: int,
    r: int,
    dc: int,
    dr: int,
) -> bool {
    exists|s: int| -3 <= s <= 0 && #[trigger] run_of_four(b, color, c + s * dc, r + s * dr, dc, dr)
}

/// The cell `(c, r)` is part of a four-in-a-row run of `color` along the
/// vertical, the horizontal, or either diagonal.
pub open spec fn win_through(b: Seq<GameCell>, color: GameCell, c: int, r: int) -> bool {
    ||| dir_win(b, color, c, r, 0, 1)
    ||| dir_win(b, color, c, r, 1, 0)
    ||| dir_win(b, color, c, r, 1, 1)
    ||| dir_win(b, color, c, r, 1, -1)
}

} // verus!
