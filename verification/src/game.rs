//! The board and rules engine: dropping a piece into a column, detecting a
//! win through the placed cell, and reporting the outcome of a move.

use vstd::prelude::*;
use vstd::string::StringExecFns;

use crate::board::{
    board_full, board_len_ok, board_wf, cell_at, dir_win, drop_row, first_empty_row, num_cols,
    num_rows, run_of_four, win_through, GameCell,
};

verus! {

/// Outcome of one attempted move.
#[derive(Debug, Clone, Copy, PartialEq, Eq, Structural)]
pub enum MoveOutcome {
    RedWins,
    YellowWins,
    Draw,
    Continue,
    Illegal,
}

/// A state that ends the active game loop.
#[derive(Debug, Clone, Copy, PartialEq, Eq, Structural)]
pub enum TerminalState {
    RedWins,
    YellowWins,
    Draw,
    /// The per-move timeout elapsed on the named player's turn; they forfeit.
    ForfeitByTimeout(u64),
    /// A cancellation signal forced the session to end early.
    ForcedTermination,
}

/// Settings of one game.
#[derive(Debug, Clone, Copy, PartialEq, Eq, Structural)]
pub struct GameConfig {
    /// Maximum time in-between moves, in seconds, before the waiting player
    /// forfeits the game.
    pub move_timeout_secs: u64,
}

/// A game in progress: whose turn it is, the two players' identities by the
/// color they play, the board, and the game's settings.
#[derive(Debug)]
pub struct GameState {
    pub reds_turn: bool,
    pub red_player: u64,
    pub yellow_player: u64,
    pub board: Vec<GameCell>,
    pub config: GameConfig,
}

/// Spec-level snapshot of the parts of a game that a move changes.
pub ghost struct BoardState {
    pub cells: Seq<GameCell>,
    pub reds_turn: bool,
}

/// The color that moves when `reds_turn` says whether red moves.
pub open spec fn mover_color(reds_turn: bool) -> GameCell {
    if reds_turn {
        GameCell::Red
    } else {
        GameCell::Yellow
    }
}

/// The winning outcome for a color.
pub open spec fn win_color(color: GameCell) -> MoveOutcome {
    match color {
        GameCell::Red => MoveOutcome::RedWins,
        GameCell::Yellow => MoveOutcome::YellowWins,
        GameCell::Empty => MoveOutcome::Illegal,
    }
}

/// Outcome reported for a piece of `color` just placed at `(c, r)`: a win if
/// the placed cell completes four in a row, else a draw if the board is now
/// full, else the game continues.
#[verifier::opaque]
pub open spec fn outcome_of(b: Seq<GameCell>, color: GameCell, c: int, r: int) -> MoveOutcome {
    if win_through(b, color, c, r) {
        win_color(color)
    } else if board_full(b) {
        MoveOutcome::Draw
    } else {
        MoveOutcome::Continue
    }
}

/// The full effect of one attempted move on a board snapshot: an attempt on a
/// full column is `Illegal` and changes nothing; otherwise the mover's piece
/// lands on the lowest empty cell, the outcome is evaluated from that cell,
/// and the turn advances exactly when the game continues.
pub open spec fn play_result(s: BoardState, col: int) -> (BoardState, MoveOutcome) {
    let row = drop_row(s.cells, col);
    if row >= num_rows() {
        (s, MoveOutcome::Illegal)
    } else {
        let color = mover_color(s.reds_turn);
        let cells2 = s.cells.update(col * num_rows() + row, color);
        let o = outcome_of(cells2, color, col, row);
        let turn2 = if o == MoveOutcome::Continue {
            !s.reds_turn
        } else {
            s.reds_turn
        };
        (BoardState { cells: cells2, reds_turn: turn2 }, o)
    }
}

/// The glyph a cell renders as.
pub open spec fn glyph(c: GameCell) -> char {
    match c {
        GameCell::Empty => '⚫',
        GameCell::Red => '🔴',
        GameCell::Yellow => '🟡',
    }
}

/// One rendered row of the board from column `c` on, closed by a newline.
pub open spec fn render_row(b: Seq<GameCell>, r: int, c: int) -> Seq<char>
    decreases num_cols() - c,
{
    if c >= num_cols() {
        seq!['\n']
    } else {
        seq![glyph(cell_at(b, c, r))] + render_row(b, r, c + 1)
    }
}

/// The rendered rows from `r` down to the bottom row.
pub open spec fn render_rows(b: Seq<GameCell>, r: int) -> Seq<char>
    decreases r + 1,
{
    if r < 0 {
        Seq::empty()
    } else {
        render_row(b, r, 0) + render_rows(b, r - 1)
    }
}

/// The textual board: one line per row, top row first, one glyph per cell.
pub open spec fn render_board(b: Seq<GameCell>) -> Seq<char> {
    render_rows(b, num_rows() - 1)
}

/// Relates the capped run counts on the two sides of `(c, r)` to the
/// existence of a four-cell window of `color` through `(c, r)` along
/// direction `(dc, dr)`: the window exists exactly when the runs and the
/// cell itself together span at least four cells.
proof fn lemma_window_from_counts(
    b: Seq<GameCell>,
    color: GameCell,
    c: int,
    r: int,
    dc: int,
    dr: int,
    neg: int,
    pos: int,
)
    requires
        cell_at(b, c, r) == color,
        0 <= neg <= 3,
        0 <= pos <= 3,
        forall|k: int| 1 <= k <= neg ==> #[trigger] cell_at(b, c + k * (-dc), r + k * (-dr))
            == color,
        neg < 3 ==> cell_at(b, c + (neg + 1) * (-dc), r + (neg + 1) * (-dr)) != color,
        forall|k: int| 1 <= k <= pos ==> #[trigger] cell_at(b, c + k * dc, r + k * dr) == color,
        pos < 3 ==> cell_at(b, c + (pos + 1) * dc, r + (pos + 1) * dr) != color,
    ensures
        (1 + neg + pos >= 4) == dir_win(b, color, c, r, dc, dr),
{
    if 1 + neg + pos >= 4 {
        let s = -neg;
        assert(run_of_four(b, color, c + s * dc, r + s * dr, dc, dr)) by {
            assert forall|k: int| 0 <= k < 4 implies #[trigger] cell_at(
                b,
                (c + s * dc) + k * dc,
                (r + s * dr) + k * dr,
            ) == color by {
                let j = s + k;
                assert((c + s * dc) + k * dc == c + j * dc) by (nonlinear_arith)
                    requires
                        j == s + k,
                ;
                assert((r + s * dr) + k * dr == r + j * dr) by (nonlinear_arith)
                    requires
                        j == s + k,
                ;
                if j < 0 {
                    assert(1 <= -j <= neg);
                    assert(cell_at(b, c + (-j) * (-dc), r + (-j) * (-dr)) == color);
                    assert(c + (-j) * (-dc) == c + j * dc) by (nonlinear_arith);
                    assert(r + (-j) * (-dr) == r + j * dr) by (nonlinear_arith);
                } else if j == 0 {
                    assert(c + j * dc == c);
                    assert(r + j * dr == r);
                } else {
                    assert(1 <= j <= pos);
                    assert(cell_at(b, c + j * dc, r + j * dr) == color);
                }
            }
        }
        assert(dir_win(b, color, c, r, dc, dr));
    } else {
        if dir_win(b, color, c, r, dc, dr) {
            let s = choose|s: int|
                -3 <= s <= 0 && #[trigger] run_of_four(b, color, c + s * dc, r + s * dr, dc, dr);
            if neg < -s {
                let k = -(neg + 1) - s;
                assert(0 <= k < 4);
                assert(cell_at(b, (c + s * dc) + k * dc, (r + s * dr) + k * dr) == color);
                assert((c + s * dc) + k * dc == c + (neg + 1) * (-dc)) by (nonlinear_arith)
                    requires
                        k == -(neg + 1) - s,
                ;
                assert((r + s * dr) + k * dr == r + (neg + 1) * (-dr)) by (nonlinear_arith)
                    requires
                        k == -(neg + 1) - s,
                ;
                assert(false);
            }
            if pos < s + 3 {
                let k = (pos + 1) - s;
                assert(0 <= k < 4);
                assert(cell_at(b, (c + s * dc) + k * dc, (r + s * dr) + k * dr) == color);
                assert((c + s * dc) + k * dc == c + (pos + 1) * dc) by (nonlinear_arith)
                    requires
                        k == (pos + 1) - s,
                ;
                assert((r + s * dr) + k * dr == r + (pos + 1) * dr) by (nonlinear_arith)
                    requires
                        k == (pos + 1) - s,
                ;
                assert(false);
            }
            assert(1 + neg + pos >= 1 + (-s) + (s + 3));
            assert(false);
        }
    }
}

impl GameState {
    /// The board is well-formed: 42 cells, columns filled bottom-up.
    pub open spec fn wf(self) -> bool {
        board_wf(self.board@)
    }

    /// Spec-level snapshot of the board and the turn.
    pub open spec fn snapshot(self) -> BoardState {
        BoardState { cells: self.board@, reds_turn: self.reds_turn }
    }

    /// The player whose turn it is.
    pub open spec fn current_player_spec(self) -> u64 {
        if self.reds_turn {
            self.red_player
        } else {
            self.yellow_player
        }
    }

    /// A fresh game: an all-empty board, red to move first.
    pub fn new(red_player: u64, yellow_player: u64, move_timeout_secs: u64) -> (s: GameState)
        ensures
            s.wf(),
            s.board@.len() == 42,
            forall|i: int| 0 <= i < 42 ==> s.board@[i] == GameCell::Empty,
            s.reds_turn,
            s.red_player == red_player,
            s.yellow_player == yellow_player,
            s.config.move_timeout_secs == move_timeout_secs,
    {
        let mut board: Vec<GameCell> = Vec::new();
        let mut i: usize = 0;
        while i < 42
            invariant
                i <= 42,
                board@.len() == i,
                forall|j: int| 0 <= j < i ==> board@[j] == GameCell::Empty,
            decreases 42 - i,
        {
            board.push(GameCell::Empty);
            i += 1;
        }
        GameState {
            reds_turn: true,
            red_player,
            yellow_player,
            board,
            config: GameConfig { move_timeout_secs },
        }
    }

    /// The player whose turn it is.
    pub fn current_player(&self) -> (p: u64)
        ensures
            p == self.current_player_spec(),
    {
        if self.reds_turn {
            self.red_player
        } else {
            self.yellow_player
        }
    }

    /// Writes out the board as text: one line per row, top row first, one
    /// glyph per cell.
    pub fn display_board(&self) -> (s: String)
        requires
            board_len_ok(self.board@),
        ensures
            s@ == render_board(self.board@),
    {
        let mut s = String::new();
        let mut ri: usize = 0;
        while ri < 6
            invariant
                board_len_ok(self.board@),
                ri <= 6,
                s@ + render_rows(self.board@, 5 - ri) =~= render_board(self.board@),
            decreases 6 - ri,
        {
            let r = 5 - ri;
            let mut c: usize = 0;
            while c < 7
                invariant
                    board_len_ok(self.board@),
                    c <= 7,
                    ri < 6,
                    r == 5 - ri,
                    s@ + render_row(self.board@, r as int, c as int) + render_rows(
                        self.board@,
                        r as int - 1,
                    ) =~= render_board(self.board@),
                decreases 7 - c,
            {
                let ghost prev = s@;
                match self.board[c * 6 + r] {
                    GameCell::Empty => s.append("⚫"),
                    GameCell::Red => s.append("🔴"),
                    GameCell::Yellow => s.append("🟡"),
                }
                proof {
                    reveal_strlit("⚫");
                    reveal_strlit("🔴");
                    reveal_strlit("🟡");
                    let b = self.board@;
                    assert(cell_at(b, c as int, r as int) == b[c as int * 6 + r as int]);
                    assert(s@ =~= prev + seq![glyph(cell_at(b, c as int, r as int))]);
                    assert(s@ + render_row(b, r as int, c as int + 1) + render_rows(
                        b,
                        r as int - 1,
                    ) =~= render_board(b));
                }
                c += 1;
            }
            let ghost prev = s@;
            s.append("\n");
            proof {
                reveal_strlit("\n");
                let b = self.board@;
                assert(render_row(b, r as int, 7) =~= seq!['\n']);
                assert(s@ =~= prev + seq!['\n']);
                assert(s@ + render_rows(b, r as int - 1) =~= render_board(b));
                assert(r as int - 1 == 5 - (ri + 1));
            }
            ri += 1;
        }
        proof {
            assert(render_rows(self.board@, -1) =~= Seq::<char>::empty());
            assert(s@ =~= render_board(self.board@));
        }
        s
    }

    /// The cell at `(c, r)`, reading positions outside the grid as `Empty`.
    fn cell_or_empty(&self, c: i32, r: i32) -> (res: GameCell)
        requires
            board_len_ok(self.board@),
        ensures
            res == cell_at(self.board@, c as int, r as int),
    {
        if 0 <= c && c < 7 && 0 <= r && r < 6 {
            self.board[(c * 6 + r) as usize]
        } else {
            GameCell::Empty
        }
    }

    /// How many cells of `color` follow `(c, r)` in direction `(dc, dr)`,
    /// counted up to 3: run lengths beyond that cannot change the outcome.
    fn count_dir(&self, color: GameCell, c: usize, r: usize, dc: i32, dr: i32) -> (n: u32)
        requires
            board_len_ok(self.board@),
            c < 7,
            r < 6,
            -1 <= dc <= 1,
            -1 <= dr <= 1,
        ensures
            n <= 3,
            forall|k: int| 1 <= k <= n ==> #[trigger] cell_at(
                self.board@,
                c + k * dc,
                r + k * dr,
            ) == color,
            n < 3 ==> cell_at(self.board@, c + (n + 1) * dc, r + (n + 1) * dr) != color,
    {
        let mut n: u32 = 0;
        while n < 3
            invariant
                board_len_ok(self.board@),
                c < 7,
                r < 6,
                -1 <= dc <= 1,
                -1 <= dr <= 1,
                n <= 3,
                forall|k: int| 1 <= k <= n ==> #[trigger] cell_at(
                    self.board@,
                    c + k * dc,
                    r + k * dr,
                ) == color,
            decreases 3 - n,
        {
            let step: i32 = n as i32 + 1;
            proof {
                assert(-4 <= step * dc <= 4 && -4 <= step * dr <= 4) by (nonlinear_arith)
                    requires
                        1 <= step <= 4,
                        -1 <= dc <= 1,
                        -1 <= dr <= 1,
                ;
            }
            let cc: i32 = c as i32 + step * dc;
            let rr: i32 = r as i32 + step * dr;
            assert(cc == c + (n + 1) * dc && rr == r + (n + 1) * dr);
            if self.cell_or_empty(cc, rr) == color {
                n += 1;
            } else {
                return n;
            }
        }
        n
    }

    /// Length of the longest run of `color` through `(c, r)` along direction
    /// `(dc, dr)`, capped so that any value of 4 or more reports 4.
    fn line_len(&self, color: GameCell, c: usize, r: usize, dc: i32, dr: i32) -> (n: u32)
        requires
            board_len_ok(self.board@),
            c < 7,
            r < 6,
            -1 <= dc <= 1,
            -1 <= dr <= 1,
            cell_at(self.board@, c as int, r as int) == color,
        ensures
            (n >= 4) == dir_win(self.board@, color, c as int, r as int, dc as int, dr as int),
    {
        let neg = self.count_dir(color, c, r, -dc, -dr);
        let pos = self.count_dir(color, c, r, dc, dr);
        proof {
            lemma_window_from_counts(
                self.board@,
                color,
                c as int,
                r as int,
                dc as int,
                dr as int,
                neg as int,
                pos as int,
            );
        }
        1 + neg + pos
    }

    /// Whether every cell of the board holds a piece.
    fn is_full(&self) -> (res: bool)
        requires
            board_len_ok(self.board@),
        ensures
            res == board_full(self.board@),
    {
        let mut i: usize = 0;
        while i < 42
            invariant
                board_len_ok(self.board@),
                i <= 42,
                forall|j: int| 0 <= j < i ==> self.board@[j] != GameCell::Empty,
            decreases 42 - i,
        {
            if self.board[i] == GameCell::Empty {
                proof {
                    let c = i as int / 6;
                    let r = i as int % 6;
                    assert(cell_at(self.board@, c, r) == GameCell::Empty);
                }
                return false;
            }
            i += 1;
        }
        proof {
            assert forall|c: int, r: int|
                0 <= c < num_cols() && 0 <= r < num_rows() implies #[trigger] cell_at(
                self.board@,
                c,
                r,
            ) != GameCell::Empty by {
                assert(self.board@[c * 6 + r] != GameCell::Empty);
            }
        }
        true
    }

    /// Evaluates the board from the just-placed piece at `(column, row)`:
    /// reports a win for that piece's color if it completes four in a row
    /// vertically, horizontally, or on either diagonal; a draw if the board
    /// is full without such a run; otherwise the game continues.
    pub fn check_move(&self, row: usize, column: usize) -> (r: MoveOutcome)
        requires
            board_len_ok(self.board@),
            row < 6,
            column < 7,
            cell_at(self.board@, column as int, row as int) != GameCell::Empty,
        ensures
            r == outcome_of(
                self.board@,
                cell_at(self.board@, column as int, row as int),
                column as int,
                row as int,
            ),
    {
        proof {
            reveal(outcome_of);
        }
        let color = self.board[column * 6 + row];
        if self.line_len(color, column, row, 0, 1) >= 4 {
            return self.winner_of(color);
        }
        if self.line_len(color, column, row, 1, 0) >= 4 {
            return self.winner_of(color);
        }
        if self.line_len(color, column, row, 1, 1) >= 4 {
            return self.winner_of(color);
        }
        if self.line_len(color, column, row, 1, -1) >= 4 {
            return self.winner_of(color);
        }
        if self.is_full() {
            return MoveOutcome::Draw;
        }
        MoveOutcome::Continue
    }

    /// The winning outcome for `color`.
    fn winner_of(&self, color: GameCell) -> (r: MoveOutcome)
        ensures
            r == win_color(color),
    {
        match color {
            GameCell::Red => MoveOutcome::RedWins,
            GameCell::Yellow => MoveOutcome::YellowWins,
            GameCell::Empty => MoveOutcome::Illegal,
        }
    }

    /// The current player drops a piece into `column`; reports the outcome
    /// and advances the turn exactly when the game continues.
    #[verifier::rlimit(100)]
    pub fn play_move(&mut self, column: usize) -> (r: MoveOutcome)
        requires
            column < 7,
            old(self).wf(),
        ensures
            final(self).wf(),
            final(self).red_player == old(self).red_player,
            final(self).yellow_player == old(self).yellow_player,
            final(self).config == old(self).config,
            ({
                let (st, o) = play_result(old(self).snapshot(), column as int);
                final(self).board@ == st.cells && final(self).reds_turn == st.reds_turn && r == o
            }),
    {
        let color = if self.reds_turn {
            GameCell::Red
        } else {
            GameCell::Yellow
        };

        let mut row: usize = 0;
        while row < 6 && self.board[column * 6 + row] != GameCell::Empty
            invariant
                board_len_ok(self.board@),
                column < 7,
                row <= 6,
                forall|j: int| 0 <= j < row ==> #[trigger] cell_at(self.board@, column as int, j)
                    != GameCell::Empty,
            decreases 6 - row,
        {
            row += 1;
        }
        proof {
            lemma_first_empty_row_found(self.board@, column as int, 0, row as int);
        }
        if row == 6 {
            return MoveOutcome::Illegal;
        }

        self.board.set(column * 6 + row, color);

        proof {
            lemma_update_keeps_stacked(
                old(self).board@,
                self.board@,
                column as int,
                row as int,
                color,
            );
        }

        let outcome = self.check_move(row, column);

        if outcome == MoveOutcome::Continue {
            self.reds_turn = !self.reds_turn;
        }

        outcome
    }
}

/// The board snapshot after a sequence of attempted moves, each dropped into
/// the column it names, in order.
pub open spec fn play_seq(s: BoardState, cols: Seq<int>) -> BoardState
    decreases cols.len(),
{
    if cols.len() == 0 {
        s
    } else {
        play_seq(play_result(s, cols[0]).0, cols.skip(1))
    }
}

/// Splitting a sequence of moves splits the fold: playing `a + b` is playing
/// `a`, then `b` from where `a` left off.
proof fn lemma_play_seq_append(s: BoardState, a: Seq<int>, b: Seq<int>)
    ensures
        play_seq(s, a + b) == play_seq(play_seq(s, a), b),
    decreases a.len(),
{
    if a.len() == 0 {
        assert(a + b =~= b);
    } else {
        assert((a + b)[0] == a[0]);
        assert((a + b).skip(1) =~= a.skip(1) + b);
        lemma_play_seq_append(play_result(s, a[0]).0, a.skip(1), b);
    }
}

/// Over every sequence of attempted moves, the turn alternates strictly
/// after each move that continues the game and stays with the same player
/// otherwise; in particular an illegal attempt — and only such an attempt is
/// reported `Illegal` — repeats the same player's turn and changes nothing.
pub proof fn lemma_turn_alternation(s: BoardState, cols: Seq<int>, i: int)
    requires
        0 <= i < cols.len(),
    ensures
        ({
            let before = play_seq(s, cols.take(i));
            let stepped = play_result(before, cols[i]);
            &&& play_seq(s, cols.take(i + 1)) == stepped.0
            &&& (stepped.1 == MoveOutcome::Continue ==> stepped.0.reds_turn == !before.reds_turn)
            &&& (stepped.1 != MoveOutcome::Continue ==> stepped.0.reds_turn == before.reds_turn)
            &&& (stepped.1 == MoveOutcome::Illegal ==> stepped.0 == before)
        }),
{
    reveal(outcome_of);
    lemma_play_seq_append(s, cols.take(i), seq![cols[i]]);
    assert(cols.take(i) + seq![cols[i]] =~= cols.take(i + 1));
    let x = play_seq(s, cols.take(i));
    let t = seq![cols[i]];
    let y = play_result(x, cols[i]).0;
    assert(t.len() == 1 && t[0] == cols[i]);
    assert(t.skip(1) =~= Seq::<int>::empty());
    assert(play_seq(x, t) == play_seq(y, t.skip(1)));
    assert(play_seq(y, Seq::<int>::empty()) == y);
}

/// A column already holding six pieces rejects a seventh: the attempt is
/// always `Illegal` and leaves the board and the turn unchanged.
pub proof fn lemma_full_column_rejects(s: BoardState, col: int)
    requires
        0 <= col < num_cols(),
        forall|r: int| 0 <= r < num_rows() ==> #[trigger] cell_at(s.cells, col, r)
            != GameCell::Empty,
    ensures
        play_result(s, col) == (s, MoveOutcome::Illegal),
{
    lemma_first_empty_row_found(s.cells, col, 0, num_rows());
}

/// A move whose placed piece completes four in a row — vertically,
/// horizontally, or on either diagonal — is reported as the win of the
/// mover's color; one that completes none, with empty cells left, lets the
/// game continue.
pub proof fn lemma_win_detection(s: BoardState, col: int)
    requires
        0 <= col < num_cols(),
        drop_row(s.cells, col) < num_rows(),
    ensures
        ({
            let row = drop_row(s.cells, col);
            let color = mover_color(s.reds_turn);
            let after = s.cells.update(col * num_rows() + row, color);
            let stepped = play_result(s, col);
            &&& (win_through(after, color, col, row) ==> stepped.1 == win_color(color))
            &&& (!win_through(after, color, col, row) && !board_full(after) ==> stepped.1
                == MoveOutcome::Continue)
        }),
{
    reveal(outcome_of);
}

/// A move is reported as a draw exactly when it fills the last empty cell of
/// the board without completing four in a row through the placed piece.
pub proof fn lemma_draw_iff(s: BoardState, col: int)
    requires
        0 <= col < num_cols(),
        drop_row(s.cells, col) < num_rows(),
    ensures
        ({
            let row = drop_row(s.cells, col);
            let color = mover_color(s.reds_turn);
            let after = s.cells.update(col * num_rows() + row, color);
            (play_result(s, col).1 == MoveOutcome::Draw) <==> (!win_through(after, color, col, row)
                && board_full(after))
        }),
{
    reveal(outcome_of);
}

/// A cell, once set to a color, never reverts to empty or changes color: a
/// move only fills one cell that was empty before it.
pub proof fn lemma_cells_never_revert(s: BoardState, col: int)
    requires
        0 <= col < num_cols(),
        board_len_ok(s.cells),
    ensures
        forall|i: int| 0 <= i < s.cells.len() && s.cells[i] != GameCell::Empty ==> play_result(
            s,
            col,
        ).0.cells[i] == s.cells[i],
{
    let row = drop_row(s.cells, col);
    lemma_first_empty_row_range(s.cells, col, 0);
    if row < num_rows() {
        assert(s.cells[col * num_rows() + row] == GameCell::Empty);
    }
}

/// The first empty row search lands between its start and 6, on an empty
/// cell whenever it stays inside the grid.
proof fn lemma_first_empty_row_range(b: Seq<GameCell>, c: int, i: int)
    requires
        0 <= i <= num_rows(),
    ensures
        i <= first_empty_row(b, c, i) <= num_rows(),
        first_empty_row(b, c, i) < num_rows() ==> cell_at(b, c, first_empty_row(b, c, i))
            == GameCell::Empty,
    decreases num_rows() - i,
{
    if i < num_rows() && cell_at(b, c, i) != GameCell::Empty {
        lemma_first_empty_row_range(b, c, i + 1);
    }
}

/// If every cell of column `c` strictly below `r` holds a piece and the cell
/// at `r` (when inside the grid) is empty, then `r` is the first empty row.
proof fn lemma_first_empty_row_found(b: Seq<GameCell>, c: int, i: int, r: int)
    requires
        0 <= i <= r <= num_rows(),
        forall|j: int| i <= j < r ==> #[trigger] cell_at(b, c, j) != GameCell::Empty,
        r < num_rows() ==> cell_at(b, c, r) == GameCell::Empty,
    ensures
        first_empty_row(b, c, i) == r,
    decreases r - i,
{
    if i < r {
        lemma_first_empty_row_found(b, c, i + 1, r);
    }
}

/// Placing a piece on the first empty cell of a column keeps the board
/// filled bottom-up.
#[verifier::rlimit(60)]
proof fn lemma_update_keeps_stacked(
    b: Seq<GameCell>,
    b2: Seq<GameCell>,
    c: int,
    r: int,
    color: GameCell,
)
    requires
        board_wf(b),
        0 <= c < num_cols(),
        0 <= r < num_rows(),
        color != GameCell::Empty,
        0 < r ==> cell_at(b, c, r - 1) != GameCell::Empty,
        b2 == b.update(c * num_rows() + r, color),
    ensures
        board_wf(b2),
{
    assert forall|c2: int, r2: int|
        0 <= c2 < num_cols() && 0 < r2 < num_rows() && #[trigger] cell_at(b2, c2, r2)
            != GameCell::Empty implies cell_at(b2, c2, r2 - 1) != GameCell::Empty by {
        if c2 == c && r2 == r {
            if r > 0 {
                assert(c * num_rows() + (r - 1) != c * num_rows() + r);
                assert(cell_at(b2, c, r - 1) == cell_at(b, c, r - 1));
            }
        } else {
            assert(c2 * num_rows() + r2 != c * num_rows() + r);
            assert(cell_at(b2, c2, r2) == cell_at(b, c2, r2));
            if c2 == c && r2 - 1 == r {
                assert(cell_at(b2, c2, r2 - 1) == color);
            } else {
                assert(c2 * num_rows() + (r2 - 1) != c * num_rows() + r);
                assert(cell_at(b2, c2, r2 - 1) == cell_at(b, c2, r2 - 1));
            }
        }
    }
}

} // verus!
