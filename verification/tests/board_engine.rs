use connect_four::{GameCell, GameConfig, GameState, MoveOutcome};

fn empty_board() -> Vec<GameCell> {
    vec![GameCell::Empty; 42]
}

fn state_with_board(board: Vec<GameCell>, reds_turn: bool) -> GameState {
    GameState {
        reds_turn,
        red_player: 1,
        yellow_player: 2,
        board,
        config: GameConfig { move_timeout_secs: 120 },
    }
}

fn set(board: &mut Vec<GameCell>, c: usize, r: usize, cell: GameCell) {
    board[c * 6 + r] = cell;
}

#[test]
fn new_game_board_is_42_empty_cells() {
    let state = GameState::new(1, 2, 120);
    assert_eq!(state.board.len(), 42);
    assert!(state.board.iter().all(|&c| c == GameCell::Empty));
    assert!(state.reds_turn);
    assert_eq!(state.current_player(), 1);
}

#[test]
fn first_move_lands_at_row_zero_and_turn_passes() {
    let mut state = GameState::new(1, 2, 120);
    let outcome = state.play_move(3);
    assert_eq!(outcome, MoveOutcome::Continue);
    assert_eq!(state.board[3 * 6 + 0], GameCell::Red);
    assert!(!state.reds_turn);
    assert_eq!(state.current_player(), 2);
}

#[test]
fn turn_alternates_after_every_legal_move() {
    let mut state = GameState::new(1, 2, 120);
    let mut expect_red = true;
    for col in [0, 1, 2, 0, 1, 2, 3, 4] {
        assert_eq!(state.reds_turn, expect_red);
        assert_eq!(state.play_move(col), MoveOutcome::Continue);
        expect_red = !expect_red;
        assert_eq!(state.reds_turn, expect_red);
    }
}

#[test]
fn column_accepts_six_then_rejects_seventh() {
    let mut state = GameState::new(1, 2, 120);
    for _ in 0..6 {
        assert_ne!(state.play_move(2), MoveOutcome::Illegal);
    }
    let before_board = state.board.clone();
    let before_turn = state.reds_turn;
    assert_eq!(state.play_move(2), MoveOutcome::Illegal);
    assert_eq!(state.board, before_board);
    assert_eq!(state.reds_turn, before_turn);
}

#[test]
fn illegal_move_repeats_same_players_turn() {
    let mut state = GameState::new(1, 2, 120);
    for _ in 0..6 {
        state.play_move(5);
    }
    // Column 5 is now full of alternating colors; red tries it and must
    // retry.
    assert!(state.reds_turn);
    assert_eq!(state.play_move(5), MoveOutcome::Illegal);
    assert!(state.reds_turn);
    assert_eq!(state.play_move(4), MoveOutcome::Continue);
    assert!(!state.reds_turn);
}

#[test]
fn four_same_color_in_row_zero_wins() {
    let mut board = empty_board();
    set(&mut board, 0, 0, GameCell::Red);
    set(&mut board, 1, 0, GameCell::Red);
    set(&mut board, 2, 0, GameCell::Red);
    let mut state = state_with_board(board, true);
    assert_eq!(state.play_move(3), MoveOutcome::RedWins);
    // The winning move does not advance the turn.
    assert!(state.reds_turn);
}

#[test]
fn horizontal_win_through_played_game() {
    let mut state = GameState::new(1, 2, 120);
    for col in [0, 0, 1, 1, 2, 2] {
        assert_eq!(state.play_move(col), MoveOutcome::Continue);
    }
    assert_eq!(state.play_move(3), MoveOutcome::RedWins);
}

#[test]
fn vertical_win() {
    let mut state = GameState::new(1, 2, 120);
    for col in [0, 1, 0, 1, 0, 1] {
        assert_eq!(state.play_move(col), MoveOutcome::Continue);
    }
    assert_eq!(state.play_move(0), MoveOutcome::RedWins);
}

#[test]
fn yellow_can_win_too() {
    let mut state = GameState::new(1, 2, 120);
    for col in [6, 0, 6, 1, 5, 0, 5, 1] {
        assert_eq!(state.play_move(col), MoveOutcome::Continue);
    }
    // Yellow completes 0, 1, 2, 3 on row 0? No: yellow holds 0, 1 twice.
    // Yellow has pieces at columns 0 and 1, rows 0 and 1; complete a square
    // is no win. Drive a vertical yellow win in column 0 instead.
    assert_eq!(state.play_move(4), MoveOutcome::Continue); // red
    assert_eq!(state.play_move(0), MoveOutcome::Continue); // yellow row 2
    assert_eq!(state.play_move(4), MoveOutcome::Continue); // red
    assert_eq!(state.play_move(0), MoveOutcome::YellowWins); // yellow row 3
}

#[test]
fn diagonal_up_right_win() {
    let mut board = empty_board();
    // Red on the rising diagonal (0,0), (1,1), (2,2); supports below.
    set(&mut board, 0, 0, GameCell::Red);
    set(&mut board, 1, 0, GameCell::Yellow);
    set(&mut board, 1, 1, GameCell::Red);
    set(&mut board, 2, 0, GameCell::Yellow);
    set(&mut board, 2, 1, GameCell::Yellow);
    set(&mut board, 2, 2, GameCell::Red);
    set(&mut board, 3, 0, GameCell::Yellow);
    set(&mut board, 3, 1, GameCell::Yellow);
    set(&mut board, 3, 2, GameCell::Yellow);
    let mut state = state_with_board(board, true);
    // Red drops into column 3; the piece lands on row 3 and completes the
    // diagonal.
    assert_eq!(state.play_move(3), MoveOutcome::RedWins);
}

#[test]
fn diagonal_up_left_win() {
    let mut board = empty_board();
    // Red on the falling diagonal (3,0), (2,1), (1,2); supports below.
    set(&mut board, 3, 0, GameCell::Red);
    set(&mut board, 2, 0, GameCell::Yellow);
    set(&mut board, 2, 1, GameCell::Red);
    set(&mut board, 1, 0, GameCell::Yellow);
    set(&mut board, 1, 1, GameCell::Yellow);
    set(&mut board, 1, 2, GameCell::Red);
    set(&mut board, 0, 0, GameCell::Yellow);
    set(&mut board, 0, 1, GameCell::Yellow);
    set(&mut board, 0, 2, GameCell::Yellow);
    let mut state = state_with_board(board, true);
    assert_eq!(state.play_move(0), MoveOutcome::RedWins);
}

#[test]
fn three_in_a_row_only_continues() {
    let mut board = empty_board();
    set(&mut board, 0, 0, GameCell::Red);
    set(&mut board, 1, 0, GameCell::Red);
    let mut state = state_with_board(board, true);
    assert_eq!(state.play_move(2), MoveOutcome::Continue);
    assert!(!state.reds_turn);
}

/// The no-win tiling used by the draw test: color of `(c, r)` follows the
/// pattern R R Y Y along each row, shifted by two every row up, which keeps
/// every straight and diagonal run below four.
fn tiling(c: usize, r: usize) -> GameCell {
    match (c + 2 * r) % 4 {
        0 | 1 => GameCell::Red,
        _ => GameCell::Yellow,
    }
}

#[test]
fn draw_when_last_cell_fills_without_win() {
    let mut board = empty_board();
    for c in 0..7 {
        for r in 0..6 {
            set(&mut board, c, r, tiling(c, r));
        }
    }
    // Leave the top of the last column open; the tiling colors it red.
    set(&mut board, 6, 5, GameCell::Empty);
    assert_eq!(tiling(6, 5), GameCell::Red);
    let mut state = state_with_board(board, true);
    assert_eq!(state.play_move(6), MoveOutcome::Draw);
    assert!(state.board.iter().all(|&c| c != GameCell::Empty));
}

#[test]
fn no_draw_while_cells_remain() {
    let mut state = GameState::new(1, 2, 120);
    assert_eq!(state.play_move(0), MoveOutcome::Continue);
}

#[test]
fn display_board_renders_rows_top_first() {
    let state = GameState::new(1, 2, 120);
    let empty_row = "⚫⚫⚫⚫⚫⚫⚫\n";
    assert_eq!(state.display_board(), empty_row.repeat(6));

    let mut board = empty_board();
    set(&mut board, 3, 0, GameCell::Red);
    set(&mut board, 3, 1, GameCell::Yellow);
    let shown = state_with_board(board, true).display_board();
    let expected = format!(
        "{}{}{}{}{}{}",
        empty_row, empty_row, empty_row, empty_row, "⚫⚫⚫🟡⚫⚫⚫\n", "⚫⚫⚫🔴⚫⚫⚫\n"
    );
    assert_eq!(shown, expected);
}
