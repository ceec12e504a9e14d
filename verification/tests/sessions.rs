use connect_four::{
    game, negotiate, negotiation_step, run_session, Command, GameAction, GameCell, GameEvent,
    GameModel, NegotiationEvent, NegotiationOutcome, NegotiationSignal, TerminalState,
};

fn handle() -> connect_four::SessionHandle {
    let (send, _recv) = tokio::sync::mpsc::channel::<GameAction>(4);
    send
}

#[test]
fn reserve_occupied_room_fails_and_changes_nothing() {
    let mut registry = GameModel::new();
    assert!(registry.try_reserve(7, handle()));
    assert!(!registry.try_reserve(7, handle()));
    assert!(registry.handle_for(7).is_some());
}

#[test]
fn release_then_reserve_succeeds() {
    let mut registry = GameModel::new();
    assert!(registry.try_reserve(7, handle()));
    registry.release(7);
    assert!(registry.handle_for(7).is_none());
    assert!(registry.try_reserve(7, handle()));
}

#[test]
fn release_is_idempotent() {
    let mut registry = GameModel::new();
    registry.release(3);
    assert!(registry.try_reserve(3, handle()));
    registry.release(3);
    registry.release(3);
    assert!(registry.try_reserve(3, handle()));
}

#[test]
fn rooms_are_independent() {
    let mut registry = GameModel::new();
    assert!(registry.try_reserve(1, handle()));
    assert!(registry.try_reserve(2, handle()));
    registry.release(1);
    assert!(registry.handle_for(1).is_none());
    assert!(registry.handle_for(2).is_some());
}

#[test]
fn challenge_in_free_room_is_admitted() {
    let mut registry = GameModel::new();
    let command = Command::Challenge { channel: 9, challenger: 10, opponent: 20 };
    assert!(registry.run_command(command, handle()));
    assert!(registry.handle_for(9).is_some());
    // A second challenge in the same room is rejected while the first runs.
    assert!(!registry.run_command(command, handle()));
}

#[test]
fn opponent_decline_ends_negotiation() {
    let events = vec![
        NegotiationEvent { user: 99, signal: NegotiationSignal::Decline },
        NegotiationEvent { user: 10, signal: NegotiationSignal::Accept },
        NegotiationEvent { user: 20, signal: NegotiationSignal::Decline },
        NegotiationEvent { user: 20, signal: NegotiationSignal::Accept },
    ];
    assert_eq!(negotiate(10, 20, &events), NegotiationOutcome::DeclinedBy(20));
}

#[test]
fn challenger_decline_is_cancellation() {
    let events = vec![NegotiationEvent { user: 10, signal: NegotiationSignal::Decline }];
    assert_eq!(negotiate(10, 20, &events), NegotiationOutcome::CancelledBy(10));
}

#[test]
fn opponent_accept_starts_game() {
    let events = vec![
        NegotiationEvent { user: 10, signal: NegotiationSignal::Accept },
        NegotiationEvent { user: 20, signal: NegotiationSignal::Accept },
    ];
    assert_eq!(negotiate(10, 20, &events), NegotiationOutcome::Accepted);
}

#[test]
fn empty_window_times_out() {
    assert_eq!(negotiate(10, 20, &Vec::new()), NegotiationOutcome::TimedOut);
}

#[test]
fn third_party_signals_are_ignored() {
    let events = vec![
        NegotiationEvent { user: 31, signal: NegotiationSignal::Accept },
        NegotiationEvent { user: 32, signal: NegotiationSignal::Decline },
    ];
    assert_eq!(negotiate(10, 20, &events), NegotiationOutcome::TimedOut);
    assert_eq!(
        negotiation_step(10, 20, NegotiationEvent { user: 31, signal: NegotiationSignal::Accept }),
        None
    );
}

#[test]
fn forced_termination_stops_at_iteration_boundary() {
    let mut registry = GameModel::new();
    assert!(registry.try_reserve(5, handle()));

    let mut state = connect_four::GameState::new(1, 2, 120);
    let events = vec![
        GameEvent::Move { player: 1, column: 0 },
        GameEvent::Cancelled,
        GameEvent::Move { player: 2, column: 1 },
    ];
    let terminal = run_session(&mut state, &events);
    assert_eq!(terminal, Some(TerminalState::ForcedTermination));
    // The move after the cancellation was never applied.
    let pieces = state.board.iter().filter(|&&c| c != GameCell::Empty).count();
    assert_eq!(pieces, 1);

    registry.release(5);
    assert!(registry.try_reserve(5, handle()));
}

#[test]
fn move_timeout_forfeits_current_player() {
    let mut state = connect_four::GameState::new(1, 2, 120);
    let events = vec![
        GameEvent::Move { player: 1, column: 3 },
        GameEvent::MoveTimeout,
    ];
    let terminal = run_session(&mut state, &events);
    // After red's move it is yellow (player 2) who lets the clock run out.
    assert_eq!(terminal, Some(TerminalState::ForfeitByTimeout(2)));
}

#[test]
fn moves_out_of_turn_are_ignored() {
    let mut state = connect_four::GameState::new(1, 2, 120);
    let events = vec![
        GameEvent::Move { player: 2, column: 0 },
        GameEvent::Move { player: 77, column: 1 },
    ];
    let terminal = run_session(&mut state, &events);
    assert_eq!(terminal, None);
    assert!(state.reds_turn);
    assert!(state.board.iter().all(|&c| c == GameCell::Empty));
}

#[test]
fn session_runs_to_a_win() {
    let mut state = connect_four::GameState::new(1, 2, 120);
    let events = vec![
        GameEvent::Move { player: 1, column: 0 },
        GameEvent::Move { player: 2, column: 0 },
        GameEvent::Move { player: 1, column: 1 },
        GameEvent::Move { player: 2, column: 1 },
        GameEvent::Move { player: 1, column: 2 },
        GameEvent::Move { player: 2, column: 2 },
        GameEvent::Move { player: 1, column: 3 },
        GameEvent::Move { player: 2, column: 4 },
    ];
    let terminal = run_session(&mut state, &events);
    assert_eq!(terminal, Some(TerminalState::RedWins));
    // The game ended on red's winning move; the event after it was not
    // consumed as a turn.
    let pieces = state.board.iter().filter(|&&c| c != GameCell::Empty).count();
    assert_eq!(pieces, 7);
}

#[test]
fn game_draws_colors_and_starts_empty() {
    let (state, terminal) = game(10, 20, 120, &Vec::new());
    assert_eq!(terminal, None);
    assert!(
        (state.red_player == 10 && state.yellow_player == 20)
            || (state.red_player == 20 && state.yellow_player == 10)
    );
    assert!(state.reds_turn);
    assert_eq!(state.config.move_timeout_secs, 120);
    assert!(state.board.iter().all(|&c| c == GameCell::Empty));
}
