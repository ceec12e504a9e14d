//! The active-game decision machine: one step per external event (a forced
//! cancellation, a per-move timeout, or a move signal), and the fold of a
//! whole event sequence to the session's terminal state. The waiting itself
//! — reactions, timers, channels — is the caller's business; every decision
//! is made here.

use vstd::prelude::*;

use crate::board::{num_cols, GameCell};
use crate::game::{play_result, BoardState, GameState, MoveOutcome, TerminalState};

verus! {

/// An action that can be sent to a running game's session channel.
#[derive(Debug, Clone, Copy, PartialEq, Eq, Structural)]
pub enum GameAction {
    /// Forcefully end the game before a natural terminal state.
    ForceDraw,
}

/// An external event the active game loop reacts to.
#[derive(Debug, Clone, Copy, PartialEq, Eq, Structural)]
pub enum GameEvent {
    /// A cancellation signal arrived on the session's channel.
    Cancelled,
    /// The per-move timeout elapsed with no valid move from the current
    /// player.
    MoveTimeout,
    /// A player selected a column.
    Move { player: u64, column: usize },
}

/// The decision one event forces: the new board snapshot and, when the event
/// ends the session, the terminal state. A move signal from anyone but the
/// current player, or with an out-of-range column, is ignored; a move that
/// continues the game or is illegal keeps the session running.
pub open spec fn step_model(
    s: BoardState,
    red: u64,
    yellow: u64,
    e: GameEvent,
) -> (BoardState, Option<TerminalState>) {
    match e {
        GameEvent::Cancelled => (s, Some(TerminalState::ForcedTermination)),
        GameEvent::MoveTimeout => (
            s,
            Some(
                TerminalState::ForfeitByTimeout(
                    if s.reds_turn {
                        red
                    } else {
                        yellow
                    },
                ),
            ),
        ),
        GameEvent::Move { player, column } => {
            let current = if s.reds_turn {
                red
            } else {
                yellow
            };
            if player != current || column >= num_cols() {
                (s, None)
            } else {
                let (s2, o) = play_result(s, column as int);
                let t = match o {
                    MoveOutcome::RedWins => Some(TerminalState::RedWins),
                    MoveOutcome::YellowWins => Some(TerminalState::YellowWins),
                    MoveOutcome::Draw => Some(TerminalState::Draw),
                    MoveOutcome::Continue => None,
                    MoveOutcome::Illegal => None,
                };
                (s2, t)
            }
        },
    }
}

/// The decisions of a whole session: events are taken strictly in arrival
/// order, and the first one that forces a terminal state ends the fold with
/// the board as it stood at that moment.
pub open spec fn run_model(
    s: BoardState,
    red: u64,
    yellow: u64,
    events: Seq<GameEvent>,
) -> (BoardState, Option<TerminalState>)
    decreases events.len(),
{
    if events.len() == 0 {
        (s, None)
    } else {
        let (s1, t) = step_model(s, red, yellow, events[0]);
        if t is Some {
            (s1, t)
        } else {
            run_model(s1, red, yellow, events.skip(1))
        }
    }
}

/// The snapshot a fresh game starts from: 42 empty cells, red to move.
pub open spec fn empty_board_state() -> BoardState {
    BoardState { cells: Seq::new(42, |i: int| GameCell::Empty), reds_turn: true }
}

impl GameState {
    /// Reacts to one external event, exactly as `step_model` decides.
    #[verifier::rlimit(100)]
    pub fn game_step(&mut self, event: GameEvent) -> (r: Option<TerminalState>)
        requires
            old(self).wf(),
        ensures
            final(self).wf(),
            final(self).red_player == old(self).red_player,
            final(self).yellow_player == old(self).yellow_player,
            final(self).config == old(self).config,
            (final(self).snapshot(), r) == step_model(
                old(self).snapshot(),
                old(self).red_player,
                old(self).yellow_player,
                event,
            ),
    {
        match event {
            GameEvent::Cancelled => Some(TerminalState::ForcedTermination),
            GameEvent::MoveTimeout => Some(TerminalState::ForfeitByTimeout(self.current_player())),
            GameEvent::Move { player, column } => {
                if player != self.current_player() || column >= 7 {
                    None
                } else {
                    match self.play_move(column) {
                        MoveOutcome::RedWins => Some(TerminalState::RedWins),
                        MoveOutcome::YellowWins => Some(TerminalState::YellowWins),
                        MoveOutcome::Draw => Some(TerminalState::Draw),
                        MoveOutcome::Continue => None,
                        MoveOutcome::Illegal => None,
                    }
                }
            },
        }
    }
}

/// Drives a game through a sequence of events, stopping at the first one
/// that forces a terminal state; returns that state, or `None` if the
/// events ran out with the game still open.
#[verifier::rlimit(100)]
pub fn run_session(state: &mut GameState, events: &Vec<GameEvent>) -> (r: Option<TerminalState>)
    requires
        old(state).wf(),
    ensures
        final(state).wf(),
        final(state).red_player == old(state).red_player,
        final(state).yellow_player == old(state).yellow_player,
        final(state).config == old(state).config,
        (final(state).snapshot(), r) == run_model(
            old(state).snapshot(),
            old(state).red_player,
            old(state).yellow_player,
            events@,
        ),
{
    let ghost red = state.red_player;
    let ghost yellow = state.yellow_player;
    proof {
        assert(events@.skip(0) =~= events@);
    }
    let mut i: usize = 0;
    while i < events.len()
        invariant
            i <= events.len(),
            state.wf(),
            state.red_player == red,
            state.yellow_player == yellow,
            state.red_player == old(state).red_player,
            state.yellow_player == old(state).yellow_player,
            state.config == old(state).config,
            run_model(old(state).snapshot(), red, yellow, events@) == run_model(
                state.snapshot(),
                red,
                yellow,
                events@.skip(i as int),
            ),
        decreases events.len() - i,
    {
        let event = events[i];
        proof {
            assert(events@.skip(i as int)[0] == events@[i as int]);
            assert(events@.skip(i as int).skip(1) =~= events@.skip(i as int + 1));
        }
        let t = state.game_step(event);
        if let Some(terminal) = t {
            return Some(terminal);
        }
        i += 1;
    }
    proof {
        assert(events@.skip(events@.len() as int) =~= Seq::<GameEvent>::empty());
    }
    None
}

/// Relies on `rand::random` to draw a value; nothing is assumed of it.
pub assume_specification<T>[ rand::random::<T> ]() -> (r: T)
    where
        rand::distributions::Standard: rand::distributions::Distribution<T>,
;

/// Flips a coin to decide which participant plays red; either order can
/// come back.
fn assign_colors(challenger: u64, opponent: u64) -> (r: (u64, u64))
    ensures
        r == (challenger, opponent) || r == (opponent, challenger),
{
    if rand::random::<bool>() {
        (challenger, opponent)
    } else {
        (opponent, challenger)
    }
}

/// A whole game between two participants: colors are drawn at random, the
/// board starts empty with red to move, and the events decide the rest
/// exactly as `run_model` folds them.
pub fn game(
    challenger: u64,
    opponent: u64,
    move_timeout_secs: u64,
    events: &Vec<GameEvent>,
) -> (r: (GameState, Option<TerminalState>))
    ensures
        ({
            let (s, t) = r;
            &&& s.wf()
            &&& s.config.move_timeout_secs == move_timeout_secs
            &&& ((s.red_player == challenger && s.yellow_player == opponent) || (s.red_player
                == opponent && s.yellow_player == challenger))
            &&& (s.snapshot(), t) == run_model(
                empty_board_state(),
                s.red_player,
                s.yellow_player,
                events@,
            )
        }),
{
    let (red, yellow) = assign_colors(challenger, opponent);
    let mut state = GameState::new(red, yellow, move_timeout_secs);
    proof {
        assert(state.board@ =~= empty_board_state().cells);
    }
    let t = run_session(&mut state, events);
    (state, t)
}

} // verus!
