//! Core of a turn-based four-in-a-row game orchestrator for a chat platform:
//! the board and rules engine, the per-room session registry, challenge
//! negotiation, and the per-turn decision machine of an active game.

mod board;
mod command;
mod game;
mod negotiation;
mod registry;
mod session;

pub use board::GameCell;
pub use command::{parse_command, Command, ParseCommandError};
pub use game::{GameConfig, GameState, MoveOutcome, TerminalState};
pub use negotiation::{negotiate, negotiation_step, NegotiationEvent, NegotiationOutcome,
    NegotiationSignal};
pub use registry::{GameModel, SessionHandle};
pub use session::{game, run_session, GameAction, GameEvent};
