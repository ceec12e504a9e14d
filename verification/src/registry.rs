//! The process-wide session registry: a map from a room to the handle of the
//! session running there. Reserving a room is the sole admission-control
//! point that keeps two games out of one room.

use vstd::prelude::*;

use std::collections::HashMap;

use crate::command::{command_room, Command};
use crate::session::GameAction;

verus! {

broadcast use vstd::std_specs::hash::group_hash_axioms;

/// Declares tokio's bounded-channel sender so a value of it can be stored in
/// the registry and handed back to callers; the library never calls its
/// methods, it only routes the capability.
#[verifier::external_type_specification]
#[verifier::external_body]
#[verifier::reject_recursive_types(T)]
pub struct ExSender<T>(tokio::sync::mpsc::Sender<T>);

/// A session's handle: the sender half of its cancellation channel.
pub type SessionHandle = tokio::sync::mpsc::Sender<GameAction>;

/// The registry of running sessions, keyed by room. Its view is the map
/// from each reserved room to the stored handle.
pub struct GameModel {
    games: HashMap<u64, SessionHandle>,
}

impl View for GameModel {
    type V = Map<u64, SessionHandle>;

    closed spec fn view(&self) -> Map<u64, SessionHandle> {
        self.games@
    }
}

impl GameModel {
    /// An empty registry: no room holds a session.
    pub fn new() -> (m: GameModel)
        ensures
            m@ == Map::<u64, SessionHandle>::empty(),
    {
        GameModel { games: HashMap::new() }
    }

    /// Registers `handle` for `room` if and only if the room is free;
    /// returns false and changes nothing when a session is already there.
    pub fn try_reserve(&mut self, room: u64, handle: SessionHandle) -> (r: bool)
        ensures
            r == !old(self)@.contains_key(room),
            r ==> final(self)@ == old(self)@.insert(room, handle),
            !r ==> final(self)@ == old(self)@,
    {
        if self.games.contains_key(&room) {
            false
        } else {
            self.games.insert(room, handle);
            true
        }
    }

    /// Removes the registration of `room`; does nothing if the room holds
    /// none, so a second release is harmless.
    pub fn release(&mut self, room: u64)
        ensures
            final(self)@ == old(self)@.remove(room),
    {
        self.games.remove(&room);
    }

    /// Handles an incoming command: a challenge asks to start a session in
    /// its room, which is admitted — registering `handle` — if and only if
    /// the room is free. The caller starts negotiation exactly when this
    /// returns true, and reports the room as occupied otherwise.
    pub fn run_command(&mut self, command: Command, handle: SessionHandle) -> (r: bool)
        ensures
            r == !old(self)@.contains_key(command_room(command)),
            r ==> final(self)@ == old(self)@.insert(command_room(command), handle),
            !r ==> final(self)@ == old(self)@,
    {
        match command {
            Command::Challenge { channel, .. } => self.try_reserve(channel, handle),
        }
    }

    /// The handle of the session running in `room`, if any; this is how a
    /// cancellation request finds its session.
    pub fn handle_for(&self, room: u64) -> (r: Option<&SessionHandle>)
        ensures
            match r {
                Some(h) => self@.contains_key(room) && *h == self@[room],
                None => !self@.contains_key(room),
            },
    {
        self.games.get(&room)
    }
}

/// Releasing a room always frees it: whatever the registry held, the room is
/// absent afterwards, so a following reservation of the same room succeeds.
pub proof fn lemma_release_frees_room(g: Map<u64, SessionHandle>, room: u64)
    ensures
        !g.remove(room).contains_key(room),
{
}

} // verus!
