//! What can go wrong.

use vstd::prelude::*;

verus! {

/// Why an action on a session, or a request around it, was refused.
#[derive(Clone, Copy, Debug, PartialEq, Eq, Structural)]
pub enum GameError {
    /// No session is known under the identifier or code that was given.
    SessionNotFound,
    /// The action names a player who is not one of the session's players.
    UnknownPlayer,
    /// The session already holds as many players as it admits.
    SessionFull,
    /// The session is not in the phase in which the action is taken.
    WrongPhase,
    /// Every code that was tried is already in use.
    CodeSpaceExhausted,
    /// The store behind the sessions failed.
    StoreUnavailable,
}

} // verus!
