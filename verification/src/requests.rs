//! What callers send to have something done with a session.

use vstd::prelude::*;

verus! {

/// A player asks to join the session that goes by a code.
#[derive(Debug)]
pub struct JoinGameRequest {
    pub game_code: String,
    pub player_id: String,
}

/// A player declares themselves ready.
#[derive(Debug)]
pub struct PlayerReadyRequest {
    pub game_uuid: String,
    pub player_id: String,
}

/// A player hands in a prompt.
#[derive(Debug)]
pub struct SubmitPromptRequest {
    pub game_uuid: String,
    pub player_id: String,
    pub prompt: String,
}

/// A player hands in a guess at the prompt of another player.
#[derive(Debug)]
pub struct SubmitGuessRequest {
    pub game_uuid: String,
    pub player_id: String,
    pub target_id: String,
    pub guess: String,
}

/// Somebody asks how a session stands.
#[derive(Debug)]
pub struct GetGameStateRequest {
    pub game_id: String,
}

/// A guess to grade, with the prompt it aims at.
#[derive(Debug)]
pub struct ScoreGuessPayload {
    pub prompt: String,
    pub guess: String,
}

} // verus!
