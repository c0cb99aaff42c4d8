//! What is done with a request: the step between looking a session up and
//! storing it again.
//!
//! Each function here takes what the store answered and what the caller
//! asked, and gives the session to store and send back, or the reason why
//! nothing is to be stored. A caller that looks up, calls and stores under
//! one lock per session gets the game's rules and nothing else.

use vstd::prelude::*;
use vstd::string::*;
use crate::code::{is_code, CodeSearch, CodeStep};
use crate::error::GameError;
use crate::ident::{fresh_identifier, is_identifier};
use crate::model::SessionView;
use crate::requests::{
    GetGameStateRequest, JoinGameRequest, PlayerReadyRequest, SubmitGuessRequest,
    SubmitPromptRequest,
};
use crate::session::{Session, SessionRecord, DEFAULT_CAPACITY, DEFAULT_ROUNDS};

verus! {

/// What the store answered when a session was looked up.
#[derive(Debug)]
pub enum Lookup {
    /// The session, as it was stored.
    Found(SessionRecord),
    /// The store holds no such session.
    Missing,
    /// The store could not be asked.
    Failed,
}

/// The session that a lookup brought, or why there is none: a session that
/// is missing is `SessionNotFound`; a store that failed, or that holds what
/// the rules cannot have produced, is `StoreUnavailable`.
pub open spec fn opened(lookup: Lookup) -> Result<SessionView, GameError> {
    match lookup {
        Lookup::Found(record) => if record@.wf() {
            Ok(record@)
        } else {
            Err(GameError::StoreUnavailable)
        },
        Lookup::Missing => Err(GameError::SessionNotFound),
        Lookup::Failed => Err(GameError::StoreUnavailable),
    }
}

/// The session that a lookup brought, which must be the one with the
/// identifier `id`.
pub open spec fn opened_by_id(lookup: Lookup, id: Seq<char>) -> Result<SessionView, GameError> {
    match opened(lookup) {
        Ok(s) => if s.id == id {
            Ok(s)
        } else {
            Err(GameError::SessionNotFound)
        },
        Err(e) => Err(e),
    }
}

/// The session that a lookup brought, which must be the one that goes by
/// the code `code`.
pub open spec fn opened_by_code(lookup: Lookup, code: Seq<char>) -> Result<SessionView, GameError> {
    match opened(lookup) {
        Ok(s) => if s.code == code {
            Ok(s)
        } else {
            Err(GameError::SessionNotFound)
        },
        Err(e) => Err(e),
    }
}

/// Whether a request was answered as the rules say: with the session that
/// they give, or with their refusal.
pub open spec fn served(
    rule: Result<SessionView, GameError>,
    answer: Result<Session, GameError>,
) -> bool {
    match rule {
        Ok(next) => answer is Ok && answer->Ok_0@ == next && next.wf(),
        Err(e) => answer is Err && answer->Err_0 == e,
    }
}

/// What the rules make of a request to join.
pub open spec fn join_game_rule(lookup: Lookup, request: JoinGameRequest, username: Seq<char>) -> Result<
    SessionView,
    GameError,
> {
    match opened_by_code(lookup, request.game_code@) {
        Ok(s) => s.join(request.player_id@, username),
        Err(e) => Err(e),
    }
}

/// What the rules make of a player's declaring themselves ready.
pub open spec fn player_ready_rule(lookup: Lookup, request: PlayerReadyRequest) -> Result<
    SessionView,
    GameError,
> {
    match opened_by_id(lookup, request.game_uuid@) {
        Ok(s) => s.ready(request.player_id@),
        Err(e) => Err(e),
    }
}

/// What the rules make of a prompt that is handed in.
pub open spec fn submit_prompt_rule(lookup: Lookup, request: SubmitPromptRequest) -> Result<
    SessionView,
    GameError,
> {
    match opened_by_id(lookup, request.game_uuid@) {
        Ok(s) => s.prompt(request.player_id@, request.prompt@),
        Err(e) => Err(e),
    }
}

/// What the rules make of a guess that is handed in.
pub open spec fn submit_guess_rule(lookup: Lookup, request: SubmitGuessRequest) -> Result<
    SessionView,
    GameError,
> {
    match opened_by_id(lookup, request.game_uuid@) {
        Ok(s) => s.guess(request.player_id@, request.target_id@, request.guess@),
        Err(e) => Err(e),
    }
}

/// Takes in what a lookup brought.
fn open(lookup: Lookup) -> (r: Result<Session, GameError>)
    ensures
        served(opened(lookup), r),
{
    match lookup {
        Lookup::Found(record) => match Session::restore(record) {
            Some(session) => Ok(session),
            None => Err(GameError::StoreUnavailable),
        },
        Lookup::Missing => Err(GameError::SessionNotFound),
        Lookup::Failed => Err(GameError::StoreUnavailable),
    }
}

/// Takes in what a lookup brought, if it is the session with the
/// identifier `id`.
fn open_by_id(lookup: Lookup, id: &String) -> (r: Result<Session, GameError>)
    ensures
        served(opened_by_id(lookup, id@), r),
{
    let session = open(lookup)?;
    if *session.id() == *id {
        Ok(session)
    } else {
        Err(GameError::SessionNotFound)
    }
}

/// Takes in what a lookup brought, if it is the session that goes by the
/// code `code`.
fn open_by_code(lookup: Lookup, code: &String) -> (r: Result<Session, GameError>)
    ensures
        served(opened_by_code(lookup, code@), r),
{
    let session = open(lookup)?;
    if *session.code() == *code {
        Ok(session)
    } else {
        Err(GameError::SessionNotFound)
    }
}

/// Whether `s` is a game that was just made under the code `code`: a new
/// session under an identifier made up for it, in the lobby, with
/// [`DEFAULT_ROUNDS`] rounds and room for [`DEFAULT_CAPACITY`] players.
pub open spec fn is_new_game(s: SessionView, code: Seq<char>) -> bool {
    &&& is_identifier(s.id)
    &&& s == SessionView::fresh(s.id, code, DEFAULT_ROUNDS as nat, DEFAULT_CAPACITY as nat)
}

/// What making a game has come to once a code was looked up.
#[derive(Debug)]
pub enum Creation {
    /// The code was free: this is the game, to be stored under it.
    Created(Session),
    /// The code was in use: this one is to be looked up next.
    Retry(String),
}

/// Starts the game that goes by the code `code`.
///
/// That no other session goes by the code is for the caller to see to,
/// before the call: [`create_game`] does.
pub fn start_game(code: String) -> (r: Session)
    ensures
        is_new_game(r@, code@),
        r@.wf(),
{
    Session::new(fresh_identifier(), code, DEFAULT_ROUNDS, DEFAULT_CAPACITY).unwrap()
}

/// Makes a game, one code at a time.
///
/// The caller takes the first code from the search, looks it up, and comes
/// here with the code and with what the store said of it. A code that is
/// free is used at once: the game is made under it and no other code is
/// drawn. A code that is in use is dropped, and the search gives the next
/// one to look up; a search that has proposed as many codes as it was set to
/// ends the making with `CodeSpaceExhausted`, and nothing is to be stored.
pub fn create_game(search: &mut CodeSearch, code: String, taken: bool) -> (r: Result<
    Creation,
    GameError,
>)
    ensures
        !taken ==> {
            &&& r matches Ok(Creation::Created(s)) && is_new_game(s@, code@) && s@.wf()
            &&& final(search)@ == old(search)@
        },
        taken && old(search)@ > 0 ==> {
            &&& r matches Ok(Creation::Retry(next)) && is_code(next@)
            &&& final(search)@ == old(search)@ - 1
        },
        taken && old(search)@ == 0 ==> {
            &&& r == Err::<Creation, GameError>(GameError::CodeSpaceExhausted)
            &&& final(search)@ == 0
        },
{
    match search.after_check(code, taken) {
        Ok(CodeStep::Use(code)) => Ok(Creation::Created(start_game(code))),
        Ok(CodeStep::Try(next)) => Ok(Creation::Retry(next)),
        Err(e) => Err(e),
    }
}

/// Reads a session: the session that was looked up, unchanged, where it is
/// the one that was asked for.
pub fn get_game_state(lookup: Lookup, request: &GetGameStateRequest) -> (r: Result<Session, GameError>)
    ensures
        served(opened_by_id(lookup, request.game_id@), r),
{
    open_by_id(lookup, &request.game_id)
}

/// Lets a player into the session that goes by the code they gave, under
/// the name `username`: see [`Session::join`].
pub fn join_game(lookup: Lookup, request: JoinGameRequest, username: String) -> (r: Result<
    Session,
    GameError,
>)
    ensures
        served(join_game_rule(lookup, request, username@), r),
{
    let mut session = open_by_code(lookup, &request.game_code)?;
    match session.join(request.player_id, username) {
        Ok(()) => Ok(session),
        Err(e) => Err(e),
    }
}

/// Marks a player as ready: see [`Session::set_ready`].
pub fn player_ready(lookup: Lookup, request: PlayerReadyRequest) -> (r: Result<Session, GameError>)
    ensures
        served(player_ready_rule(lookup, request), r),
{
    let mut session = open_by_id(lookup, &request.game_uuid)?;
    match session.set_ready(request.player_id.as_str()) {
        Ok(()) => Ok(session),
        Err(e) => Err(e),
    }
}

/// Takes a player's prompt in: see [`Session::submit_prompt`].
pub fn submit_prompt(lookup: Lookup, request: SubmitPromptRequest) -> (r: Result<Session, GameError>)
    ensures
        served(submit_prompt_rule(lookup, request), r),
{
    let mut session = open_by_id(lookup, &request.game_uuid)?;
    match session.submit_prompt(request.player_id, request.prompt) {
        Ok(()) => Ok(session),
        Err(e) => Err(e),
    }
}

/// Takes a player's guess in: see [`Session::submit_guess`].
pub fn submit_guess(lookup: Lookup, request: SubmitGuessRequest) -> (r: Result<Session, GameError>)
    ensures
        served(submit_guess_rule(lookup, request), r),
{
    let mut session = open_by_id(lookup, &request.game_uuid)?;
    match session.submit_guess(request.player_id, request.target_id, request.guess) {
        Ok(()) => Ok(session),
        Err(e) => Err(e),
    }
}

} // verus!
