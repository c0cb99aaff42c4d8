use guess_ai::code::CodeSearch;
use guess_ai::error::GameError;
use guess_ai::ident::IDENTIFIER_LENGTH;
use guess_ai::phase::Phase;
use guess_ai::requests::{
    GetGameStateRequest, JoinGameRequest, PlayerReadyRequest, SubmitGuessRequest,
    SubmitPromptRequest,
};
use guess_ai::service::{
    create_game, get_game_state, join_game, player_ready, start_game, submit_guess, submit_prompt,
    Creation, Lookup,
};
use guess_ai::session::{Guess, Player, Prompt, Session, SessionRecord, DEFAULT_CAPACITY, DEFAULT_ROUNDS};

fn text(s: &str) -> String {
    s.to_string()
}

fn player(id: &str, ready: bool) -> Player {
    Player { id: text(id), display_name: text(""), score: 0, ready }
}

fn prompt(player: &str) -> Prompt {
    Prompt { player: text(player), text: format!("prompt of {}", player) }
}

fn guess(guesser: &str, target: &str) -> Guess {
    Guess { guesser: text(guesser), target: text(target), text: text("?") }
}

fn record(phase: Phase) -> SessionRecord {
    let in_round = phase == Phase::Guessing || phase == Phase::Scoring;
    let started = phase != Phase::Lobby;
    SessionRecord {
        id: text("s-1"),
        code: text("ABCDE"),
        phase,
        current_round: if phase == Phase::Complete { 3 } else { 1 },
        total_rounds: 3,
        capacity: 2,
        players: vec![player("p1", started), player("p2", started)],
        prompts: if in_round { vec![prompt("p1"), prompt("p2")] } else { vec![] },
        guesses: if phase == Phase::Scoring { vec![guess("p1", "p2"), guess("p2", "p1")] } else { vec![] },
        current_prompt: text(""),
        current_image: text(""),
    }
}

fn found(phase: Phase) -> Lookup {
    Lookup::Found(record(phase))
}

fn refused(r: Result<Session, GameError>) -> GameError {
    match r {
        Ok(s) => panic!("accepted: {:?}", s),
        Err(e) => e,
    }
}

#[test]
fn sound_records_are_taken_in() {
    for phase in [Phase::Lobby, Phase::Imagining, Phase::Guessing, Phase::Scoring, Phase::Complete] {
        let s = Session::restore(record(phase)).expect("a session that the rules can produce");
        assert_eq!(s.phase(), phase);
        assert_eq!(format!("{:?}", s.into_record()), format!("{:?}", record(phase)));
    }
}

#[test]
fn a_session_goes_out_as_it_is() {
    let mut s = Session::new(text("s-9"), text("ZZZZ9"), 4, 3).expect("at least one round");
    assert_eq!(s.join(text("p1"), text("Ann")), Ok(()));
    let r = s.into_record();
    assert_eq!(r.id, "s-9");
    assert_eq!(r.code, "ZZZZ9");
    assert_eq!(r.phase, Phase::Lobby);
    assert_eq!((r.current_round, r.total_rounds, r.capacity), (1, 4, 3));
    assert_eq!(r.players.len(), 1);
    assert_eq!(r.players[0].display_name, "Ann");
    assert!(r.prompts.is_empty() && r.guesses.is_empty());
    assert!(Session::restore(r).is_some());
}

#[test]
fn records_with_wrong_rounds_are_turned_away() {
    let mut r = record(Phase::Imagining);
    r.current_round = 0;
    assert!(Session::restore(r).is_none());
    let mut r = record(Phase::Imagining);
    r.current_round = 4;
    assert!(Session::restore(r).is_none());
    let mut r = record(Phase::Imagining);
    r.total_rounds = 0;
    assert!(Session::restore(r).is_none());
    let mut r = record(Phase::Lobby);
    r.current_round = 2;
    assert!(Session::restore(r).is_none());
    let mut r = record(Phase::Complete);
    r.current_round = 2;
    assert!(Session::restore(r).is_none());
}

#[test]
fn records_with_too_many_players_are_turned_away() {
    let mut r = record(Phase::Lobby);
    r.players.push(player("p3", false));
    assert!(Session::restore(r).is_none());
    let mut r = record(Phase::Lobby);
    r.players.push(player("p3", false));
    r.capacity = 3;
    assert!(Session::restore(r).is_some());
}

#[test]
fn records_with_a_player_twice_are_turned_away() {
    let mut r = record(Phase::Lobby);
    r.capacity = 3;
    r.players.push(player("p1", false));
    assert!(Session::restore(r).is_none());
}

#[test]
fn records_with_stray_prompts_are_turned_away() {
    let mut r = record(Phase::Guessing);
    r.prompts.push(prompt("p1"));
    assert!(Session::restore(r).is_none());
    let mut r = record(Phase::Guessing);
    r.prompts[1] = prompt("p3");
    assert!(Session::restore(r).is_none());
    let mut r = record(Phase::Guessing);
    r.prompts.pop();
    assert!(Session::restore(r).is_none());
    let mut r = record(Phase::Lobby);
    r.prompts.push(prompt("p1"));
    assert!(Session::restore(r).is_none());
    let mut r = record(Phase::Complete);
    r.prompts.push(prompt("p1"));
    assert!(Session::restore(r).is_none());
    let mut r = record(Phase::Imagining);
    r.prompts.push(prompt("p1"));
    assert!(Session::restore(r).is_some());
}

#[test]
fn records_with_stray_guesses_are_turned_away() {
    let mut r = record(Phase::Scoring);
    r.guesses.push(guess("p1", "p2"));
    assert!(Session::restore(r).is_none());
    let mut r = record(Phase::Scoring);
    r.guesses[0] = guess("p1", "p1");
    assert!(Session::restore(r).is_none());
    let mut r = record(Phase::Scoring);
    r.guesses[0] = guess("p3", "p1");
    assert!(Session::restore(r).is_none());
    let mut r = record(Phase::Scoring);
    r.guesses[0] = guess("p1", "p3");
    assert!(Session::restore(r).is_none());
    let mut r = record(Phase::Imagining);
    r.guesses.push(guess("p1", "p2"));
    assert!(Session::restore(r).is_none());
    let mut r = record(Phase::Guessing);
    r.guesses.push(guess("p1", "p2"));
    assert!(Session::restore(r).is_some());
}

#[test]
fn a_new_game_is_an_empty_lobby_under_its_code() {
    let s = start_game(text("K7Q2M"));
    assert_eq!(s.code(), "K7Q2M");
    assert_eq!(s.phase(), Phase::Lobby);
    assert_eq!(s.current_round(), 1);
    assert_eq!(s.total_rounds(), DEFAULT_ROUNDS);
    assert_eq!(s.total_rounds(), 3);
    assert_eq!(s.capacity(), DEFAULT_CAPACITY);
    assert_eq!(s.capacity(), 2);
    assert!(s.players().is_empty());
    assert!(s.prompts().is_empty() && s.guesses().is_empty());
}

#[test]
fn a_new_game_gets_an_identifier_of_its_own() {
    let a = start_game(text("AAAAA"));
    let b = start_game(text("BBBBB"));
    assert_ne!(a.id(), b.id());
    for id in [a.id(), b.id()] {
        assert_eq!(id.len(), IDENTIFIER_LENGTH);
        assert_eq!(id.len(), 36);
        for (i, c) in id.chars().enumerate() {
            if [8, 13, 18, 23].contains(&i) {
                assert_eq!(c, '-');
            } else {
                assert!(c.is_ascii_digit() || ('a'..='f').contains(&c), "{:?} in {}", c, id);
            }
        }
    }
}

#[test]
fn a_free_code_makes_the_game_at_once() {
    let mut search = CodeSearch::new(5);
    let code = search.next_code().expect("a code");
    assert_eq!(search.attempts_left(), 4);
    match create_game(&mut search, code.clone(), false) {
        Ok(Creation::Created(s)) => {
            assert_eq!(s.code(), &code);
            assert_eq!(s.id().len(), IDENTIFIER_LENGTH);
            assert_eq!(s.phase(), Phase::Lobby);
            assert_eq!(s.current_round(), 1);
            assert_eq!(s.total_rounds(), DEFAULT_ROUNDS);
            assert_eq!(s.capacity(), DEFAULT_CAPACITY);
            assert!(s.players().is_empty());
        }
        other => panic!("no game: {:?}", other),
    }
    assert_eq!(search.attempts_left(), 4);
}

#[test]
fn a_code_in_use_makes_the_search_go_on() {
    let mut search = CodeSearch::new(2);
    let first = search.next_code().expect("a code");
    let second = match create_game(&mut search, first, true) {
        Ok(Creation::Retry(next)) => next,
        other => panic!("no other code: {:?}", other),
    };
    assert_eq!(second.len(), 5);
    assert!(second.chars().all(|c| c.is_ascii_uppercase() || c.is_ascii_digit()));
    assert_eq!(search.attempts_left(), 0);
    match create_game(&mut search, second, true) {
        Err(e) => assert_eq!(e, GameError::CodeSpaceExhausted),
        other => panic!("the search went on: {:?}", other),
    }
    assert_eq!(search.attempts_left(), 0);
}

#[test]
fn a_store_where_every_code_is_in_use_ends_the_making() {
    let attempts = 7;
    let mut search = CodeSearch::new(attempts);
    let mut code = search.next_code().expect("a code");
    let mut looked_up = 0;
    let refusal = loop {
        looked_up += 1;
        match create_game(&mut search, code, true) {
            Ok(Creation::Retry(next)) => code = next,
            Ok(Creation::Created(s)) => panic!("a game under a code in use: {:?}", s),
            Err(e) => break e,
        }
    };
    assert_eq!(refusal, GameError::CodeSpaceExhausted);
    assert_eq!(looked_up, attempts);
}

#[test]
fn a_session_that_is_missing_is_not_found() {
    let get = GetGameStateRequest { game_id: text("s-1") };
    assert_eq!(refused(get_game_state(Lookup::Missing, &get)), GameError::SessionNotFound);
    let join = JoinGameRequest { game_code: text("ABCDE"), player_id: text("p1") };
    assert_eq!(refused(join_game(Lookup::Missing, join, text(""))), GameError::SessionNotFound);
    let ready = PlayerReadyRequest { game_uuid: text("s-1"), player_id: text("p1") };
    assert_eq!(refused(player_ready(Lookup::Missing, ready)), GameError::SessionNotFound);
    let prompt = SubmitPromptRequest { game_uuid: text("s-1"), player_id: text("p1"), prompt: text("x") };
    assert_eq!(refused(submit_prompt(Lookup::Missing, prompt)), GameError::SessionNotFound);
    let guess = SubmitGuessRequest {
        game_uuid: text("s-1"),
        player_id: text("p1"),
        target_id: text("p2"),
        guess: text("x"),
    };
    assert_eq!(refused(submit_guess(Lookup::Missing, guess)), GameError::SessionNotFound);
}

#[test]
fn a_store_that_failed_is_unavailable() {
    let get = GetGameStateRequest { game_id: text("s-1") };
    assert_eq!(refused(get_game_state(Lookup::Failed, &get)), GameError::StoreUnavailable);
    let join = JoinGameRequest { game_code: text("ABCDE"), player_id: text("p1") };
    assert_eq!(refused(join_game(Lookup::Failed, join, text(""))), GameError::StoreUnavailable);
    let ready = PlayerReadyRequest { game_uuid: text("s-1"), player_id: text("p1") };
    assert_eq!(refused(player_ready(Lookup::Failed, ready)), GameError::StoreUnavailable);
}

#[test]
fn a_store_that_holds_nonsense_is_unavailable() {
    let mut r = record(Phase::Lobby);
    r.players.push(player("p1", false));
    r.capacity = 5;
    let get = GetGameStateRequest { game_id: text("s-1") };
    assert_eq!(refused(get_game_state(Lookup::Found(r), &get)), GameError::StoreUnavailable);
}

#[test]
fn another_session_than_the_one_asked_for_is_not_found() {
    let get = GetGameStateRequest { game_id: text("s-2") };
    assert_eq!(refused(get_game_state(found(Phase::Lobby), &get)), GameError::SessionNotFound);
    let join = JoinGameRequest { game_code: text("ABCDF"), player_id: text("p1") };
    assert_eq!(refused(join_game(found(Phase::Lobby), join, text(""))), GameError::SessionNotFound);
    let ready = PlayerReadyRequest { game_uuid: text("s-2"), player_id: text("p1") };
    assert_eq!(refused(player_ready(found(Phase::Lobby), ready)), GameError::SessionNotFound);
    let prompt = SubmitPromptRequest { game_uuid: text("s-2"), player_id: text("p1"), prompt: text("x") };
    assert_eq!(refused(submit_prompt(found(Phase::Imagining), prompt)), GameError::SessionNotFound);
    let guess = SubmitGuessRequest {
        game_uuid: text("s-2"),
        player_id: text("p1"),
        target_id: text("p2"),
        guess: text("x"),
    };
    assert_eq!(refused(submit_guess(found(Phase::Guessing), guess)), GameError::SessionNotFound);
}

#[test]
fn reading_a_session_gives_it_as_it_is() {
    for phase in [Phase::Lobby, Phase::Imagining, Phase::Guessing, Phase::Scoring, Phase::Complete] {
        let get = GetGameStateRequest { game_id: text("s-1") };
        let s = get_game_state(found(phase), &get).expect("the session");
        assert_eq!(format!("{:?}", s.into_record()), format!("{:?}", record(phase)));
    }
}

#[test]
fn a_request_to_join_lets_the_player_in() {
    let mut r = record(Phase::Lobby);
    r.players.pop();
    let join = JoinGameRequest { game_code: text("ABCDE"), player_id: text("p7") };
    let s = join_game(Lookup::Found(r), join, text("Seven")).expect("room for one more");
    assert_eq!(s.players().len(), 2);
    assert_eq!(s.players()[1].id, "p7");
    assert_eq!(s.players()[1].display_name, "Seven");
    assert_eq!(s.players()[1].score, 0);
    assert!(!s.players()[1].ready);
    let join = JoinGameRequest { game_code: text("ABCDE"), player_id: text("p7") };
    assert_eq!(refused(join_game(found(Phase::Lobby), join, text(""))), GameError::SessionFull);
    let join = JoinGameRequest { game_code: text("ABCDE"), player_id: text("p7") };
    assert_eq!(refused(join_game(found(Phase::Guessing), join, text(""))), GameError::WrongPhase);
}

#[test]
fn a_request_to_get_ready_marks_the_player() {
    let ready = PlayerReadyRequest { game_uuid: text("s-1"), player_id: text("p2") };
    let s = player_ready(found(Phase::Lobby), ready).expect("a player of the session");
    assert!(!s.players()[0].ready);
    assert!(s.players()[1].ready);
    assert_eq!(s.phase(), Phase::Lobby);
    let ready = PlayerReadyRequest { game_uuid: text("s-1"), player_id: text("p1") };
    let s = player_ready(Lookup::Found(s.into_record()), ready).expect("a player of the session");
    assert_eq!(s.phase(), Phase::Imagining);
    let ready = PlayerReadyRequest { game_uuid: text("s-1"), player_id: text("p3") };
    assert_eq!(refused(player_ready(found(Phase::Lobby), ready)), GameError::UnknownPlayer);
}

#[test]
fn a_request_with_a_prompt_stores_it() {
    let prompt = SubmitPromptRequest { game_uuid: text("s-1"), player_id: text("p2"), prompt: text("a dog") };
    let s = submit_prompt(found(Phase::Imagining), prompt).expect("a player who imagines");
    assert_eq!(s.prompts().len(), 1);
    assert_eq!(s.prompts()[0].player, "p2");
    assert_eq!(s.prompts()[0].text, "a dog");
    assert_eq!(s.phase(), Phase::Imagining);
    let prompt = SubmitPromptRequest { game_uuid: text("s-1"), player_id: text("p2"), prompt: text("a dog") };
    assert_eq!(refused(submit_prompt(found(Phase::Lobby), prompt)), GameError::WrongPhase);
}

#[test]
fn a_request_with_a_guess_stores_it() {
    let guess = SubmitGuessRequest {
        game_uuid: text("s-1"),
        player_id: text("p2"),
        target_id: text("p1"),
        guess: text("a cat?"),
    };
    let s = submit_guess(found(Phase::Guessing), guess).expect("a player who guesses");
    assert_eq!(s.guesses().len(), 1);
    assert_eq!(s.guesses()[0].guesser, "p2");
    assert_eq!(s.guesses()[0].target, "p1");
    assert_eq!(s.guesses()[0].text, "a cat?");
    assert_eq!(s.phase(), Phase::Guessing);
    let guess = SubmitGuessRequest {
        game_uuid: text("s-1"),
        player_id: text("p3"),
        target_id: text("p1"),
        guess: text("a cat?"),
    };
    assert_eq!(refused(submit_guess(found(Phase::Guessing), guess)), GameError::UnknownPlayer);
}
