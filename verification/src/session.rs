//! The session that players share, and the actions that change it.

use vstd::prelude::*;
use vstd::string::*;
use crate::error::GameError;
use crate::laws::{
    lemma_guess_index, lemma_guess_keeps_wf, lemma_join_keeps_wf, lemma_player_index,
    lemma_prompt_index, lemma_prompt_keeps_wf, lemma_ready_keeps_wf, lemma_scored_keeps_wf,
};
use crate::model::{
    capped, distinct_guesses, distinct_players, distinct_prompts, earned, graded, guess_is,
    has_guess, has_player, has_prompt, player_index, prompt_text, Event, GuessView, PlayerView,
    PromptView, SessionView, MIN_PLAYERS,
};
use crate::phase::Phase;
use crate::requests::ScoreGuessPayload;

verus! {

/// The number of rounds of a session that was not given one.
pub const DEFAULT_ROUNDS: u32 = 3;

/// The number of players that a session admits when it was not given one.
pub const DEFAULT_CAPACITY: usize = 2;

/// One of the players of a session.
#[derive(Debug)]
pub struct Player {
    /// The identifier that the caller gave; no two players of a session
    /// share one.
    pub id: String,
    /// The name to show; empty where none is known.
    pub display_name: String,
    /// The points gathered so far.
    pub score: u32,
    /// Whether the player has declared themselves ready.
    pub ready: bool,
}

/// A prompt that a player handed in for the current round.
#[derive(Debug)]
pub struct Prompt {
    /// The identifier of the player who wrote it.
    pub player: String,
    /// What it says.
    pub text: String,
}

/// A guess that a player handed in for the current round.
#[derive(Debug)]
pub struct Guess {
    /// The identifier of the player who made it.
    pub guesser: String,
    /// The identifier of the player whose prompt it aims at.
    pub target: String,
    /// What it says.
    pub text: String,
}

impl View for Player {
    type V = PlayerView;

    open spec fn view(&self) -> PlayerView {
        PlayerView {
            id: self.id@,
            display_name: self.display_name@,
            score: self.score as nat,
            ready: self.ready,
        }
    }
}

impl View for Prompt {
    type V = PromptView;

    open spec fn view(&self) -> PromptView {
        PromptView { player: self.player@, text: self.text@ }
    }
}

impl View for Guess {
    type V = GuessView;

    open spec fn view(&self) -> GuessView {
        GuessView { guesser: self.guesser@, target: self.target@, text: self.text@ }
    }
}

impl Clone for Player {
    fn clone(&self) -> (r: Self)
        ensures
            r@ == self@,
    {
        Player {
            id: self.id.clone(),
            display_name: self.display_name.clone(),
            score: self.score,
            ready: self.ready,
        }
    }
}

impl Clone for Prompt {
    fn clone(&self) -> (r: Self)
        ensures
            r@ == self@,
    {
        Prompt { player: self.player.clone(), text: self.text.clone() }
    }
}

impl Clone for Guess {
    fn clone(&self) -> (r: Self)
        ensures
            r@ == self@,
    {
        Guess { guesser: self.guesser.clone(), target: self.target.clone(), text: self.text.clone() }
    }
}

impl Player {
    /// A player who has just joined: not ready, and without points.
    pub fn new(id: String, display_name: String) -> (r: Player)
        ensures
            r@ == (PlayerView { id: id@, display_name: display_name@, score: 0, ready: false }),
    {
        Player { id, display_name, score: 0, ready: false }
    }
}

/// The players of a list as the rules see them.
pub open spec fn player_views(players: Seq<Player>) -> Seq<PlayerView> {
    players.map_values(|p: Player| p@)
}

/// The prompts of a list as the rules see them.
pub open spec fn prompt_views(prompts: Seq<Prompt>) -> Seq<PromptView> {
    prompts.map_values(|p: Prompt| p@)
}

/// The guesses of a list as the rules see them.
pub open spec fn guess_views(guesses: Seq<Guess>) -> Seq<GuessView> {
    guesses.map_values(|g: Guess| g@)
}

/// Whether a call answered as the rules say: with success and the session
/// that they give, or with their refusal and the session untouched.
pub open spec fn answers(
    rule: Result<SessionView, GameError>,
    before: SessionView,
    answer: Result<(), GameError>,
    after: SessionView,
) -> bool {
    match rule {
        Ok(next) => answer is Ok && after == next,
        Err(e) => answer == Err::<(), GameError>(e) && after == before,
    }
}

/// A session as it is stored: every field in the open.
///
/// A record says nothing of itself. [`Session::restore`] takes one in only
/// where it is a session that the rules can produce.
#[derive(Debug)]
pub struct SessionRecord {
    pub id: String,
    pub code: String,
    pub phase: Phase,
    pub current_round: u32,
    pub total_rounds: u32,
    pub capacity: usize,
    pub players: Vec<Player>,
    pub prompts: Vec<Prompt>,
    pub guesses: Vec<Guess>,
    pub current_prompt: String,
    pub current_image: String,
}

impl View for SessionRecord {
    type V = SessionView;

    open spec fn view(&self) -> SessionView {
        SessionView {
            id: self.id@,
            code: self.code@,
            phase: self.phase,
            current_round: self.current_round as nat,
            total_rounds: self.total_rounds as nat,
            capacity: self.capacity as nat,
            players: player_views(self.players@),
            prompts: prompt_views(self.prompts@),
            guesses: guess_views(self.guesses@),
            current_prompt: self.current_prompt@,
            current_image: self.current_image@,
        }
    }
}

/// What a caller can ask of a session.
#[derive(Debug)]
pub enum Action {
    /// The player asks to join, under the name to show for them.
    Join { player_id: String, display_name: String },
    /// The player declares themselves ready.
    PlayerReady { player_id: String },
    /// The player hands in a prompt.
    SubmitPrompt { player_id: String, text: String },
    /// The guesser hands in a guess at the target's prompt.
    SubmitGuess { guesser_id: String, target_id: String, text: String },
    /// The round's guesses were graded, in the order in which they stand.
    ScoreRound { scores: Vec<u32> },
}

impl View for Action {
    type V = Event;

    open spec fn view(&self) -> Event {
        match *self {
            Action::Join { player_id, display_name } => Event::Join {
                player: player_id@,
                display_name: display_name@,
            },
            Action::PlayerReady { player_id } => Event::Ready { player: player_id@ },
            Action::SubmitPrompt { player_id, text } => Event::Prompt {
                player: player_id@,
                text: text@,
            },
            Action::SubmitGuess { guesser_id, target_id, text } => Event::Guess {
                guesser: guesser_id@,
                target: target_id@,
                text: text@,
            },
            Action::ScoreRound { scores } => Event::Scored { scores: grades(scores@) },
        }
    }
}

impl SessionRecord {
    /// A new session under the given identifier and code.
    fn fresh(id: String, code: String, total_rounds: u32, capacity: usize) -> (r: SessionRecord)
        requires
            total_rounds >= 1,
        ensures
            r@ == SessionView::fresh(id@, code@, total_rounds as nat, capacity as nat),
            r@.wf(),
    {
        let r = SessionRecord {
            id,
            code,
            phase: Phase::Lobby,
            current_round: 1,
            total_rounds,
            capacity,
            players: Vec::new(),
            prompts: Vec::new(),
            guesses: Vec::new(),
            current_prompt: String::new(),
            current_image: String::new(),
        };
        assert(r@.players =~= Seq::empty());
        assert(r@.prompts =~= Seq::empty());
        assert(r@.guesses =~= Seq::empty());
        r
    }

    /// The place of the player `id` among the session's players: the first
    /// that holds the identifier.
    fn find_player(&self, id: &String) -> (r: Option<usize>)
        ensures
            match r {
                Some(i) => {
                    &&& i < self@.players.len()
                    &&& self@.players[i as int].id == id@
                    &&& forall|k: int| 0 <= k < i ==> (#[trigger] self@.players[k]).id != id@
                },
                None => !has_player(self@.players, id@),
            },
    {
        let mut i: usize = 0;
        while i < self.players.len()
            invariant
                i <= self.players.len(),
                forall|k: int| 0 <= k < i ==> (#[trigger] self@.players[k]).id != id@,
            decreases self.players.len() - i,
        {
            if self.players[i].id == *id {
                return Some(i);
            }
            i += 1;
        }
        None
    }

    /// Lets a player in: see [`Session::join`].
    fn join(&mut self, player_id: String, display_name: String) -> (r: Result<(), GameError>)
        requires
            old(self)@.wf(),
        ensures
            final(self)@.wf(),
            answers(old(self)@.join(player_id@, display_name@), old(self)@, r, final(self)@),
    {
        if self.phase != Phase::Lobby {
            return Err(GameError::WrongPhase);
        }
        if self.find_player(&player_id).is_some() {
            return Ok(());
        }
        if self.players.len() >= self.capacity {
            return Err(GameError::SessionFull);
        }
        let ghost before = self@;
        let player = Player::new(player_id, display_name);
        self.players.push(player);
        proof {
            assert(self@.players =~= before.players.push(player@));
            lemma_join_keeps_wf(before, player_id@, display_name@);
        }
        Ok(())
    }

    /// The place of the prompt that the player `player` handed in: the first
    /// place that holds one of theirs.
    fn find_prompt(&self, player: &String) -> (r: Option<usize>)
        ensures
            match r {
                Some(k) => {
                    &&& k < self@.prompts.len()
                    &&& self@.prompts[k as int].player == player@
                    &&& forall|j: int| 0 <= j < k ==> (#[trigger] self@.prompts[j]).player != player@
                },
                None => !has_prompt(self@.prompts, player@),
            },
    {
        let mut k: usize = 0;
        while k < self.prompts.len()
            invariant
                k <= self.prompts.len(),
                forall|j: int| 0 <= j < k ==> (#[trigger] self@.prompts[j]).player != player@,
            decreases self.prompts.len() - k,
        {
            if self.prompts[k].player == *player {
                return Some(k);
            }
            k += 1;
        }
        None
    }

    /// The place of the guess that `guesser` made at the prompt of `target`:
    /// the first place that holds such a guess.
    fn find_guess(&self, guesser: &String, target: &String) -> (r: Option<usize>)
        ensures
            match r {
                Some(k) => {
                    &&& k < self@.guesses.len()
                    &&& guess_is(self@.guesses[k as int], guesser@, target@)
                    &&& forall|j: int|
                        0 <= j < k ==> !guess_is(#[trigger] self@.guesses[j], guesser@, target@)
                },
                None => !has_guess(self@.guesses, guesser@, target@),
            },
    {
        let mut k: usize = 0;
        while k < self.guesses.len()
            invariant
                k <= self.guesses.len(),
                forall|j: int| 0 <= j < k ==> !guess_is(#[trigger] self@.guesses[j], guesser@, target@),
            decreases self.guesses.len() - k,
        {
            if self.guesses[k].guesser == *guesser && self.guesses[k].target == *target {
                return Some(k);
            }
            k += 1;
        }
        None
    }

    /// Whether every player has declared themselves ready.
    fn everyone_ready(&self) -> (r: bool)
        ensures
            r == self@.all_ready(),
    {
        let mut i: usize = 0;
        while i < self.players.len()
            invariant
                i <= self.players.len(),
                forall|k: int| 0 <= k < i ==> (#[trigger] self@.players[k]).ready,
            decreases self.players.len() - i,
        {
            if !self.players[i].ready {
                assert(!self@.players[i as int].ready);
                return false;
            }
            i += 1;
        }
        true
    }

    /// Whether every player has handed in a prompt.
    fn everyone_prompted(&self) -> (r: bool)
        ensures
            r == self@.all_prompted(),
    {
        let mut i: usize = 0;
        while i < self.players.len()
            invariant
                i <= self.players.len(),
                forall|k: int|
                    0 <= k < i ==> has_prompt(self@.prompts, (#[trigger] self@.players[k]).id),
            decreases self.players.len() - i,
        {
            if self.find_prompt(&self.players[i].id).is_none() {
                assert(!has_prompt(self@.prompts, self@.players[i as int].id));
                return false;
            }
            i += 1;
        }
        true
    }

    /// Whether every player has guessed the prompt of every other player.
    fn everyone_guessed(&self) -> (r: bool)
        ensures
            r == self@.all_guessed(),
    {
        let n = self.players.len();
        let mut i: usize = 0;
        while i < n
            invariant
                i <= n,
                n == self.players.len(),
                forall|a: int, b: int|
                    0 <= a < i && 0 <= b < n && a != b ==> has_guess(
                        self@.guesses,
                        (#[trigger] self@.players[a]).id,
                        (#[trigger] self@.players[b]).id,
                    ),
            decreases n - i,
        {
            let mut j: usize = 0;
            while j < n
                invariant
                    j <= n,
                    i < n,
                    n == self.players.len(),
                    forall|b: int|
                        0 <= b < j && b != i ==> has_guess(
                            self@.guesses,
                            self@.players[i as int].id,
                            (#[trigger] self@.players[b]).id,
                        ),
                decreases n - j,
            {
                if i != j && self.find_guess(&self.players[i].id, &self.players[j].id).is_none() {
                    assert(!has_guess(
                        self@.guesses,
                        self@.players[i as int].id,
                        self@.players[j as int].id,
                    ));
                    return false;
                }
                j += 1;
            }
            i += 1;
        }
        true
    }

    /// Marks a player as ready: see [`Session::set_ready`].
    fn set_ready(&mut self, player_id: &str) -> (r: Result<(), GameError>)
        requires
            old(self)@.wf(),
        ensures
            final(self)@.wf(),
            answers(old(self)@.ready(player_id@), old(self)@, r, final(self)@),
    {
        let id = String::from_str(player_id);
        let i = match self.find_player(&id) {
            Some(i) => i,
            None => {
                return Err(GameError::UnknownPlayer);
            },
        };
        if self.phase != Phase::Lobby {
            return Err(GameError::WrongPhase);
        }
        let ghost before = self@;
        proof {
            lemma_player_index(before.players, id@, i as int);
            lemma_ready_keeps_wf(before, id@);
        }
        self.players[i].ready = true;
        assert(self@.players =~= before.players.update(
            i as int,
            PlayerView { ready: true, ..before.players[i as int] },
        ));
        if self.players.len() >= MIN_PLAYERS && self.everyone_ready() {
            self.phase = Phase::Imagining;
        }
        Ok(())
    }

    /// Takes a prompt in: see [`Session::submit_prompt`].
    fn submit_prompt(&mut self, player_id: String, text: String) -> (r: Result<(), GameError>)
        requires
            old(self)@.wf(),
        ensures
            final(self)@.wf(),
            answers(old(self)@.prompt(player_id@, text@), old(self)@, r, final(self)@),
    {
        if self.phase != Phase::Imagining {
            return Err(GameError::WrongPhase);
        }
        if self.find_player(&player_id).is_none() {
            return Err(GameError::UnknownPlayer);
        }
        let ghost before = self@;
        let place = self.find_prompt(&player_id);
        let entry = Prompt { player: player_id, text };
        proof {
            lemma_prompt_keeps_wf(before, player_id@, text@);
        }
        match place {
            Some(k) => {
                proof {
                    lemma_prompt_index(before.prompts, player_id@, k as int);
                }
                self.prompts.set(k, entry);
                assert(self@.prompts =~= before.prompts.update(k as int, entry@));
            },
            None => {
                self.prompts.push(entry);
                assert(self@.prompts =~= before.prompts.push(entry@));
            },
        }
        if self.everyone_prompted() {
            self.phase = Phase::Guessing;
        }
        Ok(())
    }

    /// Takes a guess in: see [`Session::submit_guess`].
    fn submit_guess(&mut self, guesser_id: String, target_id: String, text: String) -> (r: Result<
        (),
        GameError,
    >)
        requires
            old(self)@.wf(),
        ensures
            final(self)@.wf(),
            answers(old(self)@.guess(guesser_id@, target_id@, text@), old(self)@, r, final(self)@),
    {
        if self.phase != Phase::Guessing {
            return Err(GameError::WrongPhase);
        }
        if self.find_player(&guesser_id).is_none() || self.find_player(&target_id).is_none()
            || guesser_id == target_id {
            return Err(GameError::UnknownPlayer);
        }
        let ghost before = self@;
        let place = self.find_guess(&guesser_id, &target_id);
        let entry = Guess { guesser: guesser_id, target: target_id, text };
        proof {
            lemma_guess_keeps_wf(before, guesser_id@, target_id@, text@);
        }
        match place {
            Some(k) => {
                proof {
                    lemma_guess_index(before.guesses, guesser_id@, target_id@, k as int);
                }
                self.guesses.set(k, entry);
                assert(self@.guesses =~= before.guesses.update(k as int, entry@));
            },
            None => {
                self.guesses.push(entry);
                assert(self@.guesses =~= before.guesses.push(entry@));
            },
        }
        if self.everyone_guessed() {
            self.phase = Phase::Scoring;
        }
        Ok(())
    }

    /// Closes a round that was graded: see [`Session::finish_round`].
    fn finish_round(&mut self, scores: &Vec<u32>) -> (r: Result<(), GameError>)
        requires
            old(self)@.wf(),
        ensures
            final(self)@.wf(),
            answers(old(self)@.scored(grades(scores@)), old(self)@, r, final(self)@),
    {
        if self.phase != Phase::Scoring {
            return Err(GameError::WrongPhase);
        }
        let ghost before = self@;
        let ghost marks = grades(scores@);
        proof {
            lemma_scored_keeps_wf(before, marks);
        }
        let mut k: usize = 0;
        while k < self.guesses.len()
            invariant
                k <= self.guesses.len(),
                marks == grades(scores@),
                distinct_players(before.players),
                self@ == (SessionView { players: self@.players, ..before }),
                self@.players.len() == before.players.len(),
                forall|i: int|
                    0 <= i < before.players.len() ==> #[trigger] self@.players[i] == (PlayerView {
                        score: capped(
                            before.players[i].score + earned(
                                before.guesses,
                                marks,
                                before.players[i].id,
                                k as nat,
                            ),
                        ),
                        ..before.players[i]
                    }),
            decreases self.guesses.len() - k,
        {
            let ghost so_far = self@.players;
            let found = self.find_player(&self.guesses[k].guesser);
            match found {
                Some(i) => {
                    if k < scores.len() {
                        let gain = scores[k];
                        let held = self.players[i].score;
                        let total = held.saturating_add(gain);
                        self.players[i].score = total;
                        assert(self@.players =~= so_far.update(
                            i as int,
                            PlayerView { score: total as nat, ..so_far[i as int] },
                        ));
                        assert forall|j: int|
                            0 <= j < before.players.len() && j != i implies before.players[j].id
                            != before.guesses[k as int].guesser by {
                            if j < i {
                                assert(before.players[j].id != before.players[i as int].id);
                            } else {
                                assert(before.players[i as int].id != before.players[j].id);
                            }
                        }
                    }
                },
                None => {
                    assert forall|j: int| 0 <= j < before.players.len() implies before.players[j].id
                        != before.guesses[k as int].guesser by {
                        assert(so_far[j].id == before.players[j].id);
                    }
                },
            }
            k += 1;
        }
        let last = self.current_round >= self.total_rounds;
        if last {
            self.phase = Phase::Complete;
        } else {
            self.current_round = self.current_round + 1;
            self.phase = Phase::Imagining;
            let ghost turned = self@;
            let ghost scored = self@.players;
            let mut i: usize = 0;
            while i < self.players.len()
                invariant
                    i <= self.players.len(),
                    self@ == (SessionView { players: self@.players, ..turned }),
                    self@.players.len() == scored.len(),
                    forall|j: int|
                        0 <= j < scored.len() ==> #[trigger] self@.players[j] == (PlayerView {
                            ready: scored[j].ready && j >= i,
                            ..scored[j]
                        }),
                decreases self.players.len() - i,
            {
                let ghost so_far = self@.players;
                self.players[i].ready = false;
                assert(self@.players =~= so_far.update(
                    i as int,
                    PlayerView { ready: false, ..so_far[i as int] },
                ));
                i += 1;
            }
        }
        self.prompts = Vec::new();
        self.guesses = Vec::new();
        proof {
            assert(self@.prompts =~= Seq::empty());
            assert(self@.guesses =~= Seq::empty());
            assert(self@.players =~= graded(before.players, before.guesses, marks, !last));
        }
        Ok(())
    }

    /// Takes the action that is asked for: see [`Session::apply`].
    fn apply(&mut self, action: Action) -> (r: Result<(), GameError>)
        requires
            old(self)@.wf(),
        ensures
            final(self)@.wf(),
            answers(old(self)@.step(action@), old(self)@, r, final(self)@),
    {
        match action {
            Action::Join { player_id, display_name } => self.join(player_id, display_name),
            Action::PlayerReady { player_id } => self.set_ready(player_id.as_str()),
            Action::SubmitPrompt { player_id, text } => self.submit_prompt(player_id, text),
            Action::SubmitGuess { guesser_id, target_id, text } => self.submit_guess(
                guesser_id,
                target_id,
                text,
            ),
            Action::ScoreRound { scores } => self.finish_round(&scores),
        }
    }

    /// Whether no two players share an identifier.
    fn players_distinct(&self) -> (r: bool)
        ensures
            r == distinct_players(self@.players),
    {
        let n = self.players.len();
        let mut j: usize = 0;
        while j < n
            invariant
                j <= n,
                n == self.players.len(),
                forall|a: int, b: int|
                    0 <= a < b < j ==> (#[trigger] self@.players[a]).id != (
                    #[trigger] self@.players[b]).id,
            decreases n - j,
        {
            let mut i: usize = 0;
            while i < j
                invariant
                    i <= j < n,
                    n == self.players.len(),
                    forall|a: int|
                        0 <= a < i ==> (#[trigger] self@.players[a]).id != self@.players[j as int].id,
                decreases j - i,
            {
                if self.players[i].id == self.players[j].id {
                    assert(self@.players[i as int].id == self@.players[j as int].id);
                    return false;
                }
                i += 1;
            }
            j += 1;
        }
        true
    }

    /// Whether no two prompts are by the same player.
    fn prompts_distinct(&self) -> (r: bool)
        ensures
            r == distinct_prompts(self@.prompts),
    {
        let n = self.prompts.len();
        let mut j: usize = 0;
        while j < n
            invariant
                j <= n,
                n == self.prompts.len(),
                forall|a: int, b: int|
                    0 <= a < b < j ==> (#[trigger] self@.prompts[a]).player != (
                    #[trigger] self@.prompts[b]).player,
            decreases n - j,
        {
            let mut i: usize = 0;
            while i < j
                invariant
                    i <= j < n,
                    n == self.prompts.len(),
                    forall|a: int|
                        0 <= a < i ==> (#[trigger] self@.prompts[a]).player != self@.prompts[
                            j as int
                        ].player,
                decreases j - i,
            {
                if self.prompts[i].player == self.prompts[j].player {
                    assert(self@.prompts[i as int].player == self@.prompts[j as int].player);
                    return false;
                }
                i += 1;
            }
            j += 1;
        }
        true
    }

    /// Whether no two guesses are by the same player at the same prompt.
    fn guesses_distinct(&self) -> (r: bool)
        ensures
            r == distinct_guesses(self@.guesses),
    {
        let n = self.guesses.len();
        let mut j: usize = 0;
        while j < n
            invariant
                j <= n,
                n == self.guesses.len(),
                forall|a: int, b: int|
                    0 <= a < b < j ==> !guess_is(
                        #[trigger] self@.guesses[a],
                        (#[trigger] self@.guesses[b]).guesser,
                        self@.guesses[b].target,
                    ),
            decreases n - j,
        {
            let mut i: usize = 0;
            while i < j
                invariant
                    i <= j < n,
                    n == self.guesses.len(),
                    forall|a: int|
                        0 <= a < i ==> !guess_is(
                            #[trigger] self@.guesses[a],
                            self@.guesses[j as int].guesser,
                            self@.guesses[j as int].target,
                        ),
                decreases j - i,
            {
                if self.guesses[i].guesser == self.guesses[j].guesser && self.guesses[i].target
                    == self.guesses[j].target {
                    assert(guess_is(
                        self@.guesses[i as int],
                        self@.guesses[j as int].guesser,
                        self@.guesses[j as int].target,
                    ));
                    return false;
                }
                i += 1;
            }
            j += 1;
        }
        true
    }

    /// Whether every prompt is by one of the players.
    fn prompts_owned(&self) -> (r: bool)
        ensures
            r == (forall|k: int|
                0 <= k < self@.prompts.len() ==> has_player(
                    self@.players,
                    (#[trigger] self@.prompts[k]).player,
                )),
    {
        let mut k: usize = 0;
        while k < self.prompts.len()
            invariant
                k <= self.prompts.len(),
                forall|j: int|
                    0 <= j < k ==> has_player(self@.players, (#[trigger] self@.prompts[j]).player),
            decreases self.prompts.len() - k,
        {
            if self.find_player(&self.prompts[k].player).is_none() {
                assert(!has_player(self@.players, self@.prompts[k as int].player));
                return false;
            }
            k += 1;
        }
        true
    }

    /// Whether every guess is by one of the players, at another of them.
    fn guesses_owned(&self) -> (r: bool)
        ensures
            r == (forall|k: int|
                0 <= k < self@.guesses.len() ==> {
                    &&& has_player(self@.players, (#[trigger] self@.guesses[k]).guesser)
                    &&& has_player(self@.players, self@.guesses[k].target)
                    &&& self@.guesses[k].guesser != self@.guesses[k].target
                }),
    {
        let mut k: usize = 0;
        while k < self.guesses.len()
            invariant
                k <= self.guesses.len(),
                forall|j: int|
                    0 <= j < k ==> {
                        &&& has_player(self@.players, (#[trigger] self@.guesses[j]).guesser)
                        &&& has_player(self@.players, self@.guesses[j].target)
                        &&& self@.guesses[j].guesser != self@.guesses[j].target
                    },
            decreases self.guesses.len() - k,
        {
            if self.find_player(&self.guesses[k].guesser).is_none() || self.find_player(
                &self.guesses[k].target,
            ).is_none() || self.guesses[k].guesser == self.guesses[k].target {
                assert(!({
                    &&& has_player(self@.players, self@.guesses[k as int].guesser)
                    &&& has_player(self@.players, self@.guesses[k as int].target)
                    &&& self@.guesses[k as int].guesser != self@.guesses[k as int].target
                }));
                return false;
            }
            k += 1;
        }
        true
    }

    /// Whether the record is a session that the rules can produce.
    pub fn is_well_formed(&self) -> (r: bool)
        ensures
            r == self@.wf(),
    {
        let in_round = self.phase == Phase::Guessing || self.phase == Phase::Scoring;
        1 <= self.current_round && self.current_round <= self.total_rounds && self.players.len()
            <= self.capacity && (self.phase != Phase::Lobby || self.current_round == 1) && (
        self.phase != Phase::Complete || self.current_round == self.total_rounds) && (in_round
            || self.guesses.len() == 0) && ((self.phase != Phase::Lobby && self.phase
            != Phase::Complete) || self.prompts.len() == 0) && self.players_distinct()
            && self.prompts_distinct() && self.guesses_distinct() && self.prompts_owned()
            && self.guesses_owned() && (!in_round || self.everyone_prompted())
    }

    /// What there is to grade: see [`Session::score_requests`].
    fn score_requests(&self) -> (r: Vec<ScoreGuessPayload>)
        requires
            self@.wf(),
        ensures
            r@.len() == self@.guesses.len(),
            forall|k: int|
                0 <= k < r@.len() ==> {
                    &&& (#[trigger] r@[k]).guess@ == self@.guesses[k].text
                    &&& r@[k].prompt@ == prompt_text(self@.prompts, self@.guesses[k].target)
                },
    {
        let mut pairs: Vec<ScoreGuessPayload> = Vec::new();
        let mut k: usize = 0;
        while k < self.guesses.len()
            invariant
                self@.wf(),
                k <= self.guesses.len(),
                pairs@.len() == k,
                forall|j: int|
                    0 <= j < k ==> {
                        &&& (#[trigger] pairs@[j]).guess@ == self@.guesses[j].text
                        &&& pairs@[j].prompt@ == prompt_text(self@.prompts, self@.guesses[j].target)
                    },
            decreases self.guesses.len() - k,
        {
            let aimed_at = &self.guesses[k].target;
            proof {
                let target = self@.guesses[k as int].target;
                assert(has_player(self@.players, target));
                assert(self@.all_prompted());
                let i = player_index(self@.players, target);
                assert(has_prompt(self@.prompts, self@.players[i].id));
            }
            let place = match self.find_prompt(aimed_at) {
                Some(place) => place,
                None => {
                    return pairs;
                },
            };
            proof {
                lemma_prompt_index(self@.prompts, aimed_at@, place as int);
            }
            pairs.push(
                ScoreGuessPayload {
                    prompt: self.prompts[place].text.clone(),
                    guess: self.guesses[k].text.clone(),
                },
            );
            k += 1;
        }
        pairs
    }

    /// A session with nobody in it and nothing to its name: what stands in
    /// for a session while it is worked on.
    fn blank() -> (r: SessionRecord)
        ensures
            r@.wf(),
    {
        SessionRecord::fresh(String::new(), String::new(), 1, 0)
    }
}

/// One game: its players, its phase, and what was handed in this round.
///
/// A session is always one that the rules can produce: it is made new,
/// taken in from a record that was looked over, or changed by the calls
/// below, and by nothing else.
#[derive(Debug)]
pub struct Session {
    record: SessionRecord,
}

impl View for Session {
    type V = SessionView;

    closed spec fn view(&self) -> SessionView {
        self.record@
    }
}

impl Session {
    /// What holds of every session.
    #[verifier::type_invariant]
    pub open spec fn sound(self) -> bool {
        self@.wf()
    }

    /// A new session under the given identifier and code: in the lobby, in
    /// its first round, with nobody in it. A game has at least one round:
    /// where none is asked for, there is no session.
    pub fn new(id: String, code: String, total_rounds: u32, capacity: usize) -> (r: Option<Session>)
        ensures
            r is Some <==> total_rounds >= 1,
            r matches Some(s) ==> s@ == SessionView::fresh(
                id@,
                code@,
                total_rounds as nat,
                capacity as nat,
            ) && s@.wf(),
    {
        if total_rounds == 0 {
            None
        } else {
            Some(Session { record: SessionRecord::fresh(id, code, total_rounds, capacity) })
        }
    }

    /// Takes a stored session in, if it is one that the rules can produce.
    pub fn restore(record: SessionRecord) -> (r: Option<Session>)
        ensures
            match r {
                Some(s) => s@ == record@ && s@.wf(),
                None => !record@.wf(),
            },
    {
        if record.is_well_formed() {
            Some(Session { record })
        } else {
            None
        }
    }

    /// Hands the session out as it is to be stored.
    pub fn into_record(self) -> (r: SessionRecord)
        ensures
            r@ == self@,
            r@.wf(),
    {
        proof {
            use_type_invariant(&self);
        }
        self.record
    }

    /// Takes the record out to work on it, and leaves a blank in its place.
    fn take(&mut self) -> (record: SessionRecord)
        ensures
            record@ == old(self)@,
            record@.wf(),
    {
        proof {
            use_type_invariant(&*self);
        }
        let mut record = SessionRecord::blank();
        std::mem::swap(&mut record, &mut self.record);
        record
    }

    /// The place of the player `id` among the session's players: the first
    /// that holds the identifier.
    pub fn find_player(&self, id: &String) -> (r: Option<usize>)
        ensures
            match r {
                Some(i) => {
                    &&& i < self@.players.len()
                    &&& self@.players[i as int].id == id@
                    &&& forall|k: int| 0 <= k < i ==> (#[trigger] self@.players[k]).id != id@
                },
                None => !has_player(self@.players, id@),
            },
    {
        self.record.find_player(id)
    }

    /// The place of the prompt that the player `player` handed in: the first
    /// place that holds one of theirs.
    pub fn find_prompt(&self, player: &String) -> (r: Option<usize>)
        ensures
            match r {
                Some(k) => {
                    &&& k < self@.prompts.len()
                    &&& self@.prompts[k as int].player == player@
                    &&& forall|j: int| 0 <= j < k ==> (#[trigger] self@.prompts[j]).player != player@
                },
                None => !has_prompt(self@.prompts, player@),
            },
    {
        self.record.find_prompt(player)
    }

    /// The place of the guess that `guesser` made at the prompt of `target`:
    /// the first place that holds such a guess.
    pub fn find_guess(&self, guesser: &String, target: &String) -> (r: Option<usize>)
        ensures
            match r {
                Some(k) => {
                    &&& k < self@.guesses.len()
                    &&& guess_is(self@.guesses[k as int], guesser@, target@)
                    &&& forall|j: int|
                        0 <= j < k ==> !guess_is(#[trigger] self@.guesses[j], guesser@, target@)
                },
                None => !has_guess(self@.guesses, guesser@, target@),
            },
    {
        self.record.find_guess(guesser, target)
    }

    /// Whether every player has declared themselves ready.
    pub fn everyone_ready(&self) -> (r: bool)
        ensures
            r == self@.all_ready(),
    {
        self.record.everyone_ready()
    }

    /// Whether every player has handed in a prompt.
    pub fn everyone_prompted(&self) -> (r: bool)
        ensures
            r == self@.all_prompted(),
    {
        self.record.everyone_prompted()
    }

    /// Whether every player has guessed the prompt of every other player.
    pub fn everyone_guessed(&self) -> (r: bool)
        ensures
            r == self@.all_guessed(),
    {
        self.record.everyone_guessed()
    }

    /// A player asks to join.
    ///
    /// In the lobby the player is added at the end, not ready and without
    /// points; one who is already in changes nothing, full or not. A
    /// session that is full refuses a new player with `SessionFull`, one
    /// that has left the lobby refuses everybody with `WrongPhase`.
    pub fn join(&mut self, player_id: String, display_name: String) -> (r: Result<(), GameError>)
        ensures
            final(self)@.wf(),
            answers(old(self)@.join(player_id@, display_name@), old(self)@, r, final(self)@),
    {
        let mut record = self.take();
        let r = record.join(player_id, display_name);
        self.record = record;
        r
    }

    /// A player declares themselves ready.
    ///
    /// Once everybody is ready, and at least [`MIN_PLAYERS`] are in, the
    /// first round begins. A player who is not in the session is refused
    /// with `UnknownPlayer`; a player of a session that has left the lobby
    /// is refused with `WrongPhase`.
    pub fn set_ready(&mut self, player_id: &str) -> (r: Result<(), GameError>)
        ensures
            final(self)@.wf(),
            answers(old(self)@.ready(player_id@), old(self)@, r, final(self)@),
    {
        let mut record = self.take();
        let r = record.set_ready(player_id);
        self.record = record;
        r
    }

    /// A player hands in a prompt for the round; it replaces the one they
    /// had handed in.
    ///
    /// Once everybody has a prompt, guessing begins. A session that is not
    /// imagining refuses with `WrongPhase`, whoever hands the prompt in; one
    /// that is imagining refuses with `UnknownPlayer` who is not one of its
    /// players.
    pub fn submit_prompt(&mut self, player_id: String, text: String) -> (r: Result<(), GameError>)
        ensures
            final(self)@.wf(),
            answers(old(self)@.prompt(player_id@, text@), old(self)@, r, final(self)@),
    {
        let mut record = self.take();
        let r = record.submit_prompt(player_id, text);
        self.record = record;
        r
    }

    /// A player hands in a guess at the prompt of another player; it
    /// replaces the guess they had made at that prompt.
    ///
    /// Once everybody has guessed everybody else's prompt, which is once
    /// there are as many guesses as players times the others, the round
    /// waits to be graded. A session that is not guessing refuses with
    /// `WrongPhase`, whoever hands the guess in. In one that is guessing the
    /// guesser and the target must be two different players of the session,
    /// else the guess is refused with `UnknownPlayer`.
    pub fn submit_guess(&mut self, guesser_id: String, target_id: String, text: String) -> (r: Result<
        (),
        GameError,
    >)
        ensures
            final(self)@.wf(),
            answers(old(self)@.guess(guesser_id@, target_id@, text@), old(self)@, r, final(self)@),
    {
        let mut record = self.take();
        let r = record.submit_guess(guesser_id, target_id, text);
        self.record = record;
        r
    }

    /// The round's guesses were graded: `scores[k]` is the grade of the
    /// `k`-th guess.
    ///
    /// Each player gets the grades of their own guesses added to their
    /// score, which stops at [`crate::model::SCORE_CEILING`]; a guess
    /// without a grade brings nothing, and a grade without a guess is passed
    /// over. Prompts and guesses are cleared. After the last round
    /// the session is complete; before it the round number goes up by one,
    /// the session is imagining again and nobody is ready. A session that is
    /// not waiting to be graded refuses with `WrongPhase`.
    pub fn finish_round(&mut self, scores: &Vec<u32>) -> (r: Result<(), GameError>)
        ensures
            final(self)@.wf(),
            answers(old(self)@.scored(grades(scores@)), old(self)@, r, final(self)@),
    {
        let mut record = self.take();
        let r = record.finish_round(scores);
        self.record = record;
        r
    }

    /// Takes the action that is asked for: see [`Session::join`],
    /// [`Session::set_ready`], [`Session::submit_prompt`],
    /// [`Session::submit_guess`] and [`Session::finish_round`].
    pub fn apply(&mut self, action: Action) -> (r: Result<(), GameError>)
        ensures
            final(self)@.wf(),
            answers(old(self)@.step(action@), old(self)@, r, final(self)@),
    {
        let mut record = self.take();
        let r = record.apply(action);
        self.record = record;
        r
    }

    /// What there is to grade: each guess of the round, in the order in
    /// which the guesses stand, with the prompt it aims at.
    pub fn score_requests(&self) -> (r: Vec<ScoreGuessPayload>)
        ensures
            r@.len() == self@.guesses.len(),
            forall|k: int|
                0 <= k < r@.len() ==> {
                    &&& (#[trigger] r@[k]).guess@ == self@.guesses[k].text
                    &&& r@[k].prompt@ == prompt_text(self@.prompts, self@.guesses[k].target)
                },
    {
        proof {
            use_type_invariant(self);
        }
        self.record.score_requests()
    }

    /// The session's identifier.
    pub fn id(&self) -> (r: &String)
        ensures
            r@ == self@.id,
    {
        &self.record.id
    }

    /// The code by which players reach the session.
    pub fn code(&self) -> (r: &String)
        ensures
            r@ == self@.code,
    {
        &self.record.code
    }

    /// The phase that the session is in.
    pub fn phase(&self) -> (r: Phase)
        ensures
            r == self@.phase,
    {
        self.record.phase
    }

    /// The number of the round that is played, from 1 to the number of
    /// rounds of the game.
    pub fn current_round(&self) -> (r: u32)
        ensures
            r == self@.current_round,
            1 <= r <= self@.total_rounds,
    {
        proof {
            use_type_invariant(self);
        }
        self.record.current_round
    }

    /// The number of rounds of the game.
    pub fn total_rounds(&self) -> (r: u32)
        ensures
            r == self@.total_rounds,
    {
        self.record.total_rounds
    }

    /// The number of players that the session admits.
    pub fn capacity(&self) -> (r: usize)
        ensures
            r == self@.capacity,
    {
        self.record.capacity
    }

    /// The players, in the order in which they joined: never more than the
    /// session admits.
    pub fn players(&self) -> (r: &Vec<Player>)
        ensures
            player_views(r@) == self@.players,
            r@.len() <= self@.capacity,
    {
        proof {
            use_type_invariant(self);
        }
        &self.record.players
    }

    /// The prompts handed in this round.
    pub fn prompts(&self) -> (r: &Vec<Prompt>)
        ensures
            prompt_views(r@) == self@.prompts,
    {
        &self.record.prompts
    }

    /// The guesses handed in this round.
    pub fn guesses(&self) -> (r: &Vec<Guess>)
        ensures
            guess_views(r@) == self@.guesses,
    {
        &self.record.guesses
    }

    /// What the round's picture was made from.
    pub fn current_prompt(&self) -> (r: &String)
        ensures
            r@ == self@.current_prompt,
    {
        &self.record.current_prompt
    }

    /// Where the round's picture is.
    pub fn current_image(&self) -> (r: &String)
        ensures
            r@ == self@.current_image,
    {
        &self.record.current_image
    }

    /// Notes what was made for the round: the text it was made from, and
    /// where the picture is. Nothing else changes.
    pub fn set_artifact(&mut self, prompt: String, image: String)
        ensures
            final(self)@ == (SessionView {
                current_prompt: prompt@,
                current_image: image@,
                ..old(self)@
            }),
            final(self)@.wf(),
    {
        let mut record = self.take();
        record.current_prompt = prompt;
        record.current_image = image;
        self.record = record;
    }
}


/// Grades as the rules count them.
pub open spec fn grades(scores: Seq<u32>) -> Seq<nat> {
    scores.map_values(|s: u32| s as nat)
}

} // verus!
