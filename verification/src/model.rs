//! The mathematical model of a session: what a session is, and what each
//! event makes of it.
//!
//! Everything here is ghost code. The executable session in
//! [`crate::session`] is described by these functions, and the laws in
//! [`crate::laws`] are proved of them.

use vstd::prelude::*;
use crate::error::GameError;
use crate::phase::Phase;

verus! {

/// The fewest players with which a game starts.
pub const MIN_PLAYERS: usize = 2;

/// The highest total a player's score can reach; further points are lost.
pub const SCORE_CEILING: u32 = 0xffff_ffff;

/// A player as the rules see one.
pub struct PlayerView {
    pub id: Seq<char>,
    pub display_name: Seq<char>,
    pub score: nat,
    pub ready: bool,
}

/// A prompt and the player who wrote it.
pub struct PromptView {
    pub player: Seq<char>,
    pub text: Seq<char>,
}

/// A guess: who made it, whose prompt it aims at, and what it says.
pub struct GuessView {
    pub guesser: Seq<char>,
    pub target: Seq<char>,
    pub text: Seq<char>,
}

/// A session as the rules see one.
pub struct SessionView {
    pub id: Seq<char>,
    pub code: Seq<char>,
    pub phase: Phase,
    pub current_round: nat,
    pub total_rounds: nat,
    pub capacity: nat,
    pub players: Seq<PlayerView>,
    pub prompts: Seq<PromptView>,
    pub guesses: Seq<GuessView>,
    pub current_prompt: Seq<char>,
    pub current_image: Seq<char>,
}

/// What can happen to a session.
pub enum Event {
    /// A player asks to join.
    Join { player: Seq<char>, display_name: Seq<char> },
    /// A player declares themselves ready.
    Ready { player: Seq<char> },
    /// A player hands in a prompt.
    Prompt { player: Seq<char>, text: Seq<char> },
    /// A player hands in a guess at another player's prompt.
    Guess { guesser: Seq<char>, target: Seq<char>, text: Seq<char> },
    /// The round's guesses were graded; `scores[k]` is the grade of guess `k`.
    Scored { scores: Seq<nat> },
}

/// Whether `id` is the identifier of one of `players`.
pub open spec fn has_player(players: Seq<PlayerView>, id: Seq<char>) -> bool {
    exists|i: int| 0 <= i < players.len() && (#[trigger] players[i]).id == id
}

/// The place of the player `id` among `players`, where there is one.
pub open spec fn player_index(players: Seq<PlayerView>, id: Seq<char>) -> int {
    choose|i: int| 0 <= i < players.len() && (#[trigger] players[i]).id == id
}

/// Whether `prompts` holds a prompt by `player`.
pub open spec fn has_prompt(prompts: Seq<PromptView>, player: Seq<char>) -> bool {
    exists|k: int| 0 <= k < prompts.len() && (#[trigger] prompts[k]).player == player
}

/// The place of the prompt by `player` in `prompts`, where there is one.
pub open spec fn prompt_index(prompts: Seq<PromptView>, player: Seq<char>) -> int {
    choose|k: int| 0 <= k < prompts.len() && (#[trigger] prompts[k]).player == player
}

/// Whether `g` is a guess by `guesser` at the prompt of `target`.
pub open spec fn guess_is(g: GuessView, guesser: Seq<char>, target: Seq<char>) -> bool {
    g.guesser == guesser && g.target == target
}

/// Whether `guesses` holds a guess by `guesser` at the prompt of `target`.
pub open spec fn has_guess(guesses: Seq<GuessView>, guesser: Seq<char>, target: Seq<char>) -> bool {
    exists|k: int| 0 <= k < guesses.len() && guess_is(#[trigger] guesses[k], guesser, target)
}

/// The place of the guess by `guesser` at `target` in `guesses`, where there
/// is one.
pub open spec fn guess_index(guesses: Seq<GuessView>, guesser: Seq<char>, target: Seq<char>) -> int {
    choose|k: int| 0 <= k < guesses.len() && guess_is(#[trigger] guesses[k], guesser, target)
}

/// No two of `players` share an identifier.
pub open spec fn distinct_players(players: Seq<PlayerView>) -> bool {
    forall|i: int, j: int|
        0 <= i < j < players.len() ==> (#[trigger] players[i]).id != (#[trigger] players[j]).id
}

/// No two of `prompts` are by the same player.
pub open spec fn distinct_prompts(prompts: Seq<PromptView>) -> bool {
    forall|i: int, j: int|
        0 <= i < j < prompts.len() ==> (#[trigger] prompts[i]).player != (#[trigger] prompts[j]).player
}

/// No two of `guesses` are by the same player at the same prompt.
pub open spec fn distinct_guesses(guesses: Seq<GuessView>) -> bool {
    forall|i: int, j: int|
        0 <= i < j < guesses.len() ==> !guess_is(
            #[trigger] guesses[i],
            (#[trigger] guesses[j]).guesser,
            guesses[j].target,
        )
}

/// What the prompt of `player` says, where they handed one in.
pub open spec fn prompt_text(prompts: Seq<PromptView>, player: Seq<char>) -> Seq<char> {
    prompts[prompt_index(prompts, player)].text
}

/// `prompts` with the prompt of `player` set to `text`: replaced where the
/// player had one, added at the end where not.
pub open spec fn with_prompt(
    prompts: Seq<PromptView>,
    player: Seq<char>,
    text: Seq<char>,
) -> Seq<PromptView> {
    let entry = PromptView { player, text };
    if has_prompt(prompts, player) {
        prompts.update(prompt_index(prompts, player), entry)
    } else {
        prompts.push(entry)
    }
}

/// `guesses` with the guess of `guesser` at `target` set to `text`: replaced
/// where there was one, added at the end where not.
pub open spec fn with_guess(
    guesses: Seq<GuessView>,
    guesser: Seq<char>,
    target: Seq<char>,
    text: Seq<char>,
) -> Seq<GuessView> {
    let entry = GuessView { guesser, target, text };
    if has_guess(guesses, guesser, target) {
        guesses.update(guess_index(guesses, guesser, target), entry)
    } else {
        guesses.push(entry)
    }
}

/// The points that the first `upto` guesses bring the player `id`: the sum of
/// `scores[k]` over the guesses `k` that `id` made.
pub open spec fn earned(guesses: Seq<GuessView>, scores: Seq<nat>, id: Seq<char>, upto: nat) -> nat
    decreases upto,
{
    if upto == 0 {
        0
    } else {
        let k = (upto - 1) as nat;
        let rest = earned(guesses, scores, id, k);
        if k < guesses.len() && k < scores.len() && guesses[k as int].guesser == id {
            rest + scores[k as int]
        } else {
            rest
        }
    }
}

/// A total of `points`, held at the ceiling.
pub open spec fn capped(points: nat) -> nat {
    if points > SCORE_CEILING {
        SCORE_CEILING as nat
    } else {
        points
    }
}

/// `players` after a round was graded: each has the points of their own
/// guesses added, and is no longer ready if `rest` is set.
pub open spec fn graded(
    players: Seq<PlayerView>,
    guesses: Seq<GuessView>,
    scores: Seq<nat>,
    rest: bool,
) -> Seq<PlayerView> {
    Seq::new(
        players.len(),
        |i: int|
            PlayerView {
                score: capped(players[i].score + earned(guesses, scores, players[i].id, guesses.len())),
                ready: players[i].ready && !rest,
                ..players[i]
            },
    )
}

impl SessionView {
    /// A new session: in the lobby, in its first round, with nobody in it.
    pub open spec fn fresh(
        id: Seq<char>,
        code: Seq<char>,
        total_rounds: nat,
        capacity: nat,
    ) -> SessionView {
        SessionView {
            id,
            code,
            phase: Phase::Lobby,
            current_round: 1,
            total_rounds,
            capacity,
            players: Seq::empty(),
            prompts: Seq::empty(),
            guesses: Seq::empty(),
            current_prompt: Seq::empty(),
            current_image: Seq::empty(),
        }
    }

    /// Every player has declared themselves ready.
    pub open spec fn all_ready(self) -> bool {
        forall|i: int| 0 <= i < self.players.len() ==> (#[trigger] self.players[i]).ready
    }

    /// Every player has handed in a prompt.
    pub open spec fn all_prompted(self) -> bool {
        forall|i: int|
            0 <= i < self.players.len() ==> has_prompt(self.prompts, (#[trigger] self.players[i]).id)
    }

    /// Every player has guessed the prompt of every other player.
    pub open spec fn all_guessed(self) -> bool {
        forall|i: int, j: int|
            0 <= i < self.players.len() && 0 <= j < self.players.len() && i != j ==> has_guess(
                self.guesses,
                (#[trigger] self.players[i]).id,
                (#[trigger] self.players[j]).id,
            )
    }

    /// What holds of every session that the rules can produce.
    pub open spec fn wf(self) -> bool {
        &&& 1 <= self.current_round <= self.total_rounds
        &&& self.players.len() <= self.capacity
        &&& distinct_players(self.players)
        &&& forall|i: int|
            0 <= i < self.players.len() ==> (#[trigger] self.players[i]).score <= SCORE_CEILING
        &&& distinct_prompts(self.prompts)
        &&& distinct_guesses(self.guesses)
        &&& forall|k: int|
            0 <= k < self.prompts.len() ==> has_player(self.players, (#[trigger] self.prompts[k]).player)
        &&& forall|k: int|
            0 <= k < self.guesses.len() ==> {
                &&& has_player(self.players, (#[trigger] self.guesses[k]).guesser)
                &&& has_player(self.players, self.guesses[k].target)
                &&& self.guesses[k].guesser != self.guesses[k].target
            }
        &&& self.phase == Phase::Lobby ==> self.current_round == 1
        &&& self.phase == Phase::Lobby || self.phase == Phase::Complete ==> self.prompts.len() == 0
        &&& self.phase != Phase::Guessing && self.phase != Phase::Scoring ==> self.guesses.len() == 0
        &&& self.phase == Phase::Guessing || self.phase == Phase::Scoring ==> self.all_prompted()
        &&& self.phase == Phase::Complete ==> self.current_round == self.total_rounds
    }

    /// A player asks to join. In the lobby the player is added at the end,
    /// not ready and without points; one who is already in changes nothing.
    pub open spec fn join(self, player: Seq<char>, display_name: Seq<char>) -> Result<
        SessionView,
        GameError,
    > {
        if self.phase != Phase::Lobby {
            Err(GameError::WrongPhase)
        } else if has_player(self.players, player) {
            Ok(self)
        } else if self.players.len() >= self.capacity {
            Err(GameError::SessionFull)
        } else {
            Ok(
                SessionView {
                    players: self.players.push(
                        PlayerView { id: player, display_name, score: 0, ready: false },
                    ),
                    ..self
                },
            )
        }
    }

    /// A player declares themselves ready. Once everybody is, and there are
    /// enough players, the first round begins.
    pub open spec fn ready(self, player: Seq<char>) -> Result<SessionView, GameError> {
        if !has_player(self.players, player) {
            Err(GameError::UnknownPlayer)
        } else if self.phase != Phase::Lobby {
            Err(GameError::WrongPhase)
        } else {
            let i = player_index(self.players, player);
            let marked = SessionView {
                players: self.players.update(i, PlayerView { ready: true, ..self.players[i] }),
                ..self
            };
            if marked.all_ready() && marked.players.len() >= MIN_PLAYERS {
                Ok(SessionView { phase: Phase::Imagining, ..marked })
            } else {
                Ok(marked)
            }
        }
    }

    /// A player hands in a prompt, which replaces the one they had. Once
    /// everybody has one, guessing begins. Outside the imagining nobody's
    /// prompt is taken; in it, only a player's.
    pub open spec fn prompt(self, player: Seq<char>, text: Seq<char>) -> Result<SessionView, GameError> {
        if self.phase != Phase::Imagining {
            Err(GameError::WrongPhase)
        } else if !has_player(self.players, player) {
            Err(GameError::UnknownPlayer)
        } else {
            let stored = SessionView { prompts: with_prompt(self.prompts, player, text), ..self };
            if stored.all_prompted() {
                Ok(SessionView { phase: Phase::Guessing, ..stored })
            } else {
                Ok(stored)
            }
        }
    }

    /// A player hands in a guess at the prompt of another player, which
    /// replaces the guess they had made at it. Once everybody has guessed
    /// everybody else's prompt, the round waits to be graded. Outside the
    /// guessing nobody's guess is taken; in it, only a guess of one player
    /// at another.
    pub open spec fn guess(self, guesser: Seq<char>, target: Seq<char>, text: Seq<char>) -> Result<
        SessionView,
        GameError,
    > {
        if self.phase != Phase::Guessing {
            Err(GameError::WrongPhase)
        } else if !has_player(self.players, guesser) || !has_player(self.players, target) || guesser
            == target {
            Err(GameError::UnknownPlayer)
        } else {
            let stored = SessionView {
                guesses: with_guess(self.guesses, guesser, target, text),
                ..self
            };
            if stored.all_guessed() {
                Ok(SessionView { phase: Phase::Scoring, ..stored })
            } else {
                Ok(stored)
            }
        }
    }

    /// The round's guesses were graded. Each player gets the points of their
    /// guesses, and prompts and guesses are cleared. After the last round the
    /// session is complete; before it the next round begins, with nobody
    /// ready.
    pub open spec fn scored(self, scores: Seq<nat>) -> Result<SessionView, GameError> {
        if self.phase != Phase::Scoring {
            Err(GameError::WrongPhase)
        } else if self.current_round >= self.total_rounds {
            Ok(
                SessionView {
                    phase: Phase::Complete,
                    players: graded(self.players, self.guesses, scores, false),
                    prompts: Seq::empty(),
                    guesses: Seq::empty(),
                    ..self
                },
            )
        } else {
            Ok(
                SessionView {
                    phase: Phase::Imagining,
                    current_round: self.current_round + 1,
                    players: graded(self.players, self.guesses, scores, true),
                    prompts: Seq::empty(),
                    guesses: Seq::empty(),
                    ..self
                },
            )
        }
    }

    /// What an event makes of the session, or why it is refused.
    pub open spec fn step(self, event: Event) -> Result<SessionView, GameError> {
        match event {
            Event::Join { player, display_name } => self.join(player, display_name),
            Event::Ready { player } => self.ready(player),
            Event::Prompt { player, text } => self.prompt(player, text),
            Event::Guess { guesser, target, text } => self.guess(guesser, target, text),
            Event::Scored { scores } => self.scored(scores),
        }
    }

    /// The session after an event: changed where the event is accepted, as it
    /// was where the event is refused.
    pub open spec fn after(self, event: Event) -> SessionView {
        match self.step(event) {
            Ok(next) => next,
            Err(_) => self,
        }
    }

    /// The session after a run of events, taken in order.
    pub open spec fn after_all(self, events: Seq<Event>) -> SessionView
        decreases events.len(),
    {
        if events.len() == 0 {
            self
        } else {
            self.after_all(events.drop_last()).after(events.last())
        }
    }
}

/// Whether exactly one of `players` has the identifier `id`.
pub open spec fn appears_once(players: Seq<PlayerView>, id: Seq<char>) -> bool {
    exists|i: int|
        0 <= i < players.len() && (#[trigger] players[i]).id == id && forall|j: int|
            0 <= j < players.len() && (#[trigger] players[j]).id == id ==> j == i
}

/// The course of a game of `rounds` rounds: the phases in which a session
/// comes to rest, in order. It begins in the lobby, each round imagines and
/// then guesses, and after the last round the game is complete.
pub open spec fn course(rounds: nat) -> Seq<Phase> {
    Seq::new(
        2 * rounds + 2,
        |i: int|
            if i == 0 {
                Phase::Lobby
            } else if i == 2 * rounds + 1 {
                Phase::Complete
            } else if i % 2 == 1 {
                Phase::Imagining
            } else {
                Phase::Guessing
            },
    )
}

/// How far along the course of its game a session is: the place in
/// [`course`] of the phase in which it rests. A session that waits to be
/// graded has not yet left the guessing of its round.
pub open spec fn stage(s: SessionView) -> nat {
    match s.phase {
        Phase::Lobby => 0,
        Phase::Imagining => (2 * s.current_round - 1) as nat,
        Phase::Guessing => 2 * s.current_round,
        Phase::Scoring => 2 * s.current_round,
        Phase::Complete => 2 * s.total_rounds + 1,
    }
}

/// The phases in which a session came to rest while `events` happened to
/// it, in order, from the phase in which it started. Waiting to be graded is
/// no rest: it is the end of guessing.
pub open spec fn phases_seen(s: SessionView, events: Seq<Event>) -> Seq<Phase>
    decreases events.len(),
{
    if events.len() == 0 {
        seq![s.phase]
    } else {
        let seen = phases_seen(s, events.drop_last());
        let before = s.after_all(events.drop_last());
        let after = before.after(events.last());
        if after.phase != before.phase && after.phase != Phase::Scoring {
            seen.push(after.phase)
        } else {
            seen
        }
    }
}

} // verus!
