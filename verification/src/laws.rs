//! What holds of the rules, proved of the model in [`crate::model`].

use vstd::prelude::*;
use vstd::arithmetic::div_mod::{
    lemma_div_pos_is_pos, lemma_fundamental_div_mod, lemma_fundamental_div_mod_converse,
    lemma_mod_pos_bound, lemma_multiply_divide_lt,
};
use vstd::relations::injective_on;
use vstd::set_lib::{
    lemma_int_range, lemma_len_subset, lemma_map_size, lemma_set_disjoint_lens,
    lemma_subset_equality, set_int_range,
};
use crate::error::GameError;
use crate::model::{
    appears_once, course, distinct_guesses, distinct_players, distinct_prompts, guess_index,
    guess_is, has_guess, has_player, has_prompt, phases_seen, player_index, prompt_index, stage,
    Event, GuessView, PlayerView, PromptView, SessionView,
};
use crate::phase::Phase;

verus! {

/// Among players with distinct identifiers, a player's place is the one
/// place that holds their identifier.
pub proof fn lemma_player_index(players: Seq<PlayerView>, id: Seq<char>, i: int)
    requires
        distinct_players(players),
        0 <= i < players.len(),
        players[i].id == id,
    ensures
        has_player(players, id),
        player_index(players, id) == i,
{
    let j = player_index(players, id);
    assert(0 <= j < players.len() && players[j].id == id);
    if j < i {
        assert(players[j].id != players[i].id);
    } else if i < j {
        assert(players[i].id != players[j].id);
    }
}

/// Among prompts by distinct players, the place of a player's prompt is the
/// one place that holds a prompt of theirs.
pub proof fn lemma_prompt_index(prompts: Seq<PromptView>, player: Seq<char>, k: int)
    requires
        distinct_prompts(prompts),
        0 <= k < prompts.len(),
        prompts[k].player == player,
    ensures
        has_prompt(prompts, player),
        prompt_index(prompts, player) == k,
{
    let j = prompt_index(prompts, player);
    assert(0 <= j < prompts.len() && prompts[j].player == player);
    if j < k {
        assert(prompts[j].player != prompts[k].player);
    } else if k < j {
        assert(prompts[k].player != prompts[j].player);
    }
}

/// Among guesses that differ in guesser or target, the place of a guess is
/// the one place that holds a guess by that guesser at that target.
pub proof fn lemma_guess_index(guesses: Seq<GuessView>, guesser: Seq<char>, target: Seq<char>, k: int)
    requires
        distinct_guesses(guesses),
        0 <= k < guesses.len(),
        guess_is(guesses[k], guesser, target),
    ensures
        has_guess(guesses, guesser, target),
        guess_index(guesses, guesser, target) == k,
{
    let j = guess_index(guesses, guesser, target);
    assert(0 <= j < guesses.len() && guess_is(guesses[j], guesser, target));
    if j < k {
        assert(!guess_is(guesses[j], guesses[k].guesser, guesses[k].target));
    } else if k < j {
        assert(!guess_is(guesses[k], guesses[j].guesser, guesses[j].target));
    }
}

/// Players who keep their identifiers stay findable.
proof fn lemma_same_ids(before: Seq<PlayerView>, after: Seq<PlayerView>)
    requires
        before.len() == after.len(),
        forall|i: int| 0 <= i < before.len() ==> (#[trigger] after[i]).id == before[i].id,
    ensures
        distinct_players(before) ==> distinct_players(after),
        forall|id: Seq<char>| has_player(before, id) ==> has_player(after, id),
{
    assert forall|id: Seq<char>| has_player(before, id) implies has_player(after, id) by {
        let i = player_index(before, id);
        assert(after[i].id == id);
    }
    if distinct_players(before) {
        assert forall|i: int, j: int| 0 <= i < j < after.len() implies (#[trigger] after[i]).id != (
        #[trigger] after[j]).id by {
            assert(before[i].id != before[j].id);
        }
    }
}

/// A player who joins leaves the session well-formed.
pub proof fn lemma_join_keeps_wf(s: SessionView, player: Seq<char>, display_name: Seq<char>)
    requires
        s.wf(),
        s.join(player, display_name) is Ok,
    ensures
        s.join(player, display_name)->Ok_0.wf(),
{
}

/// A player who declares themselves ready leaves the session well-formed.
pub proof fn lemma_ready_keeps_wf(s: SessionView, player: Seq<char>)
    requires
        s.wf(),
        s.ready(player) is Ok,
    ensures
        s.ready(player)->Ok_0.wf(),
{
    let next = s.ready(player)->Ok_0;
    let i = player_index(s.players, player);
    assert(0 <= i < s.players.len() && s.players[i].id == player);
    lemma_same_ids(s.players, next.players);
}

/// A prompt that is handed in leaves the session well-formed.
pub proof fn lemma_prompt_keeps_wf(s: SessionView, player: Seq<char>, text: Seq<char>)
    requires
        s.wf(),
        s.prompt(player, text) is Ok,
    ensures
        s.prompt(player, text)->Ok_0.wf(),
{
    let next = s.prompt(player, text)->Ok_0;
    let entry = PromptView { player, text };
    if has_prompt(s.prompts, player) {
        let at = prompt_index(s.prompts, player);
        assert(0 <= at < s.prompts.len() && s.prompts[at].player == player);
        assert forall|i: int, j: int| 0 <= i < j < next.prompts.len() implies (
        #[trigger] next.prompts[i]).player != (#[trigger] next.prompts[j]).player by {
            assert(s.prompts[i].player != s.prompts[j].player);
        }
        assert forall|k: int| 0 <= k < next.prompts.len() implies has_player(
            next.players,
            (#[trigger] next.prompts[k]).player,
        ) by {
            assert(has_player(s.players, s.prompts[k].player));
        }
    } else {
        let n = s.prompts.len() as int;
        assert forall|i: int, j: int| 0 <= i < j < next.prompts.len() implies (
        #[trigger] next.prompts[i]).player != (#[trigger] next.prompts[j]).player by {
            if j < n {
                assert(s.prompts[i].player != s.prompts[j].player);
            } else {
                assert(s.prompts[i].player != player);
            }
        }
        assert forall|k: int| 0 <= k < next.prompts.len() implies has_player(
            next.players,
            (#[trigger] next.prompts[k]).player,
        ) by {
            if k < n {
                assert(has_player(s.players, s.prompts[k].player));
            }
        }
    }
}

/// A guess that is handed in leaves the session well-formed.
pub proof fn lemma_guess_keeps_wf(s: SessionView, guesser: Seq<char>, target: Seq<char>, text: Seq<char>)
    requires
        s.wf(),
        s.guess(guesser, target, text) is Ok,
    ensures
        s.guess(guesser, target, text)->Ok_0.wf(),
{
    let next = s.guess(guesser, target, text)->Ok_0;
    let n = s.guesses.len() as int;
    if has_guess(s.guesses, guesser, target) {
        let at = guess_index(s.guesses, guesser, target);
        assert(0 <= at < n && guess_is(s.guesses[at], guesser, target));
        assert forall|i: int, j: int| 0 <= i < j < next.guesses.len() implies !guess_is(
            #[trigger] next.guesses[i],
            (#[trigger] next.guesses[j]).guesser,
            next.guesses[j].target,
        ) by {
            assert(!guess_is(s.guesses[i], s.guesses[j].guesser, s.guesses[j].target));
        }
        assert forall|k: int| 0 <= k < next.guesses.len() implies {
            &&& has_player(next.players, (#[trigger] next.guesses[k]).guesser)
            &&& has_player(next.players, next.guesses[k].target)
            &&& next.guesses[k].guesser != next.guesses[k].target
        } by {
            assert(has_player(s.players, s.guesses[k].guesser));
        }
    } else {
        assert forall|i: int, j: int| 0 <= i < j < next.guesses.len() implies !guess_is(
            #[trigger] next.guesses[i],
            (#[trigger] next.guesses[j]).guesser,
            next.guesses[j].target,
        ) by {
            if j < n {
                assert(!guess_is(s.guesses[i], s.guesses[j].guesser, s.guesses[j].target));
            } else {
                assert(!guess_is(s.guesses[i], guesser, target));
            }
        }
        assert forall|k: int| 0 <= k < next.guesses.len() implies {
            &&& has_player(next.players, (#[trigger] next.guesses[k]).guesser)
            &&& has_player(next.players, next.guesses[k].target)
            &&& next.guesses[k].guesser != next.guesses[k].target
        } by {
            if k < n {
                assert(has_player(s.players, s.guesses[k].guesser));
            }
        }
    }
    assert(next.all_prompted()) by {
        assert(s.all_prompted());
        assert forall|i: int| 0 <= i < next.players.len() implies has_prompt(
            next.prompts,
            (#[trigger] next.players[i]).id,
        ) by {
            assert(has_prompt(s.prompts, s.players[i].id));
        }
    }
}

/// A round that is graded leaves the session well-formed.
pub proof fn lemma_scored_keeps_wf(s: SessionView, scores: Seq<nat>)
    requires
        s.wf(),
        s.scored(scores) is Ok,
    ensures
        s.scored(scores)->Ok_0.wf(),
{
    let next = s.scored(scores)->Ok_0;
    lemma_same_ids(s.players, next.players);
}

/// Whatever happens to a well-formed session, it stays well-formed.
pub proof fn lemma_step_keeps_wf(s: SessionView, event: Event)
    requires
        s.wf(),
    ensures
        s.after(event).wf(),
{
    match event {
        Event::Join { player, display_name } => {
            if s.join(player, display_name) is Ok {
                lemma_join_keeps_wf(s, player, display_name);
            }
        },
        Event::Ready { player } => {
            if s.ready(player) is Ok {
                lemma_ready_keeps_wf(s, player);
            }
        },
        Event::Prompt { player, text } => {
            if s.prompt(player, text) is Ok {
                lemma_prompt_keeps_wf(s, player, text);
            }
        },
        Event::Guess { guesser, target, text } => {
            if s.guess(guesser, target, text) is Ok {
                lemma_guess_keeps_wf(s, guesser, target, text);
            }
        },
        Event::Scored { scores } => {
            if s.scored(scores) is Ok {
                lemma_scored_keeps_wf(s, scores);
            }
        },
    }
}

/// A new session is well-formed.
pub proof fn lemma_fresh_is_wf(id: Seq<char>, code: Seq<char>, total_rounds: nat, capacity: nat)
    requires
        total_rounds >= 1,
    ensures
        SessionView::fresh(id, code, total_rounds, capacity).wf(),
{
}

/// A session never holds more players than it admits: whatever happens to a
/// well-formed session, in whatever order, it stays well-formed, it admits
/// as many players as before, and it holds no more than that.
pub proof fn lemma_capacity_is_never_exceeded(s: SessionView, events: Seq<Event>)
    requires
        s.wf(),
    ensures
        s.after_all(events).wf(),
        s.after_all(events).capacity == s.capacity,
        s.after_all(events).players.len() <= s.capacity,
    decreases events.len(),
{
    if events.len() > 0 {
        lemma_capacity_is_never_exceeded(s, events.drop_last());
        lemma_step_keeps_wf(s.after_all(events.drop_last()), events.last());
    }
}

/// Joining is idempotent: where a player was let in, the same player asking
/// again, under whatever name, is answered with the session as it is, and
/// the player is in it exactly once.
pub proof fn lemma_join_is_idempotent(
    s: SessionView,
    player: Seq<char>,
    display_name: Seq<char>,
    name_again: Seq<char>,
)
    requires
        s.wf(),
        s.join(player, display_name) is Ok,
    ensures
        ({
            let once = s.join(player, display_name)->Ok_0;
            &&& once.join(player, name_again) == Ok::<SessionView, GameError>(once)
            &&& appears_once(once.players, player)
        }),
{
    let once = s.join(player, display_name)->Ok_0;
    lemma_join_keeps_wf(s, player, display_name);
    if !has_player(s.players, player) {
        assert(once.players[s.players.len() as int].id == player);
    }
    let i = player_index(once.players, player);
    assert(0 <= i < once.players.len() && once.players[i].id == player);
    assert forall|j: int|
        0 <= j < once.players.len() && (#[trigger] once.players[j]).id == player implies j == i by {
        lemma_player_index(once.players, player, j);
    }
}

/// Asked one after the other, of two players who want the last place in
/// the lobby only the first gets it.
pub proof fn lemma_last_place_goes_to_one(
    s: SessionView,
    first: Seq<char>,
    second: Seq<char>,
    first_name: Seq<char>,
    second_name: Seq<char>,
)
    requires
        s.wf(),
        s.phase == Phase::Lobby,
        s.players.len() + 1 == s.capacity,
        !has_player(s.players, first),
        !has_player(s.players, second),
        first != second,
    ensures
        s.join(first, first_name) is Ok,
        s.join(first, first_name)->Ok_0.join(second, second_name) == Err::<SessionView, GameError>(
            GameError::SessionFull,
        ),
{
    let once = s.join(first, first_name)->Ok_0;
    if has_player(once.players, second) {
        let i = player_index(once.players, second);
        assert(0 <= i < once.players.len() && once.players[i].id == second);
        if i < s.players.len() {
            assert(s.players[i].id == second);
        }
    }
}

/// Scores only grow: whatever happens to a well-formed session, the players
/// it had keep their places and identifiers, and none of them has fewer
/// points than before.
pub proof fn lemma_scores_never_fall(s: SessionView, event: Event)
    requires
        s.wf(),
    ensures
        s.after(event).players.len() >= s.players.len(),
        forall|i: int|
            0 <= i < s.players.len() ==> {
                &&& (#[trigger] s.after(event).players[i]).id == s.players[i].id
                &&& s.after(event).players[i].score >= s.players[i].score
            },
{
    match event {
        Event::Ready { player } => {
            if s.ready(player) is Ok {
                let i = player_index(s.players, player);
                assert(0 <= i < s.players.len() && s.players[i].id == player);
            }
        },
        _ => {},
    }
}

/// The phase in which a well-formed session rests is the one that the
/// course of its game has at the session's stage.
pub proof fn lemma_stage_names_the_phase(s: SessionView)
    requires
        s.wf(),
    ensures
        stage(s) < course(s.total_rounds).len(),
        s.phase != Phase::Scoring ==> course(s.total_rounds)[stage(s) as int] == s.phase,
        s.phase == Phase::Scoring ==> course(s.total_rounds)[stage(s) as int] == Phase::Guessing,
        s.phase == Phase::Complete <==> stage(s) + 1 == course(s.total_rounds).len(),
{
}

/// No event makes a session skip a phase or go back: a well-formed session
/// stays at its stage or moves to the next one, and it leaves its stage
/// exactly when it comes to rest in another phase. The number of rounds
/// never changes.
pub proof fn lemma_step_moves_one_stage(s: SessionView, event: Event)
    requires
        s.wf(),
    ensures
        s.after(event).total_rounds == s.total_rounds,
        stage(s.after(event)) == stage(s) || stage(s.after(event)) == stage(s) + 1,
        stage(s.after(event)) == stage(s) + 1 <==> s.after(event).phase != s.phase && s.after(
            event,
        ).phase != Phase::Scoring,
{
    lemma_step_keeps_wf(s, event);
}

/// A session that has left the lobby never comes back to it.
pub proof fn lemma_lobby_is_left_for_good(s: SessionView, event: Event)
    requires
        s.wf(),
        s.phase != Phase::Lobby,
    ensures
        s.after(event).phase != Phase::Lobby,
{
}

/// A game that is complete stays as it is: every event is refused.
pub proof fn lemma_complete_is_final(s: SessionView, event: Event)
    requires
        s.wf(),
        s.phase == Phase::Complete,
    ensures
        s.step(event) is Err,
        s.after(event) == s,
{
}

/// The phases of a game come in the order of its course, none skipped and
/// none out of turn: the phases in which a session has come to rest since
/// it was new are the course of its game up to the stage it is at. Once the
/// session is complete they are the whole course.
pub proof fn lemma_phases_follow_the_course(
    id: Seq<char>,
    code: Seq<char>,
    total_rounds: nat,
    capacity: nat,
    events: Seq<Event>,
)
    requires
        total_rounds >= 1,
    ensures
        ({
            let start = SessionView::fresh(id, code, total_rounds, capacity);
            let end = start.after_all(events);
            &&& end.wf()
            &&& end.total_rounds == total_rounds
            &&& phases_seen(start, events) == course(total_rounds).take(stage(end) as int + 1)
            &&& end.phase == Phase::Complete ==> phases_seen(start, events) == course(total_rounds)
        }),
    decreases events.len(),
{
    let start = SessionView::fresh(id, code, total_rounds, capacity);
    let end = start.after_all(events);
    let whole = course(total_rounds);
    if events.len() == 0 {
        assert(phases_seen(start, events) =~= whole.take(1));
    } else {
        let before = start.after_all(events.drop_last());
        lemma_phases_follow_the_course(id, code, total_rounds, capacity, events.drop_last());
        lemma_step_keeps_wf(before, events.last());
        lemma_step_moves_one_stage(before, events.last());
        lemma_stage_names_the_phase(before);
        lemma_stage_names_the_phase(end);
        let seen = phases_seen(start, events.drop_last());
        if stage(end) == stage(before) + 1 {
            assert(seen.push(end.phase) =~= whole.take(stage(end) as int + 1));
        }
    }
    lemma_stage_names_the_phase(end);
    if end.phase == Phase::Complete {
        assert(whole.take(stage(end) as int + 1) =~= whole);
    }
}

/// For each prompt, the place of the player who wrote it.
spec fn prompt_places(s: SessionView) -> Seq<int> {
    Seq::new(s.prompts.len(), |k: int| player_index(s.players, s.prompts[k].player))
}

/// The places of the players who wrote the prompts are places of players,
/// and no two prompts give the same place.
proof fn lemma_prompt_places(s: SessionView)
    requires
        s.wf(),
    ensures
        prompt_places(s).no_duplicates(),
        prompt_places(s).to_set().subset_of(set_int_range(0, s.players.len() as int)),
        forall|k: int|
            0 <= k < s.prompts.len() ==> {
                &&& 0 <= #[trigger] prompt_places(s)[k] < s.players.len()
                &&& s.players[prompt_places(s)[k]].id == s.prompts[k].player
            },
{
    let places = prompt_places(s);
    assert forall|k: int| 0 <= k < s.prompts.len() implies {
        &&& 0 <= #[trigger] places[k] < s.players.len()
        &&& s.players[places[k]].id == s.prompts[k].player
    } by {
        assert(has_player(s.players, s.prompts[k].player));
    }
    assert forall|a: int, b: int|
        0 <= a < places.len() && 0 <= b < places.len() && a != b implies places[a] != places[b] by {
        if places[a] == places[b] {
            assert(s.prompts[a].player == s.prompts[b].player);
            if a < b {
                assert(s.prompts[a].player != s.prompts[b].player);
            } else {
                assert(s.prompts[b].player != s.prompts[a].player);
            }
        }
    }
    assert forall|x: int| places.to_set().contains(x) implies set_int_range(
        0,
        s.players.len() as int,
    ).contains(x) by {
        let k = choose|k: int| 0 <= k < places.len() && places[k] == x;
        assert(0 <= places[k] < s.players.len());
    }
}

/// There are never more prompts than players, and everybody has handed one
/// in exactly when there are as many prompts as players.
pub proof fn lemma_prompts_are_counted(s: SessionView)
    requires
        s.wf(),
    ensures
        s.prompts.len() <= s.players.len(),
        s.all_prompted() <==> s.prompts.len() == s.players.len(),
{
    let n = s.players.len() as int;
    let places = prompt_places(s);
    let all = set_int_range(0, n);
    lemma_prompt_places(s);
    lemma_int_range(0, n);
    lemma_len_subset(places.to_set(), all);
    places.unique_seq_to_set();
    if s.all_prompted() {
        assert forall|i: int| all.contains(i) implies places.to_set().contains(i) by {
            assert(has_prompt(s.prompts, s.players[i].id));
            let k = prompt_index(s.prompts, s.players[i].id);
            lemma_player_index(s.players, s.prompts[k].player, i);
            assert(places[k] == i);
        }
        assert(places.to_set() =~= all);
    }
    if s.prompts.len() == s.players.len() {
        lemma_subset_equality(places.to_set(), all);
        assert forall|i: int| 0 <= i < s.players.len() implies has_prompt(
            s.prompts,
            (#[trigger] s.players[i]).id,
        ) by {
            assert(all.contains(i));
            assert(places.to_set().contains(i));
            let k = choose|k: int| 0 <= k < places.len() && places[k] == i;
            assert(s.prompts[k].player == s.players[i].id);
        }
    }
}

/// A number below `n * n` is a row and a column below `n`.
proof fn lemma_cell_of(c: int, n: int)
    requires
        0 <= n,
        0 <= c < n * n,
    ensures
        0 <= c / n < n,
        0 <= c % n < n,
        c == (c / n) * n + c % n,
{
    assert(n > 0) by (nonlinear_arith)
        requires
            0 <= n,
            0 < n * n,
    ;
    lemma_fundamental_div_mod(c, n);
    lemma_mod_pos_bound(c, n);
    lemma_div_pos_is_pos(c, n);
    lemma_multiply_divide_lt(c, n, n);
    assert(n * (c / n) == (c / n) * n) by (nonlinear_arith);
}

/// A row and a column below `n` are a number below `n * n`, from which
/// both can be read again.
proof fn lemma_number_of(i: int, j: int, n: int)
    requires
        0 <= i < n,
        0 <= j < n,
    ensures
        0 <= i * n + j < n * n,
        (i * n + j) / n == i,
        (i * n + j) % n == j,
{
    assert(0 <= i * n + j < n * n) by (nonlinear_arith)
        requires
            0 <= i < n,
            0 <= j < n,
    ;
    lemma_fundamental_div_mod_converse(i * n + j, n, i, j);
}

/// The cells of a square of side `n` that lie off its diagonal, each as the
/// number `row * n + column`.
spec fn off_diagonal(n: int) -> Set<int> {
    Set::new(|c: int| 0 <= c < n * n && c / n != c % n)
}

/// The cells of a square of side `n` that lie on its diagonal.
spec fn diagonal(n: int) -> Set<int> {
    Set::new(|c: int| 0 <= c < n * n && c / n == c % n)
}

/// A square of side `n` has `n * (n - 1)` cells off its diagonal.
proof fn lemma_off_diagonal_len(n: int)
    requires
        n >= 0,
    ensures
        off_diagonal(n).finite(),
        off_diagonal(n).len() == n * (n - 1),
{
    let square = set_int_range(0, n * n);
    let side = set_int_range(0, n);
    let f = |i: int| i * n + i;
    assert(0 <= n * n) by (nonlinear_arith);
    lemma_int_range(0, n * n);
    lemma_int_range(0, n);
    assert(injective_on(f, side)) by {
        assert forall|a: int, b: int|
            side.contains(a) && side.contains(b) && #[trigger] f(a) == #[trigger] f(b) implies a == b by {
            lemma_number_of(a, a, n);
            lemma_number_of(b, b, n);
        }
    }
    assert(side.map(f) =~= diagonal(n)) by {
        assert forall|c: int| diagonal(n).contains(c) implies side.map(f).contains(c) by {
            lemma_cell_of(c, n);
            assert(side.contains(c / n));
            assert(f(c / n) == c);
        }
        assert forall|c: int| side.map(f).contains(c) implies diagonal(n).contains(c) by {
            let i = choose|i: int| side.contains(i) && c == f(i);
            lemma_number_of(i, i, n);
        }
    }
    lemma_map_size(side, diagonal(n), f);
    assert(off_diagonal(n).subset_of(square));
    lemma_len_subset(off_diagonal(n), square);
    lemma_set_disjoint_lens(off_diagonal(n), diagonal(n));
    assert(off_diagonal(n) + diagonal(n) =~= square);
    assert(n * n - n == n * (n - 1)) by (nonlinear_arith);
}

/// For each guess, the cell in the row of the guesser and the column of the
/// target.
spec fn guess_cells(s: SessionView) -> Seq<int> {
    Seq::new(
        s.guesses.len(),
        |k: int|
            player_index(s.players, s.guesses[k].guesser) * s.players.len() + player_index(
                s.players,
                s.guesses[k].target,
            ),
    )
}

/// The cells of the guesses lie off the diagonal, each names the guesser
/// and the target of its guess, and no two guesses share a cell.
proof fn lemma_guess_cells(s: SessionView)
    requires
        s.wf(),
    ensures
        guess_cells(s).no_duplicates(),
        guess_cells(s).to_set().subset_of(off_diagonal(s.players.len() as int)),
        forall|k: int|
            0 <= k < s.guesses.len() ==> {
                let c = #[trigger] guess_cells(s)[k];
                let n = s.players.len() as int;
                &&& 0 <= c < n * n
                &&& s.players[c / n].id == s.guesses[k].guesser
                &&& s.players[c % n].id == s.guesses[k].target
            },
{
    let n = s.players.len() as int;
    let cells = guess_cells(s);
    assert forall|k: int| 0 <= k < s.guesses.len() implies {
        let c = #[trigger] cells[k];
        &&& 0 <= c < n * n
        &&& c / n != c % n
        &&& s.players[c / n].id == s.guesses[k].guesser
        &&& s.players[c % n].id == s.guesses[k].target
    } by {
        assert(has_player(s.players, s.guesses[k].guesser));
        assert(has_player(s.players, s.guesses[k].target));
        let i = player_index(s.players, s.guesses[k].guesser);
        let j = player_index(s.players, s.guesses[k].target);
        lemma_number_of(i, j, n);
    }
    assert forall|a: int, b: int| 0 <= a < cells.len() && 0 <= b < cells.len() && a != b implies cells[a]
        != cells[b] by {
        if cells[a] == cells[b] {
            assert(guess_is(s.guesses[a], s.guesses[b].guesser, s.guesses[b].target));
            assert(guess_is(s.guesses[b], s.guesses[a].guesser, s.guesses[a].target));
            if a < b {
                assert(!guess_is(s.guesses[a], s.guesses[b].guesser, s.guesses[b].target));
            } else {
                assert(!guess_is(s.guesses[b], s.guesses[a].guesser, s.guesses[a].target));
            }
        }
    }
    assert forall|x: int| cells.to_set().contains(x) implies off_diagonal(n).contains(x) by {
        let k = choose|k: int| 0 <= k < cells.len() && cells[k] == x;
        assert(0 <= cells[k] < n * n);
    }
}

/// The round waits to be graded once as many guesses are in as there are
/// players times the others: there are never more guesses than that, and
/// everybody has guessed everybody else's prompt exactly when there are
/// that many.
pub proof fn lemma_guesses_are_counted(s: SessionView)
    requires
        s.wf(),
    ensures
        s.guesses.len() <= s.players.len() * (s.players.len() - 1),
        s.all_guessed() <==> s.guesses.len() == s.players.len() * (s.players.len() - 1),
{
    let n = s.players.len() as int;
    let cells = guess_cells(s);
    let all = off_diagonal(n);
    lemma_guess_cells(s);
    lemma_off_diagonal_len(n);
    lemma_len_subset(cells.to_set(), all);
    cells.unique_seq_to_set();
    if s.all_guessed() {
        assert forall|c: int| all.contains(c) implies cells.to_set().contains(c) by {
            lemma_cell_of(c, n);
            let i = c / n;
            let j = c % n;
            assert(has_guess(s.guesses, s.players[i].id, s.players[j].id));
            let k = guess_index(s.guesses, s.players[i].id, s.players[j].id);
            lemma_player_index(s.players, s.guesses[k].guesser, i);
            lemma_player_index(s.players, s.guesses[k].target, j);
            assert(cells[k] == c);
        }
        assert(cells.to_set() =~= all);
    }
    if s.guesses.len() == n * (n - 1) {
        lemma_subset_equality(cells.to_set(), all);
        assert forall|i: int, j: int|
            0 <= i < s.players.len() && 0 <= j < s.players.len() && i != j implies has_guess(
            s.guesses,
            (#[trigger] s.players[i]).id,
            (#[trigger] s.players[j]).id,
        ) by {
            lemma_number_of(i, j, n);
            let c = i * n + j;
            assert(all.contains(c));
            assert(cells.to_set().contains(c));
            let k = choose|k: int| 0 <= k < cells.len() && cells[k] == c;
            assert(guess_is(s.guesses[k], s.players[i].id, s.players[j].id));
        }
    }
}

} // verus!
