//! The phases of a session.

use vstd::prelude::*;
use vstd::string::*;

verus! {

/// The stage a session is in.
///
/// A session starts in `Lobby` and never comes back to it. Each round runs
/// through `Imagining`, `Guessing` and `Scoring`; after the last round the
/// session is `Complete` and stays so.
#[derive(Clone, Copy, Debug, PartialEq, Eq, Structural)]
pub enum Phase {
    /// Players gather and declare themselves ready.
    Lobby,
    /// Each player writes a prompt.
    Imagining,
    /// Each player guesses the prompts of the others.
    Guessing,
    /// All guesses are in and wait to be graded.
    Scoring,
    /// The last round is over.
    Complete,
}

/// The name under which a phase is written when a session is stored or sent.
pub open spec fn phase_name(p: Phase) -> Seq<char> {
    match p {
        Phase::Lobby => "waiting"@,
        Phase::Imagining => "imagining"@,
        Phase::Guessing => "guessing"@,
        Phase::Scoring => "scoring"@,
        Phase::Complete => "complete"@,
    }
}

/// The phase that a name stands for, if it is the name of one.
pub open spec fn phase_named(name: Seq<char>) -> Option<Phase> {
    if name == "waiting"@ {
        Some(Phase::Lobby)
    } else if name == "imagining"@ {
        Some(Phase::Imagining)
    } else if name == "guessing"@ {
        Some(Phase::Guessing)
    } else if name == "scoring"@ {
        Some(Phase::Scoring)
    } else if name == "complete"@ {
        Some(Phase::Complete)
    } else {
        None
    }
}

impl Phase {
    /// The phase's name.
    pub fn name(&self) -> (r: &'static str)
        ensures
            r@ == phase_name(*self),
    {
        match self {
            Phase::Lobby => "waiting",
            Phase::Imagining => "imagining",
            Phase::Guessing => "guessing",
            Phase::Scoring => "scoring",
            Phase::Complete => "complete",
        }
    }

    /// Reads a phase from its name.
    pub fn from_name(name: &str) -> (r: Option<Phase>)
        ensures
            r == phase_named(name@),
    {
        let given = String::from_str(name);
        if given == String::from_str("waiting") {
            Some(Phase::Lobby)
        } else if given == String::from_str("imagining") {
            Some(Phase::Imagining)
        } else if given == String::from_str("guessing") {
            Some(Phase::Guessing)
        } else if given == String::from_str("scoring") {
            Some(Phase::Scoring)
        } else if given == String::from_str("complete") {
            Some(Phase::Complete)
        } else {
            None
        }
    }
}

/// Reading a phase's name gives the phase back.
pub proof fn lemma_phase_name_round_trip(p: Phase)
    ensures
        phase_named(phase_name(p)) == Some(p),
{
    reveal_strlit("waiting");
    reveal_strlit("imagining");
    reveal_strlit("guessing");
    reveal_strlit("scoring");
    reveal_strlit("complete");
    assert("waiting"@.len() == 7);
    assert("imagining"@.len() == 9);
    assert("guessing"@.len() == 8);
    assert("scoring"@[0] == 's');
    assert("guessing"@[0] == 'g');
    assert("complete"@[0] == 'c');
}

} // verus!
