//! The short codes by which players reach a session.

use rand::Rng;
use vstd::prelude::*;
use vstd::string::*;
use crate::error::GameError;

verus! {

/// The number of characters of a code.
pub const CODE_LENGTH: usize = 5;

/// The number of characters that a code is drawn from.
pub const ALPHABET_SIZE: usize = 36;

/// How many codes a search tries when it was not told otherwise.
pub const DEFAULT_ATTEMPTS: u32 = 64;

/// The characters that a code is drawn from: capital letters and digits.
pub open spec fn alphabet() -> Seq<char> {
    "ABCDEFGHIJKLMNOPQRSTUVWXYZ0123456789"@
}

/// Whether `s` is a code: [`CODE_LENGTH`] characters of the alphabet.
pub open spec fn is_code(s: Seq<char>) -> bool {
    &&& s.len() == CODE_LENGTH
    &&& forall|i: int| 0 <= i < s.len() ==> alphabet().contains(#[trigger] s[i])
}

/// Draws a number from `0..bound`.
///
/// The number comes from `rand::thread_rng().gen_range(0..bound)`. `gen_range`
/// panics on an empty range, so the bound must not be zero. Of the number
/// this says only that it lies in the range; that every number of the range
/// is as likely as any other is the generator's promise and no part of this
/// contract. The generator takes its seed from the system when a thread
/// first uses it, and panics where the system has none to give: no argument
/// decides that.
#[verifier::external_body]
fn random_below(bound: usize) -> (r: usize)
    requires
        bound > 0,
    ensures
        r < bound,
{
    rand::thread_rng().gen_range(0..bound)
}

/// Whether every number of `draws` is the place of a character of the
/// alphabet.
pub open spec fn valid_draws(draws: Seq<usize>) -> bool {
    forall|k: int| 0 <= k < draws.len() ==> (#[trigger] draws[k]) < ALPHABET_SIZE
}

/// The text that numbers drawn stand for: for each number, in order, the
/// character that the alphabet has at that place.
pub open spec fn code_of(draws: Seq<usize>) -> Seq<char> {
    Seq::new(draws.len(), |k: int| alphabet()[draws[k] as int])
}

/// Writes out the text that numbers drawn stand for, if each of them is
/// the place of a character of the alphabet.
pub fn code_from_draws(draws: &Vec<usize>) -> (r: Option<String>)
    ensures
        r is Some <==> valid_draws(draws@),
        r matches Some(code) ==> code@ == code_of(draws@),
{
    let letters = "ABCDEFGHIJKLMNOPQRSTUVWXYZ0123456789";
    proof {
        reveal_strlit("ABCDEFGHIJKLMNOPQRSTUVWXYZ0123456789");
        assert(letters@.len() == ALPHABET_SIZE);
        assert(letters.is_ascii());
    }
    let mut code = String::new();
    let mut i: usize = 0;
    while i < draws.len()
        invariant
            i <= draws.len(),
            letters@ == alphabet(),
            letters@.len() == ALPHABET_SIZE,
            letters.is_ascii(),
            valid_draws(draws@.take(i as int)),
            code@ == code_of(draws@.take(i as int)),
        decreases draws.len() - i,
    {
        let at = draws[i];
        if at >= ALPHABET_SIZE {
            return None;
        }
        let letter = letters.substring_ascii(at, at + 1);
        let ghost so_far = code@;
        code.append(letter);
        proof {
            assert(letter@ =~= seq![letters@[at as int]]);
            assert(draws@.take(i + 1) =~= draws@.take(i as int).push(at));
            assert(code@ =~= code_of(draws@.take(i + 1)));
        }
        i += 1;
    }
    proof {
        assert(draws@.take(i as int) =~= draws@);
    }
    Some(code)
}

/// Numbers for a code are a code.
pub proof fn lemma_draws_make_a_code(draws: Seq<usize>)
    requires
        draws.len() == CODE_LENGTH,
        valid_draws(draws),
    ensures
        is_code(code_of(draws)),
{
    reveal_strlit("ABCDEFGHIJKLMNOPQRSTUVWXYZ0123456789");
    assert forall|i: int| 0 <= i < code_of(draws).len() implies alphabet().contains(
        #[trigger] code_of(draws)[i],
    ) by {
        assert(alphabet()[draws[i] as int] == code_of(draws)[i]);
    }
}

/// No character stands twice in the alphabet.
proof fn lemma_alphabet_is_distinct(i: int, j: int)
    requires
        0 <= i < j < ALPHABET_SIZE,
    ensures
        alphabet()[i] != alphabet()[j],
{
    reveal_strlit("ABCDEFGHIJKLMNOPQRSTUVWXYZ0123456789");
}

/// Different numbers make different texts: numbers drawn can be read back
/// from the text they stand for, so every code comes from exactly one draw.
pub proof fn lemma_codes_tell_draws_apart(a: Seq<usize>, b: Seq<usize>)
    requires
        valid_draws(a),
        valid_draws(b),
        code_of(a) == code_of(b),
    ensures
        a == b,
{
    assert(a.len() == code_of(a).len());
    assert(b.len() == code_of(b).len());
    assert forall|k: int| 0 <= k < a.len() implies a[k] == b[k] by {
        assert(code_of(a)[k] == alphabet()[a[k] as int]);
        assert(code_of(b)[k] == alphabet()[b[k] as int]);
        if a[k] < b[k] {
            lemma_alphabet_is_distinct(a[k] as int, b[k] as int);
        } else if b[k] < a[k] {
            lemma_alphabet_is_distinct(b[k] as int, a[k] as int);
        }
    }
    assert(a =~= b);
}

/// Makes up a code: [`CODE_LENGTH`] numbers are drawn by chance, each
/// independently of the others, and the code is the text they stand for.
///
/// Nothing keeps two calls from giving the same code: whoever hands codes
/// out checks each against the codes in use, as a [`CodeSearch`] lets them.
pub fn generate_game_code() -> (code: String)
    ensures
        is_code(code@),
        exists|draws: Seq<usize>|
            draws.len() == CODE_LENGTH && valid_draws(draws) && code@ == #[trigger] code_of(draws),
{
    let mut draws: Vec<usize> = Vec::new();
    let mut i: usize = 0;
    while i < CODE_LENGTH
        invariant
            i <= CODE_LENGTH,
            draws@.len() == i,
            valid_draws(draws@),
        decreases CODE_LENGTH - i,
    {
        draws.push(random_below(ALPHABET_SIZE));
        i += 1;
    }
    proof {
        lemma_draws_make_a_code(draws@);
    }
    code_from_draws(&draws).unwrap()
}

/// What a search says once a code was looked up.
#[derive(Debug)]
pub enum CodeStep {
    /// The code is free: it is the one to use.
    Use(String),
    /// The code was in use: this one is to be looked up next.
    Try(String),
}

/// A search for a code that is not in use, which gives up after a set
/// number of codes.
///
/// The search proposes; whether a code is in use is for the caller to find
/// out. A caller takes the first code from [`CodeSearch::next_code`], looks
/// it up, and tells the search what it found with
/// [`CodeSearch::after_check`], which says whether to use the code or which
/// one to look up next, until a code is free or the search is exhausted.
#[derive(Debug)]
pub struct CodeSearch {
    left: u32,
}

impl View for CodeSearch {
    type V = nat;

    /// The number of codes that the search will still propose.
    closed spec fn view(&self) -> nat {
        self.left as nat
    }
}

impl CodeSearch {
    /// A search that proposes up to `attempts` codes.
    pub fn new(attempts: u32) -> (r: CodeSearch)
        ensures
            r@ == attempts,
    {
        CodeSearch { left: attempts }
    }

    /// The number of codes that the search will still propose.
    pub fn attempts_left(&self) -> (r: u32)
        ensures
            r == self@,
    {
        self.left
    }

    /// Proposes the next code, or fails with `CodeSpaceExhausted` where the
    /// search has proposed as many as it was set to.
    pub fn next_code(&mut self) -> (r: Result<String, GameError>)
        ensures
            match r {
                Ok(code) => old(self)@ > 0 && final(self)@ == old(self)@ - 1 && is_code(code@),
                Err(e) => old(self)@ == 0 && final(self)@ == 0 && e == GameError::CodeSpaceExhausted,
            },
    {
        if self.left == 0 {
            return Err(GameError::CodeSpaceExhausted);
        }
        self.left = self.left - 1;
        Ok(generate_game_code())
    }

    /// Takes what the store said of a code that the search proposed. A code
    /// that is free is the one to use, and the search is as it was. A code
    /// that is in use is dropped for the next one, which counts against the
    /// codes that the search will still propose; where it will propose none,
    /// the search fails with `CodeSpaceExhausted`.
    pub fn after_check(&mut self, code: String, taken: bool) -> (r: Result<CodeStep, GameError>)
        ensures
            !taken ==> {
                &&& r == Ok::<CodeStep, GameError>(CodeStep::Use(code))
                &&& final(self)@ == old(self)@
            },
            taken && old(self)@ > 0 ==> {
                &&& r matches Ok(CodeStep::Try(next)) && is_code(next@)
                &&& final(self)@ == old(self)@ - 1
            },
            taken && old(self)@ == 0 ==> {
                &&& r == Err::<CodeStep, GameError>(GameError::CodeSpaceExhausted)
                &&& final(self)@ == 0
            },
    {
        if !taken {
            return Ok(CodeStep::Use(code));
        }
        match self.next_code() {
            Ok(next) => Ok(CodeStep::Try(next)),
            Err(e) => Err(e),
        }
    }
}

} // verus!
