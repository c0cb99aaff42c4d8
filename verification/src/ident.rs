//! Identifiers made up by chance.

use vstd::prelude::*;

verus! {

/// The number of characters of an identifier.
pub const IDENTIFIER_LENGTH: usize = 36;

/// Whether `c` is a digit or one of the letters `a` to `f`.
pub open spec fn is_lower_hex(c: char) -> bool {
    ('0' <= c && c <= '9') || ('a' <= c && c <= 'f')
}

/// Whether `s` has the form of an identifier: 32 digits to the base 16, in
/// small letters, in groups of 8, 4, 4, 4 and 12 with a hyphen between one
/// group and the next.
pub open spec fn is_identifier(s: Seq<char>) -> bool {
    &&& s.len() == IDENTIFIER_LENGTH
    &&& forall|i: int|
        0 <= i < s.len() ==> if i == 8 || i == 13 || i == 18 || i == 23 {
            #[trigger] s[i] == '-'
        } else {
            is_lower_hex(s[i])
        }
}

/// Makes up an identifier.
///
/// The identifier is `uuid::Uuid::new_v4()`, written out by `to_string`: the
/// hyphenated form in small letters. That is all this claims of it. That two
/// calls give two identifiers is as good as certain, and no part of this
/// contract. The bytes come from the system, and the call panics where the
/// system has none to give.
#[verifier::external_body]
pub(crate) fn fresh_identifier() -> (r: String)
    ensures
        is_identifier(r@),
{
    uuid::Uuid::new_v4().to_string()
}

} // verus!
