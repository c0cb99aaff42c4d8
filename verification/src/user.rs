//! Signing a user up.

use vstd::prelude::*;
use vstd::string::*;
use crate::ident::{fresh_identifier, is_identifier};

verus! {

/// Somebody asks for an account under a name.
#[derive(Debug)]
pub struct CreateUserRequest {
    pub username: String,
}

/// The account that was made: its identifier, and the token that shows
/// whose it is.
#[derive(Debug)]
pub struct CreateUserResponse {
    pub user_id: String,
    pub token: String,
}

/// The token of the user `user_id`: a fixed word before the identifier.
pub open spec fn token_of(user_id: Seq<char>) -> Seq<char> {
    "dummy_token_"@ + user_id
}

/// The token that shows a request to come from the user `user_id`.
pub fn generate_jwt_token(user_id: &str) -> (token: String)
    ensures
        token@ == token_of(user_id@),
{
    let mut token = String::from_str("dummy_token_");
    token.append(user_id);
    token
}

/// Signs a user up, unless the name they ask for is taken: the account gets
/// an identifier made up for it, and the token that goes with it.
///
/// Whether the name is taken is for the caller to find out, and to keep
/// true until the account is stored.
pub fn create_user(username_taken: bool) -> (r: Option<CreateUserResponse>)
    ensures
        r is None <==> username_taken,
        r matches Some(account) ==> is_identifier(account.user_id@) && account.token@ == token_of(
            account.user_id@,
        ),
{
    if username_taken {
        return None;
    }
    let user_id = fresh_identifier();
    let token = generate_jwt_token(user_id.as_str());
    Some(CreateUserResponse { user_id, token })
}

} // verus!
