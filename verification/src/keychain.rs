//! Names of the keychain entries that hold Plaid credentials. All of
//! this app's entries live under one service name; a source's Plaid
//! access token is stored under an account name made from the source's
//! id.

use vstd::prelude::*;

use crate::text::{chars_of, concat, string_of};

verus! {

/// The keychain service all of this app's entries live under.
pub const SERVICE_NAME: &'static str = "com.obol.plaid";

/// The keychain account name of a source's Plaid access token.
pub fn access_token_account(source_id: &str) -> (r: String)
    ensures
        r@ == "plaid_access_token:"@ + source_id@,
{
    string_of(&concat(&chars_of("plaid_access_token:"), &chars_of(source_id)))
}

} // verus!
