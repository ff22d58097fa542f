//! Plaid: where requests go, how Plaid's failures are classified for
//! retrying, and how one source's account is picked out of a balance
//! response. The HTTP exchange itself happens around these functions.

use vstd::prelude::*;

use crate::provider::{
    account_for_source, config_get_str, config_str, is_account_for, FetchedAccount, ProviderError,
    SourceConfig,
};
use crate::text::{chars_of, concat, join3, str_eq, string_of};

verus! {

/// Which Plaid deployment requests go to.
#[derive(Debug)]
pub enum PlaidEnvironment {
    Sandbox,
    Production,
    /// Any other base URL (a test server).
    Custom(String),
}

pub open spec fn base_url_of(e: PlaidEnvironment) -> Seq<char> {
    match e {
        PlaidEnvironment::Sandbox => "https://sandbox.plaid.com"@,
        PlaidEnvironment::Production => "https://production.plaid.com"@,
        PlaidEnvironment::Custom(u) => u@,
    }
}

impl PlaidEnvironment {
    /// The base URL of the deployment.
    pub fn base_url(&self) -> (r: &str)
        ensures
            r@ == base_url_of(*self),
    {
        match self {
            PlaidEnvironment::Sandbox => "https://sandbox.plaid.com",
            PlaidEnvironment::Production => "https://production.plaid.com",
            PlaidEnvironment::Custom(u) => u.as_str(),
        }
    }

    /// The URL of the endpoint at `path` (such as `/item/remove`).
    pub fn endpoint_url(&self, path: &str) -> (r: String)
        ensures
            r@ == base_url_of(*self) + path@,
    {
        string_of(&concat(&chars_of(self.base_url()), &chars_of(path)))
    }
}

/// Why a Plaid request failed.
#[derive(Debug)]
pub enum PlaidError {
    /// The request did not get through; the transport's message.
    Transport(String),
    /// Plaid answered with an error.
    Api { error_type: String, error_code: String, error_message: String },
    /// Plaid answered with a failure status and a body that is not one of
    /// its error objects.
    UnexpectedErrorResponse { status: u16, raw_body: String },
    /// A response could not be read; the parser's message.
    Parse(String),
}

/// Plaid error types that retrying cannot fix (bad input, a broken
/// Item): treated as authentication failures.
pub open spec fn auth_error_type(t: Seq<char>) -> bool {
    t == "INVALID_INPUT"@ || t == "ITEM_ERROR"@
}

/// Plaid error types worth retrying.
pub open spec fn transient_error_type(t: Seq<char>) -> bool {
    t == "RATE_LIMIT_EXCEEDED"@ || t == "API_ERROR"@ || t == "INSTITUTION_ERROR"@
}

/// The detail text of a Plaid API error.
pub open spec fn api_detail(t: Seq<char>, c: Seq<char>, m: Seq<char>) -> Seq<char> {
    "["@ + t + "/"@ + c + "] "@ + m
}

/// The provider error a Plaid failure becomes: a transport failure is
/// transient; an API error is an authentication failure, transient or
/// other by its type; anything unrecognized is "other" (not retried,
/// since retrying what is not understood could make matters worse).
pub open spec fn mapped_error(e: PlaidError) -> (bool, bool, Seq<char>) {
    match e {
        PlaidError::Transport(m) => (false, true, m@),
        PlaidError::Api { error_type, error_code, error_message } => (
            auth_error_type(error_type@),
            !auth_error_type(error_type@) && transient_error_type(error_type@),
            api_detail(error_type@, error_code@, error_message@),
        ),
        PlaidError::UnexpectedErrorResponse { status, raw_body } => (
            false,
            false,
            "unexpected Plaid response (HTTP "@ + crate::amount::nat_digits(status as nat) + "): "@
                + raw_body@,
        ),
        PlaidError::Parse(m) => (false, false, "failed to parse Plaid response: "@ + m@),
    }
}

/// The provider error a Plaid failure becomes (see `mapped_error`).
pub fn map_plaid_error(err: PlaidError) -> (r: ProviderError)
    ensures
        ({
            let (auth, transient, msg) = mapped_error(err);
            match r {
                ProviderError::Auth(m) => auth && m@ == msg,
                ProviderError::Transient(m) => transient && m@ == msg,
                ProviderError::Other(m) => !auth && !transient && m@ == msg,
            }
        }),
{
    match err {
        PlaidError::Transport(m) => ProviderError::Transient(m),
        PlaidError::Api { error_type, error_code, error_message } => {
            let t = error_type.as_str();
            let is_auth = str_eq(t, "INVALID_INPUT") || str_eq(t, "ITEM_ERROR");
            let is_transient = str_eq(t, "RATE_LIMIT_EXCEEDED") || str_eq(t, "API_ERROR") || str_eq(
                t,
                "INSTITUTION_ERROR",
            );
            let head = join3("[", t, "/");
            let detail = join3(head.as_str(), error_code.as_str(), "] ");
            let detail = string_of(&concat(&chars_of(detail.as_str()), &chars_of(error_message.as_str())));
            if is_auth {
                ProviderError::Auth(detail)
            } else if is_transient {
                ProviderError::Transient(detail)
            } else {
                ProviderError::Other(detail)
            }
        },
        PlaidError::UnexpectedErrorResponse { status, raw_body } => {
            let mut out = chars_of("unexpected Plaid response (HTTP ");
            crate::amount::push_digits(status as u64, &mut out);
            let tail = concat(&chars_of("): "), &chars_of(raw_body.as_str()));
            let all = concat(&out, &tail);
            ProviderError::Other(string_of(&all))
        },
        PlaidError::Parse(m) => ProviderError::Other(
            string_of(&concat(&chars_of("failed to parse Plaid response: "), &chars_of(m.as_str()))),
        ),
    }
}

/// One account of a Plaid balance response, as this app reads it: its
/// id and its current balance in cents.
pub struct PlaidAccountBalance {
    pub account_id: String,
    pub current: Option<i64>,
}

/// The access token a Plaid source fetches with; without one the fetch
/// fails as an authentication failure.
pub fn plaid_access_token(credentials: Option<&str>) -> (r: Result<&str, ProviderError>)
    ensures
        credentials matches Some(t) ==> r matches Ok(s) && s@ == t@,
        credentials is None ==> (r matches Err(ProviderError::Auth(m)) && m@
            == "Plaid source has no access token"@),
{
    match credentials {
        Some(t) => Ok(t),
        None => Err(ProviderError::Auth("Plaid source has no access token".to_string())),
    }
}

/// The Plaid account id a source tracks.
pub fn plaid_account_id(source: &SourceConfig) -> (r: Result<String, ProviderError>)
    ensures
        config_str(source.provider_config@, "plaid_account_id"@) matches Some(id) ==> (r matches Ok(
            s,
        ) && s@ == id),
        config_str(source.provider_config@, "plaid_account_id"@) is None ==> (r matches Err(
            ProviderError::Other(m),
        ) && m@ == "source "@ + source.id@ + " is missing provider_config.plaid_account_id"@),
{
    match config_get_str(&source.provider_config, "plaid_account_id") {
        Some(id) => Ok(id),
        None => Err(
            ProviderError::Other(
                join3("source ", source.id.as_str(), " is missing provider_config.plaid_account_id"),
            ),
        ),
    }
}

/// The first account of the response with the given id.
pub open spec fn find_plaid_account(accounts: Seq<PlaidAccountBalance>, id: Seq<char>) -> Option<int> {
    if exists|i: int| 0 <= i < accounts.len() && accounts[i].account_id@ == id {
        Some(
            choose|i: int|
                0 <= i < accounts.len() && accounts[i].account_id@ == id && forall|j: int|
                    0 <= j < i ==> accounts[j].account_id@ != id,
        )
    } else {
        None
    }
}

/// The account a Plaid source stands for, out of a balance response:
/// the first account with the source's Plaid account id, keyed by that
/// id hashed with the source's salt, with its current balance. An error
/// when no account has that id.
pub fn plaid_account_from_balances(
    source: &SourceConfig,
    accounts: &[PlaidAccountBalance],
    plaid_account_id: &str,
) -> (r: Result<FetchedAccount, ProviderError>)
    ensures
        find_plaid_account(accounts@, plaid_account_id@) is None ==> (r matches Err(
            ProviderError::Other(m),
        ) && m@ == "account "@ + plaid_account_id@ + " not found in Plaid's response for source "@
            + source.id@
            + " \u{2014} the Item may have changed shape since this source was added"@),
        find_plaid_account(accounts@, plaid_account_id@) matches Some(i) ==> is_account_for(
            r,
            *source,
            plaid_account_id@,
            accounts@[i].current,
            None,
        ),
{
    let mut i: usize = 0;
    while i < accounts.len()
        invariant
            i <= accounts.len(),
            forall|j: int| 0 <= j < i ==> accounts@[j].account_id@ != plaid_account_id@,
        decreases accounts.len() - i,
    {
        if str_eq(accounts[i].account_id.as_str(), plaid_account_id) {
            return account_for_source(
                source,
                accounts[i].account_id.as_str(),
                accounts[i].current,
                None,
            );
        }
        i = i + 1;
    }
    let head = join3("account ", plaid_account_id, " not found in Plaid's response for source ");
    Err(
        ProviderError::Other(
            join3(
                head.as_str(),
                source.id.as_str(),
                " \u{2014} the Item may have changed shape since this source was added",
            ),
        ),
    )
}

} // verus!
