//! Sources and what can go wrong fetching them. A source is one
//! configured account group: which provider reaches it, whether it is an
//! asset or a liability, and the provider's own settings.

use vstd::prelude::*;

use crate::account::{Asset, AccountStatus, Holding, Liability};
use crate::pii::{account_key_of, hash_account_number};
use crate::snapshot::Category;
use crate::str_map::StrMap;
use crate::text::{chars_of, join3};

verus! {

/// A provider's own settings for one source, by key. A value is a
/// string, or `None` for a key stored without a string value (such as
/// a JSON `null`).
pub type ProviderConfig = StrMap<Option<String>>;

/// The string stored under `key`, if there is one.
pub open spec fn config_str(c: Map<Seq<char>, Option<String>>, key: Seq<char>) -> Option<Seq<char>> {
    if c.contains_key(key) {
        match c[key] {
            Some(s) => Some(s@),
            None => None,
        }
    } else {
        None
    }
}

/// The string value stored under `key` in `config`, if any.
pub fn config_get_str(config: &ProviderConfig, key: &str) -> (r: Option<String>)
    ensures
        r matches Some(s) ==> config_str(config@, key@) == Some(s@),
        r is None ==> config_str(config@, key@) is None,
{
    match config.get(key) {
        Some(Some(s)) => Some(s.clone()),
        _ => None,
    }
}

/// One configured account group.
#[derive(Clone, Debug)]
pub struct SourceConfig {
    pub id: String,
    /// The provider this source is fetched through (`"plaid"`,
    /// `"statement_import"`, ...).
    pub provider: String,
    pub category: Category,
    pub account_type: String,
    pub institution: String,
    /// The salt of this source's account keys, made once when the source
    /// is added.
    pub account_salt: String,
    pub provider_config: ProviderConfig,
}

/// Why fetching a source failed.
#[derive(Debug)]
pub enum ProviderError {
    /// Bad credentials or an expired token: never retried.
    Auth(String),
    /// A timeout, a server error, a reset connection: retried.
    Transient(String),
    /// Anything else: not retried.
    Other(String),
}

impl ProviderError {
    /// Whether the failure is worth retrying.
    pub fn is_transient(&self) -> (r: bool)
        ensures
            r == (self is Transient),
    {
        match self {
            ProviderError::Transient(_) => true,
            _ => false,
        }
    }

    /// The error's text, as shown to the user.
    pub fn message(&self) -> (r: String)
        ensures
            r@ == match self {
                ProviderError::Auth(m) => "authentication failed: "@ + m@,
                ProviderError::Transient(m) => "transient error: "@ + m@,
                ProviderError::Other(m) => "provider error: "@ + m@,
            },
    {
        let (prefix, m) = match self {
            ProviderError::Auth(m) => (chars_of("authentication failed: "), m),
            ProviderError::Transient(m) => (chars_of("transient error: "), m),
            ProviderError::Other(m) => (chars_of("provider error: "), m),
        };
        let mut out = prefix;
        let mut rest = chars_of(m.as_str());
        out.append(&mut rest);
        crate::text::string_of(&out)
    }
}

/// A live account a provider built, of either kind.
#[derive(Debug)]
pub enum FetchedAccount {
    Asset(Asset),
    Liability(Liability),
}

/// The message for a source whose category is neither asset nor
/// liability.
pub open spec fn unknown_category_message(id: Seq<char>) -> Seq<char> {
    "source "@ + id
        + " has an unrecognized category \u{2014} can't tell if this is an asset or a liability"@
}

/// `r` is what fetching the account of `source` with raw identifier
/// `id`, balance `balance` and holdings `holdings` gives: an asset or a
/// liability by the source's category, keyed by the identifier hashed
/// with the source's salt; an error for a source of unknown category.
pub open spec fn is_account_for(
    r: Result<FetchedAccount, ProviderError>,
    source: SourceConfig,
    id: Seq<char>,
    balance: Option<i64>,
    holdings: Option<Vec<Holding>>,
) -> bool {
    match r {
        Err(e) => source.category == Category::Unknown && (e matches ProviderError::Other(m)
            && m@ == unknown_category_message(source.id@)),
        Ok(FetchedAccount::Asset(a)) => source.category == Category::Asset && a.account_key@
            == account_key_of(id, source.account_salt@) && a.institution@ == source.institution@
            && a.account_type@ == source.account_type@ && a.balance == balance && a.status is Success
            && a.holdings == holdings,
        Ok(FetchedAccount::Liability(l)) => source.category == Category::Liability && l.account_key@
            == account_key_of(id, source.account_salt@) && l.institution@ == source.institution@
            && l.account_type@ == source.account_type@ && l.balance == balance && l.status is Success,
    }
}

/// The account of `source` with raw identifier `account_identifier`: its
/// key is the identifier hashed with the source's salt, its kind the
/// source's category. A source of unknown category has no account.
pub fn account_for_source(
    source: &SourceConfig,
    account_identifier: &str,
    balance: Option<i64>,
    holdings: Option<Vec<Holding>>,
) -> (r: Result<FetchedAccount, ProviderError>)
    ensures
        is_account_for(r, *source, account_identifier@, balance, holdings),
{
    match source.category {
        Category::Asset => Ok(
            FetchedAccount::Asset(
                Asset {
                    account_key: hash_account_number(account_identifier, source.account_salt.as_str()),
                    institution: source.institution.clone(),
                    account_type: source.account_type.clone(),
                    balance,
                    status: AccountStatus::Success,
                    holdings,
                },
            ),
        ),
        Category::Liability => Ok(
            FetchedAccount::Liability(
                Liability {
                    account_key: hash_account_number(account_identifier, source.account_salt.as_str()),
                    institution: source.institution.clone(),
                    account_type: source.account_type.clone(),
                    balance,
                    status: AccountStatus::Success,
                },
            ),
        ),
        Category::Unknown => Err(
            ProviderError::Other(
                join3(
                    "source ",
                    source.id.as_str(),
                    " has an unrecognized category \u{2014} can't tell if this is an asset or a liability",
                ),
            ),
        ),
    }
}

} // verus!
