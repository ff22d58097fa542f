//! Turning one source's fetch outcome into stored records. A fetched
//! account becomes a record by plain field mapping (the account already
//! carries a hashed key, never the raw number); a source whose fetch
//! failed becomes one error record instead, so that one failing source
//! never spoils the run. Records carry the source's category and type,
//! and every balance is in US dollars (as cents).

use vstd::prelude::*;

use crate::account::{Account, AccountStatus, Holding};
use crate::pii::{account_key_of, hash_account_number, hex_encode, hex_lower, opt_str_view};
use crate::provider::{ProviderError, SourceConfig};
use crate::retry::RetryableError;
use crate::snapshot::{AccountRecord, Status};
use crate::sources::random_bytes_16;
use crate::statement::parser::{holdings_view, HoldingView};
use crate::text::{chars_of, join3, string_of};

verus! {

/// Every record's currency.
pub const CURRENCY: &'static str = "USD";

/// The message recorded for a Plaid source whose access token could not
/// be read from the keychain: it tells the user to reconnect the source.
pub const PLAID_RECONNECT_MESSAGE: &'static str = "Plaid access token could not be read from Keychain \u{2014} reconnect this source from the Sources screen";

/// A copy of `h`.
pub fn copy_holding(h: &Holding) -> (r: Holding)
    ensures
        r.view() == h.view(),
{
    Holding { symbol: h.symbol.clone(), description: h.description.clone(), value: h.value }
}

/// A copy of the holdings `hs`.
pub fn copy_holdings(hs: &[Holding]) -> (r: Vec<Holding>)
    ensures
        holdings_view(r@) == holdings_view(hs@),
{
    let mut out: Vec<Holding> = Vec::new();
    let mut i: usize = 0;
    while i < hs.len()
        invariant
            i <= hs.len(),
            holdings_view(out@) == holdings_view(hs@.take(i as int)),
        decreases hs.len() - i,
    {
        let ghost before = out@;
        let h = copy_holding(&hs[i]);
        let ghost hv = h.view();
        out.push(h);
        assert(hs@.take(i + 1) =~= hs@.take(i as int).push(hs@[i as int]));
        assert(holdings_view(out@) =~= holdings_view(before).push(hv));
        assert(holdings_view(hs@.take(i + 1)) =~= holdings_view(hs@.take(i as int)).push(
            hs@[i as int].view(),
        ));
        i = i + 1;
    }
    assert(hs@.take(hs.len() as int) =~= hs@);
    out
}

/// The stored status of an account status.
pub open spec fn status_of(s: AccountStatus) -> Status {
    match s {
        AccountStatus::Success => Status::Success,
        AccountStatus::Error { .. } => Status::Error,
    }
}

/// The error message an account status carries.
pub open spec fn message_of(s: AccountStatus) -> Option<Seq<char>> {
    match s {
        AccountStatus::Success => None,
        AccountStatus::Error { message } => Some(message@),
    }
}

pub open spec fn opt_holdings_view(o: Option<Vec<Holding>>) -> Option<Seq<HoldingView>> {
    match o {
        Some(v) => Some(holdings_view(v@)),
        None => None,
    }
}

/// `r` is the record of the fetched account `account` of `source`: the
/// account's key, institution, balance, status and holdings, the
/// source's id, category and type, in dollars of the one currency.
pub open spec fn is_record_of<A: Account + ?Sized>(r: AccountRecord, source: SourceConfig, account: &A) -> bool {
    &&& r.account_key@ == account.key_view()
    &&& r.source_id@ == source.id@
    &&& r.institution@ == account.institution_view()
    &&& r.category == source.category
    &&& r.account_type@ == source.account_type@
    &&& r.balance == account.balance_view()
    &&& r.currency@ == CURRENCY@
    &&& r.status == status_of(account.status_view())
    &&& opt_str_view(r.error_message) == message_of(account.status_view())
    &&& opt_holdings_view(r.holdings) == match account.holdings_view() {
        Some(h) => Some(holdings_view(h)),
        None => None,
    }
}

/// `r` is the record of a failed fetch of `source` with `message`.
pub open spec fn is_error_record(r: AccountRecord, source: SourceConfig, message: Seq<char>) -> bool {
    &&& r.account_key@ == account_key_of(source.id@, source.account_salt@)
    &&& r.source_id@ == source.id@
    &&& r.institution@ == source.institution@
    &&& r.category == source.category
    &&& r.account_type@ == source.account_type@
    &&& r.balance is None
    &&& r.currency@ == CURRENCY@
    &&& r.status == Status::Error
    &&& opt_str_view(r.error_message) == Some(message)
    &&& r.holdings is None
}

/// The record of a fetched account of `source`.
pub fn account_to_record<A: Account + ?Sized>(source: &SourceConfig, account: &A) -> (r: AccountRecord)
    ensures
        is_record_of(r, *source, account),
{
    let (status, error_message) = match account.status() {
        AccountStatus::Success => (Status::Success, None),
        AccountStatus::Error { message } => (Status::Error, Some(message.clone())),
    };
    let holdings = match account.holdings() {
        Some(h) => Some(copy_holdings(h)),
        None => None,
    };
    AccountRecord {
        account_key: account.account_key().to_string(),
        source_id: source.id.clone(),
        institution: account.institution().to_string(),
        category: source.category,
        account_type: source.account_type.clone(),
        balance: account.balance(),
        currency: CURRENCY.to_string(),
        status,
        error_message,
        holdings,
    }
}

/// The record of a source whose fetch failed with `message`. No account
/// number was learned, so its key hashes the source's id instead.
pub fn error_record(source: &SourceConfig, message: String) -> (r: AccountRecord)
    ensures
        is_error_record(r, *source, message@),
{
    AccountRecord {
        account_key: hash_account_number(source.id.as_str(), source.account_salt.as_str()),
        source_id: source.id.clone(),
        institution: source.institution.clone(),
        category: source.category,
        account_type: source.account_type.clone(),
        balance: None,
        currency: CURRENCY.to_string(),
        status: Status::Error,
        error_message: Some(message),
        holdings: None,
    }
}

/// What a fetch of one source came to.
pub enum FetchOutcome<'a> {
    /// No provider is registered under the source's provider name.
    UnknownProvider,
    /// The fetch, retries included, ended with this result.
    Finished(Result<Vec<&'a dyn Account>, RetryableError<ProviderError>>),
}

/// The message recorded for a failed fetch.
pub open spec fn failure_message<'a>(source: SourceConfig, outcome: FetchOutcome<'a>) -> Seq<char> {
    match outcome {
        FetchOutcome::UnknownProvider => "unknown provider: '"@ + source.provider@ + "'"@,
        FetchOutcome::Finished(Err(RetryableError::Timeout)) => "operation timed out"@,
        FetchOutcome::Finished(Err(RetryableError::Operation(e))) => match e {
            ProviderError::Auth(m) => "authentication failed: "@ + m@,
            ProviderError::Transient(m) => "transient error: "@ + m@,
            ProviderError::Other(m) => "provider error: "@ + m@,
        },
        FetchOutcome::Finished(Ok(_)) => Seq::empty(),
    }
}

/// The records one source's fetch gives: one per fetched account, or a
/// single error record when the fetch failed.
pub fn fetch_records<'a>(source: &SourceConfig, outcome: FetchOutcome<'a>) -> (r: Vec<AccountRecord>)
    ensures
        outcome matches FetchOutcome::Finished(Ok(accounts)) ==> r@.len() == accounts@.len() && (
        forall|i: int| 0 <= i < r@.len() ==> is_record_of(#[trigger] r@[i], *source, accounts@[i])),
        !(outcome matches FetchOutcome::Finished(Ok(_))) ==> r@.len() == 1 && is_error_record(
            r@[0],
            *source,
            failure_message(*source, outcome),
        ),
{
    match outcome {
        FetchOutcome::UnknownProvider => {
            let m = join3("unknown provider: '", source.provider.as_str(), "'");
            let rec = error_record(source, m);
            let mut v: Vec<AccountRecord> = Vec::new();
            v.push(rec);
            v
        },
        FetchOutcome::Finished(Err(RetryableError::Timeout)) => {
            let rec = error_record(source, "operation timed out".to_string());
            let mut v: Vec<AccountRecord> = Vec::new();
            v.push(rec);
            v
        },
        FetchOutcome::Finished(Err(RetryableError::Operation(e))) => {
            let rec = error_record(source, e.message());
            let mut v: Vec<AccountRecord> = Vec::new();
            v.push(rec);
            v
        },
        FetchOutcome::Finished(Ok(accounts)) => {
            let mut v: Vec<AccountRecord> = Vec::new();
            let mut i: usize = 0;
            while i < accounts.len()
                invariant
                    i <= accounts.len(),
                    v@.len() == i,
                    forall|k: int| 0 <= k < i ==> is_record_of(#[trigger] v@[k], *source, accounts@[k]),
                decreases accounts.len() - i,
            {
                let ghost old_v = v@;
                let rec = account_to_record(source, accounts[i]);
                v.push(rec);
                assert forall|k: int| 0 <= k < i + 1 implies is_record_of(#[trigger] v@[k], *source, accounts@[k]) by {
                    if k < i {
                        assert(v@[k] == old_v[k]);
                    }
                }
                i = i + 1;
            }
            v
        },
    }
}

/// A new snapshot id: sixteen random bytes as 32 hexadecimal digits.
pub fn generate_snapshot_id() -> (r: String)
    ensures
        exists|b: Seq<u8>| b.len() == 16 && r@ == hex_lower(b),
{
    let bytes = random_bytes_16();
    let hex = hex_encode(&bytes);
    string_of(&hex)
}

} // verus!
