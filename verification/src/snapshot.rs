//! The stored shape of a snapshot: one record per account, with money
//! held in whole cents.

use vstd::prelude::*;

use crate::account::Holding;

verus! {

/// Whether an account adds to or subtracts from net worth.
#[derive(Debug, Clone, Copy, PartialEq, Eq, Structural)]
pub enum Category {
    Asset,
    Liability,
    /// A category written by a newer version that this one does not know.
    Unknown,
}

/// Whether an account's data was fetched in this run.
#[derive(Debug, Clone, Copy, PartialEq, Eq, Structural)]
pub enum Status {
    /// The account's data was fetched (stored as `ok`).
    Success,
    Error,
    /// A status written by a newer version that this one does not know.
    Unknown,
}

/// One stored snapshot (every account of one run).
#[derive(Debug)]
pub struct Snapshot {
    pub schema_version: u32,
    pub snapshot_id: String,
    pub created_at: String,
    pub accounts: Vec<AccountRecord>,
}

/// One account's entry in a stored snapshot. It carries no account
/// number or holder name: only a salted hash of the account number
/// (`account_key`). Balances are in cents.
#[derive(Debug)]
pub struct AccountRecord {
    pub account_key: String,
    pub source_id: String,
    pub institution: String,
    pub category: Category,
    pub account_type: String,
    pub balance: Option<i64>,
    pub currency: String,
    pub status: Status,
    pub error_message: Option<String>,
    pub holdings: Option<Vec<Holding>>,
}

impl AccountRecord {
    pub fn account_key(&self) -> (r: &str)
        ensures
            r@ == self.account_key@,
    {
        self.account_key.as_str()
    }

    pub fn source_id(&self) -> (r: &str)
        ensures
            r@ == self.source_id@,
    {
        self.source_id.as_str()
    }

    pub fn institution(&self) -> (r: &str)
        ensures
            r@ == self.institution@,
    {
        self.institution.as_str()
    }

    pub fn category(&self) -> (r: Category)
        ensures
            r == self.category,
    {
        self.category
    }

    pub fn account_type(&self) -> (r: &str)
        ensures
            r@ == self.account_type@,
    {
        self.account_type.as_str()
    }

    /// The balance in cents, if this run fetched one.
    pub fn balance(&self) -> (r: Option<i64>)
        ensures
            r == self.balance,
    {
        self.balance
    }

    pub fn currency(&self) -> (r: &str)
        ensures
            r@ == self.currency@,
    {
        self.currency.as_str()
    }

    pub fn status(&self) -> (r: Status)
        ensures
            r == self.status,
    {
        self.status
    }

    pub fn error_message(&self) -> (r: Option<&str>)
        ensures
            r matches Some(m) ==> self.error_message matches Some(e) && m@ == e@,
            r is None <==> self.error_message is None,
    {
        match &self.error_message {
            Some(m) => Some(m.as_str()),
            None => None,
        }
    }

    pub fn holdings(&self) -> (r: Option<&[Holding]>)
        ensures
            r matches Some(h) ==> self.holdings matches Some(v) && h@ == v@,
            r is None <==> self.holdings is None,
    {
        match &self.holdings {
            Some(h) => Some(h.as_slice()),
            None => None,
        }
    }
}

} // verus!
