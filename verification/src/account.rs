//! Live account values as providers return them, before they are
//! flattened into snapshot records. Money is held in whole cents.
//!
//! Assets and liabilities are told apart by type, not by a field: each
//! says how it counts towards net worth, and that sign rule lives in
//! their `net_worth_contribution` alone.

use vstd::prelude::*;

verus! {

/// One position within a holdings-bearing account. Its asset class is
/// not stored: it is read off `description` when needed
/// (`holdings::classify`).
#[derive(Debug, PartialEq, Eq)]
pub struct Holding {
    pub symbol: String,
    pub description: String,
    /// Value in cents.
    pub value: i64,
}

/// Whether an account was fetched successfully.
#[derive(Debug, PartialEq, Eq)]
pub enum AccountStatus {
    /// Fetched successfully.
    Success,
    Error { message: String },
}

/// What an account adds to net worth: its balance for an asset, minus
/// its balance for a liability, nothing when it has no balance.
pub open spec fn contribution(is_liability: bool, balance: Option<i64>) -> int {
    match balance {
        Some(b) => if is_liability {
            -b
        } else {
            b as int
        },
        None => 0,
    }
}

/// The common interface of assets and liabilities.
pub trait Account {
    spec fn key_view(&self) -> Seq<char>;

    spec fn institution_view(&self) -> Seq<char>;

    spec fn balance_view(&self) -> Option<i64>;

    spec fn status_view(&self) -> AccountStatus;

    spec fn is_liability(&self) -> bool;

    spec fn holdings_view(&self) -> Option<Seq<Holding>>;

    fn account_key(&self) -> (r: &str)
        ensures
            r@ == self.key_view(),
    ;

    fn institution(&self) -> (r: &str)
        ensures
            r@ == self.institution_view(),
    ;

    /// The balance in cents, if one was fetched.
    fn balance(&self) -> (r: Option<i64>)
        ensures
            r == self.balance_view(),
    ;

    fn status(&self) -> (r: &AccountStatus)
        ensures
            *r == self.status_view(),
    ;

    /// The signed amount (in cents) this account adds to net worth.
    fn net_worth_contribution(&self) -> (r: i128)
        ensures
            r == contribution(self.is_liability(), self.balance_view()),
    ;

    /// The account's positions, if it has any.
    fn holdings(&self) -> (r: Option<&[Holding]>)
        ensures
            r matches Some(h) ==> self.holdings_view() == Some(h@),
            r is None ==> self.holdings_view() is None,
    ;
}

/// An account that adds to net worth.
#[derive(Debug)]
pub struct Asset {
    pub account_key: String,
    pub institution: String,
    pub account_type: String,
    /// Balance in cents.
    pub balance: Option<i64>,
    pub status: AccountStatus,
    pub holdings: Option<Vec<Holding>>,
}

/// An account that subtracts from net worth.
#[derive(Debug)]
pub struct Liability {
    pub account_key: String,
    pub institution: String,
    pub account_type: String,
    /// Balance in cents.
    pub balance: Option<i64>,
    pub status: AccountStatus,
}

impl Account for Asset {
    open spec fn key_view(&self) -> Seq<char> {
        self.account_key@
    }

    open spec fn institution_view(&self) -> Seq<char> {
        self.institution@
    }

    open spec fn balance_view(&self) -> Option<i64> {
        self.balance
    }

    open spec fn status_view(&self) -> AccountStatus {
        self.status
    }

    open spec fn is_liability(&self) -> bool {
        false
    }

    open spec fn holdings_view(&self) -> Option<Seq<Holding>> {
        match self.holdings {
            Some(h) => Some(h@),
            None => None,
        }
    }

    fn account_key(&self) -> (r: &str) {
        self.account_key.as_str()
    }

    fn institution(&self) -> (r: &str) {
        self.institution.as_str()
    }

    fn balance(&self) -> (r: Option<i64>) {
        self.balance
    }

    fn status(&self) -> (r: &AccountStatus) {
        &self.status
    }

    fn net_worth_contribution(&self) -> (r: i128) {
        match self.balance {
            Some(b) => b as i128,
            None => 0,
        }
    }

    fn holdings(&self) -> (r: Option<&[Holding]>) {
        match &self.holdings {
            Some(h) => Some(h.as_slice()),
            None => None,
        }
    }
}

impl Account for Liability {
    open spec fn key_view(&self) -> Seq<char> {
        self.account_key@
    }

    open spec fn institution_view(&self) -> Seq<char> {
        self.institution@
    }

    open spec fn balance_view(&self) -> Option<i64> {
        self.balance
    }

    open spec fn status_view(&self) -> AccountStatus {
        self.status
    }

    open spec fn is_liability(&self) -> bool {
        true
    }

    open spec fn holdings_view(&self) -> Option<Seq<Holding>> {
        None
    }

    fn account_key(&self) -> (r: &str) {
        self.account_key.as_str()
    }

    fn institution(&self) -> (r: &str) {
        self.institution.as_str()
    }

    fn balance(&self) -> (r: Option<i64>) {
        self.balance
    }

    fn status(&self) -> (r: &AccountStatus) {
        &self.status
    }

    fn net_worth_contribution(&self) -> (r: i128) {
        match self.balance {
            Some(b) => -(b as i128),
            None => 0,
        }
    }

    fn holdings(&self) -> (r: Option<&[Holding]>) {
        None
    }
}

/// An asset and a liability with the same balance cancel out in net
/// worth, and an account without a balance adds nothing.
pub proof fn lemma_contributions_cancel(balance: Option<i64>)
    ensures
        contribution(false, balance) + contribution(true, balance) == 0,
        balance is None ==> contribution(false, balance) == 0 && contribution(true, balance) == 0,
{
}

} // verus!
