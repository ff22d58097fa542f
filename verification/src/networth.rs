//! Net worth over one run's accounts: the sum of what each successfully
//! fetched account contributes (assets add, liabilities subtract). When
//! no account was fetched successfully the figure is unavailable, never
//! zero, so that it cannot be mistaken for a real zero net worth.

use vstd::prelude::*;

use crate::account::{contribution, Account, AccountStatus, Asset, Liability};
use crate::snapshot::{AccountRecord, Category, Status};

verus! {

/// Net worth for one run, in cents.
#[derive(Debug, Clone, Copy, PartialEq, Eq, Structural)]
pub enum NetWorth {
    /// At least one account was fetched: the sum of the contributions of
    /// those that were.
    Computed(i128),
    /// No account was fetched successfully (or there was none).
    Unavailable { total_sources: usize },
}

/// The number of successfully fetched accounts in `a`.
pub open spec fn ok_count(a: Seq<&dyn Account>) -> nat
    decreases a.len(),
{
    if a.len() == 0 {
        0
    } else {
        ok_count(a.drop_last()) + if a.last().status_view() is Success {
            1nat
        } else {
            0nat
        }
    }
}

/// The summed contributions of the successfully fetched accounts in `a`.
pub open spec fn ok_sum(a: Seq<&dyn Account>) -> int
    decreases a.len(),
{
    if a.len() == 0 {
        0
    } else {
        ok_sum(a.drop_last()) + if a.last().status_view() is Success {
            contribution(a.last().is_liability(), a.last().balance_view())
        } else {
            0
        }
    }
}

/// The net worth of the accounts `a`.
pub open spec fn net_worth_of(a: Seq<&dyn Account>) -> NetWorth {
    if ok_count(a) == 0 {
        NetWorth::Unavailable { total_sources: a.len() as usize }
    } else {
        NetWorth::Computed(ok_sum(a) as i128)
    }
}

/// Net worth over a run's accounts: only successfully fetched accounts
/// count, and with none of them the figure is unavailable.
pub fn calculate_net_worth(accounts: Vec<&dyn Account>) -> (r: NetWorth)
    ensures
        r == net_worth_of(accounts@),
        r matches NetWorth::Computed(v) ==> v == ok_sum(accounts@),
{
    let ghost a = accounts@;
    let ghost bound: int = 0x8000_0000_0000_0000;
    let mut sum: i128 = 0;
    let mut count: usize = 0;
    let mut i: usize = 0;
    while i < accounts.len()
        invariant
            i <= accounts.len(),
            a == accounts@,
            bound == 0x8000_0000_0000_0000,
            count <= i,
            count == ok_count(a.take(i as int)),
            sum == ok_sum(a.take(i as int)),
            -(i as int) * bound <= sum <= (i as int) * bound,
        decreases accounts.len() - i,
    {
        assert(a.take(i + 1).drop_last() =~= a.take(i as int));
        assert(a.take(i + 1).last() == a[i as int]);
        let acct = accounts[i];
        let ok = match acct.status() {
            AccountStatus::Success => true,
            AccountStatus::Error { .. } => false,
        };
        if ok {
            let c = acct.net_worth_contribution();
            sum = sum + c;
            count = count + 1;
        }
        i = i + 1;
    }
    assert(a.take(accounts.len() as int) =~= a);
    if count == 0 {
        NetWorth::Unavailable { total_sources: accounts.len() }
    } else {
        NetWorth::Computed(sum)
    }
}

/// Whether a stored record counts as a liability: only a liability does
/// (an unknown category counts on the asset side).
pub open spec fn record_is_liability(r: AccountRecord) -> bool {
    r.category == Category::Liability
}

/// What a stored record adds to net worth, worked out by the live
/// account type it stands for, so that records and live accounts share
/// one sign rule.
fn record_contribution(record: &AccountRecord) -> (r: i128)
    ensures
        r == contribution(record_is_liability(*record), record.balance),
{
    match record.category {
        Category::Liability => {
            let l = Liability {
                account_key: String::new(),
                institution: String::new(),
                account_type: String::new(),
                balance: record.balance,
                status: AccountStatus::Success,
            };
            l.net_worth_contribution()
        },
        Category::Asset | Category::Unknown => {
            let a = Asset {
                account_key: String::new(),
                institution: String::new(),
                account_type: String::new(),
                balance: record.balance,
                status: AccountStatus::Success,
                holdings: None,
            };
            a.net_worth_contribution()
        },
    }
}

/// The number of successfully fetched records in `r`.
pub open spec fn record_ok_count(r: Seq<AccountRecord>) -> nat
    decreases r.len(),
{
    if r.len() == 0 {
        0
    } else {
        record_ok_count(r.drop_last()) + if r.last().status == Status::Success {
            1nat
        } else {
            0nat
        }
    }
}

/// The summed contributions of the successfully fetched records in `r`.
pub open spec fn record_ok_sum(r: Seq<AccountRecord>) -> int
    decreases r.len(),
{
    if r.len() == 0 {
        0
    } else {
        record_ok_sum(r.drop_last()) + if r.last().status == Status::Success {
            contribution(record_is_liability(r.last()), r.last().balance)
        } else {
            0
        }
    }
}

/// The net worth of stored records `r`.
pub open spec fn records_net_worth(r: Seq<AccountRecord>) -> NetWorth {
    if record_ok_count(r) == 0 {
        NetWorth::Unavailable { total_sources: r.len() as usize }
    } else {
        NetWorth::Computed(record_ok_sum(r) as i128)
    }
}

/// Net worth over a stored snapshot's records, by the same rule as
/// `calculate_net_worth`.
pub fn calculate_net_worth_from_records(records: &[AccountRecord]) -> (r: NetWorth)
    ensures
        r == records_net_worth(records@),
{
    let ghost rs = records@;
    let ghost bound: int = 0x8000_0000_0000_0000;
    let mut sum: i128 = 0;
    let mut count: usize = 0;
    let mut i: usize = 0;
    while i < records.len()
        invariant
            i <= records.len(),
            rs == records@,
            bound == 0x8000_0000_0000_0000,
            count <= i,
            count == record_ok_count(rs.take(i as int)),
            sum == record_ok_sum(rs.take(i as int)),
            -(i as int) * bound <= sum <= (i as int) * bound,
        decreases records.len() - i,
    {
        assert(rs.take(i + 1).drop_last() =~= rs.take(i as int));
        assert(rs.take(i + 1).last() == rs[i as int]);
        if records[i].status == Status::Success {
            sum = sum + record_contribution(&records[i]);
            count = count + 1;
        }
        i = i + 1;
    }
    assert(rs.take(records.len() as int) =~= rs);
    if count == 0 {
        NetWorth::Unavailable { total_sources: records.len() }
    } else {
        NetWorth::Computed(sum)
    }
}

/// Records and live accounts that agree on each account's kind, balance
/// and fetch outcome give the same net worth.
pub proof fn lemma_records_agree_with_accounts(a: Seq<&dyn Account>, r: Seq<AccountRecord>)
    requires
        a.len() == r.len(),
        forall|j: int|
            0 <= j < a.len() ==> (#[trigger] a[j]).is_liability() == record_is_liability(r[j])
                && a[j].balance_view() == r[j].balance && (a[j].status_view() is Success) == (
            r[j].status == Status::Success),
    ensures
        ok_count(a) == record_ok_count(r),
        ok_sum(a) == record_ok_sum(r),
        net_worth_of(a) == records_net_worth(r),
    decreases a.len(),
{
    if a.len() > 0 {
        let n = a.len() - 1;
        assert(a[n].is_liability() == record_is_liability(r[n]));
        lemma_records_agree_with_accounts(a.drop_last(), r.drop_last());
    }
}

} // verus!
