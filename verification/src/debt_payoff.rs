//! Debt-payoff priority: which successfully fetched liabilities carry an
//! interest rate at or above the "high interest" threshold, highest rate
//! first. Rates are set by hand per source id, in hundredths of a
//! percent (`2499` is 24.99%); money is in cents.

use vstd::prelude::*;

use crate::snapshot::{AccountRecord, Category, Status};
use crate::str_map::StrMap;

verus! {

/// Interest rates by source id, in hundredths of a percent.
pub type DebtInterestRates = StrMap<i64>;

pub struct DebtPayoffConfig {
    /// Hundredths of a percent.
    pub high_interest_at_or_above: i64,
    pub interest_rates: DebtInterestRates,
}

impl DebtPayoffConfig {
    /// A 7% threshold and no rates yet.
    pub fn default() -> (r: Self)
        ensures
            r.high_interest_at_or_above == 700,
            r.interest_rates@ == Map::<Seq<char>, i64>::empty(),
    {
        DebtPayoffConfig { high_interest_at_or_above: 700, interest_rates: StrMap::new() }
    }
}

/// One liability to pay down early.
#[derive(Debug, PartialEq, Eq)]
pub struct FlaggedDebt {
    pub source_id: String,
    pub institution: String,
    pub account_type: String,
    /// Cents.
    pub balance: i64,
    /// Hundredths of a percent.
    pub interest_rate: i64,
}

#[derive(Debug, PartialEq, Eq)]
pub enum DebtPayoffStatus {
    /// Highest rate first; debts with equal rates keep their order.
    Flagged(Vec<FlaggedDebt>),
    NoHighInterestDebt,
    /// No rate has been entered at all, which is not the same as having
    /// checked and found nothing.
    NoRatesConfigured,
}

/// A flagged debt as plain values.
pub struct FlaggedView {
    pub source_id: Seq<char>,
    pub institution: Seq<char>,
    pub account_type: Seq<char>,
    pub balance: i64,
    pub interest_rate: i64,
}

pub open spec fn flagged_view(f: FlaggedDebt) -> FlaggedView {
    FlaggedView {
        source_id: f.source_id@,
        institution: f.institution@,
        account_type: f.account_type@,
        balance: f.balance,
        interest_rate: f.interest_rate,
    }
}

pub open spec fn flagged_views(v: Seq<FlaggedDebt>) -> Seq<FlaggedView> {
    v.map_values(|f: FlaggedDebt| flagged_view(f))
}

/// The flag a record earns: a successfully fetched liability with a
/// balance whose source has a rate at or above the threshold.
pub open spec fn flag_of(r: AccountRecord, rates: Map<Seq<char>, i64>, threshold: i64) -> Option<FlaggedView> {
    if r.category == Category::Liability && r.status == Status::Success && rates.contains_key(
        r.source_id@,
    ) && rates[r.source_id@] >= threshold && r.balance is Some {
        Some(
            FlaggedView {
                source_id: r.source_id@,
                institution: r.institution@,
                account_type: r.account_type@,
                balance: r.balance->0,
                interest_rate: rates[r.source_id@],
            },
        )
    } else {
        None
    }
}

/// The flags of `rs`, in record order.
pub open spec fn flags(rs: Seq<AccountRecord>, rates: Map<Seq<char>, i64>, threshold: i64) -> Seq<FlaggedView>
    decreases rs.len(),
{
    if rs.len() == 0 {
        seq![]
    } else {
        let prev = flags(rs.drop_last(), rates, threshold);
        match flag_of(rs.last(), rates, threshold) {
            Some(f) => prev.push(f),
            None => prev,
        }
    }
}

/// `s` (highest rate first) with `x` put after every debt whose rate is
/// at least `x`'s.
pub open spec fn insert_desc(s: Seq<FlaggedView>, x: FlaggedView) -> Seq<FlaggedView>
    decreases s.len(),
{
    if s.len() == 0 {
        seq![x]
    } else if s.last().interest_rate >= x.interest_rate {
        s.push(x)
    } else {
        insert_desc(s.drop_last(), x).push(s.last())
    }
}

/// `s` ordered by rate, highest first, equal rates keeping their order.
pub open spec fn sort_desc(s: Seq<FlaggedView>) -> Seq<FlaggedView>
    decreases s.len(),
{
    if s.len() == 0 {
        s
    } else {
        insert_desc(sort_desc(s.drop_last()), s.last())
    }
}

/// `s` is ordered by rate, highest first.
pub open spec fn rate_desc(s: Seq<FlaggedView>) -> bool {
    forall|i: int, j: int| 0 <= i < j < s.len() ==> s[i].interest_rate >= s[j].interest_rate
}

/// The debt-payoff verdict on a run's records.
pub open spec fn debt_status_of(rs: Seq<AccountRecord>, rates: Map<Seq<char>, i64>, threshold: i64) -> Option<Seq<FlaggedView>> {
    let f = sort_desc(flags(rs, rates, threshold));
    if f.len() == 0 {
        None
    } else {
        Some(f)
    }
}

proof fn lemma_insert_at(s: Seq<FlaggedView>, x: FlaggedView, j: int)
    requires
        0 <= j <= s.len(),
        forall|k: int| j <= k < s.len() ==> s[k].interest_rate < x.interest_rate,
        j > 0 ==> s[j - 1].interest_rate >= x.interest_rate,
    ensures
        insert_desc(s, x) == s.insert(j, x),
    decreases s.len(),
{
    if s.len() == 0 {
        assert(s.insert(j, x) =~= seq![x]);
    } else if s.last().interest_rate >= x.interest_rate {
        assert(j == s.len());
        assert(s.insert(j, x) =~= s.push(x));
    } else {
        lemma_insert_at(s.drop_last(), x, j);
        assert(s.insert(j, x) =~= s.drop_last().insert(j, x).push(s.last()));
    }
}

/// Inserting into a list ordered by rate keeps it ordered, and adds
/// exactly the one debt.
pub proof fn lemma_insert_desc_sorted(s: Seq<FlaggedView>, x: FlaggedView)
    requires
        rate_desc(s),
    ensures
        rate_desc(insert_desc(s, x)),
        insert_desc(s, x).to_multiset() == s.to_multiset().insert(x),
    decreases s.len(),
{
    broadcast use vstd::seq_lib::group_to_multiset_ensures;

    if s.len() == 0 {
        assert(seq![x] =~= Seq::<FlaggedView>::empty().push(x));
    } else if s.last().interest_rate >= x.interest_rate {
    } else {
        let p = s.drop_last();
        assert(rate_desc(p));
        lemma_insert_desc_sorted(p, x);
        let q = insert_desc(p, x);
        assert(s =~= p.push(s.last()));
        assert forall|i: int, j: int| 0 <= i < j < q.push(s.last()).len() implies q.push(
            s.last(),
        )[i].interest_rate >= q.push(s.last())[j].interest_rate by {
            if j == q.len() {
                assert(q.to_multiset().count(q[i]) > 0);
                assert(q.to_multiset().count(q[i]) == p.to_multiset().insert(x).count(q[i]));
                if q[i] != x {
                    assert(p.to_multiset().count(q[i]) > 0);
                    assert(p.contains(q[i]));
                    let k = choose|k: int| 0 <= k < p.len() && p[k] == q[i];
                    assert(s[k] == p[k]);
                    assert(s[k].interest_rate >= s[s.len() - 1].interest_rate);
                }
            }
        }
    }
}

/// Sorting orders the debts by rate, highest first, and keeps every one
/// of them (no debt added or lost).
pub proof fn lemma_sort_desc(s: Seq<FlaggedView>)
    ensures
        rate_desc(sort_desc(s)),
        sort_desc(s).to_multiset() == s.to_multiset(),
    decreases s.len(),
{
    broadcast use vstd::seq_lib::group_to_multiset_ensures;

    if s.len() > 0 {
        lemma_sort_desc(s.drop_last());
        lemma_insert_desc_sorted(sort_desc(s.drop_last()), s.last());
        assert(s =~= s.drop_last().push(s.last()));
    }
}

/// Every flagged debt is a liability whose rate meets the threshold.
pub proof fn lemma_flags_meet_threshold(rs: Seq<AccountRecord>, rates: Map<Seq<char>, i64>, threshold: i64)
    ensures
        forall|i: int|
            0 <= i < flags(rs, rates, threshold).len() ==> #[trigger] flags(
                rs,
                rates,
                threshold,
            )[i].interest_rate >= threshold,
    decreases rs.len(),
{
    if rs.len() > 0 {
        lemma_flags_meet_threshold(rs.drop_last(), rates, threshold);
        let prev = flags(rs.drop_last(), rates, threshold);
        match flag_of(rs.last(), rates, threshold) {
            Some(f) => {
                assert forall|i: int| 0 <= i < prev.push(f).len() implies #[trigger] prev.push(
                    f,
                )[i].interest_rate >= threshold by {
                    if i < prev.len() {
                        assert(prev.push(f)[i] == prev[i]);
                    }
                }
            },
            None => {},
        }
    }
}

fn insert_sorted(out: &mut Vec<FlaggedDebt>, x: FlaggedDebt)
    ensures
        flagged_views(final(out)@) == insert_desc(flagged_views(old(out)@), flagged_view(x)),
{
    let ghost s = flagged_views(out@);
    let ghost xv = flagged_view(x);
    let mut j: usize = out.len();
    while j > 0 && out[j - 1].interest_rate < x.interest_rate
        invariant
            j <= out.len(),
            s == flagged_views(out@),
            xv == flagged_view(x),
            forall|k: int| j <= k < s.len() ==> s[k].interest_rate < xv.interest_rate,
        decreases j,
    {
        j = j - 1;
    }
    proof {
        lemma_insert_at(s, xv, j as int);
    }
    out.insert(j, x);
    assert(flagged_views(out@) =~= s.insert(j as int, xv));
}

/// Flags each successfully fetched liability whose source's rate is at
/// or above the threshold, highest rate first. A record with no rate, of
/// another category, not fetched, or without a balance is never
/// flagged; with no rate entered at all the answer is
/// `NoRatesConfigured`.
pub fn evaluate_debt_payoff_priority(records: &[AccountRecord], config: &DebtPayoffConfig) -> (r: DebtPayoffStatus)
    ensures
        config.interest_rates@ == Map::<Seq<char>, i64>::empty() ==> r is NoRatesConfigured,
        config.interest_rates@ != Map::<Seq<char>, i64>::empty() ==> match debt_status_of(
            records@,
            config.interest_rates@,
            config.high_interest_at_or_above,
        ) {
            None => r is NoHighInterestDebt,
            Some(f) => r matches DebtPayoffStatus::Flagged(v) && flagged_views(v@) == f,
        },
{
    if config.interest_rates.is_empty() {
        return DebtPayoffStatus::NoRatesConfigured;
    }
    let ghost rates = config.interest_rates@;
    let ghost threshold = config.high_interest_at_or_above;
    let ghost rs = records@;
    let mut out: Vec<FlaggedDebt> = Vec::new();
    let mut i: usize = 0;
    assert(flagged_views(out@) =~= seq![]);
    while i < records.len()
        invariant
            i <= records.len(),
            rs == records@,
            rates == config.interest_rates@,
            threshold == config.high_interest_at_or_above,
            flagged_views(out@) == sort_desc(flags(rs.take(i as int), rates, threshold)),
        decreases records.len() - i,
    {
        assert(rs.take(i + 1).drop_last() =~= rs.take(i as int));
        assert(rs.take(i + 1).last() == rs[i as int]);
        let r = &records[i];
        let mut flagged: Option<FlaggedDebt> = None;
        if r.category == Category::Liability && r.status == Status::Success {
            match config.interest_rates.get(r.source_id.as_str()) {
                Some(rate) => {
                    if *rate >= config.high_interest_at_or_above {
                        match r.balance {
                            Some(b) => {
                                flagged = Some(
                                    FlaggedDebt {
                                        source_id: r.source_id.clone(),
                                        institution: r.institution.clone(),
                                        account_type: r.account_type.clone(),
                                        balance: b,
                                        interest_rate: *rate,
                                    },
                                );
                            },
                            None => {},
                        }
                    }
                },
                None => {},
            }
        }
        let ghost prev = flags(rs.take(i as int), rates, threshold);
        match flagged {
            Some(f) => {
                assert(flag_of(rs[i as int], rates, threshold) == Some(flagged_view(f)));
                assert(flags(rs.take(i + 1), rates, threshold) == prev.push(flagged_view(f)));
                assert(prev.push(flagged_view(f)).drop_last() =~= prev);
                insert_sorted(&mut out, f);
            },
            None => {
                assert(flag_of(rs[i as int], rates, threshold) is None);
                assert(flags(rs.take(i + 1), rates, threshold) == prev);
            },
        }
        i = i + 1;
    }
    assert(rs.take(records.len() as int) =~= rs);
    if out.len() == 0 {
        DebtPayoffStatus::NoHighInterestDebt
    } else {
        DebtPayoffStatus::Flagged(out)
    }
}

} // verus!
