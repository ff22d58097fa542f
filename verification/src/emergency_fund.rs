//! Emergency-fund coverage: how many months of expenses the cash
//! accounts (checking and money market) would cover, and the band that
//! puts it in. Money is in cents, months in hundredths of a month.

use vstd::prelude::*;

use crate::snapshot::{AccountRecord, Status};
use crate::text::str_eq;
use crate::threshold_band::ThresholdBand;

verus! {

/// The emergency-fund settings.
#[derive(Debug, Clone, Copy, PartialEq, Eq, Structural)]
pub struct EmergencyFundThresholds {
    /// Monthly expenses in cents; zero or less means not set up yet.
    pub target_monthly_expenses: i64,
    /// Coverage below this many hundredths of a month is red.
    pub red_below_months: i64,
    /// Coverage from this many hundredths of a month on is green.
    pub green_at_or_above_months: i64,
}

impl Default for EmergencyFundThresholds {
    /// No target yet; red below 6 months, green from 9 months on.
    fn default() -> (r: Self)
        ensures
            r.target_monthly_expenses == 0,
            r.red_below_months == 600,
            r.green_at_or_above_months == 900,
    {
        EmergencyFundThresholds {
            target_monthly_expenses: 0,
            red_below_months: 600,
            green_at_or_above_months: 900,
        }
    }
}

/// The band of a coverage of `months` hundredths of a month: lower is
/// worse.
pub open spec fn coverage_band(months: int, t: EmergencyFundThresholds) -> ThresholdBand {
    if months < t.red_below_months {
        ThresholdBand::Red
    } else if months >= t.green_at_or_above_months {
        ThresholdBand::Green
    } else {
        ThresholdBand::Yellow
    }
}

/// The band of a coverage of `months_of_coverage` hundredths of a month.
pub fn band_for(months_of_coverage: i128, thresholds: &EmergencyFundThresholds) -> (r: ThresholdBand)
    ensures
        r == coverage_band(months_of_coverage as int, *thresholds),
{
    if months_of_coverage < thresholds.red_below_months as i128 {
        ThresholdBand::Red
    } else if months_of_coverage >= thresholds.green_at_or_above_months as i128 {
        ThresholdBand::Green
    } else {
        ThresholdBand::Yellow
    }
}

#[derive(Debug, Clone, Copy, PartialEq, Eq, Structural)]
pub enum EmergencyFundStatus {
    Computed {
        /// Cents.
        total_cash: i128,
        /// Hundredths of a month, rounded down.
        months_of_coverage: i128,
        band: ThresholdBand,
    },
    /// No successfully fetched checking or money-market account with a
    /// balance: not the same as such accounts adding up to zero.
    NoCashAccountData,
    /// No monthly target is set, so coverage means nothing (checked
    /// first).
    TargetNotConfigured,
}

/// A successfully fetched checking or money-market account with a
/// balance.
pub open spec fn is_cash_record(r: AccountRecord) -> bool {
    &&& r.status == Status::Success
    &&& (r.account_type@ == "checking"@ || r.account_type@ == "money_market"@)
    &&& r.balance is Some
}

pub open spec fn cash_count(rs: Seq<AccountRecord>) -> nat
    decreases rs.len(),
{
    if rs.len() == 0 {
        0
    } else {
        cash_count(rs.drop_last()) + if is_cash_record(rs.last()) {
            1nat
        } else {
            0nat
        }
    }
}

pub open spec fn cash_total(rs: Seq<AccountRecord>) -> int
    decreases rs.len(),
{
    if rs.len() == 0 {
        0
    } else {
        cash_total(rs.drop_last()) + if is_cash_record(rs.last()) {
            rs.last().balance->0 as int
        } else {
            0
        }
    }
}

/// The largest cash total (in cents, either sign) whose coverage is
/// worked out exactly; beyond it the total is capped first. No band
/// changes there: the cap is far past any threshold.
pub open spec fn cash_cap() -> int {
    0x1_0000_0000_0000_0000_0000_0000_0000
}

/// `total` cents kept within the cap.
pub open spec fn capped(total: int) -> int {
    if total > cash_cap() {
        cash_cap()
    } else if total < -cash_cap() {
        -cash_cap()
    } else {
        total
    }
}

/// Hundredths of a month that `total` cents cover at `target` cents a
/// month, rounded down.
pub open spec fn coverage(total: int, target: int) -> int {
    (capped(total) * 100) / target
}

/// What the emergency fund looks like in a run's records.
pub open spec fn emergency_fund_of(rs: Seq<AccountRecord>, t: EmergencyFundThresholds) -> EmergencyFundStatus {
    if t.target_monthly_expenses <= 0 {
        EmergencyFundStatus::TargetNotConfigured
    } else if cash_count(rs) == 0 {
        EmergencyFundStatus::NoCashAccountData
    } else {
        let months = coverage(cash_total(rs), t.target_monthly_expenses as int);
        EmergencyFundStatus::Computed {
            total_cash: cash_total(rs) as i128,
            months_of_coverage: months as i128,
            band: coverage_band(months, t),
        }
    }
}

/// Sums the balances of the successfully fetched checking and
/// money-market accounts and divides by the monthly target. Without a
/// target, or without such an account, there is no coverage figure.
pub fn calculate_emergency_fund_status(records: &[AccountRecord], thresholds: &EmergencyFundThresholds) -> (r: EmergencyFundStatus)
    ensures
        r == emergency_fund_of(records@, *thresholds),
{
    if thresholds.target_monthly_expenses <= 0 {
        return EmergencyFundStatus::TargetNotConfigured;
    }
    let ghost rs = records@;
    let ghost bound: int = 0x8000_0000_0000_0000;
    let mut total: i128 = 0;
    let mut count: usize = 0;
    let mut i: usize = 0;
    while i < records.len()
        invariant
            i <= records.len(),
            rs == records@,
            bound == 0x8000_0000_0000_0000,
            count <= i,
            count == cash_count(rs.take(i as int)),
            total == cash_total(rs.take(i as int)),
            -(i as int) * bound <= total <= (i as int) * bound,
        decreases records.len() - i,
    {
        assert(rs.take(i + 1).drop_last() =~= rs.take(i as int));
        assert(rs.take(i + 1).last() == rs[i as int]);
        let r = &records[i];
        let kind = r.account_type.as_str();
        if r.status == Status::Success && (str_eq(kind, "checking") || str_eq(kind, "money_market")) {
            match r.balance {
                Some(b) => {
                    total = total + b as i128;
                    count = count + 1;
                },
                None => {},
            }
        }
        i = i + 1;
    }
    assert(rs.take(records.len() as int) =~= rs);
    if count == 0 {
        return EmergencyFundStatus::NoCashAccountData;
    }
    let cap: i128 = 0x1_0000_0000_0000_0000_0000_0000_0000;
    let c = if total > cap {
        cap
    } else if total < -cap {
        -cap
    } else {
        total
    };
    let months = crate::amount::floor_div(c * 100, thresholds.target_monthly_expenses as i128);
    EmergencyFundStatus::Computed {
        total_cash: total,
        months_of_coverage: months,
        band: band_for(months, thresholds),
    }
}

/// More cash never moves the band down: with the same target, a larger
/// total is in the same or a better band.
pub proof fn lemma_more_cash_never_worse(a: int, b: int, t: EmergencyFundThresholds)
    requires
        t.target_monthly_expenses > 0,
        a <= b,
    ensures
        coverage(a, t.target_monthly_expenses as int) <= coverage(b, t.target_monthly_expenses as int),
        coverage_band(coverage(a, t.target_monthly_expenses as int), t) == ThresholdBand::Green
            ==> coverage_band(coverage(b, t.target_monthly_expenses as int), t)
            == ThresholdBand::Green,
        coverage_band(coverage(b, t.target_monthly_expenses as int), t) == ThresholdBand::Red
            ==> coverage_band(coverage(a, t.target_monthly_expenses as int), t) == ThresholdBand::Red,
{
    let d = t.target_monthly_expenses as int;
    assert(capped(a) <= capped(b));
    assert(capped(a) * 100 <= capped(b) * 100);
    vstd::arithmetic::div_mod::lemma_div_is_ordered(capped(a) * 100, capped(b) * 100, d);
}

} // verus!
