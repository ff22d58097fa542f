//! Monthly spend: the summed balances of the successfully fetched
//! liability accounts, for the current run and over recent runs. Higher
//! is worse. Money is in cents.

use vstd::prelude::*;

use crate::snapshot::{AccountRecord, Category, Snapshot, Status};
use crate::threshold_band::ThresholdBand;
use crate::text::string_of;

verus! {

/// The spend bands, in cents.
#[derive(Debug, Clone, Copy, PartialEq, Eq, Structural)]
pub struct MonthlySpendThresholds {
    pub yellow_at_or_above: i64,
    pub red_at_or_above: i64,
}

impl Default for MonthlySpendThresholds {
    /// Yellow from $8,000, red from $11,000.
    fn default() -> (r: Self)
        ensures
            r.yellow_at_or_above == 800000,
            r.red_at_or_above == 1100000,
    {
        MonthlySpendThresholds { yellow_at_or_above: 800000, red_at_or_above: 1100000 }
    }
}

/// How many recent snapshots the spend history asks for.
pub const HISTORY_LIMIT: usize = 18;

/// The band of a spend of `total` cents: higher is worse.
pub open spec fn spend_band(total: int, t: MonthlySpendThresholds) -> ThresholdBand {
    if total >= t.red_at_or_above {
        ThresholdBand::Red
    } else if total >= t.yellow_at_or_above {
        ThresholdBand::Yellow
    } else {
        ThresholdBand::Green
    }
}

/// The band of a spend of `total` cents.
pub fn band_for_spend(total: i128, thresholds: &MonthlySpendThresholds) -> (r: ThresholdBand)
    ensures
        r == spend_band(total as int, *thresholds),
{
    if total >= thresholds.red_at_or_above as i128 {
        ThresholdBand::Red
    } else if total >= thresholds.yellow_at_or_above as i128 {
        ThresholdBand::Yellow
    } else {
        ThresholdBand::Green
    }
}

#[derive(Debug, Clone, Copy, PartialEq, Eq, Structural)]
pub enum CurrentPeriodSpend {
    /// Cents.
    Computed { total: i128, band: ThresholdBand },
    /// No successfully fetched liability with a balance: not the same as
    /// liabilities adding up to zero.
    NoLiabilityAccountData,
}

/// A successfully fetched liability with a balance.
pub open spec fn is_spend_record(r: AccountRecord) -> bool {
    r.category == Category::Liability && r.status == Status::Success && r.balance is Some
}

pub open spec fn spend_count(rs: Seq<AccountRecord>) -> nat
    decreases rs.len(),
{
    if rs.len() == 0 {
        0
    } else {
        spend_count(rs.drop_last()) + if is_spend_record(rs.last()) {
            1nat
        } else {
            0nat
        }
    }
}

pub open spec fn spend_total(rs: Seq<AccountRecord>) -> int
    decreases rs.len(),
{
    if rs.len() == 0 {
        0
    } else {
        spend_total(rs.drop_last()) + if is_spend_record(rs.last()) {
            rs.last().balance->0 as int
        } else {
            0
        }
    }
}

/// The summed liabilities of `records` and how many there were.
fn sum_spend(records: &[AccountRecord]) -> (r: (i128, usize))
    ensures
        r.0 == spend_total(records@),
        r.1 == spend_count(records@),
{
    let ghost rs = records@;
    let ghost bound: int = 0x8000_0000_0000_0000;
    let mut total: i128 = 0;
    let mut count: usize = 0;
    let mut i: usize = 0;
    while i < records.len()
        invariant
            i <= records.len(),
            rs == records@,
            bound == 0x8000_0000_0000_0000,
            count <= i,
            count == spend_count(rs.take(i as int)),
            total == spend_total(rs.take(i as int)),
            -(i as int) * bound <= total <= (i as int) * bound,
        decreases records.len() - i,
    {
        assert(rs.take(i + 1).drop_last() =~= rs.take(i as int));
        assert(rs.take(i + 1).last() == rs[i as int]);
        let r = &records[i];
        if r.category == Category::Liability && r.status == Status::Success {
            match r.balance {
                Some(b) => {
                    total = total + b as i128;
                    count = count + 1;
                },
                None => {},
            }
        }
        i = i + 1;
    }
    assert(rs.take(records.len() as int) =~= rs);
    (total, count)
}

/// This run's spend: the summed balances of its successfully fetched
/// liabilities, with its band; no figure when there is no such account.
pub fn calculate_current_period_spend(records: &[AccountRecord], thresholds: &MonthlySpendThresholds) -> (r: CurrentPeriodSpend)
    ensures
        spend_count(records@) == 0 ==> r == CurrentPeriodSpend::NoLiabilityAccountData,
        spend_count(records@) > 0 ==> r == (CurrentPeriodSpend::Computed {
            total: spend_total(records@) as i128,
            band: spend_band(spend_total(records@), *thresholds),
        }),
{
    let (total, count) = sum_spend(records);
    if count == 0 {
        CurrentPeriodSpend::NoLiabilityAccountData
    } else {
        CurrentPeriodSpend::Computed { total, band: band_for_spend(total, thresholds) }
    }
}

/// One run's spend, for the history chart.
#[derive(Debug, Clone, Copy, PartialEq, Eq, Structural)]
pub struct SpendPoint {
    /// Cents.
    pub total: i128,
    /// When the run happened, in Unix seconds; `None` when its time
    /// stamp could not be read (the point is kept all the same).
    pub timestamp: Option<i64>,
}

/// The Unix time (in seconds) that an RFC 3339 time stamp names, if it
/// is one.
pub uninterp spec fn rfc3339_unix_seconds(text: Seq<char>) -> Option<i64>;

/// `time::OffsetDateTime::parse` with the RFC 3339 format, then
/// `unix_timestamp`: the instant an RFC 3339 time stamp names, or `None`
/// when the text is not one.
#[verifier::external_body]
fn parse_rfc3339(text: &str) -> (r: Option<i64>)
    ensures
        r == rfc3339_unix_seconds(text@),
{
    time::OffsetDateTime::parse(text, &time::format_description::well_known::Rfc3339).ok().map(
        |t| t.unix_timestamp(),
    )
}

/// The spend point of one snapshot.
pub open spec fn spend_point(s: Snapshot) -> SpendPoint {
    SpendPoint {
        total: spend_total(s.accounts@) as i128,
        timestamp: rfc3339_unix_seconds(s.created_at@),
    }
}

/// The spend history, oldest first, from snapshots given newest first:
/// one point per snapshot, its successfully fetched liabilities summed.
pub fn extract_spend_series(snapshots: &[Snapshot]) -> (r: Vec<SpendPoint>)
    ensures
        r@.len() == snapshots@.len(),
        forall|i: int|
            0 <= i < r@.len() ==> #[trigger] r@[i] == spend_point(
                snapshots@[snapshots@.len() - 1 - i],
            ),
{
    let mut out: Vec<SpendPoint> = Vec::new();
    let mut k: usize = snapshots.len();
    while k > 0
        invariant
            k <= snapshots.len(),
            out@.len() == snapshots.len() - k,
            forall|i: int|
                0 <= i < out@.len() ==> #[trigger] out@[i] == spend_point(
                    snapshots@[snapshots@.len() - 1 - i],
                ),
        decreases k,
    {
        k = k - 1;
        let s = &snapshots[k];
        let (total, _) = sum_spend(s.accounts.as_slice());
        out.push(SpendPoint { total, timestamp: parse_rfc3339(s.created_at.as_str()) });
    }
    out
}

/// Seconds in a day: a history of one dated point is widened by this on
/// each side so that its chart has some width.
pub const ONE_DAY_SECS: i128 = 86400;

/// The axes of the spend history chart. Times are Unix seconds, amounts
/// cents.
#[derive(Debug, Clone, Copy, PartialEq, Eq, Structural)]
pub struct SpendChartFrame {
    pub x_min: i128,
    pub x_max: i128,
    /// The time of the middle label: halfway, rounded toward zero.
    pub x_mid: i128,
    /// The largest amount the chart must show (the top of the y axis
    /// before its headroom): the largest dated spend, but at least the
    /// red line and never below zero.
    pub y_top: i128,
}

/// The earliest and latest time stamps of the dated points of `s`.
pub open spec fn time_range(s: Seq<SpendPoint>) -> Option<(int, int)>
    decreases s.len(),
{
    if s.len() == 0 {
        None
    } else {
        let rest = time_range(s.drop_last());
        match s.last().timestamp {
            None => rest,
            Some(t) => match rest {
                None => Some((t as int, t as int)),
                Some((lo, hi)) => Some((
                    if (t as int) < lo { t as int } else { lo },
                    if (t as int) > hi { t as int } else { hi },
                )),
            },
        }
    }
}

/// The largest total among the dated points of `s`, and zero.
pub open spec fn dated_max(s: Seq<SpendPoint>) -> int
    decreases s.len(),
{
    if s.len() == 0 {
        0
    } else {
        let rest = dated_max(s.drop_last());
        match s.last().timestamp {
            Some(_) => if s.last().total > rest { s.last().total as int } else { rest },
            None => rest,
        }
    }
}

/// `a / 2` rounded toward zero.
pub open spec fn half_toward_zero(a: int) -> int {
    if a >= 0 { a / 2 } else { -((-a) / 2) }
}

/// The chart axes for a spend history with thresholds `t`; `None` when
/// no point is dated (there is nothing to chart).
pub open spec fn chart_frame(s: Seq<SpendPoint>, t: MonthlySpendThresholds) -> Option<SpendChartFrame> {
    match time_range(s) {
        None => None,
        Some((lo, hi)) => {
            let (x_min, x_max) = if lo == hi {
                (lo - ONE_DAY_SECS, hi + ONE_DAY_SECS)
            } else {
                (lo, hi)
            };
            let m = dated_max(s);
            Some(SpendChartFrame {
                x_min: x_min as i128,
                x_max: x_max as i128,
                x_mid: half_toward_zero(x_min + x_max) as i128,
                y_top: (if m > t.red_at_or_above { m } else { t.red_at_or_above as int }) as i128,
            })
        },
    }
}

proof fn lemma_dated_max_bounds(s: Seq<SpendPoint>)
    ensures
        0 <= dated_max(s),
        dated_max(s) <= i128::MAX,
    decreases s.len(),
{
    if s.len() > 0 {
        lemma_dated_max_bounds(s.drop_last());
    }
}

proof fn lemma_time_range_bounds(s: Seq<SpendPoint>)
    ensures
        time_range(s) matches Some((lo, hi)) ==> i64::MIN <= lo <= hi <= i64::MAX,
    decreases s.len(),
{
    if s.len() > 0 {
        lemma_time_range_bounds(s.drop_last());
    }
}

/// The axes of the spend history chart: the time span of the dated
/// points (a day either side of a single time), the middle label's time,
/// and the largest amount to show. `None` when no point is dated.
pub fn spend_chart_frame(series: &[SpendPoint], thresholds: &MonthlySpendThresholds) -> (r: Option<
    SpendChartFrame,
>)
    ensures
        r == chart_frame(series@, *thresholds),
{
    let mut range: Option<(i64, i64)> = None;
    let mut top: i128 = 0;
    let mut i: usize = 0;
    while i < series.len()
        invariant
            i <= series.len(),
            match range {
                None => time_range(series@.take(i as int)) is None,
                Some((lo, hi)) => time_range(series@.take(i as int)) == Some((lo as int, hi as int)),
            },
            top == dated_max(series@.take(i as int)),
        decreases series.len() - i,
    {
        assert(series@.take(i + 1).drop_last() =~= series@.take(i as int));
        let p = series[i];
        if let Some(t) = p.timestamp {
            range = match range {
                None => Some((t, t)),
                Some((lo, hi)) => Some((if t < lo { t } else { lo }, if t > hi { t } else { hi })),
            };
            if p.total > top {
                top = p.total;
            }
        }
        i = i + 1;
    }
    assert(series@.take(series.len() as int) =~= series@);
    proof {
        lemma_time_range_bounds(series@);
        lemma_dated_max_bounds(series@);
    }
    match range {
        None => None,
        Some((lo, hi)) => {
            let (x_min, x_max): (i128, i128) = if lo == hi {
                (lo as i128 - ONE_DAY_SECS, hi as i128 + ONE_DAY_SECS)
            } else {
                (lo as i128, hi as i128)
            };
            let red = thresholds.red_at_or_above as i128;
            Some(SpendChartFrame {
                x_min,
                x_max,
                x_mid: (x_min + x_max) / 2,
                y_top: if top > red { top } else { red },
            })
        },
    }
}

/// The month and day of month of day number `days` (counted from
/// 1970-01-01, negative before it) in the proleptic Gregorian calendar:
/// the days are counted in 400-year eras from 0000-03-01, and within
/// the era's years from March on, so that a leap day ends its year.
pub open spec fn civil_month_day(days: int) -> (int, int) {
    let z = days + 719468;
    let era = z / 146097;
    let doe = z - era * 146097;
    let yoe = (doe - doe / 1460 + doe / 36524 - doe / 146096) / 365;
    let doy = doe - (365 * yoe + yoe / 4 - yoe / 100);
    let mp = (5 * doy + 2) / 153;
    let d = doy - (153 * mp + 2) / 5 + 1;
    let m = if mp < 10 {
        mp + 3
    } else {
        mp - 9
    };
    (m, d)
}

/// The UTC month and day of month of the Unix time `secs`.
pub open spec fn utc_month_day(secs: i64) -> (int, int) {
    civil_month_day(secs as int / 86400)
}

/// The Unix times from -9999-01-01T00:00:00Z to 9999-12-31T23:59:59Z,
/// the range of dates that `time` represents in every configuration.
pub open spec fn in_date_range(secs: i64) -> bool {
    -377705116800 <= secs <= 253402300799
}

/// `time::OffsetDateTime::from_unix_timestamp`, then `month` (as its
/// number) and `day`: the UTC calendar month and day of `secs`, or `None`
/// when the time is out of the crate's date range. That range takes in
/// at least the years -9999 to 9999 (more with the crate's `large-dates`
/// feature). The crate documents the day as `1..=31`, and its `Month`
/// numbers run from 1 to 12.
#[verifier::external_body]
fn month_day_of(secs: i64) -> (r: Option<(u8, u8)>)
    ensures
        in_date_range(secs) ==> r is Some,
        r matches Some((m, d)) ==> (m as int, d as int) == utc_month_day(secs) && 1 <= m <= 12
            && 1 <= d <= 31,
{
    match time::OffsetDateTime::from_unix_timestamp(secs) {
        Ok(t) => Some((u8::from(t.month()), t.day())),
        Err(_) => None,
    }
}

/// `n` (below 100) as two decimal digits.
pub open spec fn two_digit_text(n: nat) -> Seq<char> {
    seq![crate::amount::digit_char(n / 10), crate::amount::digit_char(n % 10)]
}

/// The `MM/DD` label of a chart time.
pub open spec fn month_day_label(secs: i64) -> Seq<char> {
    two_digit_text(utc_month_day(secs).0 as nat) + "/"@ + two_digit_text(utc_month_day(secs).1 as nat)
}

fn push_two_digits(n: u8, out: &mut Vec<char>)
    requires
        n < 100,
    ensures
        final(out)@ == old(out)@ + two_digit_text(n as nat),
{
    out.push((48 + n / 10) as char);
    out.push((48 + n % 10) as char);
    assert(final(out)@ =~= old(out)@ + two_digit_text(n as nat));
}

/// A chart time as its UTC `MM/DD`. It is empty when the time is out of
/// the range of dates that `time` represents, which takes in at least
/// the years -9999 to 9999.
pub fn format_unix_timestamp(secs: i64) -> (r: String)
    ensures
        in_date_range(secs) ==> r@ == month_day_label(secs),
        !in_date_range(secs) ==> r@ == month_day_label(secs) || r@.len() == 0,
{
    match month_day_of(secs) {
        Some((m, d)) => {
            let mut out: Vec<char> = Vec::new();
            push_two_digits(m, &mut out);
            out.push('/');
            push_two_digits(d, &mut out);
            proof {
                reveal_strlit("/");
            }
            assert(out@ =~= month_day_label(secs));
            string_of(&out)
        },
        None => String::new(),
    }
}

/// Spending more never moves the band to a better one.
pub proof fn lemma_more_spend_never_better(a: int, b: int, t: MonthlySpendThresholds)
    requires
        a <= b,
    ensures
        spend_band(a, t) == ThresholdBand::Red ==> spend_band(b, t) == ThresholdBand::Red,
        spend_band(b, t) == ThresholdBand::Green ==> spend_band(a, t) == ThresholdBand::Green,
{
}

} // verus!
