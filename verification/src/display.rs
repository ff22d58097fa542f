//! The text the screens show: money, net worth and its change since the
//! last run, account lines, source health, the Plaid usage line, and the
//! cursor of a wrapping list. Money is in cents and is shown in dollars
//! with two decimals.

use vstd::prelude::*;

use crate::amount::{nat_digits, push_digits, push_digits_u128};
use crate::checklist::ChecklistItemStatus;
use crate::item_usage::{ItemUsageCounter, PLAID_ITEM_LIMIT};
use crate::networth::{calculate_net_worth_from_records, records_net_worth, NetWorth};
use crate::pii::opt_str_view;
use crate::provider::SourceConfig;
use crate::snapshot::{AccountRecord, Category, Snapshot, Status};
use crate::text::{chars_of, concat, join3, push_str, str_eq, string_of};

verus! {

pub open spec fn category_text(c: Category) -> Seq<char> {
    match c {
        Category::Asset => "asset"@,
        Category::Liability => "liability"@,
        Category::Unknown => "unknown"@,
    }
}

/// A category's name as the Sources screen shows it.
pub fn category_label(category: Category) -> (r: &'static str)
    ensures
        r@ == category_text(category),
{
    match category {
        Category::Asset => "asset",
        Category::Liability => "liability",
        Category::Unknown => "unknown",
    }
}

/// The two decimal digits of `n` (below 100).
pub open spec fn two_digits(n: nat) -> Seq<char> {
    seq![crate::amount::digit_char(n / 10), crate::amount::digit_char(n % 10)]
}

/// `cents` as dollars with two decimals (`-` before a negative amount).
pub open spec fn money_text(cents: int) -> Seq<char> {
    if cents < 0 {
        "-"@ + unsigned_money_text((-cents) as nat)
    } else {
        unsigned_money_text(cents as nat)
    }
}

/// The magnitude of `x`, without overflow.
fn magnitude(x: i128) -> (r: u128)
    ensures
        r == if x < 0 {
            -x
        } else {
            x as int
        },
{
    if x < 0 {
        ((-(x + 1)) as u128) + 1
    } else {
        x as u128
    }
}

/// A non-negative amount of `m` cents as dollars with two decimals.
pub open spec fn unsigned_money_text(m: nat) -> Seq<char> {
    nat_digits(m / 100) + seq!['.'] + two_digits(m % 100)
}

fn format_magnitude(m: u128) -> (r: Vec<char>)
    ensures
        r@ == unsigned_money_text(m as nat),
{
    let mut out: Vec<char> = Vec::new();
    push_digits_u128(m / 100, &mut out);
    out.push('.');
    let frac = (m % 100) as u8;
    out.push((48 + frac / 10) as char);
    out.push((48 + frac % 10) as char);
    assert(out@ =~= unsigned_money_text(m as nat));
    out
}

/// `cents` as dollars with two decimals, such as `1234.50` or `-0.05`.
pub fn format_money(cents: i128) -> (r: String)
    ensures
        r@ == money_text(cents as int),
{
    let digits = format_magnitude(magnitude(cents));
    if cents < 0 {
        proof {
            reveal_strlit("-");
        }
        let mut out = chars_of("-");
        let mut d = digits;
        out.append(&mut d);
        assert(out@ =~= money_text(cents as int));
        string_of(&out)
    } else {
        assert(digits@ =~= money_text(cents as int));
        string_of(&digits)
    }
}

/// The net worth as the dashboard words it when it could not be worked
/// out.
pub open spec fn unavailable_text(total_sources: nat) -> Seq<char> {
    "Net worth unavailable \u{2014} 0/"@ + nat_digits(total_sources)
        + " sources returned data this run"@
}

/// The dashboard's line for a net worth that could not be worked out.
pub fn net_worth_unavailable_text(total_sources: usize) -> (r: String)
    ensures
        r@ == unavailable_text(total_sources as nat),
{
    let mut out = chars_of("Net worth unavailable \u{2014} 0/");
    push_digits(total_sources as u64, &mut out);
    let mut tail = chars_of(" sources returned data this run");
    out.append(&mut tail);
    string_of(&out)
}

/// The date part of an RFC 3339 time stamp: what comes before its first
/// `T` (all of it when there is none).
pub open spec fn date_part(stamp: Seq<char>) -> Seq<char> {
    match crate::text::find(stamp, seq!['T']) {
        Some(p) => stamp.take(p),
        None => stamp,
    }
}

/// How net worth moved since the previous run.
#[derive(Debug)]
pub struct NetWorthChange {
    /// Cents; positive when net worth grew.
    pub delta: i128,
    /// `+$X.XX since <date>` or `-$X.XX since <date>`.
    pub text: String,
}

/// The change text for a difference of `delta` cents since `date`.
pub open spec fn change_text(delta: int, date: Seq<char>) -> Seq<char> {
    (if delta >= 0 {
        "+$"@
    } else {
        "-$"@
    }) + unsigned_money_text(
        (if delta < 0 {
            -delta
        } else {
            delta
        }) as nat,
    ) + " since "@ + date
}

/// The change of net worth since `previous`, the snapshot before this
/// run's. There is none without a previous snapshot, when either figure
/// is unavailable (a change from or to an unavailable figure would
/// mislead), or when the difference is beyond the number range.
pub fn change_since_previous(current: NetWorth, previous: Option<&Snapshot>) -> (r: Option<NetWorthChange>)
    ensures
        r matches Some(c) ==> current matches NetWorth::Computed(now) && previous matches Some(p)
            && records_net_worth(p.accounts@) matches NetWorth::Computed(before) && c.delta == now
            - before && c.text@ == change_text(now - before, date_part(p.created_at@)),
        (current matches NetWorth::Computed(now) && previous matches Some(p) && records_net_worth(
            p.accounts@,
        ) matches NetWorth::Computed(before) && i128::MIN <= now - before <= i128::MAX) ==> r is Some,
{
    let now = match current {
        NetWorth::Computed(v) => v,
        NetWorth::Unavailable { .. } => {
            return None;
        },
    };
    let p = match previous {
        Some(p) => p,
        None => {
            return None;
        },
    };
    let before = match calculate_net_worth_from_records(p.accounts.as_slice()) {
        NetWorth::Computed(v) => v,
        NetWorth::Unavailable { .. } => {
            return None;
        },
    };
    let delta = match now.checked_sub(before) {
        Some(d) => d,
        None => {
            return None;
        },
    };
    let stamp = chars_of(p.created_at.as_str());
    let tee: Vec<char> = vec!['T'];
    assert(tee@ =~= seq!['T']);
    let date = match crate::text::find_exec(&stamp, &tee) {
        Some(k) => {
            let d = crate::text::slice_vec(&stamp, 0, k);
            assert(d@ =~= stamp@.take(k as int));
            d
        },
        None => stamp,
    };
    let sign = if delta >= 0 {
        chars_of("+$")
    } else {
        chars_of("-$")
    };
    let amount = format_magnitude(magnitude(delta));
    let a = concat(&sign, &amount);
    let b = concat(&a, &chars_of(" since "));
    let text = string_of(&concat(&b, &date));
    Some(NetWorthChange { delta, text })
}

/// An account's name on the dashboard: `<institution> (<type>)`.
pub fn record_name(record: &AccountRecord) -> (r: String)
    ensures
        r@ == record.institution@ + " ("@ + record.account_type@ + ")"@,
{
    let head = join3(record.institution.as_str(), " (", record.account_type.as_str());
    string_of(&concat(&chars_of(head.as_str()), &chars_of(")")))
}

/// An account's balance on the dashboard: `$X.XX`, or a dash without
/// one.
pub fn balance_text(balance: Option<i64>) -> (r: String)
    ensures
        r@ == match balance {
            Some(b) => "$"@ + money_text(b as int),
            None => "\u{2014}"@,
        },
{
    match balance {
        Some(b) => string_of(&concat(&chars_of("$"), &chars_of(format_money(b as i128).as_str()))),
        None => "\u{2014}".to_string(),
    }
}

/// A failed account's message on the dashboard (`unavailable` when it
/// has none).
pub fn failure_text(record: &AccountRecord) -> (r: String)
    ensures
        r@ == match opt_str_view(record.error_message) {
            Some(m) => m,
            None => "unavailable"@,
        },
{
    match &record.error_message {
        Some(m) => m.clone(),
        None => "unavailable".to_string(),
    }
}

/// The Sources screen's Plaid usage line: `Plaid Items: <count>/10 used`.
pub fn item_usage_text(counter: &ItemUsageCounter) -> (r: String)
    ensures
        r@ == "Plaid Items: "@ + nat_digits(counter.value()) + "/"@ + nat_digits(
            PLAID_ITEM_LIMIT as nat,
        ) + " used"@,
{
    let mut out = chars_of("Plaid Items: ");
    push_digits(counter.count() as u64, &mut out);
    let mut slash = chars_of("/");
    out.append(&mut slash);
    push_digits(PLAID_ITEM_LIMIT as u64, &mut out);
    let mut tail = chars_of(" used");
    out.append(&mut tail);
    string_of(&out)
}

/// How a source fared in the latest snapshot (`recent` is newest
/// first).
pub open spec fn health_text(source_id: Seq<char>, recent: Seq<Snapshot>) -> Seq<char> {
    if recent.len() == 0 {
        "No snapshot yet \u{2014} press 'v' to fetch"@
    } else {
        let accts = recent[0].accounts@;
        if exists|i: int| 0 <= i < accts.len() && accts[i].source_id@ == source_id {
            let i = choose|i: int|
                0 <= i < accts.len() && accts[i].source_id@ == source_id && forall|j: int|
                    0 <= j < i ==> accts[j].source_id@ != source_id;
            if accts[i].status == Status::Success {
                "OK"@
            } else {
                "Failed: "@ + match opt_str_view(accts[i].error_message) {
                    Some(m) => m,
                    None => "unknown error"@,
                }
            }
        } else {
            "New \u{2014} not included in the last fetch yet, press 'v' to fetch"@
        }
    }
}

/// A source's health on the Sources screen: `OK`, `Failed: <why>`, new
/// since the last fetch, or no snapshot at all yet.
pub fn health_for(source: &SourceConfig, recent: &[Snapshot]) -> (r: String)
    ensures
        r@ == health_text(source.id@, recent@),
{
    if recent.len() == 0 {
        return "No snapshot yet \u{2014} press 'v' to fetch".to_string();
    }
    let latest = &recent[0];
    let ghost accts = latest.accounts@;
    let mut i: usize = 0;
    while i < latest.accounts.len()
        invariant
            i <= latest.accounts.len(),
            accts == latest.accounts@,
            recent@.len() > 0,
            accts == recent@[0].accounts@,
            forall|j: int| 0 <= j < i ==> accts[j].source_id@ != source.id@,
        decreases latest.accounts.len() - i,
    {
        let rec = &latest.accounts[i];
        if str_eq(rec.source_id.as_str(), source.id.as_str()) {
            proof {
                assert(recent@[0].accounts@ == accts);
                assert(accts[i as int].source_id@ == source.id@);
                let c = choose|c: int|
                    0 <= c < accts.len() && accts[c].source_id@ == source.id@ && forall|j: int|
                        0 <= j < c ==> accts[j].source_id@ != source.id@;
                assert(c == i) by {
                    if c < i {
                        assert(accts[c].source_id@ != source.id@);
                    }
                    if i < c {
                        assert(accts[i as int].source_id@ != source.id@);
                    }
                }
            }
            if rec.status == Status::Success {
                return "OK".to_string();
            }
            let why = match &rec.error_message {
                Some(m) => m.as_str(),
                None => "unknown error",
            };
            return string_of(&concat(&chars_of("Failed: "), &chars_of(why)));
        }
        i = i + 1;
    }
    "New \u{2014} not included in the last fetch yet, press 'v' to fetch".to_string()
}

/// A source's line on the Sources screen.
pub open spec fn source_line_text(source: SourceConfig, recent: Seq<Snapshot>, is_selected: bool) -> Seq<
    char,
> {
    (if is_selected {
        "> "@
    } else {
        "  "@
    }) + source.id@ + " \u{2014} "@ + source.provider@ + " / "@ + category_text(source.category)
        + " / "@ + source.account_type@ + "  ["@ + health_text(source.id@, recent) + "]"@
}

/// A source's line on the Sources screen: the cursor mark, its id,
/// provider, category and type, and its health in brackets.
pub fn source_line(source: &SourceConfig, recent: &[Snapshot], is_selected: bool) -> (r: String)
    ensures
        r@ == source_line_text(*source, recent@, is_selected),
{
    let health = health_for(source, recent);
    let mut out: Vec<char> = Vec::new();
    push_str(&mut out, if is_selected { "> " } else { "  " });
    push_str(&mut out, source.id.as_str());
    push_str(&mut out, " \u{2014} ");
    push_str(&mut out, source.provider.as_str());
    push_str(&mut out, " / ");
    push_str(&mut out, category_label(source.category));
    push_str(&mut out, " / ");
    push_str(&mut out, source.account_type.as_str());
    push_str(&mut out, "  [");
    push_str(&mut out, health.as_str());
    push_str(&mut out, "]");
    assert(out@ =~= source_line_text(*source, recent@, is_selected));
    string_of(&out)
}

/// The checklist's mark for a status: `[x]`, `[ ]` or `[-]`.
pub fn status_symbol(status: ChecklistItemStatus) -> (r: &'static str)
    ensures
        r@ == match status {
            ChecklistItemStatus::Complete => "[x]"@,
            ChecklistItemStatus::Incomplete => "[ ]"@,
            ChecklistItemStatus::NotApplicable => "[-]"@,
        },
{
    match status {
        ChecklistItemStatus::Complete => "[x]",
        ChecklistItemStatus::Incomplete => "[ ]",
        ChecklistItemStatus::NotApplicable => "[-]",
    }
}

} // verus!
