//! Fidelity NetBenefits statements. There is no account number: a plan
//! is named by its heading line (`"[Employer] 401(k) Plan"`), and a
//! hint picks a plan by a case-insensitive substring of that heading.
//! Each plan's balance is the `"Ending Balance $X"` that follows its
//! heading; the statement's date is the end of its
//! `"Statement Period: [start] to [end]"`.

use vstd::prelude::*;

use crate::amount::{amount_at, amount_at_exec};
use crate::snapshot::Category;
use crate::statement::parser::{
    holdings_view, outcome, ExpectedAccount, ParseError, ParseErrorView, ParsedStatement,
    ParsedView, ParserKind, StatementParser,
};
use crate::statement::scan::{cents_of, or_empty};
use crate::text::{
    chars_of, contains, contains_exec, find, find_exec, find_from, find_from_exec,
    lemma_find_from_bounds, lemma_rfind_before_bounds, lowercase, rfind_before_exec, rfind_char,
    run_end, run_end_exec, slice_vec, string_of, to_lowercase, trim, trim_exec, CharClass,
};

verus! {

pub struct FidelityStatementParser;

// ---------------------------------------------------------------------
// Specification
// ---------------------------------------------------------------------

/// The last line of `s` (what follows its last `\n`), trimmed.
pub open spec fn heading_line(s: Seq<char>) -> Seq<char> {
    let start = match rfind_char(s, '\n') {
        Some(p) => p + 1,
        None => 0,
    };
    trim(s.skip(start))
}

/// The amount after the first `"Ending Balance $"` in `s`, in cents.
pub open spec fn next_ending_balance(s: Seq<char>) -> Option<int> {
    match find(s, "Ending Balance $"@) {
        None => None,
        Some(q) => cents_of(amount_at(s, q + "Ending Balance $"@.len())),
    }
}

/// The plans found by scanning `t` for the marker `m` from `from` on,
/// added to `acc`: each marker followed by an ending balance adds its
/// heading line and that balance.
pub open spec fn plan_scan(t: Seq<char>, m: Seq<char>, from: int, acc: Seq<(Seq<char>, int)>) -> Seq<
    (Seq<char>, int),
>
    decreases t.len() - from,
{
    if from < 0 || m.len() == 0 {
        acc
    } else {
        match find_from(t, m, from) {
            None => acc,
            Some(ms) => {
                proof {
                    lemma_find_from_bounds(t, m, from);
                }
                let me = ms + m.len();
                let acc2 = match next_ending_balance(t.skip(me)) {
                    Some(b) => acc.push((heading_line(t.take(me)), b)),
                    None => acc,
                };
                if me >= t.len() {
                    acc2
                } else {
                    plan_scan(t, m, me, acc2)
                }
            },
        }
    }
}

/// Every plan of a Fidelity statement, in order.
pub open spec fn plan_sections(t: Seq<char>) -> Seq<(Seq<char>, int)> {
    plan_scan(t, "401(k) Plan"@, 0, seq![])
}

/// The plans whose heading contains the hint, ignoring case (all of them
/// without one).
pub open spec fn matching(plans: Seq<(Seq<char>, int)>, hint: Option<Seq<char>>) -> Seq<
    (Seq<char>, int),
>
    decreases plans.len(),
{
    if plans.len() == 0 {
        plans
    } else {
        let rest = matching(plans.drop_last(), hint);
        match hint {
            Some(h) => if contains(lowercase(plans.last().0), lowercase(h)) {
                rest.push(plans.last())
            } else {
                rest
            },
            None => rest.push(plans.last()),
        }
    }
}

/// The `MM/DD/YYYY` end of the `"Statement Period: [start] to [end]"`.
pub open spec fn statement_period_end(t: Seq<char>) -> Option<Seq<char>> {
    match find(t, "Statement Period: "@) {
        None => None,
        Some(q) => {
            let start = q + "Statement Period: "@.len();
            match find(t.skip(start), " to "@) {
                None => None,
                Some(rel) => {
                    let s = start + rel + " to "@.len();
                    let e = run_end(t, s, CharClass::SlashDate);
                    if e > s {
                        Some(t.subrange(s, e))
                    } else {
                        None
                    }
                },
            }
        },
    }
}

/// What parsing a Fidelity statement's text gives. A 401(k) plan is an
/// asset, and the statement lists no holdings and no rate.
pub open spec fn fidelity_outcome(t: Seq<char>, hint: Option<Seq<char>>) -> Result<
    ParsedView,
    ParseErrorView,
> {
    let plans = plan_sections(t);
    if plans.len() == 0 {
        Err(ParseErrorView::UnrecognizedLayout("no '[Employer] 401(k) Plan' heading found"@))
    } else {
        let ms = matching(plans, hint);
        if ms.len() == 0 {
            Err(ParseErrorView::NoMatchingAccount)
        } else if ms.len() == 1 {
            Ok(
                ParsedView {
                    balance: ms[0].1,
                    as_of_date: or_empty(statement_period_end(t)),
                    account_identifier: ms[0].0,
                    category: Category::Asset,
                    holdings: seq![],
                    apr: None,
                },
            )
        } else {
            Err(ParseErrorView::AmbiguousMatch)
        }
    }
}

// ---------------------------------------------------------------------
// Laws
// ---------------------------------------------------------------------

proof fn lemma_matching_holds_hint(plans: Seq<(Seq<char>, int)>, h: Seq<char>)
    ensures
        forall|i: int|
            0 <= i < matching(plans, Some(h)).len() ==> contains(
                lowercase((#[trigger] matching(plans, Some(h))[i]).0),
                lowercase(h),
            ),
    decreases plans.len(),
{
    if plans.len() > 0 {
        lemma_matching_holds_hint(plans.drop_last(), h);
        let rest = matching(plans.drop_last(), Some(h));
        let ms = matching(plans, Some(h));
        assert forall|i: int| 0 <= i < ms.len() implies contains(
            lowercase((#[trigger] ms[i]).0),
            lowercase(h),
        ) by {
            if i < rest.len() {
                assert(ms[i] == rest[i]);
            }
        }
    }
}

proof fn lemma_matching_same_lowercase(plans: Seq<(Seq<char>, int)>, h1: Seq<char>, h2: Seq<char>)
    requires
        lowercase(h1) == lowercase(h2),
    ensures
        matching(plans, Some(h1)) == matching(plans, Some(h2)),
    decreases plans.len(),
{
    if plans.len() > 0 {
        lemma_matching_same_lowercase(plans.drop_last(), h1, h2);
    }
}

proof fn lemma_matching_without_hint(plans: Seq<(Seq<char>, int)>)
    ensures
        matching(plans, None) == plans,
    decreases plans.len(),
{
    if plans.len() > 0 {
        lemma_matching_without_hint(plans.drop_last());
        assert(plans.drop_last().push(plans.last()) =~= plans);
    }
}

proof fn lemma_matching_only_one(plans: Seq<(Seq<char>, int)>, h: Seq<char>, i: int)
    requires
        0 <= i < plans.len(),
        contains(lowercase(plans[i].0), lowercase(h)),
        forall|j: int|
            0 <= j < plans.len() && j != i ==> !contains(lowercase((#[trigger] plans[j]).0), lowercase(h)),
    ensures
        matching(plans, Some(h)) == seq![plans[i]],
    decreases plans.len(),
{
    let p = plans.drop_last();
    let n = plans.len() - 1;
    if i == n {
        lemma_matching_none(p, h);
        assert(matching(plans, Some(h)) =~= seq![plans[i]]);
    } else {
        assert forall|j: int| 0 <= j < p.len() && j != i implies !contains(
            lowercase((#[trigger] p[j]).0),
            lowercase(h),
        ) by {
            assert(p[j] == plans[j]);
        }
        assert(p[i] == plans[i]);
        lemma_matching_only_one(p, h, i);
        assert(!contains(lowercase(plans[n].0), lowercase(h)));
    }
}

proof fn lemma_matching_none(plans: Seq<(Seq<char>, int)>, h: Seq<char>)
    requires
        forall|j: int| 0 <= j < plans.len() ==> !contains(lowercase((#[trigger] plans[j]).0), lowercase(h)),
    ensures
        matching(plans, Some(h)).len() == 0,
    decreases plans.len(),
{
    if plans.len() > 0 {
        let p = plans.drop_last();
        assert forall|j: int| 0 <= j < p.len() implies !contains(
            lowercase((#[trigger] p[j]).0),
            lowercase(h),
        ) by {
            assert(p[j] == plans[j]);
        }
        lemma_matching_none(p, h);
    }
}

/// A hint reads the plan whose heading holds it, ignoring case: when
/// exactly one plan's heading, in lower case, holds the hint's lower-case
/// form, that plan is read; when none does, no plan matches.
pub proof fn lemma_fidelity_hint_picks_the_plan_that_holds_it(t: Seq<char>, h: Seq<char>)
    ensures
        forall|i: int|
            0 <= i < plan_sections(t).len() && contains(
                lowercase((#[trigger] plan_sections(t)[i]).0),
                lowercase(h),
            ) && (forall|j: int|
                0 <= j < plan_sections(t).len() && j != i ==> !contains(
                    lowercase((#[trigger] plan_sections(t)[j]).0),
                    lowercase(h),
                )) ==> (fidelity_outcome(t, Some(h)) matches Ok(p) && p.account_identifier
                == plan_sections(t)[i].0 && p.balance == plan_sections(t)[i].1),
        plan_sections(t).len() > 0 && (forall|j: int|
            0 <= j < plan_sections(t).len() ==> !contains(
                lowercase((#[trigger] plan_sections(t)[j]).0),
                lowercase(h),
            )) ==> fidelity_outcome(t, Some(h)) == Err::<ParsedView, ParseErrorView>(
            ParseErrorView::NoMatchingAccount,
        ),
{
    let plans = plan_sections(t);
    assert forall|i: int|
        0 <= i < plans.len() && contains(lowercase((#[trigger] plans[i]).0), lowercase(h)) && (
        forall|j: int|
            0 <= j < plans.len() && j != i ==> !contains(
                lowercase((#[trigger] plans[j]).0),
                lowercase(h),
            )) implies (fidelity_outcome(t, Some(h)) matches Ok(p) && p.account_identifier
        == plans[i].0 && p.balance == plans[i].1) by {
        lemma_matching_only_one(plans, h, i);
    }
    if forall|j: int| 0 <= j < plans.len() ==> !contains(lowercase((#[trigger] plans[j]).0), lowercase(h)) {
        lemma_matching_none(plans, h);
    }
}

/// A hint picks a Fidelity plan by its heading, ignoring case: the plan
/// read with hint `h` has a heading whose lower-case form holds `h`'s
/// lower-case form; a hint with the same lower-case form (the same
/// letters in other cases) reads exactly the same; and on a statement
/// with one plan, a hint that the plan's heading holds, in any letter
/// case, reads that plan as if there were no hint.
pub proof fn lemma_fidelity_hint_ignores_case(t: Seq<char>, h: Seq<char>, other_case: Seq<char>)
    ensures
        fidelity_outcome(t, Some(h)) matches Ok(p) ==> contains(
            lowercase(p.account_identifier),
            lowercase(h),
        ),
        lowercase(h) == lowercase(other_case) ==> fidelity_outcome(t, Some(h)) == fidelity_outcome(
            t,
            Some(other_case),
        ),
        (fidelity_outcome(t, None) matches Ok(p) && contains(
            lowercase(p.account_identifier),
            lowercase(h),
        )) ==> fidelity_outcome(t, Some(h)) == fidelity_outcome(t, None),
{
    let plans = plan_sections(t);
    lemma_matching_holds_hint(plans, h);
    if lowercase(h) == lowercase(other_case) {
        lemma_matching_same_lowercase(plans, h, other_case);
    }
    lemma_matching_without_hint(plans);
    if plans.len() == 1 {
        assert(plans.drop_last().len() == 0);
        assert(matching(plans.drop_last(), Some(h)).len() == 0);
    }
}

// ---------------------------------------------------------------------
// Implementation
// ---------------------------------------------------------------------

struct PlanSection {
    heading: Vec<char>,
    ending_balance: i64,
}

spec fn plans_view(v: Seq<PlanSection>) -> Seq<(Seq<char>, int)> {
    v.map_values(|p: PlanSection| (p.heading@, p.ending_balance as int))
}

fn heading_line_in(s: &[char]) -> (r: Vec<char>)
    ensures
        r@ == heading_line(s@),
{
    let start = match rfind_before_exec(s, '\n', s.len()) {
        Some(p) => {
            proof {
                lemma_rfind_before_bounds(s@, '\n', s@.len() as int);
            }
            p + 1
        },
        None => 0,
    };
    let rest = slice_vec(s, start, s.len());
    assert(rest@ =~= s@.skip(start as int));
    trim_exec(&rest)
}

/// The heading line that ends at the end of `text_up_to_marker_end`:
/// the text after its last `\n`, trimmed.
pub fn extract_heading_line(text_up_to_marker_end: &str) -> (r: String)
    ensures
        r@ == heading_line(text_up_to_marker_end@),
{
    let t = chars_of(text_up_to_marker_end);
    string_of(&heading_line_in(&t))
}

fn next_ending_balance_in(s: &[char]) -> (r: Option<i64>)
    ensures
        r matches Some(v) ==> next_ending_balance(s@) == Some(v as int),
        r is None ==> next_ending_balance(s@) is None,
{
    let marker = chars_of("Ending Balance $");
    proof {
        reveal_strlit("Ending Balance $");
    }
    match find_exec(s, &marker) {
        None => None,
        Some(q) => amount_at_exec(s, q + marker.len()),
    }
}

fn plan_scan_exec(t: &[char], m: &[char]) -> (r: Vec<PlanSection>)
    requires
        m.len() > 0,
    ensures
        plans_view(r@) == plan_scan(t@, m@, 0, seq![]),
{
    let mut acc: Vec<PlanSection> = Vec::new();
    let mut from: usize = 0;
    assert(plans_view(acc@) =~= seq![]);
    while from < t.len()
        invariant
            m.len() > 0,
            from <= t.len(),
            plan_scan(t@, m@, 0, seq![]) == plan_scan(t@, m@, from as int, plans_view(acc@)),
        decreases t.len() - from,
    {
        let ghost before = plans_view(acc@);
        match find_from_exec(t, m, from) {
            None => {
                return acc;
            },
            Some(ms) => {
                let me = ms + m.len();
                let tail = slice_vec(t, me, t.len());
                assert(tail@ =~= t@.skip(me as int));
                match next_ending_balance_in(&tail) {
                    Some(b) => {
                        let head = slice_vec(t, 0, me);
                        assert(head@ =~= t@.take(me as int));
                        let heading = heading_line_in(&head);
                        let ghost hv = heading@;
                        acc.push(PlanSection { heading, ending_balance: b });
                        assert(plans_view(acc@) =~= before.push((hv, b as int)));
                    },
                    None => {},
                }
                if me >= t.len() {
                    return acc;
                }
                from = me;
            },
        }
    }
    acc
}

fn matching_exec(plans: &Vec<PlanSection>, hint: &Option<String>) -> (r: Vec<usize>)
    ensures
        r.len() == matching(plans_view(plans@), hint_of(hint)).len(),
        forall|i: int|
            0 <= i < r.len() ==> #[trigger] r@[i] < plans.len() && matching(
                plans_view(plans@),
                hint_of(hint),
            )[i] == plans_view(plans@)[r@[i] as int],
{
    let ghost v = plans_view(plans@);
    let lower_hint: Option<Vec<char>> = match hint {
        Some(h) => Some(crate::text::lowercase_chars(h.as_str())),
        None => None,
    };
    let mut r: Vec<usize> = Vec::new();
    let mut i: usize = 0;
    while i < plans.len()
        invariant
            i <= plans.len(),
            v == plans_view(plans@),
            lower_hint matches Some(lh) ==> hint_of(hint) matches Some(h) && lh@ == lowercase(h),
            lower_hint is None ==> hint_of(hint) is None,
            r.len() == matching(v.take(i as int), hint_of(hint)).len(),
            forall|k: int|
                0 <= k < r.len() ==> #[trigger] r@[k] < i && matching(
                    v.take(i as int),
                    hint_of(hint),
                )[k] == v[r@[k] as int],
        decreases plans.len() - i,
    {
        let ghost prev = matching(v.take(i as int), hint_of(hint));
        assert(v.take(i + 1).drop_last() =~= v.take(i as int));
        assert(v.take(i + 1).last() == v[i as int]);
        assert(v[i as int].0 == plans@[i as int].heading@);
        let keep = match &lower_hint {
            Some(lh) => {
                let lower = to_lowercase(&plans[i].heading);
                contains_exec(&lower, lh)
            },
            None => true,
        };
        let ghost old_r = r@;
        if keep {
            r.push(i);
            assert(matching(v.take(i + 1), hint_of(hint)) == prev.push(v[i as int]));
            assert forall|k: int| 0 <= k < r.len() implies #[trigger] r@[k] < i + 1 && matching(
                v.take(i + 1),
                hint_of(hint),
            )[k] == v[r@[k] as int] by {
                if k < old_r.len() {
                    assert(r@[k] == old_r[k]);
                    assert(old_r[k] < i);
                    assert(prev[k] == v[old_r[k] as int]);
                }
            }
        } else {
            assert(matching(v.take(i + 1), hint_of(hint)) == prev);
        }
        i = i + 1;
    }
    assert(v.take(plans.len() as int) =~= v);
    r
}

pub open spec fn hint_of(hint: &Option<String>) -> Option<Seq<char>> {
    match hint {
        Some(h) => Some(h@),
        None => None,
    }
}

fn statement_period_end_in(t: &[char]) -> (r: Option<Vec<char>>)
    ensures
        r matches Some(v) ==> statement_period_end(t@) == Some(v@),
        r is None ==> statement_period_end(t@) is None,
{
    let marker = chars_of("Statement Period: ");
    let to = chars_of(" to ");
    proof {
        reveal_strlit("Statement Period: ");
        reveal_strlit(" to ");
    }
    match find_exec(t, &marker) {
        None => None,
        Some(q) => {
            let start = q + marker.len();
            let rest = slice_vec(t, start, t.len());
            assert(rest@ =~= t@.skip(start as int));
            match find_exec(&rest, &to) {
                None => None,
                Some(rel) => {
                    let s = start + rel + to.len();
                    let e = run_end_exec(t, s, CharClass::SlashDate);
                    if e > s {
                        Some(slice_vec(t, s, e))
                    } else {
                        None
                    }
                },
            }
        },
    }
}

/// The end date of the statement's `"Statement Period: [start] to
/// [end]"`, if it has one.
pub fn extract_statement_period_end(text: &str) -> (r: Option<String>)
    ensures
        r matches Some(d) ==> statement_period_end(text@) == Some(d@),
        r is None ==> statement_period_end(text@) is None,
{
    let t = chars_of(text);
    match statement_period_end_in(&t) {
        Some(d) => Some(string_of(&d)),
        None => None,
    }
}

impl StatementParser for FidelityStatementParser {
    open spec fn kind(&self) -> ParserKind {
        ParserKind::Fidelity
    }

    fn institution(&self) -> (r: &'static str) {
        "fidelity"
    }

    fn parse(&self, text: &str, expected: &ExpectedAccount) -> (r: Result<ParsedStatement, ParseError>) {
        let t = chars_of(text);
        let m = chars_of("401(k) Plan");
        proof {
            reveal_strlit("401(k) Plan");
        }
        let plans = plan_scan_exec(&t, &m);
        if plans.len() == 0 {
            return Err(
                ParseError::UnrecognizedLayout(
                    "no '[Employer] 401(k) Plan' heading found".to_string(),
                ),
            );
        }
        let ms = matching_exec(&plans, &expected.account_hint);
        if ms.len() == 0 {
            Err(ParseError::NoMatchingAccount)
        } else if ms.len() == 1 {
            let plan = &plans[ms[0]];
            let date = match statement_period_end_in(&t) {
                Some(d) => string_of(&d),
                None => String::new(),
            };
            let r = Ok(
                ParsedStatement {
                    balance: plan.ending_balance,
                    as_of_date: date,
                    account_identifier: string_of(&plan.heading),
                    category: Category::Asset,
                    holdings: Vec::new(),
                    apr: None,
                },
            );
            proof {
                assert(holdings_view(Seq::<crate::account::Holding>::empty()) =~= seq![]);
                assert(ms@[0] < plans.len());
                assert(matching(plan_sections(t@), expected.hint())[0] == plans_view(
                    plans@,
                )[ms@[0] as int]);
            }
            r
        } else {
            Err(ParseError::AmbiguousMatch)
        }
    }
}

} // verus!
