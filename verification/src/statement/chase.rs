//! Chase statements: checking/savings (`"Account ending in ####"` or
//! `"Account Number:"` with a full or masked number) and credit card
//! (`"Account Number:  XXXX XXXX XXXX ####"`). Each account-id marker is
//! paired with the nearest following `"Balance $X"` (which also covers
//! `"New Balance $X"`), or, failing that, the first `$X` within 40
//! characters after `"Ending Balance"`. A multi-page statement repeats
//! its account marker on every page, so accounts are kept once per
//! last-4.

use vstd::prelude::*;

use crate::amount::{amount_at, amount_at_exec};
use crate::snapshot::Category;
use crate::statement::parser::{
    holdings_view, outcome, ExpectedAccount, ParseError, ParseErrorView, ParsedStatement, ParsedView,
    ParserKind, StatementParser,
};
use crate::statement::scan::{or_empty, percentage_after, percentage_after_exec};
use crate::text::{
    chars_equal, chars_of, contains, contains_exec, find, find_class_from,
    find_class_from_exec, find_exec, find_from, find_from_exec, lemma_find_class_from_bounds,
    lemma_find_from_bounds, lemma_run_end_bounds, lowercase, min, run_end, run_end_exec,
    slice_vec, string_of, to_lowercase, CharClass,
};

verus! {

pub struct ChaseStatementParser;

// ---------------------------------------------------------------------
// Specification
// ---------------------------------------------------------------------

/// The last four digits of the first digit run of `s` that starts
/// within its first 40 characters (the run itself may go on past them),
/// if that run has at least four digits.
pub open spec fn last4_in(s: Seq<char>) -> Option<Seq<char>> {
    let w = s.take(min(40, s.len() as int));
    match find_class_from(w, CharClass::Digit, 0) {
        None => None,
        Some(ds) => {
            let e = run_end(s, ds, CharClass::Digit);
            if e - ds >= 4 {
                Some(s.subrange(e - 4, e))
            } else {
                None
            }
        },
    }
}

/// The amount right after the first `"Balance $"` in `s`.
pub open spec fn adjacent_balance(s: Seq<char>) -> Option<int> {
    match find(s, "Balance $"@) {
        None => None,
        Some(q) => match amount_at(s, q + "Balance $"@.len()) {
            Some(v) => Some(v as int),
            None => None,
        },
    }
}

/// The first `$X` within 40 characters after the first `"Ending Balance"`
/// in `s`.
pub open spec fn ending_balance(s: Seq<char>) -> Option<int> {
    match find(s, "Ending Balance"@) {
        None => None,
        Some(q) => {
            let st = q + "Ending Balance"@.len();
            let w = s.subrange(st, min(st + 40, s.len() as int));
            match find(w, "$"@) {
                None => None,
                Some(d) => match amount_at(w, d + 1) {
                    Some(v) => Some(v as int),
                    None => None,
                },
            }
        },
    }
}

/// The balance that follows an account marker (the text after it is `s`).
pub open spec fn balance_in(s: Seq<char>) -> Option<int> {
    match adjacent_balance(s) {
        Some(b) => Some(b),
        None => ending_balance(s),
    }
}

/// Some account already found has this last-4.
pub open spec fn seen(acc: Seq<(Seq<char>, int)>, l4: Seq<char>) -> bool {
    exists|i: int| 0 <= i < acc.len() && acc[i].0 == l4
}

/// The accounts found by scanning `t` for `m` from `from` on, added to
/// `acc`: each occurrence whose last-4 is new and whose balance can be
/// read adds `(last-4, balance)`.
pub open spec fn scan(t: Seq<char>, m: Seq<char>, from: int, acc: Seq<(Seq<char>, int)>) -> Seq<
    (Seq<char>, int),
>
    decreases t.len() - from,
{
    if from < 0 || m.len() == 0 {
        acc
    } else {
        match find_from(t, m, from) {
            None => acc,
            Some(pos) => {
                proof {
                    lemma_find_from_bounds(t, m, from);
                }
                let after = pos + m.len();
                let tail = t.skip(after);
                let acc2 = match last4_in(tail) {
                    Some(l4) => if seen(acc, l4) {
                        acc
                    } else {
                        match balance_in(tail) {
                            Some(b) => acc.push((l4, b)),
                            None => acc,
                        }
                    },
                    None => acc,
                };
                if after >= t.len() {
                    acc2
                } else {
                    scan(t, m, after, acc2)
                }
            },
        }
    }
}

/// Every account in a Chase statement's text, in the order found.
pub open spec fn sections(t: Seq<char>) -> Seq<(Seq<char>, int)> {
    scan(t, "Account Number:"@, 0, scan(t, "Account ending in "@, 0, seq![]))
}

/// The accounts whose last-4 equals the hint (all of them without one).
pub open spec fn matching(secs: Seq<(Seq<char>, int)>, hint: Option<Seq<char>>) -> Seq<
    (Seq<char>, int),
>
    decreases secs.len(),
{
    if secs.len() == 0 {
        secs
    } else {
        let rest = matching(secs.drop_last(), hint);
        match hint {
            Some(h) => if secs.last().0 == h {
                rest.push(secs.last())
            } else {
                rest
            },
            None => rest.push(secs.last()),
        }
    }
}

/// The `MM/DD/YYYY` date after `"Statement Date: "`.
pub open spec fn statement_date(t: Seq<char>) -> Option<Seq<char>> {
    match find(t, "Statement Date: "@) {
        None => None,
        Some(q) => {
            let s = q + "Statement Date: "@.len();
            let e = run_end(t, s, CharClass::SlashDate);
            if e > s {
                Some(t.subrange(s, e))
            } else {
                None
            }
        },
    }
}

/// The `PURCHASES` rate inside the `INTEREST CHARGES` section.
pub open spec fn purchases_apr(t: Seq<char>) -> Option<int> {
    match find(t, "INTEREST CHARGES"@) {
        None => None,
        Some(q) => percentage_after(t.skip(q), "PURCHASES"@, 300),
    }
}

/// Liability if the statement uses credit-card wording anywhere (in any
/// case), asset otherwise.
pub open spec fn detect_category(t: Seq<char>) -> Category {
    let lower = lowercase(t);
    if contains(lower, lowercase("Minimum Payment Due"@)) || contains(
        lower,
        lowercase("Credit Limit"@),
    ) || contains(lower, lowercase("Credit Access Line"@)) || contains(
        lower,
        lowercase("Available Credit"@),
    ) {
        Category::Liability
    } else {
        Category::Asset
    }
}

/// What parsing a Chase statement's text gives.
pub open spec fn chase_outcome(t: Seq<char>, hint: Option<Seq<char>>) -> Result<
    ParsedView,
    ParseErrorView,
> {
    let secs = sections(t);
    if secs.len() == 0 {
        Err(
            ParseErrorView::UnrecognizedLayout(
                "no 'Account ending in ####' or 'Account Number:' section found"@,
            ),
        )
    } else {
        let ms = matching(secs, hint);
        if ms.len() == 0 {
            Err(ParseErrorView::NoMatchingAccount)
        } else if ms.len() == 1 {
            Ok(
                ParsedView {
                    balance: ms[0].1,
                    as_of_date: or_empty(statement_date(t)),
                    account_identifier: ms[0].0,
                    category: detect_category(t),
                    holdings: seq![],
                    apr: purchases_apr(t),
                },
            )
        } else {
            Err(ParseErrorView::AmbiguousMatch)
        }
    }
}

// ---------------------------------------------------------------------
// Laws
// ---------------------------------------------------------------------

/// No two accounts in `acc` share a last-4.
pub open spec fn distinct_last4s(acc: Seq<(Seq<char>, int)>) -> bool {
    forall|i: int, j: int| 0 <= i < j < acc.len() ==> (#[trigger] acc[i]).0 != (#[trigger] acc[j]).0
}

proof fn lemma_scan_keeps_distinct(t: Seq<char>, m: Seq<char>, from: int, acc: Seq<(Seq<char>, int)>)
    requires
        distinct_last4s(acc),
    ensures
        distinct_last4s(scan(t, m, from, acc)),
    decreases t.len() - from,
{
    if from < 0 || m.len() == 0 {
    } else {
        match find_from(t, m, from) {
            None => {},
            Some(pos) => {
                lemma_find_from_bounds(t, m, from);
                let after = pos + m.len();
                let tail = t.skip(after);
                let acc2 = match last4_in(tail) {
                    Some(l4) => if seen(acc, l4) {
                        acc
                    } else {
                        match balance_in(tail) {
                            Some(b) => acc.push((l4, b)),
                            None => acc,
                        }
                    },
                    None => acc,
                };
                if let Some(l4) = last4_in(tail) {
                    if !seen(acc, l4) {
                        if let Some(b) = balance_in(tail) {
                            assert forall|i: int, j: int| 0 <= i < j < acc2.len() implies (
                            #[trigger] acc2[i]).0 != (#[trigger] acc2[j]).0 by {
                                if j == acc.len() {
                                    assert(acc2[i] == acc[i]);
                                    assert(acc2[j].0 == l4);
                                } else {
                                    assert(acc2[i] == acc[i] && acc2[j] == acc[j]);
                                }
                            }
                        }
                    }
                }
                assert(distinct_last4s(acc2));
                if after < t.len() {
                    lemma_scan_keeps_distinct(t, m, after, acc2);
                }
            },
        }
    }
}

proof fn lemma_matching_none_found(secs: Seq<(Seq<char>, int)>, h: Seq<char>)
    requires
        forall|i: int| 0 <= i < secs.len() ==> (#[trigger] secs[i]).0 != h,
    ensures
        matching(secs, Some(h)).len() == 0,
    decreases secs.len(),
{
    if secs.len() > 0 {
        lemma_matching_none_found(secs.drop_last(), h);
    }
}

proof fn lemma_matching_the_one(secs: Seq<(Seq<char>, int)>, h: Seq<char>, k: int)
    requires
        distinct_last4s(secs),
        0 <= k < secs.len(),
        secs[k].0 == h,
    ensures
        matching(secs, Some(h)) == seq![secs[k]],
    decreases secs.len(),
{
    let p = secs.drop_last();
    let n = secs.len() - 1;
    assert(distinct_last4s(p)) by {
        assert forall|i: int, j: int| 0 <= i < j < p.len() implies (#[trigger] p[i]).0 != (
        #[trigger] p[j]).0 by {
            assert(p[i] == secs[i] && p[j] == secs[j]);
        }
    }
    if k == n {
        assert forall|i: int| 0 <= i < p.len() implies (#[trigger] p[i]).0 != h by {
            assert(p[i] == secs[i]);
        }
        lemma_matching_none_found(p, h);
        assert(matching(p, Some(h)) =~= Seq::<(Seq<char>, int)>::empty());
        assert(matching(secs, Some(h)) =~= seq![secs[k]]);
    } else {
        assert(p[k] == secs[k]);
        lemma_matching_the_one(p, h, k);
        assert(secs.last().0 != h);
    }
}

/// A statement repeats an account's marker on every page, in any order
/// among the other accounts' markers: the accounts found in a Chase
/// statement have pairwise distinct last-4s.
/// So a hint that names the last-4 of an account found in the
/// statement always reads that account, however often its marker
/// repeats.
pub proof fn lemma_sections_have_distinct_last4s(t: Seq<char>, h: Seq<char>)
    ensures
        distinct_last4s(sections(t)),
        forall|k: int|
            0 <= k < sections(t).len() && (#[trigger] sections(t)[k]).0 == h ==> (chase_outcome(
                t,
                Some(h),
            ) matches Ok(p) && p.account_identifier == h && p.balance == sections(t)[k].1),
{
    lemma_scan_keeps_distinct(t, "Account ending in "@, 0, seq![]);
    lemma_scan_keeps_distinct(t, "Account Number:"@, 0, scan(t, "Account ending in "@, 0, seq![]));
    assert forall|k: int|
        0 <= k < sections(t).len() && (#[trigger] sections(t)[k]).0 == h implies (chase_outcome(
            t,
            Some(h),
        ) matches Ok(p) && p.account_identifier == h && p.balance == sections(t)[k].1) by {
        lemma_matching_the_one(sections(t), h, k);
    }
}

// ---------------------------------------------------------------------
// Implementation
// ---------------------------------------------------------------------

struct Section {
    last4: Vec<char>,
    balance: i64,
}

spec fn sections_view(v: Seq<Section>) -> Seq<(Seq<char>, int)> {
    v.map_values(|s: Section| (s.last4@, s.balance as int))
}

fn last4_exec(s: &[char]) -> (r: Option<Vec<char>>)
    ensures
        r matches Some(v) ==> last4_in(s@) == Some(v@),
        r is None ==> last4_in(s@) is None,
{
    let wend = if s.len() < 40 {
        s.len()
    } else {
        40
    };
    let w = slice_vec(s, 0, wend);
    assert(w@ =~= s@.take(min(40, s.len() as int)));
    match find_class_from_exec(&w, CharClass::Digit, 0) {
        None => None,
        Some(ds) => {
            proof {
                lemma_find_class_from_bounds(w@, CharClass::Digit, 0);
            }
            let e = run_end_exec(s, ds, CharClass::Digit);
            if e - ds >= 4 {
                Some(slice_vec(s, e - 4, e))
            } else {
                None
            }
        },
    }
}

fn adjacent_balance_exec(s: &[char]) -> (r: Option<i64>)
    ensures
        r matches Some(v) ==> adjacent_balance(s@) == Some(v as int),
        r is None ==> adjacent_balance(s@) is None,
{
    let marker = chars_of("Balance $");
    match find_exec(s, &marker) {
        None => None,
        Some(q) => {
            proof {
                reveal_strlit("Balance $");
                lemma_find_from_bounds(s@, marker@, 0);
            }
            amount_at_exec(s, q + marker.len())
        },
    }
}

fn ending_balance_exec(s: &[char]) -> (r: Option<i64>)
    ensures
        r matches Some(v) ==> ending_balance(s@) == Some(v as int),
        r is None ==> ending_balance(s@) is None,
{
    let marker = chars_of("Ending Balance");
    match find_exec(s, &marker) {
        None => None,
        Some(q) => {
            proof {
                reveal_strlit("Ending Balance");
                lemma_find_from_bounds(s@, marker@, 0);
            }
            let st = q + marker.len();
            let end = if s.len() - st < 40 {
                s.len()
            } else {
                st + 40
            };
            let w = slice_vec(s, st, end);
            let dollar = chars_of("$");
            match find_exec(&w, &dollar) {
                None => None,
                Some(d) => {
                    proof {
                        reveal_strlit("$");
                        lemma_find_from_bounds(w@, dollar@, 0);
                    }
                    amount_at_exec(&w, d + dollar.len())
                },
            }
        },
    }
}

fn balance_exec(s: &[char]) -> (r: Option<i64>)
    ensures
        r matches Some(v) ==> balance_in(s@) == Some(v as int),
        r is None ==> balance_in(s@) is None,
{
    match adjacent_balance_exec(s) {
        Some(b) => Some(b),
        None => ending_balance_exec(s),
    }
}

fn seen_exec(acc: &Vec<Section>, l4: &[char]) -> (r: bool)
    ensures
        r == seen(sections_view(acc@), l4@),
{
    let ghost v = sections_view(acc@);
    let mut i: usize = 0;
    while i < acc.len()
        invariant
            i <= acc.len(),
            v == sections_view(acc@),
            forall|j: int| 0 <= j < i ==> v[j].0 != l4@,
        decreases acc.len() - i,
    {
        if chars_equal(&acc[i].last4, l4) {
            assert(v[i as int].0 == l4@);
            return true;
        }
        i = i + 1;
    }
    false
}

fn scan_exec(t: &[char], m: &[char], acc: &mut Vec<Section>)
    requires
        m.len() > 0,
    ensures
        sections_view(final(acc)@) == scan(t@, m@, 0, sections_view(old(acc)@)),
{
    let mut search_from: usize = 0;
    while search_from < t.len()
        invariant
            m.len() > 0,
            search_from <= t.len(),
            scan(t@, m@, 0, sections_view(old(acc)@)) == scan(
                t@,
                m@,
                search_from as int,
                sections_view(acc@),
            ),
        decreases t.len() - search_from,
    {
        let ghost before = sections_view(acc@);
        match find_from_exec(t, m, search_from) {
            None => {
                return;
            },
            Some(pos) => {
                proof {
                    lemma_find_from_bounds(t@, m@, search_from as int);
                }
                let after = pos + m.len();
                let tail = slice_vec(t, after, t.len());
                assert(tail@ =~= t@.skip(after as int));
                match last4_exec(&tail) {
                    Some(l4) => {
                        if !seen_exec(acc, &l4) {
                            match balance_exec(&tail) {
                                Some(b) => {
                                    acc.push(Section { last4: l4, balance: b });
                                    assert(sections_view(acc@) =~= before.push((l4@, b as int)));
                                },
                                None => {},
                            }
                        }
                    },
                    None => {},
                }
                if after >= t.len() {
                    return;
                }
                search_from = after;
            },
        }
    }
    proof {
        if search_from as int + m.len() > t.len() {
        }
    }
}

fn statement_date_exec(t: &[char]) -> (r: Option<Vec<char>>)
    ensures
        r matches Some(v) ==> statement_date(t@) == Some(v@),
        r is None ==> statement_date(t@) is None,
{
    let marker = chars_of("Statement Date: ");
    match find_exec(t, &marker) {
        None => None,
        Some(q) => {
            proof {
                reveal_strlit("Statement Date: ");
                lemma_find_from_bounds(t@, marker@, 0);
            }
            let s = q + marker.len();
            let e = run_end_exec(t, s, CharClass::SlashDate);
            if e > s {
                Some(slice_vec(t, s, e))
            } else {
                None
            }
        },
    }
}

fn purchases_apr_exec(t: &[char]) -> (r: Option<i64>)
    ensures
        r matches Some(v) ==> purchases_apr(t@) == Some(v as int),
        r is None ==> purchases_apr(t@) is None,
{
    let marker = chars_of("INTEREST CHARGES");
    match find_exec(t, &marker) {
        None => None,
        Some(q) => {
            proof {
                lemma_find_from_bounds(t@, marker@, 0);
            }
            let rest = slice_vec(t, q, t.len());
            assert(rest@ =~= t@.skip(q as int));
            let purchases = chars_of("PURCHASES");
            percentage_after_exec(&rest, &purchases, 300)
        },
    }
}

fn detect_category_exec(t: &[char]) -> (r: Category)
    ensures
        r == detect_category(t@),
{
    let lower = to_lowercase(t);
    let m1 = crate::text::lowercase_chars("Minimum Payment Due");
    let m2 = crate::text::lowercase_chars("Credit Limit");
    let m3 = crate::text::lowercase_chars("Credit Access Line");
    let m4 = crate::text::lowercase_chars("Available Credit");
    if contains_exec(&lower, &m1) || contains_exec(&lower, &m2) || contains_exec(&lower, &m3)
        || contains_exec(&lower, &m4) {
        Category::Liability
    } else {
        Category::Asset
    }
}

fn matching_exec(secs: &Vec<Section>, hint: &Option<String>) -> (r: Vec<usize>)
    ensures
        r.len() == matching(sections_view(secs@), hint_of(hint)).len(),
        forall|i: int|
            0 <= i < r.len() ==> #[trigger] r@[i] < secs.len() && matching(
                sections_view(secs@),
                hint_of(hint),
            )[i] == sections_view(secs@)[r@[i] as int],
{
    let ghost v = sections_view(secs@);
    let hint_chars: Option<Vec<char>> = match hint {
        Some(h) => Some(chars_of(h.as_str())),
        None => None,
    };
    let mut r: Vec<usize> = Vec::new();
    let mut i: usize = 0;
    while i < secs.len()
        invariant
            i <= secs.len(),
            v == sections_view(secs@),
            hint_chars matches Some(hc) ==> hint_of(hint) == Some(hc@),
            hint_chars is None ==> hint_of(hint) is None,
            r.len() == matching(v.take(i as int), hint_of(hint)).len(),
            forall|k: int|
                0 <= k < r.len() ==> #[trigger] r@[k] < i && matching(
                    v.take(i as int),
                    hint_of(hint),
                )[k] == v[r@[k] as int],
        decreases secs.len() - i,
    {
        let ghost prev = matching(v.take(i as int), hint_of(hint));
        assert(v.take(i + 1).drop_last() =~= v.take(i as int));
        assert(v.take(i + 1).last() == v[i as int]);
        assert(v[i as int].0 == secs@[i as int].last4@);
        let keep = match &hint_chars {
            Some(hc) => chars_equal(&secs[i].last4, hc),
            None => true,
        };
        let ghost old_r = r@;
        if keep {
            r.push(i);
            assert(matching(v.take(i + 1), hint_of(hint)) == prev.push(v[i as int]));
            assert forall|k: int| 0 <= k < r.len() implies #[trigger] r@[k] < i + 1 && matching(
                v.take(i + 1),
                hint_of(hint),
            )[k] == v[r@[k] as int] by {
                if k < old_r.len() {
                    assert(r@[k] == old_r[k]);
                    assert(old_r[k] < i);
                    assert(prev[k] == v[old_r[k] as int]);
                }
            }
        } else {
            assert(matching(v.take(i + 1), hint_of(hint)) == prev);
        }
        i = i + 1;
    }
    assert(v.take(secs.len() as int) =~= v);
    r
}

pub open spec fn hint_of(hint: &Option<String>) -> Option<Seq<char>> {
    match hint {
        Some(h) => Some(h@),
        None => None,
    }
}

impl StatementParser for ChaseStatementParser {
    open spec fn kind(&self) -> ParserKind {
        ParserKind::Chase
    }

    fn institution(&self) -> (r: &'static str) {
        "chase"
    }

    fn parse(&self, text: &str, expected: &ExpectedAccount) -> (r: Result<ParsedStatement, ParseError>) {
        let t = chars_of(text);
        let mut secs: Vec<Section> = Vec::new();
        let m1 = chars_of("Account ending in ");
        let m2 = chars_of("Account Number:");
        proof {
            reveal_strlit("Account ending in ");
            reveal_strlit("Account Number:");
        }
        assert(sections_view(secs@) =~= seq![]);
        scan_exec(&t, &m1, &mut secs);
        scan_exec(&t, &m2, &mut secs);
        assert(sections_view(secs@) == sections(t@));
        if secs.len() == 0 {
            return Err(
                ParseError::UnrecognizedLayout(
                    "no 'Account ending in ####' or 'Account Number:' section found".to_string(),
                ),
            );
        }
        let ms = matching_exec(&secs, &expected.account_hint);
        if ms.len() == 0 {
            Err(ParseError::NoMatchingAccount)
        } else if ms.len() == 1 {
            let sec = &secs[ms[0]];
            let date = match statement_date_exec(&t) {
                Some(d) => string_of(&d),
                None => String::new(),
            };
            let r = Ok(
                ParsedStatement {
                    balance: sec.balance,
                    as_of_date: date,
                    account_identifier: string_of(&sec.last4),
                    category: detect_category_exec(&t),
                    holdings: Vec::new(),
                    apr: purchases_apr_exec(&t),
                },
            );
            proof {
                let ghost pv = ParsedView {
                    balance: sec.balance as int,
                    as_of_date: or_empty(statement_date(t@)),
                    account_identifier: sec.last4@,
                    category: detect_category(t@),
                    holdings: seq![],
                    apr: purchases_apr(t@),
                };
                assert(holdings_view(Seq::<crate::account::Holding>::empty()) =~= seq![]);
                assert(outcome(r) == Ok::<ParsedView, ParseErrorView>(pv));
                assert(ms@[0] < secs.len());
                assert(matching(sections(t@), expected.hint())[0] == sections_view(secs@)[ms@[0] as int]);
                assert(chase_outcome(t@, expected.hint()) == Ok::<ParsedView, ParseErrorView>(pv));
            }
            r
        } else {
            Err(ParseError::AmbiguousMatch)
        }
    }
}

} // verus!
