//! Vanguard statements, in both of their layouts:
//!
//! - 529/savings: one `"Account overview"` section and an account
//!   number shaped `"Account number: XXXXX####-##"`;
//! - Cash Plus/brokerage: a multi-account `"Statement overview"` (never
//!   read) and a per-account `"Account overview"`, with the account
//!   named `"... account\u{2014}XXXX####"`.
//!
//! Every `"Account overview"` heading that a dollar amount follows is
//! one account: its balance is the first `$X` after the heading, its
//! identifier the account marker nearest before the heading.
//!
//! Holdings come from two optional tables: the `"Total Sweep Balance"`
//! line (the last amount on it is the current one) and the
//! `"Mutual funds"` table, one row per fund shaped `SYMBOL <qty> <price>
//! <balance> <balance>NAME`, whose last amount is the current value and
//! whose name runs straight after it.

use vstd::prelude::*;

use crate::account::Holding;
use crate::amount::{cents_display, display_cents};
use crate::snapshot::Category;
use crate::statement::parser::{
    holdings_view, outcome, ExpectedAccount, HoldingView, ParseError, ParseErrorView,
    ParsedStatement, ParsedView, ParserKind, StatementParser,
};
use crate::statement::scan::{
    last_dollar, last_dollar_exec, last_marked_run, last_marked_run_exec, lemma_last_marked_run_is_last, marked_run_at, first_char_unique, run_view, line_end, line_end_exec, nth_dollar, nth_dollar_exec, or_empty,
    section_bounds, section_bounds_exec, word_date_after, word_date_after_exec,
};
use crate::text::{
    chars_equal, chars_of, find, find_exec, find_from, find_from_exec, is_digit, is_digit_exec,
    is_ws, is_ws_exec, lemma_find_from_bounds, lemma_run_end_bounds, lemma_skip_ws_bounds,
    run_end, run_end_exec, skip_ws, skip_ws_exec, slice_vec, string_of, CharClass,
};

verus! {

pub struct VanguardStatementParser;

// ---------------------------------------------------------------------
// Specification
// ---------------------------------------------------------------------

/// The last 529-style identifier (`"Account number: XXXXX####-##"`) in
/// `t`, with its position.
pub open spec fn account_number_field(t: Seq<char>) -> Option<(int, Seq<char>)> {
    last_marked_run(t, "Account number: "@, CharClass::AlnumDash, 0, None)
}

/// The last brokerage-style identifier (`"...account\u{2014}XXXX####"`)
/// in `t`, with its position.
pub open spec fn em_dash_account(t: Seq<char>) -> Option<(int, Seq<char>)> {
    last_marked_run(t, "account\u{2014}"@, CharClass::Alnum, 0, None)
}

/// The identifier nearest the end of `t`, of either style.
pub open spec fn nearest_account_id(t: Seq<char>) -> Option<Seq<char>> {
    match (account_number_field(t), em_dash_account(t)) {
        (Some(a), Some(b)) => if a.0 >= b.0 {
            Some(a.1)
        } else {
            Some(b.1)
        },
        (Some(a), None) => Some(a.1),
        (None, Some(b)) => Some(b.1),
        (None, None) => None,
    }
}

/// The accounts found by scanning `t` for the heading `m` from `from` on,
/// added to `acc`: a heading followed by a dollar amount adds the
/// identifier nearest before it and that amount.
pub open spec fn overview_scan(
    t: Seq<char>,
    m: Seq<char>,
    from: int,
    acc: Seq<(Option<Seq<char>>, int)>,
) -> Seq<(Option<Seq<char>>, int)>
    decreases t.len() - from,
{
    if from < 0 || m.len() == 0 {
        acc
    } else {
        match find_from(t, m, from) {
            None => acc,
            Some(h) => {
                proof {
                    lemma_find_from_bounds(t, m, from);
                }
                let after = h + m.len();
                let acc2 = match nth_dollar(t.skip(after), 1) {
                    Some(b) => acc.push((nearest_account_id(t.take(h)), b)),
                    None => acc,
                };
                if after >= t.len() {
                    acc2
                } else {
                    overview_scan(t, m, after, acc2)
                }
            },
        }
    }
}

/// Every account of a Vanguard statement, in order.
pub open spec fn overview_sections(t: Seq<char>) -> Seq<(Option<Seq<char>>, int)> {
    overview_scan(t, "Account overview"@, 0, seq![])
}

/// The accounts whose identifier equals the hint (all of them without
/// one; an account with no identifier matches no hint).
pub open spec fn matching(secs: Seq<(Option<Seq<char>>, int)>, hint: Option<Seq<char>>) -> Seq<
    (Option<Seq<char>>, int),
>
    decreases secs.len(),
{
    if secs.len() == 0 {
        secs
    } else {
        let rest = matching(secs.drop_last(), hint);
        match hint {
            Some(h) => if secs.last().0 == Some(h) {
                rest.push(secs.last())
            } else {
                rest
            },
            None => rest.push(secs.last()),
        }
    }
}

/// The `"Total Sweep Balance"` line's current (last) amount, as the
/// sweep fund's holding.
pub open spec fn sweep_holding(t: Seq<char>) -> Option<HoldingView> {
    match find(t, "Total Sweep Balance "@) {
        None => None,
        Some(q) => {
            let s = q + "Total Sweep Balance "@.len();
            match last_dollar(t.subrange(s, line_end(t, s))) {
                None => None,
                Some(d) => Some(
                    HoldingView {
                        symbol: "SWEEP"@,
                        description: "Vanguard Federal Money Market Fund (Sweep)"@,
                        value: d.0,
                    },
                ),
            }
        },
    }
}

/// `s`'s words (its runs of non-whitespace) joined by single spaces.
pub open spec fn squash_ws(s: Seq<char>) -> Seq<char>
    decreases s.len(),
{
    if s.len() == 0 {
        s
    } else {
        let prev = squash_ws(s.drop_last());
        let c = s.last();
        if is_ws(c) {
            prev
        } else if s.len() >= 2 && is_ws(s[s.len() - 2]) && prev.len() > 0 {
            prev.push(' ').push(c)
        } else {
            prev.push(c)
        }
    }
}

/// A fund row's symbol, with its position in the line: the line, past
/// its leading whitespace, starts with two to five capital letters, a
/// space and (past more whitespace) a digit.
pub open spec fn row_symbol(line: Seq<char>) -> Option<(int, Seq<char>)> {
    let ws = skip_ws(line, 0);
    let se = run_end(line, ws, CharClass::Upper);
    let d = skip_ws(line, se);
    if 2 <= se - ws <= 5 && se < line.len() && line[se] == ' ' && d < line.len() && is_digit(
        line[d],
    ) {
        Some((ws, line.subrange(ws, se)))
    } else {
        None
    }
}

/// The fund rows of `sec` that start on the lines from position `ls` on,
/// added to `acc`, each as its symbol's position and the symbol. A line
/// runs up to and including its `\n`.
pub open spec fn symbol_rows(sec: Seq<char>, ls: int, acc: Seq<(int, Seq<char>)>) -> Seq<
    (int, Seq<char>),
>
    decreases sec.len() - ls,
{
    if ls < 0 || ls >= sec.len() {
        acc
    } else {
        proof {
            lemma_find_from_bounds(sec, seq!['\n'], ls);
        }
        let le = line_end(sec, ls);
        let next = if le < sec.len() {
            le + 1
        } else {
            sec.len() as int
        };
        let acc2 = match row_symbol(sec.subrange(ls, next)) {
            Some(r) => acc.push((ls + r.0, r.1)),
            None => acc,
        };
        symbol_rows(sec, next, acc2)
    }
}

/// `s` up to its first blank line (`"\n\n"`).
pub open spec fn before_blank_line(s: Seq<char>) -> Seq<char> {
    match find(s, seq!['\n', '\n']) {
        Some(r) => s.take(r),
        None => s,
    }
}

/// A fund row's current value (its last amount) and the fund's name,
/// the text after that amount with its whitespace squeezed.
pub open spec fn fund_value_and_name(row: Seq<char>, sym: Seq<char>) -> Option<(int, Seq<char>)> {
    if sym.len() <= row.len() && row.take(sym.len() as int) == sym {
        let after = row.skip(sym.len() as int);
        match last_dollar(after) {
            None => None,
            Some(d) => {
                let name = squash_ws(before_blank_line(after.skip(d.1)));
                if name.len() > 0 {
                    Some((d.0, name))
                } else {
                    None
                }
            },
        }
    } else {
        None
    }
}

/// The holdings read from the fund rows `rows` of section `sec`.
pub open spec fn fund_holdings(sec: Seq<char>, rows: Seq<(int, Seq<char>)>) -> Seq<HoldingView>
    decreases rows.len(),
{
    if rows.len() == 0 {
        seq![]
    } else {
        let prev = fund_holdings(sec, rows.drop_last());
        let r = rows.last();
        match fund_value_and_name(before_blank_line(sec.skip(r.0)), r.1) {
            Some(vn) => prev.push(
                HoldingView { symbol: r.1, description: r.1 + seq![' '] + vn.1, value: vn.0 },
            ),
            None => prev,
        }
    }
}

/// The holdings of the `"Mutual funds"` table, which ends at
/// `"Account activity"` or `"Completed transactions"`.
pub open spec fn mutual_fund_holdings(t: Seq<char>) -> Seq<HoldingView> {
    match section_bounds(t, "Mutual funds"@, "Account activity"@, "Completed transactions"@) {
        None => seq![],
        Some(b) => {
            let sec = t.subrange(b.0, b.1);
            fund_holdings(sec, symbol_rows(sec, 0, seq![]))
        },
    }
}

/// The sweep position (if any) followed by the mutual funds.
pub open spec fn holdings(t: Seq<char>) -> Seq<HoldingView> {
    (match sweep_holding(t) {
        Some(h) => seq![h],
        None => seq![],
    }) + mutual_fund_holdings(t)
}

/// What parsing a Vanguard statement's text gives.
pub open spec fn vanguard_outcome(t: Seq<char>, hint: Option<Seq<char>>) -> Result<
    ParsedView,
    ParseErrorView,
> {
    let secs = overview_sections(t);
    if secs.len() == 0 {
        Err(ParseErrorView::UnrecognizedLayout("no 'Account overview' section found"@))
    } else {
        let ms = matching(secs, hint);
        if ms.len() == 0 {
            Err(ParseErrorView::NoMatchingAccount)
        } else if ms.len() == 1 {
            Ok(
                ParsedView {
                    balance: ms[0].1,
                    as_of_date: or_empty(word_date_after(t)),
                    account_identifier: match ms[0].0 {
                        Some(id) => id,
                        None => cents_display(ms[0].1 as nat),
                    },
                    category: Category::Asset,
                    holdings: holdings(t),
                    apr: None,
                },
            )
        } else {
            Err(ParseErrorView::AmbiguousMatch)
        }
    }
}

// ---------------------------------------------------------------------
// Laws
// ---------------------------------------------------------------------

/// Each account overview takes the identifier written last before its
/// heading: the brokerage-style identifier read from `t` is a whole
/// alphanumeric run right after an `"account\u{2014}"`, and no such run
/// starts later in `t`; when none is read, `t` holds none. The same
/// holds of the 529-style `"Account number: "` identifier, whose run
/// also takes `-`.
pub proof fn lemma_identifiers_are_the_last_written(t: Seq<char>)
    ensures
        em_dash_account(t) matches Some((s, id)) ==> marked_run_at(
            t,
            "account\u{2014}"@,
            CharClass::Alnum,
            s,
        ) && id == t.subrange(s, run_end(t, s, CharClass::Alnum)) && forall|s2: int|
            #[trigger] marked_run_at(t, "account\u{2014}"@, CharClass::Alnum, s2) ==> s2 <= s,
        em_dash_account(t) is None ==> forall|s2: int|
            !#[trigger] marked_run_at(t, "account\u{2014}"@, CharClass::Alnum, s2),
        account_number_field(t) matches Some((s, id)) ==> marked_run_at(
            t,
            "Account number: "@,
            CharClass::AlnumDash,
            s,
        ) && id == t.subrange(s, run_end(t, s, CharClass::AlnumDash)) && forall|s2: int|
            #[trigger] marked_run_at(t, "Account number: "@, CharClass::AlnumDash, s2) ==> s2 <= s,
        account_number_field(t) is None ==> forall|s2: int|
            !#[trigger] marked_run_at(t, "Account number: "@, CharClass::AlnumDash, s2),
{
    reveal_strlit("account\u{2014}");
    reveal_strlit("Account number: ");
    let em = "account\u{2014}"@;
    let an = "Account number: "@;
    assert(first_char_unique(em));
    assert(first_char_unique(an));
    lemma_last_marked_run_is_last(t, em, CharClass::Alnum, 0, None);
    lemma_last_marked_run_is_last(t, an, CharClass::AlnumDash, 0, None);
}

// ---------------------------------------------------------------------
// Implementation
// ---------------------------------------------------------------------

struct Section {
    account_id: Option<Vec<char>>,
    balance: i64,
}

spec fn opt_chars(o: Option<Vec<char>>) -> Option<Seq<char>> {
    match o {
        Some(v) => Some(v@),
        None => None,
    }
}

spec fn sections_view(v: Seq<Section>) -> Seq<(Option<Seq<char>>, int)> {
    v.map_values(|s: Section| (opt_chars(s.account_id), s.balance as int))
}

/// Fund-row positions and symbols as plain values.
pub open spec fn positions_view(v: Seq<(usize, String)>) -> Seq<(int, Seq<char>)> {
    v.map_values(|p: (usize, String)| (p.0 as int, p.1@))
}

spec fn rows_view(v: Seq<(usize, Vec<char>)>) -> Seq<(int, Seq<char>)> {
    v.map_values(|r: (usize, Vec<char>)| (r.0 as int, r.1@))
}

fn account_number_field_in(t: &[char]) -> (r: Option<(usize, Vec<char>)>)
    ensures
        run_view(r) == account_number_field(t@),
{
    let m = chars_of("Account number: ");
    proof {
        reveal_strlit("Account number: ");
    }
    last_marked_run_exec(t, &m, CharClass::AlnumDash)
}

fn em_dash_account_in(t: &[char]) -> (r: Option<(usize, Vec<char>)>)
    ensures
        run_view(r) == em_dash_account(t@),
{
    let m = chars_of("account\u{2014}");
    proof {
        reveal_strlit("account\u{2014}");
    }
    last_marked_run_exec(t, &m, CharClass::Alnum)
}

fn nearest_account_id_in(t: &[char]) -> (r: Option<Vec<char>>)
    ensures
        opt_chars(r) == nearest_account_id(t@),
{
    match (account_number_field_in(t), em_dash_account_in(t)) {
        (Some((pa, a)), Some((pb, b))) => if pa >= pb {
            Some(a)
        } else {
            Some(b)
        },
        (Some((_, a)), None) => Some(a),
        (None, Some((_, b))) => Some(b),
        (None, None) => None,
    }
}

/// The last `"Account number: XXXXX####-##"` identifier in `text`, with
/// the position (in characters) where it starts.
pub fn find_last_account_number_field(text: &str) -> (r: Option<(usize, String)>)
    ensures
        r matches Some((p, id)) ==> account_number_field(text@) == Some((p as int, id@)),
        r is None ==> account_number_field(text@) is None,
{
    let t = chars_of(text);
    match account_number_field_in(&t) {
        Some((p, id)) => Some((p, string_of(&id))),
        None => None,
    }
}

/// The last `"...account\u{2014}XXXX####"` identifier in `text`, with the
/// position (in characters) where it starts.
pub fn find_last_em_dash_account(text: &str) -> (r: Option<(usize, String)>)
    ensures
        r matches Some((p, id)) ==> em_dash_account(text@) == Some((p as int, id@)),
        r is None ==> em_dash_account(text@) is None,
{
    let t = chars_of(text);
    match em_dash_account_in(&t) {
        Some((p, id)) => Some((p, string_of(&id))),
        None => None,
    }
}

/// The account identifier nearest the end of `preceding_text`, of
/// either Vanguard style; the later one wins when both occur.
pub fn find_nearest_account_id(preceding_text: &str) -> (r: Option<String>)
    ensures
        r matches Some(id) ==> nearest_account_id(preceding_text@) == Some(id@),
        r is None ==> nearest_account_id(preceding_text@) is None,
{
    let t = chars_of(preceding_text);
    match nearest_account_id_in(&t) {
        Some(id) => Some(string_of(&id)),
        None => None,
    }
}

fn overview_scan_exec(t: &[char], m: &[char]) -> (r: Vec<Section>)
    requires
        m.len() > 0,
    ensures
        sections_view(r@) == overview_scan(t@, m@, 0, seq![]),
        forall|i: int| 0 <= i < r.len() ==> r@[i].balance >= 0,
{
    let mut acc: Vec<Section> = Vec::new();
    let mut from: usize = 0;
    assert(sections_view(acc@) =~= seq![]);
    while from < t.len()
        invariant
            m.len() > 0,
            from <= t.len(),
            overview_scan(t@, m@, 0, seq![]) == overview_scan(
                t@,
                m@,
                from as int,
                sections_view(acc@),
            ),
            forall|i: int| 0 <= i < acc.len() ==> acc@[i].balance >= 0,
        decreases t.len() - from,
    {
        let ghost before = sections_view(acc@);
        match find_from_exec(t, m, from) {
            None => {
                return acc;
            },
            Some(h) => {
                let after = h + m.len();
                let tail = slice_vec(t, after, t.len());
                assert(tail@ =~= t@.skip(after as int));
                match nth_dollar_exec(&tail, 1) {
                    Some(b) => {
                        let pre = slice_vec(t, 0, h);
                        assert(pre@ =~= t@.take(h as int));
                        let id = nearest_account_id_in(&pre);
                        let ghost idv = opt_chars(id);
                        acc.push(Section { account_id: id, balance: b });
                        assert(sections_view(acc@) =~= before.push((idv, b as int)));
                    },
                    None => {},
                }
                if after >= t.len() {
                    return acc;
                }
                from = after;
            },
        }
    }
    acc
}

fn matching_exec(secs: &Vec<Section>, hint: &Option<String>) -> (r: Vec<usize>)
    ensures
        r.len() == matching(sections_view(secs@), hint_of(hint)).len(),
        forall|i: int|
            0 <= i < r.len() ==> #[trigger] r@[i] < secs.len() && matching(
                sections_view(secs@),
                hint_of(hint),
            )[i] == sections_view(secs@)[r@[i] as int],
{
    let ghost v = sections_view(secs@);
    let hint_chars: Option<Vec<char>> = match hint {
        Some(h) => Some(chars_of(h.as_str())),
        None => None,
    };
    let mut r: Vec<usize> = Vec::new();
    let mut i: usize = 0;
    while i < secs.len()
        invariant
            i <= secs.len(),
            v == sections_view(secs@),
            hint_chars matches Some(hc) ==> hint_of(hint) == Some(hc@),
            hint_chars is None ==> hint_of(hint) is None,
            r.len() == matching(v.take(i as int), hint_of(hint)).len(),
            forall|k: int|
                0 <= k < r.len() ==> #[trigger] r@[k] < i && matching(
                    v.take(i as int),
                    hint_of(hint),
                )[k] == v[r@[k] as int],
        decreases secs.len() - i,
    {
        let ghost prev = matching(v.take(i as int), hint_of(hint));
        assert(v.take(i + 1).drop_last() =~= v.take(i as int));
        assert(v.take(i + 1).last() == v[i as int]);
        assert(v[i as int].0 == opt_chars(secs@[i as int].account_id));
        let keep = match (&hint_chars, &secs[i].account_id) {
            (Some(hc), Some(id)) => chars_equal(id, hc),
            (Some(_), None) => false,
            (None, _) => true,
        };
        let ghost old_r = r@;
        if keep {
            r.push(i);
            assert(matching(v.take(i + 1), hint_of(hint)) == prev.push(v[i as int]));
            assert forall|k: int| 0 <= k < r.len() implies #[trigger] r@[k] < i + 1 && matching(
                v.take(i + 1),
                hint_of(hint),
            )[k] == v[r@[k] as int] by {
                if k < old_r.len() {
                    assert(r@[k] == old_r[k]);
                    assert(old_r[k] < i);
                    assert(prev[k] == v[old_r[k] as int]);
                }
            }
        } else {
            assert(matching(v.take(i + 1), hint_of(hint)) == prev);
        }
        i = i + 1;
    }
    assert(v.take(secs.len() as int) =~= v);
    r
}

pub open spec fn hint_of(hint: &Option<String>) -> Option<Seq<char>> {
    match hint {
        Some(h) => Some(h@),
        None => None,
    }
}

/// The statement's date: the `Month DD, YYYY` after the first
/// `"as of "` (trailing spaces dropped), if there is one.
pub fn extract_as_of_date(text: &str) -> (r: Option<String>)
    ensures
        r matches Some(d) ==> word_date_after(text@) == Some(d@),
        r is None ==> word_date_after(text@) is None,
{
    let t = chars_of(text);
    match word_date_after_exec(&t) {
        Some(d) => Some(string_of(&d)),
        None => None,
    }
}

fn sweep_holding_in(t: &[char]) -> (r: Option<Holding>)
    ensures
        r matches Some(h) ==> sweep_holding(t@) == Some(h.view()),
        r is None ==> sweep_holding(t@) is None,
{
    let marker = chars_of("Total Sweep Balance ");
    proof {
        reveal_strlit("Total Sweep Balance ");
    }
    match find_exec(t, &marker) {
        None => None,
        Some(q) => {
            let s = q + marker.len();
            let le = line_end_exec(t, s);
            let line = slice_vec(t, s, le);
            match last_dollar_exec(&line) {
                None => None,
                Some((v, _)) => Some(
                    Holding {
                        symbol: "SWEEP".to_string(),
                        description: "Vanguard Federal Money Market Fund (Sweep)".to_string(),
                        value: v,
                    },
                ),
            }
        },
    }
}

fn squash_ws_exec(s: &[char]) -> (r: Vec<char>)
    ensures
        r@ == squash_ws(s@),
{
    let mut r: Vec<char> = Vec::new();
    let mut i: usize = 0;
    while i < s.len()
        invariant
            i <= s.len(),
            r@ == squash_ws(s@.take(i as int)),
        decreases s.len() - i,
    {
        let ghost pre = s@.take(i + 1);
        assert(pre.drop_last() =~= s@.take(i as int));
        assert(pre.last() == s@[i as int]);
        let c = s[i];
        if is_ws_exec(c) {
        } else if i >= 1 && is_ws_exec(s[i - 1]) && r.len() > 0 {
            assert(pre[pre.len() - 2] == s@[i - 1]);
            r.push(' ');
            r.push(c);
        } else {
            proof {
                if i >= 1 {
                    assert(pre[pre.len() - 2] == s@[i - 1]);
                }
            }
            r.push(c);
        }
        i = i + 1;
    }
    assert(s@.take(s.len() as int) =~= s@);
    r
}

fn row_symbol_exec(line: &[char]) -> (r: Option<(usize, Vec<char>)>)
    ensures
        run_view(r) == row_symbol(line@),
        r matches Some((o, _)) ==> o < line.len(),
{
    let ws = skip_ws_exec(line, 0);
    let se = run_end_exec(line, ws, CharClass::Upper);
    let d = skip_ws_exec(line, se);
    if se - ws >= 2 && se - ws <= 5 && se < line.len() && line[se] == ' ' && d < line.len()
        && is_digit_exec(line[d]) {
        Some((ws, slice_vec(line, ws, se)))
    } else {
        None
    }
}

fn symbol_rows_exec(sec: &[char]) -> (r: Vec<(usize, Vec<char>)>)
    ensures
        rows_view(r@) == symbol_rows(sec@, 0, seq![]),
        forall|i: int| 0 <= i < r.len() ==> #[trigger] r@[i].0 <= sec.len(),
{
    let mut acc: Vec<(usize, Vec<char>)> = Vec::new();
    let mut ls: usize = 0;
    assert(rows_view(acc@) =~= seq![]);
    while ls < sec.len()
        invariant
            ls <= sec.len(),
            symbol_rows(sec@, 0, seq![]) == symbol_rows(sec@, ls as int, rows_view(acc@)),
            forall|i: int| 0 <= i < acc.len() ==> #[trigger] acc@[i].0 <= sec.len(),
        decreases sec.len() - ls,
    {
        let le = line_end_exec(sec, ls);
        let next = if le < sec.len() {
            le + 1
        } else {
            sec.len()
        };
        let line = slice_vec(sec, ls, next);
        let ghost before = rows_view(acc@);
        let ghost old_acc = acc@;
        match row_symbol_exec(&line) {
            Some((off, sym)) => {
                let ghost symv = sym@;
                acc.push((ls + off, sym));
                assert(rows_view(acc@) =~= before.push(((ls + off) as int, symv)));
                assert forall|i: int| 0 <= i < acc.len() implies #[trigger] acc@[i].0 <= sec.len() by {
                    if i < old_acc.len() {
                        assert(acc@[i] == old_acc[i]);
                    }
                }
            },
            None => {},
        }
        ls = next;
    }
    acc
}

/// The rows of the fund table `section` (a table's text, not a whole
/// statement): each row's symbol with the position (in characters) where
/// it starts.
pub fn find_fund_symbol_positions(section: &str) -> (r: Vec<(usize, String)>)
    ensures
        positions_view(r@) == symbol_rows(
            section@,
            0,
            seq![],
        ),
{
    let sec = chars_of(section);
    let rows = symbol_rows_exec(&sec);
    let mut out: Vec<(usize, String)> = Vec::new();
    let mut i: usize = 0;
    while i < rows.len()
        invariant
            i <= rows.len(),
            positions_view(out@) == rows_view(rows@).take(
                i as int,
            ),
        decreases rows.len() - i,
    {
        let ghost before = out@;
        let sym = string_of(&rows[i].1);
        out.push((rows[i].0, sym));
        assert(out@ =~= before.push((rows@[i as int].0, sym)));
        assert(positions_view(out@) =~= positions_view(before).push(
            (rows@[i as int].0 as int, rows@[i as int].1@),
        ));
        assert(rows_view(rows@)[i as int] == (rows@[i as int].0 as int, rows@[i as int].1@));
        assert(positions_view(out@) =~= rows_view(
            rows@,
        ).take(i + 1));
        i = i + 1;
    }
    assert(rows_view(rows@).take(rows.len() as int) =~= rows_view(rows@));
    out
}

fn before_blank_line_exec(s: &[char]) -> (r: Vec<char>)
    ensures
        r@ == before_blank_line(s@),
{
    let dnl: Vec<char> = vec!['\n', '\n'];
    assert(dnl@ =~= seq!['\n', '\n']);
    match find_exec(s, &dnl) {
        Some(x) => {
            let r = slice_vec(s, 0, x);
            assert(r@ =~= s@.take(x as int));
            r
        },
        None => {
            let r = slice_vec(s, 0, s.len());
            assert(r@ =~= s@);
            r
        },
    }
}

fn fund_value_and_name_exec(row: &[char], sym: &[char]) -> (r: Option<(i64, Vec<char>)>)
    ensures
        r matches Some((v, n)) ==> fund_value_and_name(row@, sym@) == Some((v as int, n@)),
        r is None ==> fund_value_and_name(row@, sym@) is None,
{
    if sym.len() > row.len() {
        return None;
    }
    let head = slice_vec(row, 0, sym.len());
    assert(head@ =~= row@.take(sym.len() as int));
    if !chars_equal(&head, sym) {
        return None;
    }
    let after = slice_vec(row, sym.len(), row.len());
    assert(after@ =~= row@.skip(sym.len() as int));
    match last_dollar_exec(&after) {
        None => None,
        Some((v, ae)) => {
            let region = slice_vec(&after, ae, after.len());
            assert(region@ =~= after@.skip(ae as int));
            let cut = before_blank_line_exec(&region);
            let name = squash_ws_exec(&cut);
            if name.len() > 0 {
                Some((v, name))
            } else {
                None
            }
        },
    }
}

/// The characters of `a`, a space, then those of `b`.
fn join_with_space(a: &[char], b: &[char]) -> (r: Vec<char>)
    ensures
        r@ == a@ + seq![' '] + b@,
{
    let mut r = slice_vec(a, 0, a.len());
    assert(r@ =~= a@);
    r.push(' ');
    let mut rest = slice_vec(b, 0, b.len());
    assert(rest@ =~= b@);
    r.append(&mut rest);
    r
}

fn fund_holdings_exec(sec: &[char], rows: &Vec<(usize, Vec<char>)>) -> (r: Vec<Holding>)
    requires
        forall|i: int| 0 <= i < rows.len() ==> #[trigger] rows@[i].0 <= sec.len(),
    ensures
        holdings_view(r@) == fund_holdings(sec@, rows_view(rows@)),
{
    let mut out: Vec<Holding> = Vec::new();
    let mut i: usize = 0;
    let ghost rv = rows_view(rows@);
    assert(holdings_view(out@) =~= seq![]);
    assert(rv.take(0) =~= seq![]);
    while i < rows.len()
        invariant
            i <= rows.len(),
            rv == rows_view(rows@),
            forall|i: int| 0 <= i < rows.len() ==> #[trigger] rows@[i].0 <= sec.len(),
            holdings_view(out@) == fund_holdings(sec@, rv.take(i as int)),
        decreases rows.len() - i,
    {
        assert(rv.take(i + 1).drop_last() =~= rv.take(i as int));
        assert(rv.take(i + 1).last() == rv[i as int]);
        let st = rows[i].0;
        let rem = slice_vec(sec, st, sec.len());
        assert(rem@ =~= sec@.skip(st as int));
        let row = before_blank_line_exec(&rem);
        let ghost before = holdings_view(out@);
        match fund_value_and_name_exec(&row, &rows[i].1) {
            Some((v, name)) => {
                let desc = join_with_space(&rows[i].1, &name);
                let h = Holding { symbol: string_of(&rows[i].1), description: string_of(&desc), value: v };
                let ghost hv = h.view();
                out.push(h);
                assert(holdings_view(out@) =~= before.push(hv));
            },
            None => {},
        }
        i = i + 1;
    }
    assert(rv.take(rows.len() as int) =~= rv);
    out
}

fn mutual_fund_holdings_in(t: &[char]) -> (r: Vec<Holding>)
    ensures
        holdings_view(r@) == mutual_fund_holdings(t@),
{
    let start = chars_of("Mutual funds");
    let end1 = chars_of("Account activity");
    let end2 = chars_of("Completed transactions");
    match section_bounds_exec(t, &start, &end1, &end2) {
        None => {
            let r: Vec<Holding> = Vec::new();
            assert(holdings_view(r@) =~= seq![]);
            r
        },
        Some((a, b)) => {
            let sec = slice_vec(t, a, b);
            let rows = symbol_rows_exec(&sec);
            fund_holdings_exec(&sec, &rows)
        },
    }
}

fn holdings_in(t: &[char]) -> (r: Vec<Holding>)
    ensures
        holdings_view(r@) == holdings(t@),
{
    let mut out: Vec<Holding> = Vec::new();
    let ghost sweep: Seq<HoldingView> = seq![];
    match sweep_holding_in(t) {
        Some(h) => {
            let ghost hv = h.view();
            out.push(h);
            proof {
                sweep = seq![hv];
            }
        },
        None => {},
    }
    assert(holdings_view(out@) =~= sweep);
    let mut funds = mutual_fund_holdings_in(t);
    let ghost fv = holdings_view(funds@);
    let ghost ov = out@;
    out.append(&mut funds);
    assert(holdings_view(out@) =~= holdings_view(ov) + fv);
    out
}

/// The holdings a Vanguard statement lists: the sweep fund's cash
/// position, if there is one, then each mutual fund row.
pub fn extract_holdings(text: &str) -> (r: Vec<Holding>)
    ensures
        holdings_view(r@) == holdings(text@),
{
    let t = chars_of(text);
    holdings_in(&t)
}

/// The holdings of a Vanguard statement's `"Mutual funds"` table.
pub fn extract_mutual_fund_holdings(text: &str) -> (r: Vec<Holding>)
    ensures
        holdings_view(r@) == mutual_fund_holdings(text@),
{
    let t = chars_of(text);
    mutual_fund_holdings_in(&t)
}

impl StatementParser for VanguardStatementParser {
    open spec fn kind(&self) -> ParserKind {
        ParserKind::Vanguard
    }

    fn institution(&self) -> (r: &'static str) {
        "vanguard"
    }

    fn parse(&self, text: &str, expected: &ExpectedAccount) -> (r: Result<ParsedStatement, ParseError>) {
        let t = chars_of(text);
        let m = chars_of("Account overview");
        proof {
            reveal_strlit("Account overview");
        }
        let secs = overview_scan_exec(&t, &m);
        if secs.len() == 0 {
            return Err(ParseError::UnrecognizedLayout("no 'Account overview' section found".to_string()));
        }
        let ms = matching_exec(&secs, &expected.account_hint);
        if ms.len() == 0 {
            Err(ParseError::NoMatchingAccount)
        } else if ms.len() == 1 {
            let sec = &secs[ms[0]];
            let date = match word_date_after_exec(&t) {
                Some(d) => string_of(&d),
                None => String::new(),
            };
            let id = match &sec.account_id {
                Some(id) => string_of(id),
                None => string_of(&display_cents(sec.balance as u64)),
            };
            let r = Ok(
                ParsedStatement {
                    balance: sec.balance,
                    as_of_date: date,
                    account_identifier: id,
                    category: Category::Asset,
                    holdings: holdings_in(&t),
                    apr: None,
                },
            );
            proof {
                assert(ms@[0] < secs.len());
                assert(matching(overview_sections(t@), expected.hint())[0] == sections_view(
                    secs@,
                )[ms@[0] as int]);
            }
            r
        } else {
            Err(ParseError::AmbiguousMatch)
        }
    }
}

} // verus!
