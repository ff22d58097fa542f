//! Morgan Stanley / E*TRADE statements. The balance is the current
//! (last) amount on the `"TOTAL VALUE"` line of the `"BALANCE SHEET"`
//! section (which ends at `"CASH FLOW"`), and the statement's date the
//! last `"as of MM/DD/YY"` in that section. The account is named by the
//! line after `"Morgan Stanley at Work Self-Directed Account"`, which a
//! hint must equal. A brokerage account is always an asset.
//!
//! Holdings are the `"CASH, BDP, AND MMFs"` line's amount and one row
//! per stock of the `"COMMON STOCKS"` section, shaped `"NAME (TICKER)
//! <qty> $<price> $<cost> $<market value> ..."`: a stock's value is its
//! third dollar amount. Stock-plan grants are never holdings.

use vstd::prelude::*;

use crate::account::Holding;
use crate::snapshot::Category;
use crate::statement::parser::{
    holdings_view, outcome, ExpectedAccount, HoldingView, ParseError, ParseErrorView,
    ParsedStatement, ParsedView, ParserKind, StatementParser,
};
use crate::statement::scan::{
    last_dollar, last_dollar_exec, last_marked_run, last_marked_run_exec, line_after,
    line_after_exec, line_end, line_end_exec, nth_dollar, nth_dollar_exec, or_empty, run_view,
    section_bounds, section_bounds_exec,
};
use crate::text::{
    chars_equal, chars_of, find, find_exec, find_from, lemma_find_from_bounds, lemma_run_end_bounds,
    matches_at,
    run_end, run_end_exec, slice_vec, string_of, trim, trim_exec, CharClass,
};

verus! {

pub struct MorganStanleyStatementParser;

// ---------------------------------------------------------------------
// Specification
// ---------------------------------------------------------------------

/// The `"BALANCE SHEET"` section, up to `"CASH FLOW"`.
pub open spec fn balance_sheet(t: Seq<char>) -> Option<Seq<char>> {
    match section_bounds(t, "BALANCE SHEET"@, "CASH FLOW"@, "CASH FLOW"@) {
        Some(b) => Some(t.subrange(b.0, b.1)),
        None => None,
    }
}

/// Where the first `"TOTAL VALUE "` of `sec` ends.
pub open spec fn total_value_at(sec: Seq<char>) -> Option<int> {
    match find(sec, "TOTAL VALUE "@) {
        Some(p) => Some(p + "TOTAL VALUE "@.len()),
        None => None,
    }
}

/// The last `MM/DD/YY` written after an `"as of "` in `t`.
pub open spec fn last_as_of(t: Seq<char>) -> Option<Seq<char>> {
    match last_marked_run(t, "as of "@, CharClass::SlashDate, 0, None) {
        Some(r) => Some(r.1),
        None => None,
    }
}

/// The account-number line after the account-type heading, trimmed.
pub open spec fn account_identifier(t: Seq<char>) -> Option<Seq<char>> {
    line_after(t, "Morgan Stanley at Work Self-Directed Account"@, true)
}

/// The `"CASH, BDP, AND MMFs"` line's first amount, as the cash holding.
pub open spec fn cash_holding(t: Seq<char>) -> Option<HoldingView> {
    match find(t, "CASH, BDP, AND MMFs"@) {
        None => None,
        Some(q) => {
            let s = q + "CASH, BDP, AND MMFs"@.len();
            match nth_dollar(t.subrange(s, line_end(t, s)), 1) {
                None => None,
                Some(v) => Some(
                    HoldingView {
                        symbol: "CASH"@,
                        description: "Cash, Bank Deposit Program, and Money Market Funds"@,
                        value: v,
                    },
                ),
            }
        },
    }
}

/// A stock row's holding: `"NAME (TICKER) ..."` with a ticker of one to
/// five capital letters, a non-blank name and a third dollar amount.
pub open spec fn stock_row(line: Seq<char>) -> Option<HoldingView> {
    match find(line, " ("@) {
        None => None,
        Some(ps) => {
            let after = line.skip(ps + 2);
            match find(after, seq![')']) {
                None => None,
                Some(pe) => {
                    let ticker = after.take(pe);
                    let name = trim(line.take(ps));
                    if 1 <= ticker.len() <= 5 && run_end(ticker, 0, CharClass::Upper)
                        == ticker.len() && name.len() > 0 {
                        match nth_dollar(after.skip(pe + 1), 3) {
                            Some(v) => Some(
                                HoldingView { symbol: ticker, description: name, value: v },
                            ),
                            None => None,
                        }
                    } else {
                        None
                    }
                },
            }
        },
    }
}

/// The line of `sec` that starts at `ls`, as `str::lines` gives it: up
/// to its `\n`, without a `\r` right before that `\n`.
pub open spec fn line_at(sec: Seq<char>, ls: int) -> Seq<char> {
    let le = line_end(sec, ls);
    if le < sec.len() && le > ls && sec[le - 1] == '\r' {
        sec.subrange(ls, le - 1)
    } else {
        sec.subrange(ls, le)
    }
}

/// The stock holdings on the lines of `sec` from position `ls` on, added
/// to `acc`.
pub open spec fn stock_rows(sec: Seq<char>, ls: int, acc: Seq<HoldingView>) -> Seq<HoldingView>
    decreases sec.len() - ls,
{
    if ls < 0 || ls >= sec.len() {
        acc
    } else {
        proof {
            lemma_find_from_bounds(sec, seq!['\n'], ls);
        }
        let le = line_end(sec, ls);
        let acc2 = match stock_row(line_at(sec, ls)) {
            Some(h) => acc.push(h),
            None => acc,
        };
        if le >= sec.len() {
            acc2
        } else {
            stock_rows(sec, le + 1, acc2)
        }
    }
}

/// The holdings of the `"COMMON STOCKS"` section, which ends at
/// `"ALLOCATION OF ASSETS"` or `"STOCK PLAN SUMMARY"`.
pub open spec fn stock_holdings(t: Seq<char>) -> Seq<HoldingView> {
    match section_bounds(t, "COMMON STOCKS"@, "ALLOCATION OF ASSETS"@, "STOCK PLAN SUMMARY"@) {
        None => seq![],
        Some(b) => stock_rows(t.subrange(b.0, b.1), 0, seq![]),
    }
}

/// The cash position (if any) followed by the stocks.
pub open spec fn holdings(t: Seq<char>) -> Seq<HoldingView> {
    (match cash_holding(t) {
        Some(h) => seq![h],
        None => seq![],
    }) + stock_holdings(t)
}

/// What parsing a Morgan Stanley statement's text gives.
pub open spec fn morgan_stanley_outcome(t: Seq<char>, hint: Option<Seq<char>>) -> Result<
    ParsedView,
    ParseErrorView,
> {
    match balance_sheet(t) {
        None => Err(
            ParseErrorView::UnrecognizedLayout(
                "no 'BALANCE SHEET' ... 'TOTAL VALUE $X $Y' section found"@,
            ),
        ),
        Some(sec) => match total_value_at(sec) {
            None => Err(
                ParseErrorView::UnrecognizedLayout(
                    "'BALANCE SHEET' section found but no 'TOTAL VALUE $X $Y' line in it"@,
                ),
            ),
            Some(a) => match last_dollar(sec.subrange(a, line_end(sec, a))) {
                None => Err(
                    ParseErrorView::UnrecognizedLayout(
                        "'TOTAL VALUE' found but no dollar amount followed it"@,
                    ),
                ),
                Some(d) => match account_identifier(t) {
                    None => Err(
                        ParseErrorView::UnrecognizedLayout(
                            "no account-number line found after the account-type heading"@,
                        ),
                    ),
                    Some(id) => if hint matches Some(h) && id != h {
                        Err(ParseErrorView::NoMatchingAccount)
                    } else {
                        Ok(
                            ParsedView {
                                balance: d.0,
                                as_of_date: or_empty(last_as_of(sec)),
                                account_identifier: id,
                                category: Category::Asset,
                                holdings: holdings(t),
                                apr: None,
                            },
                        )
                    },
                },
            },
        },
    }
}

// ---------------------------------------------------------------------
// Laws
// ---------------------------------------------------------------------

/// Position `p` of `sec` starts a line: it is the first position, or it
/// follows a `\n`.
pub open spec fn starts_line(sec: Seq<char>, p: int) -> bool {
    0 <= p < sec.len() && (p == 0 || sec[p - 1] == '\n')
}

/// The holding that the line starting at `p` yields, if `p` starts a
/// line that is a well-formed stock row.
pub open spec fn row_at(sec: Seq<char>, p: int) -> Seq<HoldingView> {
    if starts_line(sec, p) {
        match stock_row(line_at(sec, p)) {
            Some(h) => seq![h],
            None => seq![],
        }
    } else {
        seq![]
    }
}

/// The holdings of every stock-row line of `sec` that starts at `p` or
/// later, in the order of the lines.
pub open spec fn rows_from(sec: Seq<char>, p: int) -> Seq<HoldingView>
    decreases sec.len() - p,
{
    if p < 0 || p >= sec.len() {
        seq![]
    } else {
        row_at(sec, p) + rows_from(sec, p + 1)
    }
}

/// How many lines of `sec` starting at `p` or later are well-formed stock
/// rows.
pub open spec fn stock_row_lines(sec: Seq<char>, p: int) -> nat
    decreases sec.len() - p,
{
    if p < 0 || p >= sec.len() {
        0
    } else {
        row_at(sec, p).len() + stock_row_lines(sec, p + 1)
    }
}

proof fn lemma_rows_from_count(sec: Seq<char>, p: int)
    ensures
        rows_from(sec, p).len() == stock_row_lines(sec, p),
    decreases sec.len() - p,
{
    if 0 <= p < sec.len() {
        lemma_rows_from_count(sec, p + 1);
    }
}

proof fn lemma_rows_from_skip(sec: Seq<char>, p: int, q: int)
    requires
        0 <= p <= q,
        forall|r: int| p <= r < q ==> !#[trigger] starts_line(sec, r),
    ensures
        rows_from(sec, p) == rows_from(sec, q),
    decreases q - p,
{
    if p < q && p < sec.len() {
        assert(!starts_line(sec, p));
        lemma_rows_from_skip(sec, p + 1, q);
        assert(rows_from(sec, p) =~= rows_from(sec, p + 1));
    }
}

proof fn lemma_stock_rows_are_rows_from(sec: Seq<char>, ls: int, acc: Seq<HoldingView>)
    requires
        0 <= ls <= sec.len(),
        ls == 0 || ls == sec.len() || sec[ls - 1] == '\n',
    ensures
        stock_rows(sec, ls, acc) == acc + rows_from(sec, ls),
    decreases sec.len() - ls,
{
    if ls >= sec.len() {
        assert(acc + rows_from(sec, ls) =~= acc);
    } else {
        let nl = seq!['\n'];
        lemma_find_from_bounds(sec, nl, ls);
        let le = line_end(sec, ls);
        assert forall|r: int| ls + 1 <= r <= le && r < sec.len() implies !#[trigger] starts_line(
            sec,
            r,
        ) by {
            let q = r - 1;
            match find_from(sec, nl, ls) {
                Some(n) => {
                    assert(q < n);
                    assert(!matches_at(sec, q, nl));
                },
                None => {
                    assert(!matches_at(sec, q, nl));
                },
            }
            if sec[q] == '\n' {
                assert(sec.subrange(q, q + 1) =~= nl);
                assert(matches_at(sec, q, nl));
            }
        }
        let acc2 = match stock_row(line_at(sec, ls)) {
            Some(h) => acc.push(h),
            None => acc,
        };
        assert(starts_line(sec, ls));
        assert(acc2 =~= acc + row_at(sec, ls));
        if le >= sec.len() {
            lemma_rows_from_skip(sec, ls + 1, sec.len() as int);
            assert(rows_from(sec, sec.len() as int) =~= Seq::<HoldingView>::empty());
        } else {
            assert(sec.subrange(le, le + 1) == nl);
            assert(sec[le] == sec.subrange(le, le + 1)[0]);
            lemma_rows_from_skip(sec, ls + 1, le + 1);
            lemma_stock_rows_are_rows_from(sec, le + 1, acc2);
        }
        assert(rows_from(sec, ls) == row_at(sec, ls) + rows_from(sec, ls + 1));
        assert(acc + rows_from(sec, ls) =~= acc2 + rows_from(sec, ls + 1));
    }
}

/// The stock holdings of a section are one holding per line that is a
/// well-formed stock row, in the order of the lines: as many holdings as
/// such lines, and each line's own holding.
pub proof fn lemma_one_holding_per_stock_row(sec: Seq<char>)
    ensures
        stock_rows(sec, 0, seq![]) == rows_from(sec, 0),
        stock_rows(sec, 0, seq![]).len() == stock_row_lines(sec, 0),
        forall|p: int|
            #[trigger] starts_line(sec, p) && stock_row(line_at(sec, p)) is Some ==> stock_rows(
                sec,
                0,
                seq![],
            ).contains(stock_row(line_at(sec, p))->Some_0),
{
    lemma_stock_rows_are_rows_from(sec, 0, seq![]);
    assert(Seq::<HoldingView>::empty() + rows_from(sec, 0) =~= rows_from(sec, 0));
    lemma_rows_from_count(sec, 0);
    assert forall|p: int|
        #[trigger] starts_line(sec, p) && stock_row(line_at(sec, p)) is Some implies rows_from(
            sec,
            0,
        ).contains(stock_row(line_at(sec, p))->Some_0) by {
        lemma_rows_from_holds(sec, 0, p);
    }
}

proof fn lemma_rows_from_holds(sec: Seq<char>, q: int, p: int)
    requires
        0 <= q <= p,
        starts_line(sec, p),
        stock_row(line_at(sec, p)) is Some,
    ensures
        rows_from(sec, q).contains(stock_row(line_at(sec, p))->Some_0),
    decreases p - q,
{
    let h = stock_row(line_at(sec, p))->Some_0;
    if q == p {
        assert(rows_from(sec, q)[0] == h);
    } else {
        lemma_rows_from_holds(sec, q + 1, p);
        let rest = rows_from(sec, q + 1);
        let k = choose|k: int| 0 <= k < rest.len() && rest[k] == h;
        assert(rows_from(sec, q)[row_at(sec, q).len() + k] == h);
    }
}

// ---------------------------------------------------------------------
// Implementation
// ---------------------------------------------------------------------

fn balance_sheet_in(t: &[char]) -> (r: Option<Vec<char>>)
    ensures
        r matches Some(s) ==> balance_sheet(t@) == Some(s@),
        r is None ==> balance_sheet(t@) is None,
{
    let start = chars_of("BALANCE SHEET");
    let end = chars_of("CASH FLOW");
    match section_bounds_exec(t, &start, &end, &end) {
        Some((a, b)) => Some(slice_vec(t, a, b)),
        None => None,
    }
}

/// The `"BALANCE SHEET"` section of `text`, up to `"CASH FLOW"` (or the
/// end of the text).
pub fn extract_balance_sheet_section(text: &str) -> (r: Option<String>)
    ensures
        r matches Some(s) ==> balance_sheet(text@) == Some(s@),
        r is None ==> balance_sheet(text@) is None,
{
    let t = chars_of(text);
    match balance_sheet_in(&t) {
        Some(s) => Some(string_of(&s)),
        None => None,
    }
}

fn last_as_of_in(t: &[char]) -> (r: Option<Vec<char>>)
    ensures
        r matches Some(d) ==> last_as_of(t@) == Some(d@),
        r is None ==> last_as_of(t@) is None,
{
    let m = chars_of("as of ");
    proof {
        reveal_strlit("as of ");
    }
    match last_marked_run_exec(t, &m, CharClass::SlashDate) {
        Some((_, d)) => Some(d),
        None => None,
    }
}

/// The last `MM/DD/YY` date after an `"as of "` in `text` (the current
/// period's, when `text` is the balance sheet).
pub fn extract_as_of_date(text: &str) -> (r: Option<String>)
    ensures
        r matches Some(d) ==> last_as_of(text@) == Some(d@),
        r is None ==> last_as_of(text@) is None,
{
    let t = chars_of(text);
    match last_as_of_in(&t) {
        Some(d) => Some(string_of(&d)),
        None => None,
    }
}

/// The account-number line after
/// `"Morgan Stanley at Work Self-Directed Account"`, trimmed.
pub fn extract_account_identifier(text: &str) -> (r: Option<String>)
    ensures
        r matches Some(id) ==> account_identifier(text@) == Some(id@),
        r is None ==> account_identifier(text@) is None,
{
    let t = chars_of(text);
    let m = chars_of("Morgan Stanley at Work Self-Directed Account");
    match line_after_exec(&t, &m, true) {
        Some(id) => Some(string_of(&id)),
        None => None,
    }
}

fn cash_holding_in(t: &[char]) -> (r: Option<Holding>)
    ensures
        r matches Some(h) ==> cash_holding(t@) == Some(h.view()),
        r is None ==> cash_holding(t@) is None,
{
    let marker = chars_of("CASH, BDP, AND MMFs");
    match find_exec(t, &marker) {
        None => None,
        Some(q) => {
            let s = q + marker.len();
            let le = line_end_exec(t, s);
            let line = slice_vec(t, s, le);
            match nth_dollar_exec(&line, 1) {
                None => None,
                Some(v) => Some(
                    Holding {
                        symbol: "CASH".to_string(),
                        description: "Cash, Bank Deposit Program, and Money Market Funds".to_string(),
                        value: v,
                    },
                ),
            }
        },
    }
}

fn stock_row_exec(line: &[char]) -> (r: Option<Holding>)
    ensures
        r matches Some(h) ==> stock_row(line@) == Some(h.view()),
        r is None ==> stock_row(line@) is None,
{
    let open_paren = chars_of(" (");
    proof {
        reveal_strlit(" (");
    }
    let ps = match find_exec(line, &open_paren) {
        Some(p) => p,
        None => {
            return None;
        },
    };
    let after = slice_vec(line, ps + 2, line.len());
    assert(after@ =~= line@.skip(ps + 2));
    let close: Vec<char> = vec![')'];
    assert(close@ =~= seq![')']);
    let pe = match find_exec(&after, &close) {
        Some(p) => p,
        None => {
            return None;
        },
    };
    let ticker = slice_vec(&after, 0, pe);
    assert(ticker@ =~= after@.take(pe as int));
    let head = slice_vec(line, 0, ps);
    assert(head@ =~= line@.take(ps as int));
    let name = trim_exec(&head);
    let upper_end = run_end_exec(&ticker, 0, CharClass::Upper);
    if ticker.len() >= 1 && ticker.len() <= 5 && upper_end == ticker.len() && name.len() > 0 {
        let rest = slice_vec(&after, pe + 1, after.len());
        assert(rest@ =~= after@.skip(pe + 1));
        match nth_dollar_exec(&rest, 3) {
            Some(v) => Some(Holding { symbol: string_of(&ticker), description: string_of(&name), value: v }),
            None => None,
        }
    } else {
        None
    }
}

fn stock_rows_exec(sec: &[char]) -> (r: Vec<Holding>)
    ensures
        holdings_view(r@) == stock_rows(sec@, 0, seq![]),
{
    let mut acc: Vec<Holding> = Vec::new();
    let mut ls: usize = 0;
    assert(holdings_view(acc@) =~= seq![]);
    while ls < sec.len()
        invariant
            ls <= sec.len(),
            stock_rows(sec@, 0, seq![]) == stock_rows(sec@, ls as int, holdings_view(acc@)),
        decreases sec.len() - ls,
    {
        let le = line_end_exec(sec, ls);
        let line_stop = if le < sec.len() && le > ls && sec[le - 1] == '\r' {
            le - 1
        } else {
            le
        };
        let line = slice_vec(sec, ls, line_stop);
        assert(line@ == line_at(sec@, ls as int));
        let ghost before = holdings_view(acc@);
        match stock_row_exec(&line) {
            Some(h) => {
                let ghost hv = h.view();
                acc.push(h);
                assert(holdings_view(acc@) =~= before.push(hv));
            },
            None => {},
        }
        if le >= sec.len() {
            return acc;
        }
        ls = le + 1;
    }
    acc
}

fn stock_holdings_in(t: &[char]) -> (r: Vec<Holding>)
    ensures
        holdings_view(r@) == stock_holdings(t@),
{
    let start = chars_of("COMMON STOCKS");
    let end1 = chars_of("ALLOCATION OF ASSETS");
    let end2 = chars_of("STOCK PLAN SUMMARY");
    match section_bounds_exec(t, &start, &end1, &end2) {
        None => {
            let r: Vec<Holding> = Vec::new();
            assert(holdings_view(r@) =~= seq![]);
            r
        },
        Some((a, b)) => {
            let sec = slice_vec(t, a, b);
            stock_rows_exec(&sec)
        },
    }
}

fn holdings_in(t: &[char]) -> (r: Vec<Holding>)
    ensures
        holdings_view(r@) == holdings(t@),
{
    let mut out: Vec<Holding> = Vec::new();
    let ghost cash: Seq<HoldingView> = seq![];
    match cash_holding_in(t) {
        Some(h) => {
            let ghost hv = h.view();
            out.push(h);
            proof {
                cash = seq![hv];
            }
        },
        None => {},
    }
    assert(holdings_view(out@) =~= cash);
    let mut stocks = stock_holdings_in(t);
    let ghost sv = holdings_view(stocks@);
    let ghost ov = out@;
    out.append(&mut stocks);
    assert(holdings_view(out@) =~= holdings_view(ov) + sv);
    out
}

/// The holdings a Morgan Stanley statement lists: the cash position, if
/// there is one, then each stock row.
pub fn extract_holdings(text: &str) -> (r: Vec<Holding>)
    ensures
        holdings_view(r@) == holdings(text@),
{
    let t = chars_of(text);
    holdings_in(&t)
}

/// The stock rows of the `"COMMON STOCKS"` section.
pub fn extract_stock_holdings(text: &str) -> (r: Vec<Holding>)
    ensures
        holdings_view(r@) == stock_holdings(text@),
{
    let t = chars_of(text);
    stock_holdings_in(&t)
}

impl StatementParser for MorganStanleyStatementParser {
    open spec fn kind(&self) -> ParserKind {
        ParserKind::MorganStanley
    }

    fn institution(&self) -> (r: &'static str) {
        "morganstanley"
    }

    fn parse(&self, text: &str, expected: &ExpectedAccount) -> (r: Result<ParsedStatement, ParseError>) {
        let t = chars_of(text);
        let sec = match balance_sheet_in(&t) {
            Some(s) => s,
            None => {
                return Err(
                    ParseError::UnrecognizedLayout(
                        "no 'BALANCE SHEET' ... 'TOTAL VALUE $X $Y' section found".to_string(),
                    ),
                );
            },
        };
        let marker = chars_of("TOTAL VALUE ");
        let after = match find_exec(&sec, &marker) {
            Some(p) => p + marker.len(),
            None => {
                return Err(
                    ParseError::UnrecognizedLayout(
                        "'BALANCE SHEET' section found but no 'TOTAL VALUE $X $Y' line in it".to_string(),
                    ),
                );
            },
        };
        let le = line_end_exec(&sec, after);
        let line = slice_vec(&sec, after, le);
        let balance = match last_dollar_exec(&line) {
            Some((v, _)) => v,
            None => {
                return Err(
                    ParseError::UnrecognizedLayout(
                        "'TOTAL VALUE' found but no dollar amount followed it".to_string(),
                    ),
                );
            },
        };
        let heading = chars_of("Morgan Stanley at Work Self-Directed Account");
        let id = match line_after_exec(&t, &heading, true) {
            Some(id) => id,
            None => {
                return Err(
                    ParseError::UnrecognizedLayout(
                        "no account-number line found after the account-type heading".to_string(),
                    ),
                );
            },
        };
        match &expected.account_hint {
            Some(h) => {
                let hc = chars_of(h.as_str());
                if !chars_equal(&id, &hc) {
                    return Err(ParseError::NoMatchingAccount);
                }
            },
            None => {},
        }
        let date = match last_as_of_in(&sec) {
            Some(d) => string_of(&d),
            None => String::new(),
        };
        Ok(
            ParsedStatement {
                balance,
                as_of_date: date,
                account_identifier: string_of(&id),
                category: Category::Asset,
                holdings: holdings_in(&t),
                apr: None,
            },
        )
    }
}

} // verus!
