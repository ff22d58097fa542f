//! Apple Card statements. The balance is the standalone
//! `"Total Balance $X"` (never the `"Previous Total Balance $X"` before
//! it), the statement's date the `"as of ..."` that follows that
//! balance, and the account is named by the line after
//! `"Apple Card Customer"` (cardholder name or e-mail), which a hint
//! matches as a case-insensitive substring. A card is always a
//! liability; its rate is the number after
//! `"Annual Percentage Rate (APR)"`.

use vstd::prelude::*;

use crate::amount::{amount_at, amount_at_exec};
use crate::snapshot::Category;
use crate::statement::parser::{
    holdings_view, outcome, ExpectedAccount, ParseError, ParseErrorView, ParsedStatement,
    ParsedView, ParserKind, StatementParser,
};
use crate::statement::scan::{
    line_after, line_after_exec, or_empty, percentage_after, percentage_after_exec,
    word_date_after, word_date_after_exec,
};
use crate::text::{
    chars_of, contains, contains_exec, find_from, find_from_exec, lemma_find_from_bounds,
    lowercase, lowercase_chars, matches_at, matches_at_exec, slice_vec, string_of, to_lowercase,
};

verus! {

pub struct AppleCardStatementParser;

// ---------------------------------------------------------------------
// Specification
// ---------------------------------------------------------------------

/// The first `"Total Balance $"` at or after `from` in `t` that
/// `"Previous "` does not precede: the amount after it, in cents, and
/// the position where that amount starts. `None` when there is no such
/// marker or its amount cannot be read.
pub open spec fn total_balance_from(t: Seq<char>, from: int) -> Option<(int, int)>
    decreases t.len() - from,
{
    let m = "Total Balance $"@;
    if from < 0 || m.len() == 0 {
        None
    } else {
        match find_from(t, m, from) {
            None => None,
            Some(pos) => {
                proof {
                    lemma_find_from_bounds(t, m, from);
                }
                let st = pos + m.len();
                if !matches_at(t, pos - "Previous "@.len(), "Previous "@) {
                    match amount_at(t, st) {
                        Some(v) => Some((v as int, st)),
                        None => None,
                    }
                } else if st >= t.len() {
                    None
                } else {
                    total_balance_from(t, st)
                }
            },
        }
    }
}

/// The current total balance and where its amount starts.
pub open spec fn current_total_balance(t: Seq<char>) -> Option<(int, int)> {
    total_balance_from(t, 0)
}

/// The line after `"Apple Card Customer"`, trimmed.
pub open spec fn customer_line(t: Seq<char>) -> Option<Seq<char>> {
    line_after(t, "Apple Card Customer"@, false)
}

/// What parsing an Apple Card statement's text gives.
pub open spec fn apple_card_outcome(t: Seq<char>, hint: Option<Seq<char>>) -> Result<
    ParsedView,
    ParseErrorView,
> {
    match current_total_balance(t) {
        None => Err(
            ParseErrorView::UnrecognizedLayout("no standalone 'Total Balance $' section found"@),
        ),
        Some(bal) => match customer_line(t) {
            None => Err(ParseErrorView::UnrecognizedLayout("no 'Apple Card Customer' line found"@)),
            Some(id) => if hint matches Some(h) && !contains(lowercase(id), lowercase(h)) {
                Err(ParseErrorView::NoMatchingAccount)
            } else {
                Ok(
                    ParsedView {
                        balance: bal.0,
                        as_of_date: or_empty(word_date_after(t.skip(bal.1))),
                        account_identifier: id,
                        category: Category::Liability,
                        holdings: seq![],
                        apr: percentage_after(t, "Annual Percentage Rate (APR)"@, 40),
                    },
                )
            },
        },
    }
}

// ---------------------------------------------------------------------
// Laws
// ---------------------------------------------------------------------

/// The Apple Card hint check ignores case and changes nothing but
/// whether the card is accepted: a statement read with hint `h` is read
/// just as without a hint, and its cardholder line's lower-case form
/// holds `h`'s lower-case form; a statement read without a hint is read
/// the same with any hint that its cardholder line holds in any letter
/// case; and a hint with the same lower-case form reads exactly the same.
pub proof fn lemma_apple_card_hint_ignores_case(t: Seq<char>, h: Seq<char>, other_case: Seq<char>)
    ensures
        apple_card_outcome(t, Some(h)) matches Ok(p) ==> contains(
            lowercase(p.account_identifier),
            lowercase(h),
        ) && apple_card_outcome(t, None) == apple_card_outcome(t, Some(h)),
        (apple_card_outcome(t, None) matches Ok(p) && contains(
            lowercase(p.account_identifier),
            lowercase(h),
        )) ==> apple_card_outcome(t, Some(h)) == apple_card_outcome(t, None),
        lowercase(h) == lowercase(other_case) ==> apple_card_outcome(t, Some(h))
            == apple_card_outcome(t, Some(other_case)),
{
}

// ---------------------------------------------------------------------
// Implementation
// ---------------------------------------------------------------------

fn current_total_balance_in(t: &[char]) -> (r: Option<(i64, usize)>)
    ensures
        r matches Some((v, st)) ==> current_total_balance(t@) == Some((v as int, st as int))
            && st <= t.len(),
        r is None ==> current_total_balance(t@) is None,
{
    let m = chars_of("Total Balance $");
    let prev = chars_of("Previous ");
    proof {
        reveal_strlit("Total Balance $");
        reveal_strlit("Previous ");
    }
    let mut from: usize = 0;
    while from < t.len()
        invariant
            m@ == "Total Balance $"@,
            prev@ == "Previous "@,
            m@.len() == 15,
            prev@.len() == 9,
            from <= t.len(),
            current_total_balance(t@) == total_balance_from(t@, from as int),
        decreases t.len() - from,
    {
        match find_from_exec(t, &m, from) {
            None => {
                return None;
            },
            Some(pos) => {
                let st = pos + m.len();
                let preceded = pos >= prev.len() && matches_at_exec(t, pos - prev.len(), &prev);
                if !preceded {
                    return match amount_at_exec(t, st) {
                        Some(v) => Some((v, st)),
                        None => None,
                    };
                }
                if st >= t.len() {
                    return None;
                }
                from = st;
            },
        }
    }
    None
}

/// The line after `"Apple Card Customer"` (the cardholder's name or
/// e-mail), trimmed, if there is one.
pub fn extract_customer_line(text: &str) -> (r: Option<String>)
    ensures
        r matches Some(l) ==> customer_line(text@) == Some(l@),
        r is None ==> customer_line(text@) is None,
{
    let t = chars_of(text);
    let m = chars_of("Apple Card Customer");
    match line_after_exec(&t, &m, false) {
        Some(l) => Some(string_of(&l)),
        None => None,
    }
}

/// The `Month DD, YYYY` date after the first `"as of "` in `text`.
pub fn extract_as_of_date(text: &str) -> (r: Option<String>)
    ensures
        r matches Some(d) ==> word_date_after(text@) == Some(d@),
        r is None ==> word_date_after(text@) is None,
{
    let t = chars_of(text);
    match word_date_after_exec(&t) {
        Some(d) => Some(string_of(&d)),
        None => None,
    }
}

impl StatementParser for AppleCardStatementParser {
    open spec fn kind(&self) -> ParserKind {
        ParserKind::AppleCard
    }

    fn institution(&self) -> (r: &'static str) {
        "applecard"
    }

    fn parse(&self, text: &str, expected: &ExpectedAccount) -> (r: Result<ParsedStatement, ParseError>) {
        let t = chars_of(text);
        let (balance, after_balance) = match current_total_balance_in(&t) {
            Some(b) => b,
            None => {
                return Err(
                    ParseError::UnrecognizedLayout(
                        "no standalone 'Total Balance $' section found".to_string(),
                    ),
                );
            },
        };
        let customer = chars_of("Apple Card Customer");
        let id = match line_after_exec(&t, &customer, false) {
            Some(l) => l,
            None => {
                return Err(
                    ParseError::UnrecognizedLayout("no 'Apple Card Customer' line found".to_string()),
                );
            },
        };
        match &expected.account_hint {
            Some(h) => {
                let lower_id = to_lowercase(&id);
                let lower_hint = lowercase_chars(h.as_str());
                if !contains_exec(&lower_id, &lower_hint) {
                    return Err(ParseError::NoMatchingAccount);
                }
            },
            None => {},
        }
        let rest = slice_vec(&t, after_balance, t.len());
        assert(rest@ =~= t@.skip(after_balance as int));
        let date = match word_date_after_exec(&rest) {
            Some(d) => string_of(&d),
            None => String::new(),
        };
        let apr_marker = chars_of("Annual Percentage Rate (APR)");
        let r = Ok(
            ParsedStatement {
                balance,
                as_of_date: date,
                account_identifier: string_of(&id),
                category: Category::Liability,
                holdings: Vec::new(),
                apr: percentage_after_exec(&t, &apr_marker, 40),
            },
        );
        proof {
            assert(holdings_view(Seq::<crate::account::Holding>::empty()) =~= seq![]);
        }
        r
    }
}

} // verus!
