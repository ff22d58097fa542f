//! The statement-parser interface: per-institution parsing of the plain
//! text extracted from a PDF statement into one account's balance.

use vstd::prelude::*;

use crate::account::Holding;
use crate::snapshot::Category;
use crate::statement::apple_card::{apple_card_outcome, AppleCardStatementParser};
use crate::statement::chase::{chase_outcome, ChaseStatementParser};
use crate::statement::fidelity::{fidelity_outcome, FidelityStatementParser};
use crate::statement::morgan_stanley::{morgan_stanley_outcome, MorganStanleyStatementParser};
use crate::statement::vanguard::{vanguard_outcome, VanguardStatementParser};
use crate::text::{chars_equal, chars_of, lowercase, lowercase_chars};

verus! {

/// What the source being fetched expects to find in a statement.
pub struct ExpectedAccount {
    pub account_type: String,
    /// Picks one account out of a statement that covers several: a
    /// last-4 or account number for bank and brokerage statements, a
    /// plan or cardholder substring for statements with no account
    /// number. `None` means the statement holds one account.
    pub account_hint: Option<String>,
}

impl ExpectedAccount {
    pub open spec fn hint(&self) -> Option<Seq<char>> {
        match self.account_hint {
            Some(h) => Some(h@),
            None => None,
        }
    }
}

/// One account's data read from a statement.
#[derive(Debug)]
pub struct ParsedStatement {
    /// The balance in cents.
    pub balance: i64,
    /// The statement's date as written in it, or empty if it has none.
    pub as_of_date: String,
    /// The raw identifier of the account (a last-4, an account number, a
    /// plan or cardholder line), to be hashed before it is stored.
    pub account_identifier: String,
    /// Asset or liability, read from the statement's own wording.
    pub category: Category,
    /// The account's individual positions, if the statement lists them.
    pub holdings: Vec<Holding>,
    /// The purchase interest rate in hundredths of a percent, if the
    /// statement states one.
    pub apr: Option<i64>,
}

#[derive(Debug, PartialEq, Eq)]
pub enum ParseError {
    /// No account in the statement matched the hint.
    NoMatchingAccount,
    /// Several accounts matched and no hint told them apart.
    AmbiguousMatch,
    /// The text holds no layout this parser recognizes.
    UnrecognizedLayout(String),
}

/// A holding as plain values.
pub struct HoldingView {
    pub symbol: Seq<char>,
    pub description: Seq<char>,
    pub value: int,
}

/// A parsed statement as plain values.
pub struct ParsedView {
    pub balance: int,
    pub as_of_date: Seq<char>,
    pub account_identifier: Seq<char>,
    pub category: Category,
    pub holdings: Seq<HoldingView>,
    pub apr: Option<int>,
}

/// A parse error as plain values.
pub enum ParseErrorView {
    NoMatchingAccount,
    AmbiguousMatch,
    UnrecognizedLayout(Seq<char>),
}

impl Holding {
    pub open spec fn view(&self) -> HoldingView {
        HoldingView { symbol: self.symbol@, description: self.description@, value: self.value as int }
    }
}

pub open spec fn holdings_view(v: Seq<Holding>) -> Seq<HoldingView> {
    v.map_values(|h: Holding| h.view())
}

pub open spec fn opt_int(o: Option<i64>) -> Option<int> {
    match o {
        Some(x) => Some(x as int),
        None => None,
    }
}

impl ParsedStatement {
    pub open spec fn view(&self) -> ParsedView {
        ParsedView {
            balance: self.balance as int,
            as_of_date: self.as_of_date@,
            account_identifier: self.account_identifier@,
            category: self.category,
            holdings: holdings_view(self.holdings@),
            apr: opt_int(self.apr),
        }
    }
}

impl ParseError {
    pub open spec fn view(&self) -> ParseErrorView {
        match self {
            ParseError::NoMatchingAccount => ParseErrorView::NoMatchingAccount,
            ParseError::AmbiguousMatch => ParseErrorView::AmbiguousMatch,
            ParseError::UnrecognizedLayout(m) => ParseErrorView::UnrecognizedLayout(m@),
        }
    }
}

/// A parse result as plain values.
pub open spec fn outcome(r: Result<ParsedStatement, ParseError>) -> Result<ParsedView, ParseErrorView> {
    match r {
        Ok(p) => Ok(p.view()),
        Err(e) => Err(e.view()),
    }
}

/// The institutions with a statement parser.
#[derive(Clone, Copy, PartialEq, Eq, Structural)]
pub enum ParserKind {
    Chase,
    Vanguard,
    Fidelity,
    AppleCard,
    MorganStanley,
}

/// The dispatch key each parser answers to.
pub open spec fn institution_key(k: ParserKind) -> Seq<char> {
    match k {
        ParserKind::Chase => "chase"@,
        ParserKind::Vanguard => "vanguard"@,
        ParserKind::Fidelity => "fidelity"@,
        ParserKind::AppleCard => "applecard"@,
        ParserKind::MorganStanley => "morganstanley"@,
    }
}

/// What the parser for `k` makes of statement text `t` with hint `hint`.
pub open spec fn statement_outcome(k: ParserKind, t: Seq<char>, hint: Option<Seq<char>>) -> Result<
    ParsedView,
    ParseErrorView,
> {
    match k {
        ParserKind::Chase => chase_outcome(t, hint),
        ParserKind::Vanguard => vanguard_outcome(t, hint),
        ParserKind::Fidelity => fidelity_outcome(t, hint),
        ParserKind::AppleCard => apple_card_outcome(t, hint),
        ParserKind::MorganStanley => morgan_stanley_outcome(t, hint),
    }
}

/// Per-institution statement parsing over already-extracted plain text.
pub trait StatementParser: Send + Sync {
    /// Which institution's layout this parser reads.
    spec fn kind(&self) -> ParserKind;

    /// The institution key this parser handles.
    fn institution(&self) -> (r: &'static str)
        ensures
            r@ == institution_key(self.kind()),
    ;

    /// Reads one account's balance, date and identifier out of `text`.
    fn parse(&self, text: &str, expected: &ExpectedAccount) -> (r: Result<ParsedStatement, ParseError>)
        ensures
            outcome(r) == statement_outcome(self.kind(), text@, expected.hint()),
    ;
}

/// The parser that an institution name (compared in lower case)
/// selects.
pub open spec fn parser_kind_for(lower: Seq<char>) -> Option<ParserKind> {
    if lower == "chase"@ {
        Some(ParserKind::Chase)
    } else if lower == "vanguard"@ {
        Some(ParserKind::Vanguard)
    } else if lower == "fidelity"@ {
        Some(ParserKind::Fidelity)
    } else if lower == "applecard"@ || lower == "apple card"@ {
        Some(ParserKind::AppleCard)
    } else if lower == "morganstanley"@ || lower == "morgan stanley"@ || lower == "etrade"@
        || lower == "e*trade"@ {
        Some(ParserKind::MorganStanley)
    } else {
        None
    }
}

/// Each parser's own institution key selects that parser again, so the
/// key a parser reports and the dispatch in `parser_for` cannot disagree.
pub proof fn lemma_institution_key_selects_its_parser(k: ParserKind)
    ensures
        parser_kind_for(institution_key(k)) == Some(k),
{
    reveal_strlit("chase");
    reveal_strlit("vanguard");
    reveal_strlit("fidelity");
    reveal_strlit("applecard");
    reveal_strlit("apple card");
    reveal_strlit("morganstanley");
    reveal_strlit("morgan stanley");
    reveal_strlit("etrade");
    reveal_strlit("e*trade");
    let key = institution_key(k);
    match k {
        ParserKind::Chase => {},
        ParserKind::Vanguard => {
            assert(key[0] != "chase"@[0]);
        },
        ParserKind::Fidelity => {
            assert(key[0] != "chase"@[0]);
            assert(key[0] != "vanguard"@[0]);
        },
        ParserKind::AppleCard => {
            assert(key[0] != "chase"@[0]);
            assert(key[0] != "vanguard"@[0]);
            assert(key[0] != "fidelity"@[0]);
        },
        ParserKind::MorganStanley => {
            assert(key[0] != "chase"@[0]);
            assert(key[0] != "vanguard"@[0]);
            assert(key[0] != "fidelity"@[0]);
            assert(key[0] != "applecard"@[0]);
            assert(key[0] != "apple card"@[0]);
        },
    }
}

fn chars_eq(a: &[char], b: &str) -> (r: bool)
    ensures
        r == (a@ == b@),
{
    let bs = chars_of(b);
    chars_equal(a, &bs)
}

/// Selects the parser for a source's `institution` value, matched
/// without regard to case. `None` for an institution with no parser.
pub fn parser_for(institution: &str) -> (r: Option<Box<dyn StatementParser>>)
    ensures
        r matches Some(p) ==> parser_kind_for(lowercase(institution@)) == Some(p.kind()),
        r is None <==> parser_kind_for(lowercase(institution@)) is None,
{
    let lower = lowercase_chars(institution);
    if chars_eq(&lower, "chase") {
        Some(Box::new(ChaseStatementParser))
    } else if chars_eq(&lower, "vanguard") {
        Some(Box::new(VanguardStatementParser))
    } else if chars_eq(&lower, "fidelity") {
        Some(Box::new(FidelityStatementParser))
    } else if chars_eq(&lower, "applecard") || chars_eq(&lower, "apple card") {
        Some(Box::new(AppleCardStatementParser))
    } else if chars_eq(&lower, "morganstanley") || chars_eq(&lower, "morgan stanley")
        || chars_eq(&lower, "etrade") || chars_eq(&lower, "e*trade") {
        Some(Box::new(MorganStanleyStatementParser))
    } else {
        None
    }
}

} // verus!
