//! The statement dropbox: a source that reads its balance from the PDF
//! statements dropped into its watch directory. The newest file not yet
//! read is parsed; when there is none, the balance last read is reported
//! again. New sources are found in a `<root>/<Institution>/<Account>`
//! directory layout.
//!
//! What touches the disk (listing directories, reading files, PDF text
//! extraction) happens around these functions; they decide.

use vstd::prelude::*;

use crate::pii::{hex_encode, hex_lower, sha256, sha256_digest};
use crate::account::Holding;
use crate::engine::opt_holdings_view;
use crate::pii::{account_key_of, opt_str_view};
use crate::provider::{
    account_for_source, config_get_str, config_str, unknown_category_message, FetchedAccount,
    ProviderConfig, ProviderError, SourceConfig,
};
use crate::snapshot::Category;
use crate::statement::parser::{
    holdings_view, opt_int, outcome, parser_for, parser_kind_for, statement_outcome, ExpectedAccount,
    HoldingView, ParseError, ParseErrorView, ParsedStatement, ParsedView,
};
use crate::statement::processed_files::{marked_entry, EntryView, ProcessedFilesLedger};
use crate::str_map::StrMap;
use crate::text::{
    chars_of, concat, contains, contains_exec, join3, lowercase, lowercase_chars, rfind_before_exec,
    rfind_char, lemma_rfind_before_bounds, str_eq, string_of,
};

verus! {

#[verifier::external_type_specification]
#[verifier::external_body]
pub struct ExPathBuf(std::path::PathBuf);

/// The dropbox provider: it keeps the path of its processed-files
/// ledger.
pub struct StatementImportProvider {
    pub ledger_path: std::path::PathBuf,
}

impl StatementImportProvider {
    pub fn new(ledger_path: std::path::PathBuf) -> (r: Self)
        ensures
            r.ledger_path == ledger_path,
    {
        StatementImportProvider { ledger_path }
    }
}

/// The message for a source with no watch directory set.
pub open spec fn missing_watch_dir_message(id: Seq<char>) -> Seq<char> {
    "source "@ + id + " is missing provider_config.watch_dir"@
}

/// A dropbox source's watch directory and account hint. Without a watch
/// directory the source cannot be read.
pub fn statement_source_settings(source: &SourceConfig) -> (r: Result<(String, Option<String>), ProviderError>)
    ensures
        config_str(source.provider_config@, "watch_dir"@) is None <==> r is Err,
        r matches Err(e) ==> e matches ProviderError::Other(m) && m@ == missing_watch_dir_message(
            source.id@,
        ),
        r matches Ok((dir, hint)) ==> Some(dir@) == config_str(
            source.provider_config@,
            "watch_dir"@,
        ) && match hint {
            Some(h) => config_str(source.provider_config@, "account_hint"@) == Some(h@),
            None => config_str(source.provider_config@, "account_hint"@) is None,
        },
{
    let dir = match config_get_str(&source.provider_config, "watch_dir") {
        Some(d) => d,
        None => {
            return Err(
                ProviderError::Other(
                    join3("source ", source.id.as_str(), " is missing provider_config.watch_dir"),
                ),
            );
        },
    };
    let hint = config_get_str(&source.provider_config, "account_hint");
    Ok((dir, hint))
}

/// How a parse error is written in a message: its variant's name, and
/// for an unrecognized layout the reason in quotes.
pub open spec fn parse_error_text(e: ParseErrorView) -> Seq<char> {
    match e {
        ParseErrorView::NoMatchingAccount => "NoMatchingAccount"@,
        ParseErrorView::AmbiguousMatch => "AmbiguousMatch"@,
        ParseErrorView::UnrecognizedLayout(m) => "UnrecognizedLayout(\""@ + m + "\")"@,
    }
}

fn parse_error_text_exec(e: &ParseError) -> (r: Vec<char>)
    ensures
        r@ == parse_error_text(e.view()),
{
    match e {
        ParseError::NoMatchingAccount => chars_of("NoMatchingAccount"),
        ParseError::AmbiguousMatch => chars_of("AmbiguousMatch"),
        ParseError::UnrecognizedLayout(m) => {
            let a = concat(&chars_of("UnrecognizedLayout(\""), &chars_of(m.as_str()));
            concat(&a, &chars_of("\")"))
        },
    }
}

/// The message for a source whose institution has no parser.
pub open spec fn no_parser_message(institution: Seq<char>) -> Seq<char> {
    "no statement parser registered for institution '"@ + institution + "'"@
}

/// The message for a statement that could not be parsed.
pub open spec fn unparseable_message(file: Seq<char>, id: Seq<char>, e: ParseErrorView) -> Seq<char> {
    "could not parse statement '"@ + file + "' for source "@ + id + ": "@ + parse_error_text(e)
}

/// Parses a newly found statement `text` (from file `filename`) for
/// `source`, with the parser of the source's institution and the
/// source's account type and hint.
pub fn parse_new_statement(
    source: &SourceConfig,
    filename: &str,
    text: &str,
    account_hint: Option<String>,
) -> (r: Result<ParsedStatement, ProviderError>)
    ensures
        parser_kind_for(lowercase(source.institution@)) is None ==> (r matches Err(
            ProviderError::Other(m),
        ) && m@ == no_parser_message(source.institution@)),
        parser_kind_for(lowercase(source.institution@)) matches Some(k) ==> match statement_outcome(
            k,
            text@,
            match account_hint {
                Some(h) => Some(h@),
                None => None,
            },
        ) {
            Ok(p) => (r matches Ok(s) && s.view() == p),
            Err(e) => (r matches Err(ProviderError::Other(m)) && m@ == unparseable_message(
                filename@,
                source.id@,
                e,
            )),
        },
{
    let parser = match parser_for(source.institution.as_str()) {
        Some(p) => p,
        None => {
            return Err(
                ProviderError::Other(
                    join3(
                        "no statement parser registered for institution '",
                        source.institution.as_str(),
                        "'",
                    ),
                ),
            );
        },
    };
    let expected = ExpectedAccount { account_type: source.account_type.clone(), account_hint };
    let r = parser.parse(text, &expected);
    match r {
        Ok(p) => Ok(p),
        Err(e) => {
            let head = concat(&chars_of("could not parse statement '"), &chars_of(filename));
            let mid = concat(&head, &chars_of("' for source "));
            let with_id = concat(&mid, &chars_of(source.id.as_str()));
            let with_sep = concat(&with_id, &chars_of(": "));
            let all = concat(&with_sep, &parse_error_text_exec(&e));
            Err(ProviderError::Other(string_of(&all)))
        },
    }
}

/// The extension of a file name, as `Path::extension` reads it: what
/// follows the last `.`, unless the name has no `.` or its only `.`
/// starts it.
pub open spec fn extension(name: Seq<char>) -> Option<Seq<char>> {
    match rfind_char(name, '.') {
        None => None,
        Some(p) => if p == 0 {
            None
        } else {
            Some(name.skip(p + 1))
        },
    }
}

/// `c` in lower case, for ASCII letters.
pub open spec fn ascii_lower(c: char) -> char {
    if 'A' <= c && c <= 'Z' {
        ((c as int) + 32) as char
    } else {
        c
    }
}

/// A PDF file name: its extension is `pdf` in any case.
pub open spec fn is_pdf_name(name: Seq<char>) -> bool {
    match extension(name) {
        Some(e) => e.len() == 3 && ascii_lower(e[0]) == 'p' && ascii_lower(e[1]) == 'd'
            && ascii_lower(e[2]) == 'f',
        None => false,
    }
}

fn ascii_lower_exec(c: char) -> (r: char)
    ensures
        r == ascii_lower(c),
{
    if 'A' <= c && c <= 'Z' {
        ((c as u8) + 32) as char
    } else {
        c
    }
}

/// Whether a file name is a PDF's (extension `pdf`, in any case).
pub fn is_pdf_file_name(name: &str) -> (r: bool)
    ensures
        r == is_pdf_name(name@),
{
    let t = chars_of(name);
    match rfind_before_exec(&t, '.', t.len()) {
        None => false,
        Some(p) => {
            proof {
                lemma_rfind_before_bounds(t@, '.', t@.len() as int);
            }
            if p == 0 {
                return false;
            }
            let n = t.len();
            if n - (p + 1) != 3 {
                return false;
            }
            ascii_lower_exec(t[p + 1]) == 'p' && ascii_lower_exec(t[p + 2]) == 'd'
                && ascii_lower_exec(t[p + 3]) == 'f'
        },
    }
}

/// The SHA-256 of a file's bytes, as lower-case hexadecimal: how a
/// statement file's content is told apart from another's.
pub fn sha256_hex(bytes: &[u8]) -> (r: String)
    ensures
        r@ == hex_lower(sha256(bytes@)),
{
    let digest = sha256_digest(bytes);
    string_of(&hex_encode(&digest))
}

/// A PDF file found in a watch directory.
pub struct StatementCandidate {
    pub filename: String,
    pub content_hash: String,
    /// When it was last modified, in nanoseconds since the Unix epoch.
    pub modified: i128,
}

/// The candidate that a source has not read yet.
pub open spec fn unread(c: StatementCandidate, l: Map<Seq<char>, EntryView>, src: Seq<char>) -> bool {
    !(l.contains_key(src) && l[src].files.contains_key(c.filename@) && l[src].files[c.filename@]
        == c.content_hash@)
}

/// The newest file a source has not read yet (by modification time; of
/// files modified at the same time, the last one listed), if any.
pub fn newest_unprocessed(
    candidates: &[StatementCandidate],
    ledger: &ProcessedFilesLedger,
    source_id: &str,
) -> (r: Option<usize>)
    ensures
        r is None ==> forall|i: int|
            0 <= i < candidates@.len() ==> !unread(#[trigger] candidates@[i], ledger@, source_id@),
        r matches Some(k) ==> k < candidates@.len() && unread(candidates@[k as int], ledger@, source_id@)
            && (forall|i: int|
            0 <= i < candidates@.len() && unread(#[trigger] candidates@[i], ledger@, source_id@)
                ==> candidates@[i].modified <= candidates@[k as int].modified) && (forall|i: int|
            k < i < candidates@.len() && unread(#[trigger] candidates@[i], ledger@, source_id@)
                ==> candidates@[i].modified < candidates@[k as int].modified),
{
    let mut best: Option<usize> = None;
    let mut i: usize = 0;
    while i < candidates.len()
        invariant
            i <= candidates.len(),
            best is None ==> forall|j: int|
                0 <= j < i ==> !unread(#[trigger] candidates@[j], ledger@, source_id@),
            best matches Some(k) ==> k < i && unread(candidates@[k as int], ledger@, source_id@)
                && (forall|j: int|
                0 <= j < i && unread(#[trigger] candidates@[j], ledger@, source_id@)
                    ==> candidates@[j].modified <= candidates@[k as int].modified) && (forall|
                j: int,
            |
                k < j < i && unread(#[trigger] candidates@[j], ledger@, source_id@)
                    ==> candidates@[j].modified < candidates@[k as int].modified),
        decreases candidates.len() - i,
    {
        let c = &candidates[i];
        if !ledger.is_processed(source_id, c.filename.as_str(), c.content_hash.as_str()) {
            match best {
                None => {
                    best = Some(i);
                },
                Some(k) => {
                    if c.modified >= candidates[k].modified {
                        best = Some(i);
                    }
                },
            }
        }
        i = i + 1;
    }
    best
}

/// The message for a source that has never read a statement and finds
/// none.
pub open spec fn no_statements_message(id: Seq<char>, dir: Seq<char>) -> Seq<char> {
    "source "@ + id + "'s watch_dir has no statements yet \u{2014} drop a PDF statement in '"@ + dir
        + "'"@
}

/// With no new statement, the balance, date and identifier the source
/// last read; an error when it never read one.
pub fn last_known_statement(
    ledger: &ProcessedFilesLedger,
    source: &SourceConfig,
    watch_dir: &str,
) -> (r: Result<(i64, String, String), ProviderError>)
    ensures
        !ledger@.contains_key(source.id@) <==> r is Err,
        r matches Err(e) ==> e matches ProviderError::Other(m) && m@ == no_statements_message(
            source.id@,
            watch_dir@,
        ),
        r matches Ok((b, d, i)) ==> b == ledger@[source.id@].balance && d@
            == ledger@[source.id@].as_of && i@ == ledger@[source.id@].id,
{
    match ledger.last_known(source.id.as_str()) {
        Some((b, d, i)) => Ok((b, d.to_string(), i.to_string())),
        None => {
            let head = join3("source ", source.id.as_str(), "'s watch_dir has no statements yet \u{2014} drop a PDF statement in '");
            Err(ProviderError::Other(join3(head.as_str(), watch_dir, "'")))
        },
    }
}

/// A statement file that a source has not read yet, with its text.
pub struct NewStatement {
    pub filename: String,
    pub content_hash: String,
    pub text: String,
}

/// A new statement as plain values: file name, content hash and text.
pub open spec fn new_statement_view(n: Option<NewStatement>) -> Option<(Seq<char>, Seq<char>, Seq<char>)> {
    match n {
        Some(s) => Some((s.filename@, s.content_hash@, s.text@)),
        None => None,
    }
}

/// The history a ledger holds for `id`, if any.
pub open spec fn entry_of(l: Map<Seq<char>, EntryView>, id: Seq<char>) -> Option<EntryView> {
    if l.contains_key(id) {
        Some(l[id])
    } else {
        None
    }
}

/// What fetching a statement source does, over plain values: the ledger
/// it leaves behind, and the balance, raw account identifier and
/// holdings it reports, or its error message. With a new statement, the
/// statement is parsed with the parser of the source's institution; only
/// a statement that parsed is recorded in the ledger. With none, the
/// balance and identifier the source last read are reported again (with
/// no holdings), and the ledger is left as it is.
pub open spec fn statement_fetch(
    l: Map<Seq<char>, EntryView>,
    id: Seq<char>,
    institution: Seq<char>,
    watch_dir: Seq<char>,
    hint: Option<Seq<char>>,
    new: Option<(Seq<char>, Seq<char>, Seq<char>)>,
) -> (Map<Seq<char>, EntryView>, Result<(i64, Seq<char>, Seq<HoldingView>), Seq<char>>) {
    match new {
        None => if l.contains_key(id) {
            (l, Ok((l[id].balance, l[id].id, seq![])))
        } else {
            (l, Err(no_statements_message(id, watch_dir)))
        },
        Some((file, hash, text)) => match parser_kind_for(lowercase(institution)) {
            None => (l, Err(no_parser_message(institution))),
            Some(k) => match statement_outcome(k, text, hint) {
                Err(e) => (l, Err(unparseable_message(file, id, e))),
                Ok(p) => (
                    l.insert(
                        id,
                        marked_entry(
                            entry_of(l, id),
                            file,
                            hash,
                            p.balance as i64,
                            p.as_of_date,
                            p.account_identifier,
                        ),
                    ),
                    Ok((p.balance as i64, p.account_identifier, p.holdings)),
                ),
            },
        },
    }
}

/// `r` is the account that a statement source reports with raw
/// identifier `id`, balance `balance` and holdings `holdings`: an asset
/// (holding the holdings, or none when there are none) or a liability
/// by the source's category, keyed by the identifier hashed with the
/// source's salt; an error for a source of unknown category.
pub open spec fn is_statement_account(
    r: Result<FetchedAccount, ProviderError>,
    source: SourceConfig,
    id: Seq<char>,
    balance: i64,
    holdings: Seq<HoldingView>,
) -> bool {
    match r {
        Err(e) => source.category == Category::Unknown && (e matches ProviderError::Other(m)
            && m@ == unknown_category_message(source.id@)),
        Ok(FetchedAccount::Asset(a)) => source.category == Category::Asset && a.account_key@
            == account_key_of(id, source.account_salt@) && a.institution@ == source.institution@
            && a.account_type@ == source.account_type@ && a.balance == Some(balance)
            && a.status is Success && opt_holdings_view(a.holdings) == if holdings.len() == 0 {
            None
        } else {
            Some(holdings)
        },
        Ok(FetchedAccount::Liability(a)) => source.category == Category::Liability
            && a.account_key@ == account_key_of(id, source.account_salt@) && a.institution@
            == source.institution@ && a.account_type@ == source.account_type@ && a.balance == Some(
            balance,
        ) && a.status is Success,
    }
}

/// Fetches the account of statement source `source` (watching
/// `watch_dir`, with account hint `account_hint`), given the newest
/// statement it has not read, if there is one: the statement is parsed
/// and, only if that succeeded, recorded in `ledger`, so that a file
/// that failed is tried again next time. Without a new statement, the
/// balance and identifier last read are reported again.
pub fn fetch_statement_account(
    ledger: &mut ProcessedFilesLedger,
    source: &SourceConfig,
    watch_dir: &str,
    account_hint: Option<String>,
    new_statement: Option<NewStatement>,
) -> (r: Result<FetchedAccount, ProviderError>)
    ensures
        ({
            let (l2, out) = statement_fetch(
                old(ledger)@,
                source.id@,
                source.institution@,
                watch_dir@,
                opt_str_view(account_hint),
                new_statement_view(new_statement),
            );
            &&& final(ledger)@ == l2
            &&& out matches Err(m) ==> (r matches Err(ProviderError::Other(e)) && e@ == m)
            &&& out matches Ok((b, id, hs)) ==> is_statement_account(r, *source, id, b, hs)
        }),
{
    let ghost hint_view = opt_str_view(account_hint);
    match new_statement {
        None => {
            let (balance, _as_of, identifier) = match last_known_statement(ledger, source, watch_dir) {
                Ok(t) => t,
                Err(e) => return Err(e),
            };
            let r = account_for_source(source, identifier.as_str(), Some(balance), None);
            assert(holdings_view(Seq::<Holding>::empty()) =~= Seq::<HoldingView>::empty());
            r
        },
        Some(ns) => {
            let parsed = match parse_new_statement(
                source,
                ns.filename.as_str(),
                ns.text.as_str(),
                account_hint,
            ) {
                Ok(p) => p,
                Err(e) => return Err(e),
            };
            ledger.mark_processed(
                source.id.as_str(),
                ns.filename.as_str(),
                ns.content_hash.as_str(),
                parsed.balance,
                parsed.as_of_date.as_str(),
                parsed.account_identifier.as_str(),
            );
            let balance = parsed.balance;
            let identifier = parsed.account_identifier;
            let hs = parsed.holdings;
            let ghost hsv = holdings_view(hs@);
            let holdings = if hs.len() == 0 {
                None
            } else {
                Some(hs)
            };
            assert(hsv.len() == 0 <==> holdings is None);
            account_for_source(source, identifier.as_str(), Some(balance), holdings)
        },
    }
}

/// A fetch that finds no new statement leaves the ledger as it is and
/// reports the balance and identifier (so the account keeps its key) of
/// the last statement the source read. So after any fetch that
/// succeeded, a second fetch with no new file reports the same balance
/// and identifier again.
pub proof fn lemma_second_fetch_repeats(
    l: Map<Seq<char>, EntryView>,
    id: Seq<char>,
    institution: Seq<char>,
    watch_dir: Seq<char>,
    hint: Option<Seq<char>>,
    new: Option<(Seq<char>, Seq<char>, Seq<char>)>,
)
    requires
        statement_fetch(l, id, institution, watch_dir, hint, new).1 is Ok,
    ensures
        ({
            let (l2, first) = statement_fetch(l, id, institution, watch_dir, hint, new);
            let (l3, second) = statement_fetch(l2, id, institution, watch_dir, hint, None);
            &&& l3 == l2
            &&& first matches Ok((b1, id1, _)) && second matches Ok((b2, id2, _)) && b1 == b2 && id1
                == id2
        }),
{
}

// ---------------------------------------------------------------------
// Discovery
// ---------------------------------------------------------------------

/// Words in a statement's file name that mark it as a liability's.
pub open spec fn liability_markers() -> Seq<Seq<char>> {
    seq!["credit"@, "card"@, "visa"@, "mastercard"@, "amex"@, "loan"@, "mortgage"@]
}

/// A file name (compared in lower case) that holds a liability word.
pub open spec fn suggests_liability(name: Seq<char>) -> bool {
    exists|i: int| 0 <= i < liability_markers().len() && contains(lowercase(name), #[trigger] liability_markers()[i])
}

/// Whether a statement's file name suggests a liability (`credit`,
/// `card`, `visa`, `mastercard`, `amex`, `loan`, `mortgage`, in any
/// case). Only consulted when the statement's own wording left it an
/// asset.
pub fn filename_suggests_liability(file_name: &str) -> (r: bool)
    ensures
        r == suggests_liability(file_name@),
{
    let lower = lowercase_chars(file_name);
    let markers = vec![
        chars_of("credit"),
        chars_of("card"),
        chars_of("visa"),
        chars_of("mastercard"),
        chars_of("amex"),
        chars_of("loan"),
        chars_of("mortgage"),
    ];
    let ghost ms = liability_markers();
    let mut i: usize = 0;
    while i < markers.len()
        invariant
            i <= markers.len(),
            markers.len() == 7,
            lower@ == lowercase(file_name@),
            ms == liability_markers(),
            forall|j: int| 0 <= j < 7 ==> #[trigger] markers@[j]@ == ms[j],
            forall|j: int| 0 <= j < i ==> !contains(lower@, #[trigger] ms[j]),
        decreases markers.len() - i,
    {
        if contains_exec(&lower, &markers[i]) {
            return true;
        }
        i = i + 1;
    }
    false
}

/// Whether `watch_dir` already belongs to a dropbox source.
pub fn is_known_watch_dir(existing: &[SourceConfig], watch_dir: &str) -> (r: bool)
    ensures
        r == exists|i: int|
            0 <= i < existing@.len() && (#[trigger] existing@[i]).provider@ == "statement_import"@
                && config_str(existing@[i].provider_config@, "watch_dir"@) == Some(watch_dir@),
{
    let mut i: usize = 0;
    while i < existing.len()
        invariant
            i <= existing.len(),
            forall|j: int|
                0 <= j < i ==> !((#[trigger] existing@[j]).provider@ == "statement_import"@
                    && config_str(existing@[j].provider_config@, "watch_dir"@) == Some(watch_dir@)),
        decreases existing.len() - i,
    {
        let s = &existing[i];
        if str_eq(s.provider.as_str(), "statement_import") {
            match config_get_str(&s.provider_config, "watch_dir") {
                Some(d) => {
                    if str_eq(d.as_str(), watch_dir) {
                        return true;
                    }
                },
                None => {},
            }
        }
        i = i + 1;
    }
    false
}

/// Why a leaf directory was not made into a source.
#[derive(Debug)]
pub enum DiscoverySkip {
    /// No parser handles the directory's institution.
    NoParser,
    /// Its newest statement could not be parsed.
    Unparseable(ParseError),
}

/// The category a discovered source gets: the statement's own, except
/// that an asset whose file name suggests a liability is a liability.
pub open spec fn discovered_category(parsed: Category, file: Seq<char>) -> Category {
    if parsed == Category::Asset && suggests_liability(file) {
        Category::Liability
    } else {
        parsed
    }
}

/// The source for a new leaf directory `<institution>/<account>` whose
/// newest statement (file `pdf_file_name`) reads as `text`: id
/// `<institution>_<account>` in lower case, account type the account
/// directory's name in lower case, category from the statement (see
/// `discovered_category`), watching `watch_dir`. Its salt is left empty
/// for adding to fill in.
pub fn discovered_source(
    institution: &str,
    account: &str,
    watch_dir: &str,
    pdf_file_name: &str,
    text: &str,
) -> (r: Result<SourceConfig, DiscoverySkip>)
    ensures
        parser_kind_for(lowercase(institution@)) is None ==> r matches Err(DiscoverySkip::NoParser),
        parser_kind_for(lowercase(institution@)) matches Some(k) ==> match statement_outcome(
            k,
            text@,
            None,
        ) {
            Err(e) => (r matches Err(DiscoverySkip::Unparseable(pe)) && pe.view() == e),
            Ok(p) => (r matches Ok(s) && s.id@ == lowercase(institution@) + seq!['_'] + lowercase(
                account@,
            ) && s.provider@ == "statement_import"@ && s.category == discovered_category(
                p.category,
                pdf_file_name@,
            ) && s.account_type@ == lowercase(account@) && s.institution@ == institution@
                && s.account_salt@ == Seq::<char>::empty() && s.provider_config@.dom() == set!["watch_dir"@] && config_str(
                s.provider_config@,
                "watch_dir"@,
            ) == Some(watch_dir@)),
        },
{
    let parser = match parser_for(institution) {
        Some(p) => p,
        None => {
            return Err(DiscoverySkip::NoParser);
        },
    };
    let lower_account = string_of(&lowercase_chars(account));
    let expected = ExpectedAccount { account_type: lower_account.clone(), account_hint: None };
    let parsed = match parser.parse(text, &expected) {
        Ok(p) => p,
        Err(e) => {
            return Err(DiscoverySkip::Unparseable(e));
        },
    };
    let category = if parsed.category == Category::Asset && filename_suggests_liability(
        pdf_file_name,
    ) {
        Category::Liability
    } else {
        parsed.category
    };
    let underscore: Vec<char> = vec!['_'];
    assert(underscore@ =~= seq!['_']);
    let id_head = concat(&lowercase_chars(institution), &underscore);
    let id = string_of(&concat(&id_head, &lowercase_chars(account)));
    let mut config: ProviderConfig = StrMap::new();
    config.insert("watch_dir".to_string(), Some(watch_dir.to_string()));
    assert(config@.dom() =~= set!["watch_dir"@]);
    Ok(
        SourceConfig {
            id,
            provider: "statement_import".to_string(),
            category,
            account_type: lower_account,
            institution: institution.to_string(),
            account_salt: String::new(),
            provider_config: config,
        },
    )
}

} // verus!
