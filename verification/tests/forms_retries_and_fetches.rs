use obol::form::{finish_form, next_field, FormField};
use obol::item_usage::ItemUsageCounter;
use obol::monthly_spend::format_unix_timestamp;
use obol::plaid_link::{default_account_type, default_category_index};
use obol::provider::{FetchedAccount, ProviderConfig, ProviderError, SourceConfig};
use obol::retry::{retry_delay, retry_step, RetryConfig, RetryStep, RetryableError};
use obol::screens::{multi_select_step, Key, SelectStep};
use obol::snapshot::Category;
use obol::statement::chase::ChaseStatementParser;
use obol::statement::dropbox::{fetch_statement_account, NewStatement};
use obol::statement::parser::{ExpectedAccount, StatementParser};
use obol::statement::processed_files::ProcessedFilesLedger;
use std::time::Duration;

const CHASE_CHECKING: &str = "CHASE\nChase Checking Statement\nAccount ending in 6789\n\
                              Statement Date: 06/30/2026\nNew Balance $1,234.56\n";

fn statement_source() -> SourceConfig {
    let mut provider_config = ProviderConfig::new();
    provider_config.insert("watch_dir".to_string(), Some("/s".to_string()));
    SourceConfig {
        id: "chase_checking".into(),
        provider: "statement_import".into(),
        category: Category::Asset,
        account_type: "checking".into(),
        institution: "Chase".into(),
        account_salt: "salt".into(),
        provider_config,
    }
}

fn new_statement(name: &str, hash: &str, text: &str) -> NewStatement {
    NewStatement {
        filename: name.to_string(),
        content_hash: hash.to_string(),
        text: text.to_string(),
    }
}

fn asset_of(r: Result<FetchedAccount, ProviderError>) -> (String, Option<i64>) {
    match r {
        Ok(FetchedAccount::Asset(a)) => (a.account_key, a.balance),
        other => panic!("expected an asset, got {other:?}"),
    }
}

// ---- statement fetches ----

#[test]
fn a_fetch_reads_the_new_statement_and_records_it() {
    let source = statement_source();
    let mut ledger = ProcessedFilesLedger::new();
    let r = fetch_statement_account(
        &mut ledger,
        &source,
        "/s",
        None,
        Some(new_statement("june.pdf", "h1", CHASE_CHECKING)),
    );
    let (key, balance) = asset_of(r);
    assert_eq!(balance, Some(123456));
    assert_eq!(key, obol::pii::hash_account_number("6789", "salt"));
    assert!(ledger.is_processed("chase_checking", "june.pdf", "h1"));
    assert_eq!(ledger.last_known("chase_checking"), Some((123456, "06/30/2026", "6789")));
}

#[test]
fn a_fetch_with_no_new_file_repeats_the_last_statement() {
    let source = statement_source();
    let mut ledger = ProcessedFilesLedger::new();
    let first = asset_of(fetch_statement_account(
        &mut ledger,
        &source,
        "/s",
        None,
        Some(new_statement("june.pdf", "h1", CHASE_CHECKING)),
    ));
    let second = asset_of(fetch_statement_account(&mut ledger, &source, "/s", None, None));
    assert_eq!(first, second);
}

#[test]
fn a_statement_that_fails_to_parse_is_not_recorded() {
    let source = statement_source();
    let mut ledger = ProcessedFilesLedger::new();
    let r = fetch_statement_account(
        &mut ledger,
        &source,
        "/s",
        None,
        Some(new_statement("junk.pdf", "h9", "nothing to read here")),
    );
    assert!(matches!(r, Err(ProviderError::Other(_))));
    assert!(!ledger.is_processed("chase_checking", "junk.pdf", "h9"));
    assert_eq!(ledger.last_known("chase_checking"), None);
}

#[test]
fn a_fetch_with_no_statement_ever_read_is_an_error() {
    let source = statement_source();
    let mut ledger = ProcessedFilesLedger::new();
    let r = fetch_statement_account(&mut ledger, &source, "/s", None, None);
    assert!(matches!(r, Err(ProviderError::Other(ref m))
        if m == "source chase_checking's watch_dir has no statements yet \u{2014} drop a PDF statement in '/s'"));
}

// ---- Chase details ----

#[test]
fn a_long_account_number_starting_near_the_window_edge_keeps_its_last_four() {
    let text = format!("Account Number:{}1234567890\nNew Balance $10.00\n", " ".repeat(36));
    let expected = ExpectedAccount { account_type: "checking".into(), account_hint: None };
    let parsed = ChaseStatementParser.parse(&text, &expected).unwrap();
    assert_eq!(parsed.account_identifier, "7890");
}

#[test]
fn amounts_with_more_than_two_decimals_round_to_the_nearest_cent() {
    let expected = ExpectedAccount { account_type: "checking".into(), account_hint: None };
    let up = ChaseStatementParser
        .parse("Account ending in 6789\nNew Balance $1,234.565\n", &expected)
        .unwrap();
    assert_eq!(up.balance, 123457);
    let down = ChaseStatementParser
        .parse("Account ending in 6789\nNew Balance $1,234.564\n", &expected)
        .unwrap();
    assert_eq!(down.balance, 123456);
    let carry = ChaseStatementParser
        .parse("Account ending in 6789\nNew Balance $9.995\n", &expected)
        .unwrap();
    assert_eq!(carry.balance, 1000);
}

// ---- item counter ----

#[test]
fn the_default_counter_is_the_new_counter() {
    assert_eq!(ItemUsageCounter::default(), ItemUsageCounter::new());
    assert_eq!(ItemUsageCounter::default().count(), 0);
}

// ---- retries ----

#[test]
fn a_retryable_failure_is_retried_until_the_attempts_run_out() {
    let config = RetryConfig::spec_default();
    let timeout = RetryableError::Timeout;
    assert_eq!(retry_step(&config, 0, &timeout), RetryStep::Retry);
    assert_eq!(retry_step(&config, 1, &timeout), RetryStep::Retry);
    assert_eq!(retry_step(&config, 2, &timeout), RetryStep::GiveUp);
    let auth = RetryableError::Operation(ProviderError::Auth("bad token".into()));
    assert_eq!(retry_step(&config, 0, &auth), RetryStep::GiveUp);
}

#[test]
fn a_policy_of_one_attempt_never_retries() {
    let config = RetryConfig {
        max_attempts: 1,
        initial_backoff: Duration::from_secs(2),
        per_attempt_timeout: Duration::from_secs(15),
    };
    assert_eq!(retry_step(&config, 0, &RetryableError::Timeout), RetryStep::GiveUp);
}

#[test]
fn waits_start_at_two_seconds_and_double_within_twenty_percent() {
    let config = RetryConfig::spec_default();
    assert_eq!(retry_delay(&config, 0, 200), Duration::from_millis(2000));
    assert_eq!(retry_delay(&config, 0, 0), Duration::from_millis(1600));
    assert_eq!(retry_delay(&config, 0, 400), Duration::from_millis(2400));
    assert_eq!(retry_delay(&config, 1, 200), Duration::from_millis(4000));
    assert_eq!(retry_delay(&config, 1, 0), Duration::from_millis(3200));
    assert_eq!(retry_delay(&config, 1, 400), Duration::from_millis(4800));
    for draw in [1u32, 77, 401, 12345, u32::MAX] {
        let d = retry_delay(&config, 1, draw);
        assert!(d >= Duration::from_millis(3200) && d <= Duration::from_millis(4800));
    }
}

#[test]
fn a_huge_backoff_is_capped_instead_of_overflowing() {
    let config = RetryConfig {
        max_attempts: 3,
        initial_backoff: Duration::from_secs(u64::MAX),
        per_attempt_timeout: Duration::from_secs(15),
    };
    assert_eq!(retry_delay(&config, 5, 200), Duration::from_millis(u64::MAX));
}

// ---- the source form ----

#[test]
fn a_webdriver_form_asks_for_the_login_url_last() {
    assert_eq!(next_field("webdriver", FormField::Id), Some(FormField::Provider));
    assert_eq!(next_field("webdriver", FormField::Institution), Some(FormField::LoginUrl));
    assert_eq!(next_field("webdriver", FormField::LoginUrl), None);
}

#[test]
fn a_statement_form_asks_for_the_directory_then_the_hint() {
    assert_eq!(next_field("statement_import", FormField::Institution), Some(FormField::WatchDir));
    assert_eq!(next_field("statement_import", FormField::WatchDir), Some(FormField::AccountHint));
    assert_eq!(next_field("statement_import", FormField::AccountHint), None);
}

#[test]
fn a_manual_form_ends_with_the_institution() {
    assert_eq!(next_field("manual_entry", FormField::Category), Some(FormField::AccountType));
    assert_eq!(next_field("manual_entry", FormField::AccountType), Some(FormField::Institution));
    assert_eq!(next_field("manual_entry", FormField::Institution), None);
}

#[test]
fn a_blank_hint_answer_means_no_hint() {
    let form = finish_form(
        "chase".into(),
        "statement_import".into(),
        "asset".into(),
        "checking".into(),
        "Chase".into(),
        None,
        Some("/s".into()),
        Some("   ".into()),
    );
    assert_eq!(form.watch_dir.as_deref(), Some("/s"));
    assert_eq!(form.account_hint, None);
    let with_hint = finish_form(
        "chase".into(),
        "statement_import".into(),
        "asset".into(),
        "checking".into(),
        "Chase".into(),
        None,
        Some("/s".into()),
        Some("6789".into()),
    );
    assert_eq!(with_hint.account_hint.as_deref(), Some("6789"));
}

#[test]
fn answers_for_another_provider_are_not_kept() {
    let form = finish_form(
        "bank".into(),
        "webdriver".into(),
        "asset".into(),
        "checking".into(),
        "Bank".into(),
        Some("https://example.com/login".into()),
        Some("/s".into()),
        Some("6789".into()),
    );
    assert_eq!(form.webdriver_login_url.as_deref(), Some("https://example.com/login"));
    assert_eq!(form.watch_dir, None);
    assert_eq!(form.account_hint, None);
    let manual = finish_form(
        "cash".into(),
        "manual_entry".into(),
        "asset".into(),
        "cash".into(),
        "Wallet".into(),
        Some("https://example.com/login".into()),
        None,
        None,
    );
    assert_eq!(manual.webdriver_login_url, None);
}

// ---- picking Plaid accounts ----

#[test]
fn space_toggles_only_the_row_under_the_cursor() {
    let mut selected = vec![false, false, false];
    assert!(matches!(multi_select_step(Key::Char(' '), &mut selected, 1), SelectStep::Stay));
    assert_eq!(selected, vec![false, true, false]);
    assert!(matches!(multi_select_step(Key::Char(' '), &mut selected, 1), SelectStep::Stay));
    assert_eq!(selected, vec![false, false, false]);
}

#[test]
fn enter_confirms_the_ticked_rows_in_order_only_when_some_are_ticked() {
    let mut none = vec![false, false];
    assert!(matches!(multi_select_step(Key::Enter, &mut none, 0), SelectStep::Stay));
    let mut some = vec![true, false, true];
    match multi_select_step(Key::Enter, &mut some, 1) {
        SelectStep::Confirm(rows) => assert_eq!(rows, vec![0, 2]),
        other => panic!("expected a confirmation, got {other:?}"),
    }
}

#[test]
fn esc_cancels_and_arrows_move_round_the_list() {
    let mut selected = vec![true, false, false];
    assert!(matches!(multi_select_step(Key::Esc, &mut selected, 0), SelectStep::Cancel));
    assert!(matches!(multi_select_step(Key::Down, &mut selected, 2), SelectStep::MoveTo(0)));
    assert!(matches!(multi_select_step(Key::Char('k'), &mut selected, 0), SelectStep::MoveTo(2)));
    assert!(matches!(multi_select_step(Key::Char('x'), &mut selected, 0), SelectStep::Stay));
    assert_eq!(selected, vec![true, false, false]);
}

#[test]
fn credit_and_loan_accounts_default_to_liability() {
    assert_eq!(default_category_index("credit"), 1);
    assert_eq!(default_category_index("loan"), 1);
    assert_eq!(default_category_index("depository"), 0);
    assert_eq!(default_category_index("investment"), 0);
}

#[test]
fn the_offered_type_is_the_subtype_when_there_is_one() {
    assert_eq!(default_account_type(Some("checking".into()), "depository".into()), "checking");
    assert_eq!(default_account_type(None, "credit".into()), "credit");
}

// ---- chart dates ----

#[test]
fn chart_dates_follow_the_gregorian_calendar() {
    assert_eq!(format_unix_timestamp(951782400), "02/29");
    assert_eq!(format_unix_timestamp(-1), "12/31");
    assert_eq!(format_unix_timestamp(-377705116800), "01/01");
    assert_eq!(format_unix_timestamp(253402300799), "12/31");
}

#[test]
fn the_item_count_only_ever_goes_up_by_one_per_increment() {
    let mut counter = ItemUsageCounter::from_count(7);
    let mut seen = vec![counter.count()];
    for _ in 0..3 {
        let _ = counter.is_at_warning_threshold();
        seen.push(counter.count());
        counter.increment();
        seen.push(counter.count());
        let _ = counter.is_blocked();
        seen.push(counter.count());
    }
    assert!(seen.windows(2).all(|w| w[0] <= w[1]));
    assert_eq!(counter.count(), 10);
    assert!(counter.is_blocked());
}
