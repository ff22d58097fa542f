use obol::display::source_line;
use obol::holdings::{breakdown_rows, AssetClass, BreakdownRow, BAR_WIDTH};
use obol::item_usage::ItemUsageCounter;
use obol::monthly_spend::{
    format_unix_timestamp, spend_chart_frame, MonthlySpendThresholds, SpendChartFrame, SpendPoint,
};
use obol::plaid_link::{check_link_allowed, plaid_source, record_linked_item, CompleteLinkError, SelectedAccount};
use obol::provider::{config_get_str, ProviderConfig, ProviderError, SourceConfig};
use obol::snapshot::{Category, Snapshot};
use obol::sources::{suggest_source_id, SourcesError};
use obol::statement::dropbox::{
    discovered_source, is_known_watch_dir, is_pdf_file_name, last_known_statement,
    newest_unprocessed, parse_new_statement, sha256_hex, statement_source_settings,
    DiscoverySkip, StatementCandidate,
};
use obol::statement::processed_files::ProcessedFilesLedger;

const CHASE_CHECKING: &str = "CHASE\nChase Checking Statement\nAccount ending in 6789\n\
                              Statement Date: 06/30/2026\nNew Balance $1,234.56\n";

fn dropbox_source(institution: &str, watch_dir: Option<&str>, hint: Option<&str>) -> SourceConfig {
    let mut provider_config = ProviderConfig::new();
    if let Some(d) = watch_dir {
        provider_config.insert("watch_dir".to_string(), Some(d.to_string()));
    }
    if let Some(h) = hint {
        provider_config.insert("account_hint".to_string(), Some(h.to_string()));
    }
    SourceConfig {
        id: "chase_checking".into(),
        provider: "statement_import".into(),
        category: Category::Asset,
        account_type: "checking".into(),
        institution: institution.into(),
        account_salt: "salt".into(),
        provider_config,
    }
}

#[test]
fn suggested_ids_are_lower_case_slugs() {
    assert_eq!(suggest_source_id("Chase", "Total Checking", &[]), "chase_total_checking");
    assert_eq!(suggest_source_id("E*TRADE", "Brokerage-1", &[]), "e_trade_brokerage_1");
}

#[test]
fn a_taken_suggestion_gets_the_first_free_number() {
    let existing = vec![
        "chase_checking".to_string(),
        "chase_checking_2".to_string(),
        "chase_checking_3".to_string(),
    ];
    assert_eq!(suggest_source_id("Chase", "Checking", &existing), "chase_checking_4");
    let gap = vec!["chase_checking".to_string(), "chase_checking_3".to_string()];
    assert_eq!(suggest_source_id("Chase", "Checking", &gap), "chase_checking_2");
}

#[test]
fn the_sources_screen_line_shows_the_source_and_its_health() {
    let source = dropbox_source("Chase", Some("/tmp/x"), None);
    let recent: Vec<Snapshot> = vec![];
    assert_eq!(
        source_line(&source, &recent, true),
        "> chase_checking \u{2014} statement_import / asset / checking  [No snapshot yet \u{2014} press 'v' to fetch]"
    );
    assert!(source_line(&source, &recent, false).starts_with("  chase_checking"));
}

fn thresholds() -> MonthlySpendThresholds {
    MonthlySpendThresholds {
        yellow_at_or_above: 800000,
        red_at_or_above: 1100000,
    }
}

#[test]
fn a_history_with_no_dated_point_has_no_chart() {
    let series = vec![SpendPoint { total: 5, timestamp: None }];
    assert_eq!(spend_chart_frame(&series, &thresholds()), None);
    assert_eq!(spend_chart_frame(&[], &thresholds()), None);
}

#[test]
fn the_chart_spans_the_dated_points_and_reaches_the_red_line() {
    let series = vec![
        SpendPoint { total: 300000, timestamp: Some(1000) },
        SpendPoint { total: 999999999, timestamp: None },
        SpendPoint { total: 200000, timestamp: Some(5000) },
    ];
    assert_eq!(
        spend_chart_frame(&series, &thresholds()),
        Some(SpendChartFrame { x_min: 1000, x_max: 5000, x_mid: 3000, y_top: 1100000 })
    );
}

#[test]
fn a_single_dated_point_is_widened_by_a_day_each_side() {
    let series = vec![SpendPoint { total: 1500000, timestamp: Some(1767225600) }];
    assert_eq!(
        spend_chart_frame(&series, &thresholds()),
        Some(SpendChartFrame {
            x_min: 1767225600 - 86400,
            x_max: 1767225600 + 86400,
            x_mid: 1767225600,
            y_top: 1500000,
        })
    );
}

#[test]
fn chart_times_are_labelled_month_slash_day() {
    assert_eq!(format_unix_timestamp(1782836100), "06/30");
    assert_eq!(format_unix_timestamp(0), "01/01");
    assert_eq!(format_unix_timestamp(i64::MAX), "");
}

#[test]
fn the_holdings_breakdown_shares_the_bar_by_value() {
    let rows = breakdown_rows(&[(AssetClass::Fund, 20000), (AssetClass::Stock, 15000)]);
    assert_eq!(BAR_WIDTH, 30);
    assert_eq!(
        rows,
        vec![
            BreakdownRow { class: AssetClass::Fund, value: 20000, filled: 17, percent_tenths: 571 },
            BreakdownRow { class: AssetClass::Stock, value: 15000, filled: 13, percent_tenths: 429 },
        ]
    );
    assert!(breakdown_rows(&[]).is_empty());
    let zero = breakdown_rows(&[(AssetClass::Cash, 0)]);
    assert_eq!(zero[0].filled, 0);
    assert_eq!(zero[0].percent_tenths, 0);
}

#[test]
fn a_single_class_fills_the_whole_bar() {
    let rows = breakdown_rows(&[(AssetClass::Cash, 12345)]);
    assert_eq!(rows[0].filled, 30);
    assert_eq!(rows[0].percent_tenths, 1000);
}

#[test]
fn blocked_when_item_counter_is_at_the_limit_before_any_side_effect() {
    let counter = ItemUsageCounter::from_count(10);
    assert!(matches!(check_link_allowed(&counter), Err(CompleteLinkError::ItemLimitReached)));
    assert!(check_link_allowed(&ItemUsageCounter::from_count(9)).is_ok());
}

fn selected(id: &str, plaid_id: &str, account_type: &str) -> SelectedAccount {
    SelectedAccount {
        source_id: id.into(),
        plaid_account_id: plaid_id.into(),
        category: Category::Asset,
        account_type: account_type.into(),
        institution: "Chase".into(),
    }
}

#[test]
fn selecting_multiple_accounts_from_one_item_increments_the_counter_once() {
    let mut counter = ItemUsageCounter::new();
    let mut sources = Vec::new();
    record_linked_item(
        &mut counter,
        &mut sources,
        vec![
            selected("chase_checking_test", "acc_checking", "checking"),
            selected("chase_savings_test", "acc_savings", "savings"),
        ],
    )
    .unwrap();
    assert_eq!(counter.count(), 1);
    assert_eq!(sources.len(), 2);
    assert_eq!(sources[0].provider, "plaid");
    assert_eq!(
        config_get_str(&sources[1].provider_config, "plaid_account_id").as_deref(),
        Some("acc_savings")
    );
    assert!(sources[0].account_salt.starts_with("b64:"));
}

#[test]
fn a_repeated_id_stops_the_additions_at_that_account() {
    let mut counter = ItemUsageCounter::new();
    let mut sources = Vec::new();
    let err = record_linked_item(
        &mut counter,
        &mut sources,
        vec![
            selected("a", "acc_a", "checking"),
            selected("b", "acc_b", "savings"),
            selected("a", "acc_c", "savings"),
            selected("d", "acc_d", "savings"),
        ],
    )
    .unwrap_err();
    assert!(matches!(err, CompleteLinkError::Sources(SourcesError::AlreadyExists(ref id)) if id == "a"));
    assert_eq!(counter.count(), 1);
    assert_eq!(sources.len(), 2);
}

#[test]
fn a_plaid_source_carries_the_plaid_account_id() {
    let s = plaid_source(selected("x", "acc_x", "checking"));
    assert_eq!(s.id, "x");
    assert_eq!(s.provider, "plaid");
    assert_eq!(s.account_type, "checking");
    assert_eq!(config_get_str(&s.provider_config, "plaid_account_id").as_deref(), Some("acc_x"));
}

#[test]
fn missing_watch_dir_config_is_a_provider_error() {
    let err = statement_source_settings(&dropbox_source("Chase", None, None)).unwrap_err();
    match err {
        ProviderError::Other(m) => {
            assert_eq!(m, "source chase_checking is missing provider_config.watch_dir")
        }
        other => panic!("expected Other, got {other:?}"),
    }
    let (dir, hint) =
        statement_source_settings(&dropbox_source("Chase", Some("/s"), Some("6789"))).unwrap();
    assert_eq!(dir, "/s");
    assert_eq!(hint.as_deref(), Some("6789"));
}

#[test]
fn unrecognized_institution_is_a_provider_error() {
    let source = dropbox_source("Nobody Bank", Some("/s"), None);
    let err = parse_new_statement(&source, "s.pdf", CHASE_CHECKING, None).unwrap_err();
    assert!(matches!(err, ProviderError::Other(ref m)
        if m == "no statement parser registered for institution 'Nobody Bank'"));
}

#[test]
fn first_run_processes_the_one_statement_present() {
    let source = dropbox_source("Chase", Some("/s"), None);
    let parsed = parse_new_statement(&source, "june.pdf", CHASE_CHECKING, None).unwrap();
    assert_eq!(parsed.balance, 123456);
    assert_eq!(parsed.account_identifier, "6789");
}

#[test]
fn an_unparseable_statement_names_the_file_and_the_reason() {
    let source = dropbox_source("Chase", Some("/s"), Some("0000"));
    let err = parse_new_statement(&source, "june.pdf", CHASE_CHECKING, Some("0000".into())).unwrap_err();
    assert!(matches!(err, ProviderError::Other(ref m)
        if m == "could not parse statement 'june.pdf' for source chase_checking: NoMatchingAccount"));
}

fn candidate(name: &str, hash: &str, modified: i128) -> StatementCandidate {
    StatementCandidate {
        filename: name.into(),
        content_hash: hash.into(),
        modified,
    }
}

#[test]
fn a_genuinely_new_file_added_between_runs_gets_processed() {
    let mut ledger = ProcessedFilesLedger::new();
    let files = vec![candidate("june.pdf", "h1", 10), candidate("july.pdf", "h2", 20)];
    assert_eq!(newest_unprocessed(&files, &ledger, "chase_checking"), Some(1));
    ledger.mark_processed("chase_checking", "july.pdf", "h2", 100, "07/31/2026", "6789");
    assert_eq!(newest_unprocessed(&files, &ledger, "chase_checking"), Some(0));
    ledger.mark_processed("chase_checking", "june.pdf", "h1", 90, "06/30/2026", "6789");
    assert_eq!(newest_unprocessed(&files, &ledger, "chase_checking"), None);
}

#[test]
fn of_files_modified_together_the_last_listed_wins() {
    let ledger = ProcessedFilesLedger::new();
    let files = vec![candidate("a.pdf", "h1", 10), candidate("b.pdf", "h2", 10)];
    assert_eq!(newest_unprocessed(&files, &ledger, "s"), Some(1));
}

#[test]
fn a_second_fetch_with_no_new_file_returns_the_same_last_known_balance() {
    let source = dropbox_source("Chase", Some("/s"), None);
    let mut ledger = ProcessedFilesLedger::new();
    ledger.mark_processed("chase_checking", "june.pdf", "h1", 123456, "06/30/2026", "6789");
    let (b, d, i) = last_known_statement(&ledger, &source, "/s").unwrap();
    assert_eq!((b, d.as_str(), i.as_str()), (123456, "06/30/2026", "6789"));
}

#[test]
fn empty_watch_dir_with_no_history_is_a_provider_error() {
    let source = dropbox_source("Chase", Some("/s"), None);
    let err = last_known_statement(&ProcessedFilesLedger::new(), &source, "/s").unwrap_err();
    assert!(matches!(err, ProviderError::Other(ref m)
        if m == "source chase_checking's watch_dir has no statements yet \u{2014} drop a PDF statement in '/s'"));
}

#[test]
fn only_pdf_names_are_statements() {
    assert!(is_pdf_file_name("march.pdf"));
    assert!(is_pdf_file_name("MARCH.PDF"));
    assert!(!is_pdf_file_name(".pdf"));
    assert!(!is_pdf_file_name("notes.txt"));
    assert!(!is_pdf_file_name("pdf"));
    assert!(!is_pdf_file_name("archive.pdf.zip"));
}

#[test]
fn file_contents_are_told_apart_by_their_sha256() {
    assert_eq!(
        sha256_hex(b""),
        "e3b0c44298fc1c149afbf4c8996fb92427ae41e4649b934ca495991b7852b855"
    );
}

#[test]
fn an_already_registered_watch_dir_is_not_rediscovered() {
    let existing = vec![dropbox_source("Chase", Some("/root/Chase/Checking"), None)];
    assert!(is_known_watch_dir(&existing, "/root/Chase/Checking"));
    assert!(!is_known_watch_dir(&existing, "/root/Chase/Savings"));
}

#[test]
fn discovers_a_new_leaf_directory_with_a_valid_statement() {
    let source = discovered_source("Chase", "Checking", "/root/Chase/Checking", "march_statement.pdf", CHASE_CHECKING)
        .unwrap();
    assert_eq!(source.id, "chase_checking");
    assert_eq!(source.provider, "statement_import");
    assert_eq!(source.account_type, "checking");
    assert_eq!(source.institution, "Chase");
    assert_eq!(source.category, Category::Asset);
    assert_eq!(source.account_salt, "");
    assert_eq!(
        config_get_str(&source.provider_config, "watch_dir").as_deref(),
        Some("/root/Chase/Checking")
    );
}

#[test]
fn a_liability_hinting_filename_overrides_an_asset_default() {
    let source = discovered_source("Chase", "Sapphire", "/r/Chase/Sapphire", "Chase_CreditCard_2026.pdf", CHASE_CHECKING)
        .unwrap();
    assert_eq!(source.category, Category::Liability);
}

#[test]
fn a_plain_filename_does_not_affect_an_asset_default() {
    let source = discovered_source("Chase", "Checking", "/r/Chase/Checking", "statement.pdf", CHASE_CHECKING)
        .unwrap();
    assert_eq!(source.category, Category::Asset);
}

#[test]
fn an_unrecognized_institution_directory_is_skipped() {
    assert!(matches!(
        discovered_source("Nobody", "Checking", "/r", "s.pdf", CHASE_CHECKING),
        Err(DiscoverySkip::NoParser)
    ));
}

#[test]
fn a_leaf_whose_statement_fails_to_parse_is_skipped() {
    assert!(matches!(
        discovered_source("Chase", "Checking", "/r", "s.pdf", "not a statement"),
        Err(DiscoverySkip::Unparseable(_))
    ));
}

use obol::screens::{
    clamp_cursor, dashboard_action, monthly_spend_action, recommendations_step, sources_step,
    DashboardAction, Key, MonthlySpendAction, RecommendationsAction, RecommendationsStep,
    SourcesAction, SourcesStep,
};

#[test]
fn the_dashboard_goes_to_sources_on_s_and_quits_on_anything_else() {
    assert_eq!(dashboard_action(Key::Char('s')), DashboardAction::GoToSources);
    assert_eq!(dashboard_action(Key::Char('q')), DashboardAction::Quit);
    assert_eq!(dashboard_action(Key::Down), DashboardAction::Quit);
    assert_eq!(monthly_spend_action(Key::Char('v')), MonthlySpendAction::GoToDashboard);
    assert_eq!(monthly_spend_action(Key::Other), MonthlySpendAction::Quit);
}

#[test]
fn the_recommendations_screen_moves_and_cycles() {
    assert_eq!(recommendations_step(Key::Esc, 0, 11), RecommendationsStep::Leave(RecommendationsAction::Quit));
    assert_eq!(
        recommendations_step(Key::Char('v'), 0, 11),
        RecommendationsStep::Leave(RecommendationsAction::GoToDashboard)
    );
    assert_eq!(recommendations_step(Key::Char('j'), 10, 11), RecommendationsStep::MoveTo(0));
    assert_eq!(recommendations_step(Key::Up, 0, 11), RecommendationsStep::MoveTo(10));
    assert_eq!(recommendations_step(Key::Char(' '), 4, 11), RecommendationsStep::Cycle(4));
    assert_eq!(recommendations_step(Key::Char('x'), 4, 11), RecommendationsStep::Stay);
}

#[test]
fn the_sources_screen_acts_on_the_row_under_the_cursor() {
    assert_eq!(sources_step(Key::Char('q'), 0, 2), SourcesStep::Leave(SourcesAction::Quit));
    assert_eq!(sources_step(Key::Char('v'), 0, 2), SourcesStep::Leave(SourcesAction::GoToDashboard));
    assert_eq!(sources_step(Key::Down, 1, 2), SourcesStep::MoveTo(0));
    assert_eq!(sources_step(Key::Char('k'), 1, 2), SourcesStep::MoveTo(0));
    assert_eq!(sources_step(Key::Char('a'), 0, 0), SourcesStep::Add);
    assert_eq!(sources_step(Key::Char('e'), 1, 2), SourcesStep::Edit(1));
    assert_eq!(sources_step(Key::Char('e'), 0, 0), SourcesStep::Stay);
    assert_eq!(sources_step(Key::Char('r'), 1, 2), SourcesStep::Remove(1));
    assert_eq!(sources_step(Key::Char('d'), 0, 2), SourcesStep::Remove(0));
    assert_eq!(sources_step(Key::Char('p'), 0, 0), SourcesStep::ConnectPlaid);
    assert_eq!(sources_step(Key::Down, 0, 0), SourcesStep::Stay);
}

#[test]
fn a_cursor_past_a_shrunk_list_moves_to_its_last_row() {
    assert_eq!(clamp_cursor(5, 3), 2);
    assert_eq!(clamp_cursor(1, 3), 1);
    assert_eq!(clamp_cursor(4, 0), 4);
}
