use obol::account::{Account, AccountStatus, Asset, Holding, Liability};
use obol::checklist::ChecklistItemStatus;
use obol::display::{
    balance_text, category_label, change_since_previous, failure_text,
    format_money, health_for, item_usage_text, net_worth_unavailable_text, record_name,
    status_symbol,
};
use obol::engine::{
    account_to_record, error_record, fetch_records, generate_snapshot_id, FetchOutcome, CURRENCY,
    PLAID_RECONNECT_MESSAGE,
};
use obol::item_usage::ItemUsageCounter;
use obol::screens::{cursor_down, cursor_up};
use obol::migration::{check_schema_version, MigrationError};
use obol::networth::NetWorth;
use obol::plaid::{
    map_plaid_error, plaid_access_token, plaid_account_from_balances, plaid_account_id,
    PlaidAccountBalance, PlaidEnvironment, PlaidError,
};
use obol::provider::{FetchedAccount, ProviderConfig, ProviderError, SourceConfig};
use obol::retry::RetryableError;
use obol::snapshot::{AccountRecord, Category, Snapshot, Status};

fn plaid_source(category: Category) -> SourceConfig {
    let mut provider_config = ProviderConfig::new();
    provider_config.insert("plaid_account_id".to_string(), Some("acc_123".to_string()));
    SourceConfig {
        id: "chase_checking".into(),
        provider: "plaid".into(),
        category,
        account_type: "checking".into(),
        institution: "Chase".into(),
        account_salt: "salt".into(),
        provider_config,
    }
}

#[test]
fn map_plaid_error_treats_unrecognized_error_types_as_other_not_transient() {
    let err = map_plaid_error(PlaidError::Api {
        error_type: "SOME_FUTURE_ERROR_TYPE".into(),
        error_code: "SOMETHING".into(),
        error_message: "unrecognized".into(),
    });
    assert!(matches!(err, ProviderError::Other(_)));
    assert!(!err.is_transient());
}

#[test]
fn invalid_input_maps_to_an_authentication_failure_with_the_detail() {
    let err = map_plaid_error(PlaidError::Api {
        error_type: "INVALID_INPUT".into(),
        error_code: "INVALID_ACCESS_TOKEN".into(),
        error_message: "bad token".into(),
    });
    match err {
        ProviderError::Auth(m) => assert_eq!(m, "[INVALID_INPUT/INVALID_ACCESS_TOKEN] bad token"),
        other => panic!("expected Auth, got {other:?}"),
    }
}

#[test]
fn rate_limits_and_transport_failures_are_transient() {
    let err = map_plaid_error(PlaidError::Api {
        error_type: "RATE_LIMIT_EXCEEDED".into(),
        error_code: "X".into(),
        error_message: "slow down".into(),
    });
    assert!(err.is_transient());
    let err = map_plaid_error(PlaidError::Transport("connection reset".into()));
    assert!(matches!(err, ProviderError::Transient(ref m) if m == "connection reset"));
}

#[test]
fn an_unexpected_response_names_its_status() {
    let err = map_plaid_error(PlaidError::UnexpectedErrorResponse {
        status: 502,
        raw_body: "<html>".into(),
    });
    match err {
        ProviderError::Other(m) => assert_eq!(m, "unexpected Plaid response (HTTP 502): <html>"),
        other => panic!("expected Other, got {other:?}"),
    }
}

#[test]
fn plaid_environments_have_their_urls() {
    assert_eq!(
        PlaidEnvironment::Sandbox.endpoint_url("/accounts/balance/get"),
        "https://sandbox.plaid.com/accounts/balance/get"
    );
    assert_eq!(
        PlaidEnvironment::Production.base_url(),
        "https://production.plaid.com"
    );
    assert_eq!(
        PlaidEnvironment::Custom("http://127.0.0.1:9".into()).endpoint_url("/x"),
        "http://127.0.0.1:9/x"
    );
}

#[test]
fn fetch_without_credentials_is_an_auth_error() {
    let err = plaid_access_token(None).unwrap_err();
    assert!(matches!(err, ProviderError::Auth(_)));
    assert_eq!(plaid_access_token(Some("tok")).unwrap(), "tok");
}

#[test]
fn the_plaid_account_id_comes_from_the_provider_config() {
    assert_eq!(plaid_account_id(&plaid_source(Category::Asset)).unwrap(), "acc_123");
    let mut source = plaid_source(Category::Asset);
    source.provider_config = ProviderConfig::new();
    assert!(matches!(plaid_account_id(&source), Err(ProviderError::Other(_))));
}

#[test]
fn fetch_returns_the_matching_account_as_an_asset() {
    let balances = vec![
        PlaidAccountBalance { account_id: "other".into(), current: Some(1) },
        PlaidAccountBalance { account_id: "acc_123".into(), current: Some(421355) },
    ];
    match plaid_account_from_balances(&plaid_source(Category::Asset), &balances, "acc_123").unwrap() {
        FetchedAccount::Asset(a) => {
            assert_eq!(a.balance(), Some(421355));
            assert_eq!(a.institution(), "Chase");
        }
        other => panic!("expected an asset, got {other:?}"),
    }
}

#[test]
fn fetch_builds_a_liability_when_source_category_is_liability() {
    let balances = vec![PlaidAccountBalance { account_id: "acc_123".into(), current: Some(50000) }];
    let fetched =
        plaid_account_from_balances(&plaid_source(Category::Liability), &balances, "acc_123").unwrap();
    assert!(matches!(fetched, FetchedAccount::Liability(_)));
}

#[test]
fn fetch_errors_when_account_id_is_not_in_the_response() {
    let balances = vec![PlaidAccountBalance { account_id: "other".into(), current: Some(1) }];
    let err =
        plaid_account_from_balances(&plaid_source(Category::Asset), &balances, "acc_123").unwrap_err();
    match err {
        ProviderError::Other(m) => assert_eq!(
            m,
            "account acc_123 not found in Plaid's response for source chase_checking \u{2014} the Item may have changed shape since this source was added"
        ),
        other => panic!("expected Other, got {other:?}"),
    }
}

#[test]
fn missing_schema_version_is_an_error() {
    assert!(matches!(check_schema_version(None), Err(MigrationError::MissingVersion)));
}

#[test]
fn schema_version_below_oldest_supported_is_an_error() {
    assert!(matches!(
        check_schema_version(Some(0)),
        Err(MigrationError::UnsupportedVersion { found: 0, oldest: 1 })
    ));
}

#[test]
fn v1_fixture_loads_correctly() {
    assert!(matches!(check_schema_version(Some(1)), Ok(None)));
}

#[test]
fn newer_schema_version_loads_leniently_with_warning() {
    match check_schema_version(Some(2)) {
        Ok(Some(w)) => assert_eq!(
            w,
            "snapshot was written by a newer schema version (2) than this build fully understands (1); some fields may have been skipped"
        ),
        other => panic!("expected a warning, got {other:?}"),
    }
}

fn asset(balance: Option<i64>, status: AccountStatus) -> Asset {
    Asset {
        account_key: "sha256:test".into(),
        institution: "Chase".into(),
        account_type: "checking".into(),
        balance,
        status,
        holdings: Some(vec![Holding {
            symbol: "VOO".into(),
            description: "Vanguard S&P 500 ETF".into(),
            value: 10000,
        }]),
    }
}

#[test]
fn assembles_a_successful_fetch_using_the_source_configs_category_and_type() {
    let source = plaid_source(Category::Asset);
    let a = asset(Some(10000), AccountStatus::Success);
    let record = account_to_record(&source, &a);
    assert_eq!(record.account_key, "sha256:test");
    assert_eq!(record.source_id, "chase_checking");
    assert_eq!(record.category, Category::Asset);
    assert_eq!(record.account_type, "checking");
    assert_eq!(record.balance, Some(10000));
    assert_eq!(record.currency, CURRENCY);
    assert_eq!(record.status, Status::Success);
    assert_eq!(record.error_message, None);
    assert_eq!(record.holdings.unwrap()[0].symbol, "VOO");
}

#[test]
fn an_errored_account_becomes_an_error_record_with_its_message() {
    let source = plaid_source(Category::Asset);
    let a = asset(None, AccountStatus::Error { message: "timeout".into() });
    let record = account_to_record(&source, &a);
    assert_eq!(record.status, Status::Error);
    assert_eq!(record.error_message.as_deref(), Some("timeout"));
}

#[test]
fn one_failing_source_does_not_affect_a_succeeding_one() {
    let source = plaid_source(Category::Asset);
    let good = asset(Some(10000), AccountStatus::Success);
    let ok = fetch_records(&source, FetchOutcome::Finished(Ok(vec![&good as &dyn Account])));
    assert_eq!(ok.len(), 1);
    assert_eq!(ok[0].status, Status::Success);

    let failed = fetch_records(
        &source,
        FetchOutcome::Finished(Err(RetryableError::Operation(ProviderError::Transient(
            "503".into(),
        )))),
    );
    assert_eq!(failed.len(), 1);
    assert_eq!(failed[0].status, Status::Error);
    assert_eq!(failed[0].balance, None);
    assert_eq!(failed[0].error_message.as_deref(), Some("transient error: 503"));
}

#[test]
fn an_unknown_provider_produces_an_isolated_error_record() {
    let mut source = plaid_source(Category::Asset);
    source.provider = "carrier_pigeon".into();
    let records = fetch_records(&source, FetchOutcome::UnknownProvider);
    assert_eq!(records.len(), 1);
    assert_eq!(
        records[0].error_message.as_deref(),
        Some("unknown provider: 'carrier_pigeon'")
    );
}

#[test]
fn a_timed_out_fetch_is_recorded_as_a_timeout() {
    let source = plaid_source(Category::Asset);
    let records = fetch_records(&source, FetchOutcome::Finished(Err(RetryableError::Timeout)));
    assert_eq!(records[0].error_message.as_deref(), Some("operation timed out"));
}

#[test]
fn a_plaid_keychain_read_failure_produces_a_reconnect_message_not_a_generic_one() {
    let source = plaid_source(Category::Asset);
    let record = error_record(&source, PLAID_RECONNECT_MESSAGE.to_string());
    assert_eq!(record.status, Status::Error);
    assert_eq!(record.source_id, "chase_checking");
    assert!(record.account_key.starts_with("sha256:"));
    assert!(record.error_message.unwrap().contains("reconnect"));
}

#[test]
fn snapshot_ids_are_thirty_two_hex_digits_and_differ_between_runs() {
    let a = generate_snapshot_id();
    let b = generate_snapshot_id();
    assert_eq!(a.len(), 32);
    assert!(a.chars().all(|c| c.is_ascii_hexdigit() && !c.is_ascii_uppercase()));
    assert_ne!(a, b);
}

#[test]
fn money_is_written_with_two_decimals() {
    assert_eq!(format_money(123456), "1234.56");
    assert_eq!(format_money(5), "0.05");
    assert_eq!(format_money(-5), "-0.05");
    assert_eq!(format_money(0), "0.00");
    assert_eq!(format_money(i128::MIN), "-1701411834604692317316873037158841057.28");
    assert_eq!(balance_text(Some(-123456)), "$-1234.56");
    assert_eq!(balance_text(None), "\u{2014}");
}

#[test]
fn labels_and_marks_read_as_the_screens_show_them() {
    assert_eq!(category_label(Category::Liability), "liability");
    assert_eq!(status_symbol(ChecklistItemStatus::Complete), "[x]");
    assert_eq!(status_symbol(ChecklistItemStatus::Incomplete), "[ ]");
    assert_eq!(status_symbol(ChecklistItemStatus::NotApplicable), "[-]");
    assert_eq!(
        net_worth_unavailable_text(3),
        "Net worth unavailable \u{2014} 0/3 sources returned data this run"
    );
    let mut counter = ItemUsageCounter::new();
    counter.increment();
    assert_eq!(item_usage_text(&counter), "Plaid Items: 1/10 used");
}

fn record(source_id: &str, category: Category, balance: Option<i64>, status: Status) -> AccountRecord {
    AccountRecord {
        account_key: "sha256:test".into(),
        source_id: source_id.into(),
        institution: "Chase".into(),
        category,
        account_type: "checking".into(),
        balance,
        currency: "USD".into(),
        status,
        error_message: if status == Status::Error { Some("timeout".into()) } else { None },
        holdings: None,
    }
}

#[test]
fn record_names_and_failures_read_as_on_the_dashboard() {
    let r = record("chase_checking", Category::Asset, None, Status::Error);
    assert_eq!(record_name(&r), "Chase (checking)");
    assert_eq!(failure_text(&r), "timeout");
    let mut r = r;
    r.error_message = None;
    assert_eq!(failure_text(&r), "unavailable");
}

#[test]
fn the_change_since_the_previous_snapshot_is_signed_and_dated() {
    let previous = Snapshot {
        schema_version: 1,
        snapshot_id: "prev".into(),
        created_at: "2026-06-30T09:15:00-07:00".into(),
        accounts: vec![record("a", Category::Asset, Some(100000), Status::Success)],
    };
    let up = change_since_previous(NetWorth::Computed(125050), Some(&previous)).unwrap();
    assert_eq!(up.delta, 25050);
    assert_eq!(up.text, "+$250.50 since 2026-06-30");
    let down = change_since_previous(NetWorth::Computed(99999), Some(&previous)).unwrap();
    assert_eq!(down.text, "-$0.01 since 2026-06-30");
    assert!(change_since_previous(NetWorth::Computed(1), None).is_none());
    assert!(change_since_previous(NetWorth::Unavailable { total_sources: 1 }, Some(&previous)).is_none());
}

#[test]
fn a_sources_health_comes_from_the_latest_snapshot() {
    let source = plaid_source(Category::Asset);
    assert_eq!(
        health_for(&source, &[]),
        "No snapshot yet \u{2014} press 'v' to fetch"
    );
    let latest = Snapshot {
        schema_version: 1,
        snapshot_id: "s".into(),
        created_at: "2026-06-30T09:15:00Z".into(),
        accounts: vec![record("chase_checking", Category::Asset, None, Status::Error)],
    };
    assert_eq!(health_for(&source, std::slice::from_ref(&latest)), "Failed: timeout");
    let mut other = plaid_source(Category::Asset);
    other.id = "new_one".into();
    assert_eq!(
        health_for(&other, std::slice::from_ref(&latest)),
        "New \u{2014} not included in the last fetch yet, press 'v' to fetch"
    );
}

#[test]
fn the_cursor_wraps_around_both_ends() {
    assert_eq!(cursor_down(2, 3), 0);
    assert_eq!(cursor_down(0, 3), 1);
    assert_eq!(cursor_up(0, 3), 2);
    assert_eq!(cursor_up(2, 3), 1);
    for len in 1..5usize {
        for c in 0..len {
            assert_eq!(cursor_up(cursor_down(c, len), len), c);
            assert_eq!(cursor_down(cursor_up(c, len), len), c);
        }
    }
}

#[test]
fn liabilities_keep_their_kind_through_the_record() {
    let source = plaid_source(Category::Liability);
    let l = Liability {
        account_key: "sha256:l".into(),
        institution: "Chase".into(),
        account_type: "credit_card".into(),
        balance: Some(700),
        status: AccountStatus::Success,
    };
    let r = account_to_record(&source, &l);
    assert_eq!(r.category, Category::Liability);
    assert!(r.holdings.is_none());
}
