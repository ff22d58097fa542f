use obol::form::{id_problem, is_blank, is_valid_login_url, to_source_config, validate, SourceFormInput};
use obol::mode::{determine_mode, Mode, RequestedCommand};
use obol::provider::config_get_str;
use obol::snapshot::Category;

fn valid_manual_entry() -> SourceFormInput {
    SourceFormInput {
        id: "apple_card".into(),
        provider: "manual_entry".into(),
        category: "liability".into(),
        account_type: "credit_card".into(),
        institution: "Goldman Sachs".into(),
        webdriver_login_url: None,
        watch_dir: None,
        account_hint: None,
    }
}

fn valid_webdriver() -> SourceFormInput {
    SourceFormInput {
        id: "student_loan_navient".into(),
        provider: "webdriver".into(),
        category: "liability".into(),
        account_type: "student_loan".into(),
        institution: "Navient".into(),
        webdriver_login_url: Some("https://navient.com/login".into()),
        watch_dir: None,
        account_hint: None,
    }
}

fn valid_statement_import() -> SourceFormInput {
    SourceFormInput {
        id: "chase_checking_statements".into(),
        provider: "statement_import".into(),
        category: "asset".into(),
        account_type: "checking".into(),
        institution: "Chase".into(),
        webdriver_login_url: None,
        watch_dir: Some("/Users/kevin/Statements/Chase".into()),
        account_hint: None,
    }
}

#[test]
fn a_valid_manual_entry_form_has_no_errors() {
    assert!(validate(&valid_manual_entry(), &[], None).is_empty());
}

#[test]
fn a_valid_webdriver_form_has_no_errors() {
    assert!(validate(&valid_webdriver(), &[], None).is_empty());
}

#[test]
fn a_valid_statement_import_form_has_no_errors() {
    assert!(validate(&valid_statement_import(), &[], None).is_empty());
}

#[test]
fn empty_id_is_an_error() {
    let mut input = valid_manual_entry();
    input.id = "  ".into();
    assert!(validate(&input, &[], None)
        .iter()
        .any(|e| e.contains("id must not be empty")));
}

#[test]
fn duplicate_id_is_an_error_on_add() {
    let input = valid_manual_entry();
    let existing = vec!["apple_card".to_string()];
    assert!(validate(&input, &existing, None)
        .iter()
        .any(|e| e.contains("already exists")));
}

#[test]
fn editing_a_source_does_not_trip_the_duplicate_check_against_itself() {
    let input = valid_manual_entry();
    let existing = vec!["apple_card".to_string()];
    assert!(validate(&input, &existing, Some("apple_card")).is_empty());
}

#[test]
fn unknown_provider_is_an_error() {
    let mut input = valid_manual_entry();
    input.provider = "plaid".into();
    assert!(validate(&input, &[], None)
        .iter()
        .any(|e| e.contains("unknown provider")));
}

#[test]
fn invalid_category_is_an_error() {
    let mut input = valid_manual_entry();
    input.category = "checking".into();
    assert!(validate(&input, &[], None)
        .iter()
        .any(|e| e.contains("category must be")));
}

#[test]
fn empty_type_is_an_error() {
    let mut input = valid_manual_entry();
    input.account_type = "".into();
    assert!(validate(&input, &[], None)
        .iter()
        .any(|e| e.contains("type must not be empty")));
}

#[test]
fn empty_institution_is_an_error() {
    let mut input = valid_manual_entry();
    input.institution = "".into();
    assert!(validate(&input, &[], None)
        .iter()
        .any(|e| e.contains("institution must not be empty")));
}

#[test]
fn webdriver_without_a_login_url_is_an_error() {
    let mut input = valid_webdriver();
    input.webdriver_login_url = None;
    assert!(validate(&input, &[], None)
        .iter()
        .any(|e| e.contains("login_url")));
}

#[test]
fn webdriver_with_a_non_http_login_url_is_an_error() {
    let mut input = valid_webdriver();
    input.webdriver_login_url = Some("not-a-url".into());
    assert!(validate(&input, &[], None)
        .iter()
        .any(|e| e.contains("login_url")));
}

#[test]
fn statement_import_without_a_watch_dir_is_an_error() {
    let mut input = valid_statement_import();
    input.watch_dir = None;
    assert!(validate(&input, &[], None)
        .iter()
        .any(|e| e.contains("watch_dir")));
}

#[test]
fn statement_import_with_a_blank_watch_dir_is_an_error() {
    let mut input = valid_statement_import();
    input.watch_dir = Some("   ".into());
    assert!(validate(&input, &[], None)
        .iter()
        .any(|e| e.contains("watch_dir")));
}

#[test]
fn statement_import_without_an_account_hint_has_no_errors() {
    assert!(validate(&valid_statement_import(), &[], None).is_empty());
}

#[test]
fn multiple_problems_are_all_reported_at_once() {
    let input = SourceFormInput {
        id: "".into(),
        provider: "bogus".into(),
        category: "bogus".into(),
        account_type: "".into(),
        institution: "".into(),
        webdriver_login_url: None,
        watch_dir: None,
        account_hint: None,
    };
    let errors = validate(&input, &[], None);
    assert_eq!(errors.len(), 5);
}

#[test]
fn to_source_config_maps_liability_category_correctly() {
    let config = to_source_config(&valid_manual_entry());
    assert_eq!(config.category, Category::Liability);
    assert_eq!(config.id, "apple_card");
    assert_eq!(config.provider, "manual_entry");
}

#[test]
fn to_source_config_embeds_the_webdriver_login_url_in_provider_config() {
    let config = to_source_config(&valid_webdriver());
    assert_eq!(
        config_get_str(&config.provider_config, "login_url").as_deref(),
        Some("https://navient.com/login")
    );
}

#[test]
fn to_source_config_embeds_the_watch_dir_in_provider_config() {
    let config = to_source_config(&valid_statement_import());
    assert_eq!(
        config_get_str(&config.provider_config, "watch_dir").as_deref(),
        Some("/Users/kevin/Statements/Chase")
    );
    assert!(config.provider_config.get("account_hint").is_none());
}

#[test]
fn to_source_config_embeds_the_account_hint_when_given() {
    let mut input = valid_statement_import();
    input.account_hint = Some("6789".into());
    let config = to_source_config(&input);
    assert_eq!(
        config_get_str(&config.provider_config, "account_hint").as_deref(),
        Some("6789")
    );
}

#[test]
fn to_source_config_leaves_the_salt_empty_and_copies_the_text_fields() {
    let config = to_source_config(&valid_webdriver());
    assert_eq!(config.account_salt, "");
    assert_eq!(config.account_type, "student_loan");
    assert_eq!(config.institution, "Navient");
    assert!(config.provider_config.get("watch_dir").is_none());
}

#[test]
fn an_error_is_reported_for_each_problem_in_order() {
    let input = SourceFormInput {
        id: "".into(),
        provider: "bogus".into(),
        category: "bogus".into(),
        account_type: "".into(),
        institution: "".into(),
        webdriver_login_url: None,
        watch_dir: None,
        account_hint: None,
    };
    let errors = validate(&input, &[], None);
    assert!(errors[0].contains("id must not be empty"));
    assert!(errors[1].contains("unknown provider"));
    assert!(errors[2].contains("category must be"));
    assert!(errors[3].contains("type must not be empty"));
    assert!(errors[4].contains("institution must not be empty"));
}

#[test]
fn default_command_with_no_sources_goes_to_first_run_sources() {
    assert_eq!(
        determine_mode(true, RequestedCommand::Default),
        Mode::FirstRunSources
    );
}

#[test]
fn default_command_with_sources_goes_to_dashboard() {
    assert_eq!(
        determine_mode(false, RequestedCommand::Default),
        Mode::Dashboard
    );
}

#[test]
fn sources_command_always_goes_to_sources_screen() {
    assert_eq!(
        determine_mode(true, RequestedCommand::Sources),
        Mode::Sources
    );
    assert_eq!(
        determine_mode(false, RequestedCommand::Sources),
        Mode::Sources
    );
}

#[test]
fn snapshot_command_with_no_sources_has_nothing_to_do() {
    assert_eq!(
        determine_mode(true, RequestedCommand::Snapshot),
        Mode::NothingToSnapshot
    );
}

#[test]
fn snapshot_command_with_sources_runs_headless() {
    assert_eq!(
        determine_mode(false, RequestedCommand::Snapshot),
        Mode::SnapshotHeadless
    );
}

#[test]
fn each_field_can_be_checked_on_its_own() {
    let existing = vec!["apple_card".to_string()];
    assert_eq!(id_problem("  ", &existing, None).as_deref(), Some("id must not be empty"));
    assert_eq!(
        id_problem("apple_card", &existing, None).as_deref(),
        Some("a source with id 'apple_card' already exists")
    );
    assert_eq!(id_problem("apple_card", &existing, Some("apple_card")), None);
    assert_eq!(id_problem("chase", &existing, None), None);
    assert!(is_valid_login_url("https://navient.com/login"));
    assert!(is_valid_login_url("http://x"));
    assert!(!is_valid_login_url("ftp://x"));
    assert!(is_blank(" \t\u{3000}"));
    assert!(!is_blank(" a "));
}
