use obol::statement::fidelity::FidelityStatementParser;
use obol::statement::parser::{ExpectedAccount, ParseError, StatementParser};

fn expected(account_hint: Option<&str>) -> ExpectedAccount {
    ExpectedAccount {
        account_type: "401k".into(),
        account_hint: account_hint.map(String::from),
    }
}

#[test]
fn parses_a_single_plan() {
    let text = "Statement Details\n\
                 Acme Corp 401(k) Plan\n\
                 Your Account Summary\n\
                 Statement Period: 01/01/2026 to 03/31/2026\n\
                 Beginning Balance $9,000.00\n\
                 Ending Balance $10,000.00\n\
                 Vested Balance $8,500.00\n";

    let result = FidelityStatementParser
        .parse(text, &expected(None))
        .unwrap();

    assert_eq!(result.balance, 1000000);
    assert_eq!(result.as_of_date, "03/31/2026");
    assert_eq!(result.account_identifier, "Acme Corp 401(k) Plan");
}

#[test]
fn disambiguates_multiple_plans_via_account_hint() {
    let text = "Acme Corp 401(k) Plan\n\
                 Ending Balance $10,000.00\n\
                 Widget Inc 401(k) Plan\n\
                 Ending Balance $20,000.00\n";

    let result = FidelityStatementParser
        .parse(text, &expected(Some("widget")))
        .unwrap();

    assert_eq!(result.balance, 2000000);
    assert_eq!(result.account_identifier, "Widget Inc 401(k) Plan");
}

#[test]
fn errors_when_no_plan_matches_the_given_hint() {
    let text = "Acme Corp 401(k) Plan\nEnding Balance $10,000.00\n";

    let err = FidelityStatementParser
        .parse(text, &expected(Some("nonexistent employer")))
        .unwrap_err();

    assert_eq!(err, ParseError::NoMatchingAccount);
}

#[test]
fn errors_when_multiple_plans_match_and_no_hint_was_given() {
    let text = "Acme Corp 401(k) Plan\n\
                 Ending Balance $10,000.00\n\
                 Widget Inc 401(k) Plan\n\
                 Ending Balance $20,000.00\n";

    let err = FidelityStatementParser
        .parse(text, &expected(None))
        .unwrap_err();

    assert_eq!(err, ParseError::AmbiguousMatch);
}

#[test]
fn errors_on_text_with_no_recognizable_fidelity_layout() {
    let text = "this text does not look like a Fidelity statement at all";

    let err = FidelityStatementParser
        .parse(text, &expected(None))
        .unwrap_err();

    assert!(matches!(err, ParseError::UnrecognizedLayout(_)));
}

#[test]
fn missing_statement_period_does_not_block_a_valid_balance() {
    let text = "Acme Corp 401(k) Plan\nEnding Balance $10,000.00\n";

    let result = FidelityStatementParser
        .parse(text, &expected(None))
        .unwrap();

    assert_eq!(result.balance, 1000000);
    assert_eq!(result.as_of_date, "");
}
