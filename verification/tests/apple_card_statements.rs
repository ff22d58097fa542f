use obol::snapshot::Category;
use obol::statement::apple_card::AppleCardStatementParser;
use obol::statement::parser::{ExpectedAccount, ParseError, StatementParser};

fn expected(account_hint: Option<&str>) -> ExpectedAccount {
    ExpectedAccount {
        account_type: "credit_card".into(),
        account_hint: account_hint.map(String::from),
    }
}

#[test]
fn parses_the_current_total_balance_not_the_previous_one() {
    let text = "Apple Card Customer\nJane Doe, jane@example.com Statement\n\
                 Account Information\n\
                 Previous Monthly Balance $200.00 \nas of Mar 31, 2026\n\n\
                 Previous Total Balance $200.00 \nas of Mar 31, 2026\n\n\
                 Total Balance $567.89 \nas of Apr 30, 2026\n";

    let result = AppleCardStatementParser
        .parse(text, &expected(None))
        .unwrap();

    assert_eq!(result.balance, 56789);
    assert_eq!(result.as_of_date, "Apr 30, 2026");
    assert_eq!(result.account_identifier, "Jane Doe, jane@example.com Statement");
    assert_eq!(result.category, Category::Liability);
}

#[test]
fn always_categorizes_as_a_liability() {
    let text = "Apple Card Customer\nJane Doe Statement\n\
                 Total Balance $10.00 \nas of Apr 30, 2026\n";

    let result = AppleCardStatementParser
        .parse(text, &expected(None))
        .unwrap();

    assert_eq!(result.category, Category::Liability);
}

#[test]
fn account_hint_matches_a_substring_of_the_customer_line() {
    let text = "Apple Card Customer\nJane Doe Statement\n\
                 Total Balance $10.00 \nas of Apr 30, 2026\n";

    let result = AppleCardStatementParser
        .parse(text, &expected(Some("jane")))
        .unwrap();

    assert_eq!(result.balance, 1000);
}

#[test]
fn apple_card_errors_when_the_account_hint_does_not_match() {
    let text = "Apple Card Customer\nJane Doe Statement\n\
                 Total Balance $10.00 \nas of Apr 30, 2026\n";

    let err = AppleCardStatementParser
        .parse(text, &expected(Some("nonexistent name")))
        .unwrap_err();

    assert_eq!(err, ParseError::NoMatchingAccount);
}

#[test]
fn errors_on_text_with_no_recognizable_apple_card_layout() {
    let text = "this text does not look like an Apple Card statement at all";

    let err = AppleCardStatementParser
        .parse(text, &expected(None))
        .unwrap_err();

    assert!(matches!(err, ParseError::UnrecognizedLayout(_)));
}

#[test]
fn apple_card_missing_as_of_date_does_not_block_a_valid_balance() {
    let text = "Apple Card Customer\nJane Doe Statement\nTotal Balance $10.00\n";

    let result = AppleCardStatementParser
        .parse(text, &expected(None))
        .unwrap();

    assert_eq!(result.balance, 1000);
    assert_eq!(result.as_of_date, "");
}

#[test]
fn extracts_the_annual_percentage_rate() {
    // Real Apple Card structure: a single flat rate with a space
    // before the "%", unlike Chase's adjacent "19.49%" format.
    let text = "Apple Card Customer\nJane Doe Statement\n\
                 Total Balance $10.00 \nas of Apr 30, 2026\n\
                 Interest Charges                        Interest Charge Calculation\n\
                 2026 Total Year-to-Date:                Annual Percentage Rate (APR) 14.49 % (variable)\n";

    let result = AppleCardStatementParser
        .parse(text, &expected(None))
        .unwrap();

    assert_eq!(result.apr, Some(1449));
}

#[test]
fn missing_apr_does_not_block_a_valid_balance() {
    let text = "Apple Card Customer\nJane Doe Statement\nTotal Balance $10.00\n";

    let result = AppleCardStatementParser
        .parse(text, &expected(None))
        .unwrap();

    assert_eq!(result.apr, None);
    assert_eq!(result.balance, 1000);
}
