use obol::snapshot::Category;
use obol::statement::chase::ChaseStatementParser;
use obol::statement::parser::{ExpectedAccount, ParseError, StatementParser};

fn expected(account_hint: Option<&str>) -> ExpectedAccount {
    ExpectedAccount {
        account_type: "checking".into(),
        account_hint: account_hint.map(String::from),
    }
}

#[test]
fn parses_a_single_matching_account() {
    let text = "CHASE\nChase Checking Statement\nAccount ending in 6789\n\
                 Statement Date: 06/30/2026\nNew Balance $1,234.56\n";

    let result = ChaseStatementParser.parse(text, &expected(None)).unwrap();

    assert_eq!(result.balance, 123456);
    assert_eq!(result.as_of_date, "06/30/2026");
    assert_eq!(result.account_identifier, "6789");
}

#[test]
fn disambiguates_multiple_accounts_via_last4() {
    let text = "Statement Date: 06/30/2026\n\
                 Account ending in 1111\nNew Balance $500.00\n\
                 Account ending in 6789\nNew Balance $1,234.56\n";

    let result = ChaseStatementParser
        .parse(text, &expected(Some("6789")))
        .unwrap();

    assert_eq!(result.balance, 123456);
    assert_eq!(result.account_identifier, "6789");
}

#[test]
fn errors_when_no_account_matches_the_given_last4() {
    let text = "Account ending in 1111\nNew Balance $500.00\n";

    let err = ChaseStatementParser
        .parse(text, &expected(Some("9999")))
        .unwrap_err();

    assert_eq!(err, ParseError::NoMatchingAccount);
}

#[test]
fn errors_when_multiple_accounts_match_and_no_last4_was_given() {
    let text = "Account ending in 1111\nNew Balance $500.00\n\
                 Account ending in 6789\nNew Balance $1,234.56\n";

    let err = ChaseStatementParser.parse(text, &expected(None)).unwrap_err();

    assert_eq!(err, ParseError::AmbiguousMatch);
}

#[test]
fn errors_on_text_with_no_recognizable_chase_layout() {
    let text = "this text does not look like a Chase statement at all";

    let err = ChaseStatementParser.parse(text, &expected(None)).unwrap_err();

    assert!(matches!(err, ParseError::UnrecognizedLayout(_)));
}

#[test]
fn missing_statement_date_does_not_block_a_valid_balance() {
    let text = "Account ending in 6789\nNew Balance $1,234.56\n";

    let result = ChaseStatementParser.parse(text, &expected(None)).unwrap();

    assert_eq!(result.balance, 123456);
    assert_eq!(result.as_of_date, "");
}

#[test]
fn a_checking_statement_is_categorized_as_an_asset() {
    let text = "CHASE\nChase Checking Statement\nAccount ending in 6789\n\
                 Statement Date: 06/30/2026\nNew Balance $1,234.56\n";

    let result = ChaseStatementParser.parse(text, &expected(None)).unwrap();

    assert_eq!(result.category, Category::Asset);
}

#[test]
fn a_statement_with_credit_card_terminology_is_categorized_as_a_liability() {
    let text = "CHASE\nAccount ending in 6789\nNew Balance $1,234.56\n\
                 Minimum Payment Due $35.00\nCredit Limit $10,000.00\n";

    let result = ChaseStatementParser.parse(text, &expected(None)).unwrap();

    assert_eq!(result.category, Category::Liability);
}

#[test]
fn credit_card_terminology_is_matched_case_insensitively() {
    let text = "CHASE\nAccount ending in 6789\nNew Balance $1,234.56\n\
                 minimum payment due $35.00\n";

    let result = ChaseStatementParser.parse(text, &expected(None)).unwrap();

    assert_eq!(result.category, Category::Liability);
}

#[test]
fn parses_a_credit_card_statement_using_the_account_number_marker() {
    let text = "CHASE\nAccount Number:  XXXX XXXX XXXX 4321\n\
                 Statement Date: 06/30/2026\nNew Balance $567.89\n\
                 Minimum Payment Due $35.00\n";

    let result = ChaseStatementParser.parse(text, &expected(None)).unwrap();

    assert_eq!(result.balance, 56789);
    assert_eq!(result.as_of_date, "06/30/2026");
    assert_eq!(result.account_identifier, "4321");
    assert_eq!(result.category, Category::Liability);
}

#[test]
fn credit_access_line_is_recognized_as_liability_terminology() {
    // The wording this card uses instead of the more generic
    // "Credit Limit".
    let text = "CHASE\nAccount Number:  XXXX XXXX XXXX 4321\n\
                 New Balance $567.89\nBalance over the Credit Access Line $0.00\n";

    let result = ChaseStatementParser.parse(text, &expected(None)).unwrap();

    assert_eq!(result.category, Category::Liability);
}

#[test]
fn disambiguates_a_credit_card_account_via_account_hint() {
    let text = "Account Number:  XXXX XXXX XXXX 1111\nNew Balance $100.00\n\
                 Account Number:  XXXX XXXX XXXX 4321\nNew Balance $567.89\n";

    let result = ChaseStatementParser
        .parse(text, &expected(Some("4321")))
        .unwrap();

    assert_eq!(result.balance, 56789);
    assert_eq!(result.account_identifier, "4321");
}

#[test]
fn a_full_unmasked_account_number_is_reduced_to_its_last_4_digits() {
    // A Chase Total Checking statement's "Account
    // Number:" is followed by the full account number, not a
    // masked last-4 group.
    let text = "CHASE\nAccount Number:\n\n1234567890\n\nNew Balance $250.00\n";

    let result = ChaseStatementParser.parse(text, &expected(None)).unwrap();

    assert_eq!(result.account_identifier, "7890");
    assert_eq!(result.balance, 25000);
}

#[test]
fn ending_balance_split_across_lines_from_its_dollar_value_is_still_found() {
    // This statement's "CHECKING SUMMARY" table puts each
    // row's label and dollar value on separate lines/paragraphs (a
    // pdf-extract column-order artifact), so "Balance $" never
    // appears as an adjacent substring for this layout.
    let text = "CHASE\nAccount Number:\n\n1234567890\n\n\
                 CHECKING SUMMARY\n\nBeginning Balance\n\n$100.00\n\n\
                 Ending Balance\n\n$250.00\n";

    let result = ChaseStatementParser.parse(text, &expected(None)).unwrap();

    assert_eq!(result.balance, 25000);
}

#[test]
fn the_same_account_repeated_across_pages_is_not_treated_as_ambiguous() {
    // A multi-page statement repeats "Account
    // Number:" (with the same account number) on every page —
    // without deduping by last4, this was misread as multiple
    // distinct accounts and rejected as AmbiguousMatch.
    let text = "CHASE\nAccount Number:\n\n1234567890\n\n\
                 Ending Balance\n\n$250.00\n\n\
                 Account Number:\n\n1234567890\n\n\
                 Ending Balance\n\n$250.00\n";

    let result = ChaseStatementParser.parse(text, &expected(None)).unwrap();

    assert_eq!(result.balance, 25000);
    assert_eq!(result.account_identifier, "7890");
}

#[test]
fn extracts_the_purchases_apr_not_cash_advances_or_balance_transfers() {
    // Real Chase Sapphire Reserve structure: separate rates per
    // balance type, Purchases listed before Cash Advances — proves
    // the two-step "INTEREST CHARGES" then "PURCHASES" search picks
    // the right row, not just the first "%" found in the section.
    let text = "CHASE\nAccount Number:  XXXX XXXX XXXX 4321\n\
                 New Balance $567.89\n\
                 INTEREST CHARGES\n\
                 Your Annual Percentage Rate (APR) is the annual interest rate on your account.\n\
                 PURCHASES\n  Purchases                    19.49%(v)(d)         -0-    -0-\n\
                 CASH ADVANCES\n  Cash Advances                28.49%(v)(d)         -0-    -0-\n";

    let result = ChaseStatementParser.parse(text, &expected(None)).unwrap();

    assert_eq!(result.apr, Some(1949));
}

#[test]
fn a_checking_statement_with_no_interest_charges_section_has_no_apr() {
    let text = "CHASE\nChase Checking Statement\nAccount ending in 6789\n\
                 Statement Date: 06/30/2026\nNew Balance $1,234.56\n";

    let result = ChaseStatementParser.parse(text, &expected(None)).unwrap();

    assert_eq!(result.apr, None);
    assert_eq!(result.balance, 123456);
}
