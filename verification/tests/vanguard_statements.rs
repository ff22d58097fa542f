use obol::snapshot::Category;
use obol::statement::parser::{ExpectedAccount, ParseError, StatementParser};
use obol::statement::vanguard::{extract_holdings, extract_mutual_fund_holdings, VanguardStatementParser};

fn expected(account_hint: Option<&str>) -> ExpectedAccount {
    ExpectedAccount {
        account_type: "brokerage".into(),
        account_hint: account_hint.map(String::from),
    }
}

#[test]
fn parses_529_style_account_overview() {
    let text = "Account summary\n\
                 Account number: XXXXX1234-01\n\
                 Account overview\n\
                 $50,000.00\n\
                 Total value of all accounts as of March 31, 2026\n";

    let result = VanguardStatementParser
        .parse(text, &expected(None))
        .unwrap();

    assert_eq!(result.balance, 5000000);
    assert_eq!(result.as_of_date, "March 31, 2026");
    assert_eq!(result.account_identifier, "XXXXX1234-01");
    assert_eq!(result.category, Category::Asset);
}

#[test]
fn parses_cash_plus_style_and_ignores_statement_overview() {
    let text = "Statement overview\n\
                 $99,999.99\n\
                 Total value of all accounts as of April 30, 2026\n\
                 Cash Plus account\u{2014}XXXX5678\n\
                 Account overview\n\
                 $12,345.67\n\
                 Total account value as of April 30, 2026\n";

    let result = VanguardStatementParser
        .parse(text, &expected(None))
        .unwrap();

    assert_eq!(result.balance, 1234567);
    assert_eq!(result.account_identifier, "XXXX5678");
}

#[test]
fn disambiguates_multiple_accounts_via_account_hint() {
    let text = "Account number: XXXXX1111-01\n\
                 Account overview\n\
                 $1,000.00\n\
                 Total value of all accounts as of March 31, 2026\n\
                 Account number: XXXXX2222-01\n\
                 Account overview\n\
                 $2,000.00\n\
                 Total value of all accounts as of March 31, 2026\n";

    let result = VanguardStatementParser
        .parse(text, &expected(Some("XXXXX2222-01")))
        .unwrap();

    assert_eq!(result.balance, 200000);
    assert_eq!(result.account_identifier, "XXXXX2222-01");
}

#[test]
fn errors_when_no_account_matches_the_given_hint() {
    let text = "Account number: XXXXX1111-01\n\
                 Account overview\n\
                 $1,000.00\n";

    let err = VanguardStatementParser
        .parse(text, &expected(Some("XXXXX9999-01")))
        .unwrap_err();

    assert_eq!(err, ParseError::NoMatchingAccount);
}

#[test]
fn errors_when_multiple_accounts_match_and_no_hint_was_given() {
    let text = "Account number: XXXXX1111-01\n\
                 Account overview\n\
                 $1,000.00\n\
                 Account number: XXXXX2222-01\n\
                 Account overview\n\
                 $2,000.00\n";

    let err = VanguardStatementParser
        .parse(text, &expected(None))
        .unwrap_err();

    assert_eq!(err, ParseError::AmbiguousMatch);
}

#[test]
fn errors_on_text_with_no_recognizable_vanguard_layout() {
    let text = "this text does not look like a Vanguard statement at all";

    let err = VanguardStatementParser
        .parse(text, &expected(None))
        .unwrap_err();

    assert!(matches!(err, ParseError::UnrecognizedLayout(_)));
}

#[test]
fn vanguard_missing_as_of_date_does_not_block_a_valid_balance() {
    let text = "Account overview\n$1,000.00\n";

    let result = VanguardStatementParser
        .parse(text, &expected(None))
        .unwrap();

    assert_eq!(result.balance, 100000);
    assert_eq!(result.as_of_date, "");
}

// Holdings extraction, on the layout of a Cash Plus/Brokerage
// statement. Fund names and tickers are Vanguard's public product
// names; dollar amounts and account identifiers are made up.

fn brokerage_statement_with_holdings() -> String {
    "Individual brokerage account\u{2014}XXXX5678\n\
     Account overview\n\
     $150,000.00\n\
     Total account value as of April 30, 2026\n\
     \n\
     Sweep program\n\
     \n\
     Name Quantity Price on\n01/01/2026 Balance on\n01/31/2026 Balance on\n04/30/2026\n\
     \n\
     1.0000 $1.00 $12,000.00 $2,000.00VANGUARD FEDERAL MONEY\n\
     MARKET FUND\n\
     1-day SEC Yield: 4.50%\n\
     \n\
     Total Sweep Balance $12,000.00 $2,000.00\n\
     \n\
     Mutual funds\n\
     \n\
     Symbol Name Quantity Price on\n01/01/2026 Balance on\n01/31/2026 Balance on\n04/30/2026\n\
     \n\
     VBIAX 100.0000 $40.00 $3,800.00 $4,000.00VANGUARD\n\
     BALANCED INDEX ADMIRAL CL\n\
     \n\
     VFIAX 50.0000 $500.00 $24,000.00 $25,000.00VANGUARD\n\
     500 INDEX ADMIRAL CL\n\
     \n\
     $27,800.00 $29,000.00\n\
     \n\
     Account activity for Vanguard Brokerage Account\u{2014}XXXX5678\n\
     \n\
     This section shows transactions that have settled by April 30, 2026.\n"
        .to_string()
}

#[test]
fn extracts_the_sweep_program_cash_position_as_the_current_period_amount() {
    let text = brokerage_statement_with_holdings();
    let holdings = extract_holdings(&text);

    let sweep = holdings.iter().find(|h| h.symbol == "SWEEP").unwrap();
    assert_eq!(sweep.value, 200000);
    assert!(sweep.description.to_lowercase().contains("money market"));
}

#[test]
fn extracts_each_mutual_fund_row_as_the_current_period_amount() {
    let text = brokerage_statement_with_holdings();
    let holdings = extract_holdings(&text);

    let vbiax = holdings.iter().find(|h| h.symbol == "VBIAX").unwrap();
    assert_eq!(vbiax.value, 400000);
    assert_eq!(vbiax.description, "VBIAX VANGUARD BALANCED INDEX ADMIRAL CL");

    let vfiax = holdings.iter().find(|h| h.symbol == "VFIAX").unwrap();
    assert_eq!(vfiax.value, 2500000);
    assert_eq!(vfiax.description, "VFIAX VANGUARD 500 INDEX ADMIRAL CL");
}

#[test]
fn mutual_fund_extraction_never_reads_past_the_account_activity_section() {
    let text = brokerage_statement_with_holdings();
    let holdings = extract_mutual_fund_holdings(&text);

    // Exactly the 2 real fund rows — nothing spuriously picked up
    // from the "Account activity" section or beyond.
    assert_eq!(holdings.len(), 2);
}

#[test]
fn a_statement_with_no_holdings_tables_produces_no_holdings() {
    // The 529/Savings layout — no "Sweep program" or "Mutual funds"
    // section at all. Not an error; this parser handles both
    // layouts, and only one of them ever has holdings.
    let text = "Account number: XXXXX1234-01\n\
                 Account overview\n\
                 $50,000.00\n\
                 Total value of all accounts as of March 31, 2026\n";

    assert!(extract_holdings(text).is_empty());
}

#[test]
fn parse_threads_holdings_through_into_the_parsed_statement() {
    let text = brokerage_statement_with_holdings();

    let result = VanguardStatementParser
        .parse(&text, &expected(None))
        .unwrap();

    assert_eq!(result.balance, 15000000);
    assert_eq!(result.holdings.len(), 3); // sweep + 2 mutual funds
}
