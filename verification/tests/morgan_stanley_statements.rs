use obol::snapshot::Category;
use obol::statement::morgan_stanley::{extract_holdings, extract_stock_holdings, MorganStanleyStatementParser};
use obol::statement::parser::{ExpectedAccount, ParseError, StatementParser};

fn expected(account_hint: Option<&str>) -> ExpectedAccount {
    ExpectedAccount {
        account_type: "brokerage".into(),
        account_hint: account_hint.map(String::from),
    }
}

fn statement_with_holdings() -> String {
    "Morgan Stanley at Work Self-Directed Account\n\
     123-456789-012\n\
     \n\
     BALANCE SHEET (^ includes accrued interest) Last Period\n\
     (as of 05/31/26) This Period\n\
     (as of 06/30/26)\n\
     Cash, BDP, MMFs $1.00 $1.00\n\
     \n\
     Stocks 190,000.00 200,000.00\n\
     Total Assets $190,001.00 $200,001.00\n\
     \n\
     Total Liabilities  (outstanding balance) \u{2014} \u{2014}\n\
     \n\
     TOTAL VALUE $190,001.00 $200,001.00\n\
     CASH FLOW This Period\n\
     (6/1/26-6/30/26) This Year\n\
     (1/1/26-6/30/26)\n\
     \n\
     COMMON STOCKS\n\
     \n\
     Security Description Quantity Share Price Total Cost Market Value Unrealized\n\
     Gain/(Loss) Est Ann Income Current\n\
     Yield %\n\
     APPLE INC (AAPL)  1,000.000 $200.000 $150,000.00 $200,000.00 $50,000.00 $500.00 0.25\n\
     Rating: Morgan Stanley: 1, Morningstar: 4\n\
     \n\
     Percentage\n\
     of Holdings Total Cost Market Value Unrealized\n\
     Gain/(Loss) Est Ann Income Current\n\
     Yield %\n\
     STOCKS 100.00% $150,000.00 $200,000.00 $50,000.00 $500.00 0.25%\n\
     \n\
     Percentage\n\
     of Holdings Market Value Est Ann Income\n\
     CASH, BDP, AND MMFs 0.50% $1.00 \u{2014}\n\
     \n\
     ALLOCATION OF ASSETS\n\
     Cash Equities\n\
     TOTAL ALLOCATION OF ASSETS $1.00 $200,000.00\n\
     \n\
     STOCK PLAN SUMMARY As of 6/30/2026\n\
     \n\
     STOCK PLAN DETAILS\n\
     \n\
     Grant Date Number Type Symbol/CUSIP Potential Quantity Grant Price Market Price Total Est Mkt Value\n\
     01/01/24 999999 RSU AAPL 50.000 $0.00 $200.00 $10,000.00\n"
        .to_string()
}

#[test]
fn parses_the_current_period_total_value() {
    let text = statement_with_holdings();

    let result = MorganStanleyStatementParser
        .parse(&text, &expected(None))
        .unwrap();

    assert_eq!(result.balance, 20000100);
    assert_eq!(result.as_of_date, "06/30/26");
    assert_eq!(result.account_identifier, "123-456789-012");
    assert_eq!(result.category, Category::Asset);
}

#[test]
fn extracts_the_cash_position() {
    let text = statement_with_holdings();
    let holdings = extract_holdings(&text);

    let cash = holdings.iter().find(|h| h.symbol == "CASH").unwrap();
    assert_eq!(cash.value, 100);
}

#[test]
fn extracts_a_stock_holdings_market_value_not_share_price_or_total_cost() {
    let text = statement_with_holdings();
    let holdings = extract_holdings(&text);

    let aapl = holdings.iter().find(|h| h.symbol == "AAPL").unwrap();
    assert_eq!(aapl.description, "APPLE INC");
    // Market Value ($200,000.00), not Share Price ($200.000) or
    // Total Cost ($150,000.00) — the whole point of this test.
    assert_eq!(aapl.value, 20000000);
}

#[test]
fn stock_extraction_never_reads_past_allocation_of_assets() {
    let text = statement_with_holdings();
    let holdings = extract_stock_holdings(&text);
    assert_eq!(holdings.len(), 1);
}

#[test]
fn stock_plan_details_rsu_rows_are_never_counted_as_holdings() {
    let text = statement_with_holdings();
    let holdings = extract_holdings(&text);

    // Only CASH + AAPL (from the actual STOCKS section) — the RSU
    // row in STOCK PLAN DETAILS is unvested/potential value, not
    // actual account value, per this statement's own disclosure.
    assert_eq!(holdings.len(), 2);
}

#[test]
fn account_hint_matches_the_full_account_number() {
    let text = statement_with_holdings();

    let result = MorganStanleyStatementParser
        .parse(&text, &expected(Some("123-456789-012")))
        .unwrap();

    assert_eq!(result.balance, 20000100);
}

#[test]
fn morgan_stanley_errors_when_the_account_hint_does_not_match() {
    let text = statement_with_holdings();

    let err = MorganStanleyStatementParser
        .parse(&text, &expected(Some("999-999999-999")))
        .unwrap_err();

    assert_eq!(err, ParseError::NoMatchingAccount);
}

#[test]
fn errors_on_text_with_no_recognizable_layout() {
    let text = "this text does not look like a Morgan Stanley statement at all";

    let err = MorganStanleyStatementParser
        .parse(text, &expected(None))
        .unwrap_err();

    assert!(matches!(err, ParseError::UnrecognizedLayout(_)));
}
