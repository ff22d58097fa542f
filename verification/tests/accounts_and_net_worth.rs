use obol::account::{Account, AccountStatus, Asset, Holding, Liability};
use obol::networth::{calculate_net_worth, calculate_net_worth_from_records, NetWorth};
use obol::snapshot::{AccountRecord, Category, Status};

fn asset(balance: Option<i64>, status: AccountStatus) -> Asset {
    Asset {
        account_key: "sha256:test".into(),
        institution: "Chase".into(),
        account_type: "checking".into(),
        balance,
        status,
        holdings: None,
    }
}

fn liability(balance: Option<i64>, status: AccountStatus) -> Liability {
    Liability {
        account_key: "sha256:test".into(),
        institution: "Chase".into(),
        account_type: "credit_card".into(),
        balance,
        status,
    }
}

#[test]
fn asset_contribution_is_positive() {
    let a = asset(Some(421355), AccountStatus::Success);
    assert_eq!(a.net_worth_contribution(), 421355);
}

#[test]
fn liability_contribution_is_negative() {
    let l = liability(Some(50000), AccountStatus::Success);
    assert_eq!(l.net_worth_contribution(), -50000);
}

#[test]
fn asset_with_no_balance_contributes_zero() {
    let a = asset(
        None,
        AccountStatus::Error {
            message: "timeout".into(),
        },
    );
    assert_eq!(a.net_worth_contribution(), 0);
}

#[test]
fn liability_with_no_balance_contributes_zero() {
    let l = liability(
        None,
        AccountStatus::Error {
            message: "timeout".into(),
        },
    );
    assert_eq!(l.net_worth_contribution(), 0);
}

#[test]
fn accessors_expose_underlying_fields() {
    let a = asset(Some(10000), AccountStatus::Success);
    assert_eq!(a.account_key(), "sha256:test");
    assert_eq!(a.institution(), "Chase");
    assert_eq!(a.balance(), Some(10000));
    assert_eq!(a.status(), &AccountStatus::Success);
}

#[test]
fn an_asset_with_no_holdings_returns_none() {
    let a = asset(Some(10000), AccountStatus::Success);
    assert_eq!(a.holdings(), None);
}

#[test]
fn an_asset_with_holdings_returns_them() {
    let mut a = asset(Some(10000), AccountStatus::Success);
    a.holdings = Some(vec![Holding {
        symbol: "VOO".into(),
        description: "Vanguard S&P 500 ETF".into(),
        value: 10000,
    }]);

    let holdings = a.holdings().unwrap();
    assert_eq!(holdings.len(), 1);
    assert_eq!(holdings[0].symbol, "VOO");
}

#[test]
fn a_liability_always_returns_no_holdings() {
    let l = liability(Some(50000), AccountStatus::Success);
    assert_eq!(l.holdings(), None);
}

#[test]
fn an_asset_and_a_liability_of_the_same_balance_cancel_out() {
    let a = asset(Some(123456), AccountStatus::Success);
    let l = liability(Some(123456), AccountStatus::Success);
    assert_eq!(a.net_worth_contribution() + l.net_worth_contribution(), 0);
}

fn ok_asset(balance: i64) -> Asset {
    asset(Some(balance), AccountStatus::Success)
}

fn ok_liability(balance: i64) -> Liability {
    liability(Some(balance), AccountStatus::Success)
}

fn errored_asset() -> Asset {
    asset(
        None,
        AccountStatus::Error {
            message: "timeout".into(),
        },
    )
}

#[test]
fn mixed_assets_and_liabilities_nets_correctly() {
    let asset = ok_asset(500000);
    let liability = ok_liability(120000);
    let accounts: Vec<&dyn Account> = vec![&asset, &liability];
    assert_eq!(calculate_net_worth(accounts), NetWorth::Computed(380000));
}

#[test]
fn failed_accounts_are_excluded_from_the_sum() {
    let ok = ok_asset(100000);
    let failed = errored_asset();
    let accounts: Vec<&dyn Account> = vec![&ok, &failed];
    assert_eq!(calculate_net_worth(accounts), NetWorth::Computed(100000));
}

#[test]
fn all_accounts_failed_returns_unavailable() {
    let failed_one = errored_asset();
    let failed_two = errored_asset();
    let accounts: Vec<&dyn Account> = vec![&failed_one, &failed_two];
    assert_eq!(
        calculate_net_worth(accounts),
        NetWorth::Unavailable { total_sources: 2 }
    );
}

#[test]
fn no_accounts_returns_unavailable() {
    let accounts: Vec<&dyn Account> = vec![];
    assert_eq!(
        calculate_net_worth(accounts),
        NetWorth::Unavailable { total_sources: 0 }
    );
}

#[test]
fn single_ok_asset_nets_to_its_balance() {
    let asset = ok_asset(25000);
    let accounts: Vec<&dyn Account> = vec![&asset];
    assert_eq!(calculate_net_worth(accounts), NetWorth::Computed(25000));
}

#[test]
fn a_negative_net_worth_is_still_computed() {
    let asset = ok_asset(100);
    let liability = ok_liability(90000);
    let accounts: Vec<&dyn Account> = vec![&asset, &liability];
    assert_eq!(calculate_net_worth(accounts), NetWorth::Computed(-89900));
}

fn ok_record(category: Category, balance: i64) -> AccountRecord {
    AccountRecord {
        account_key: "sha256:test".into(),
        source_id: "chase_checking".into(),
        institution: "Chase".into(),
        category,
        account_type: "checking".into(),
        balance: Some(balance),
        currency: "USD".into(),
        status: Status::Success,
        error_message: None,
        holdings: None,
    }
}

fn errored_record(category: Category) -> AccountRecord {
    AccountRecord {
        account_key: "sha256:test".into(),
        source_id: "chase_checking".into(),
        institution: "Chase".into(),
        category,
        account_type: "checking".into(),
        balance: None,
        currency: "USD".into(),
        status: Status::Error,
        error_message: Some("timeout".into()),
        holdings: None,
    }
}

#[test]
fn from_records_mixed_assets_and_liabilities_nets_correctly() {
    let records = vec![
        ok_record(Category::Asset, 500000),
        ok_record(Category::Liability, 120000),
    ];
    assert_eq!(
        calculate_net_worth_from_records(&records),
        NetWorth::Computed(380000)
    );
}

#[test]
fn from_records_excludes_failed_accounts_from_the_sum() {
    let records = vec![
        ok_record(Category::Asset, 100000),
        errored_record(Category::Asset),
    ];
    assert_eq!(
        calculate_net_worth_from_records(&records),
        NetWorth::Computed(100000)
    );
}

#[test]
fn from_records_all_failed_returns_unavailable() {
    let records = vec![
        errored_record(Category::Asset),
        errored_record(Category::Liability),
    ];
    assert_eq!(
        calculate_net_worth_from_records(&records),
        NetWorth::Unavailable { total_sources: 2 }
    );
}

#[test]
fn from_records_empty_returns_unavailable() {
    assert_eq!(
        calculate_net_worth_from_records(&[]),
        NetWorth::Unavailable { total_sources: 0 }
    );
}

#[test]
fn from_records_unknown_category_is_treated_as_a_positive_contribution() {
    let records = vec![ok_record(Category::Unknown, 10000)];
    assert_eq!(
        calculate_net_worth_from_records(&records),
        NetWorth::Computed(10000)
    );
}

#[test]
fn from_records_matches_calculate_net_worth_for_the_same_data() {
    let asset = ok_asset(500000);
    let liability = ok_liability(120000);
    let accounts: Vec<&dyn Account> = vec![&asset, &liability];
    let via_accounts = calculate_net_worth(accounts);

    let records = vec![
        ok_record(Category::Asset, 500000),
        ok_record(Category::Liability, 120000),
    ];
    let via_records = calculate_net_worth_from_records(&records);

    assert_eq!(via_accounts, via_records);
}
