use vstd::prelude::*;

pub mod account;
pub mod amount;
pub mod checklist;
pub mod debt_payoff;
pub mod display;
pub mod emergency_fund;
pub mod engine;
pub mod form;
pub mod holdings;
pub mod item_usage;
pub mod keychain;
pub mod migration;
pub mod mode;
pub mod monthly_spend;
pub mod networth;
pub mod pii;
pub mod plaid;
pub mod plaid_link;
pub mod provider;
pub mod retry;
pub mod screens;
pub mod snapshot;
pub mod sources;
pub mod statement;
pub mod str_map;
pub mod text;
pub mod threshold_band;

verus! {
}
