//! Reading balances out of PDF statements.

pub mod apple_card;
pub mod chase;
pub mod dropbox;
pub mod fidelity;
pub mod morgan_stanley;
pub mod parser;
pub mod processed_files;
pub mod scan;
pub mod vanguard;
