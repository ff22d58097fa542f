use obol::statement::processed_files::ProcessedFilesLedger;
use obol::statement::parser::{parser_for, StatementParser};

#[test]
fn new_ledger_has_no_processed_files_or_last_known_balance() {
    let ledger = ProcessedFilesLedger::new();
    assert!(!ledger.is_processed("chase_checking", "statement.pdf", "abc123"));
    assert_eq!(ledger.last_known("chase_checking"), None);
}

#[test]
fn mark_processed_makes_is_processed_true_for_the_same_hash() {
    let mut ledger = ProcessedFilesLedger::new();
    ledger.mark_processed(
        "chase_checking",
        "statement.pdf",
        "abc123",
        10000,
        "2026-06-30",
        "6789",
    );

    assert!(ledger.is_processed("chase_checking", "statement.pdf", "abc123"));
}

#[test]
fn a_same_named_file_with_different_content_is_not_considered_processed() {
    let mut ledger = ProcessedFilesLedger::new();
    ledger.mark_processed(
        "chase_checking",
        "statement.pdf",
        "abc123",
        10000,
        "2026-06-30",
        "6789",
    );

    // Same filename, different content hash — e.g. a corrected
    // re-download replacing the first one.
    assert!(!ledger.is_processed("chase_checking", "statement.pdf", "different-hash"));
}

#[test]
fn last_known_reflects_the_most_recently_marked_file() {
    let mut ledger = ProcessedFilesLedger::new();
    ledger.mark_processed(
        "chase_checking",
        "june.pdf",
        "hash-june",
        10000,
        "2026-06-30",
        "6789",
    );
    ledger.mark_processed(
        "chase_checking",
        "july.pdf",
        "hash-july",
        15000,
        "2026-07-31",
        "6789",
    );

    assert_eq!(
        ledger.last_known("chase_checking"),
        Some((15000, "2026-07-31", "6789"))
    );
}

#[test]
fn last_known_account_identifier_stays_the_same_across_a_no_new_file_run() {
    // This keeps account_key stable whether or not a run finds a new
    // statement: last_known() hands back the exact identifier the
    // parse produced.
    let mut ledger = ProcessedFilesLedger::new();
    ledger.mark_processed(
        "chase_checking",
        "statement.pdf",
        "abc123",
        10000,
        "2026-06-30",
        "6789",
    );

    let (_, _, identifier) = ledger.last_known("chase_checking").unwrap();
    assert_eq!(identifier, "6789");
}

#[test]
fn each_source_is_tracked_independently() {
    let mut ledger = ProcessedFilesLedger::new();
    ledger.mark_processed(
        "chase_checking",
        "statement.pdf",
        "hash-a",
        10000,
        "2026-06-30",
        "6789",
    );

    // A different source's ledger entry is untouched.
    assert!(!ledger.is_processed("vanguard_brokerage", "statement.pdf", "hash-a"));
    assert_eq!(ledger.last_known("vanguard_brokerage"), None);
    assert_eq!(
        ledger.last_known("chase_checking"),
        Some((10000, "2026-06-30", "6789"))
    );
}

#[test]
fn marking_again_for_the_same_source_keeps_earlier_files_processed() {
    let mut ledger = ProcessedFilesLedger::new();
    ledger.mark_processed("chase_checking", "june.pdf", "hash-june", 10000, "2026-06-30", "6789");
    ledger.mark_processed("chase_checking", "july.pdf", "hash-july", 15000, "2026-07-31", "6789");
    assert!(ledger.is_processed("chase_checking", "june.pdf", "hash-june"));
    assert!(ledger.is_processed("chase_checking", "july.pdf", "hash-july"));
}

#[test]
fn chase_resolves_to_the_chase_parser() {
    let parser = parser_for("chase").unwrap();
    assert_eq!(parser.institution(), "chase");
}

#[test]
fn vanguard_resolves_to_the_vanguard_parser() {
    let parser = parser_for("vanguard").unwrap();
    assert_eq!(parser.institution(), "vanguard");
}

#[test]
fn fidelity_resolves_to_the_fidelity_parser() {
    let parser = parser_for("fidelity").unwrap();
    assert_eq!(parser.institution(), "fidelity");
}

#[test]
fn apple_card_resolves_to_the_apple_card_parser() {
    let parser = parser_for("applecard").unwrap();
    assert_eq!(parser.institution(), "applecard");
}

#[test]
fn apple_card_also_resolves_with_a_space() {
    assert!(parser_for("Apple Card").is_some());
}

#[test]
fn morgan_stanley_resolves_to_the_morgan_stanley_parser() {
    let parser = parser_for("morganstanley").unwrap();
    assert_eq!(parser.institution(), "morganstanley");
}

#[test]
fn morgan_stanley_also_resolves_via_etrade_aliases() {
    assert!(parser_for("Morgan Stanley").is_some());
    assert!(parser_for("etrade").is_some());
    assert!(parser_for("E*TRADE").is_some());
}

#[test]
fn institution_matching_is_case_insensitive() {
    assert!(parser_for("Chase").is_some());
    assert!(parser_for("CHASE").is_some());
    assert!(parser_for("Vanguard").is_some());
    assert!(parser_for("Fidelity").is_some());
    assert!(parser_for("APPLECARD").is_some());
    assert!(parser_for("MORGANSTANLEY").is_some());
}

#[test]
fn an_unrecognized_institution_resolves_to_none() {
    assert!(parser_for("some_bank_nobody_has_written_a_parser_for").is_none());
}

#[test]
fn every_parsers_own_key_selects_a_parser_with_that_key() {
    for key in ["chase", "vanguard", "fidelity", "applecard", "morganstanley"] {
        assert_eq!(parser_for(key).unwrap().institution(), key);
    }
}
