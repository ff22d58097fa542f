use obol::checklist::{
    checklist_items, completion_summary, status_for, ChecklistItemStatus, ChecklistStatuses,
};
use obol::item_usage::{ItemUsageCounter, PLAID_ITEM_LIMIT, PLAID_ITEM_WARNING_THRESHOLD};
use obol::retry::{should_retry, RetryConfig, RetryableError};
use obol::provider::ProviderError;
use obol::statement::dropbox::filename_suggests_liability;
use std::time::Duration;

#[test]
fn checklist_items_const_has_exactly_eleven_items() {
    assert_eq!(checklist_items().len(), 11);
}

#[test]
fn checklist_item_ids_are_unique() {
    let items = checklist_items();
    let mut ids: Vec<&str> = items.iter().map(|item| item.id).collect();
    let len_before = ids.len();
    ids.sort_unstable();
    ids.dedup();
    assert_eq!(ids.len(), len_before);
}

#[test]
fn cycle_moves_incomplete_to_complete() {
    assert_eq!(
        ChecklistItemStatus::Incomplete.cycle(),
        ChecklistItemStatus::Complete
    );
}

#[test]
fn cycle_moves_complete_to_not_applicable() {
    assert_eq!(
        ChecklistItemStatus::Complete.cycle(),
        ChecklistItemStatus::NotApplicable
    );
}

#[test]
fn cycle_moves_not_applicable_back_to_incomplete() {
    assert_eq!(
        ChecklistItemStatus::NotApplicable.cycle(),
        ChecklistItemStatus::Incomplete
    );
}

#[test]
fn cycling_three_times_returns_to_the_start() {
    for status in [
        ChecklistItemStatus::Incomplete,
        ChecklistItemStatus::Complete,
        ChecklistItemStatus::NotApplicable,
    ] {
        assert_eq!(status.cycle().cycle().cycle(), status);
    }
}

#[test]
fn status_for_defaults_to_incomplete_for_a_missing_item_id() {
    let statuses = ChecklistStatuses::new();
    assert_eq!(
        status_for(&statuses, "estate_documents"),
        ChecklistItemStatus::Incomplete
    );
}

#[test]
fn status_for_returns_the_stored_status_when_present() {
    let mut statuses = ChecklistStatuses::new();
    statuses.insert("estate_documents".to_string(), ChecklistItemStatus::Complete);
    assert_eq!(
        status_for(&statuses, "estate_documents"),
        ChecklistItemStatus::Complete
    );
}

#[test]
fn a_later_insert_for_the_same_item_replaces_the_earlier_status() {
    let mut statuses = ChecklistStatuses::new();
    statuses.insert("trust_funding".to_string(), ChecklistItemStatus::Complete);
    statuses.insert("trust_funding".to_string(), ChecklistItemStatus::NotApplicable);
    assert_eq!(statuses.len(), 1);
    assert_eq!(
        status_for(&statuses, "trust_funding"),
        ChecklistItemStatus::NotApplicable
    );
}

#[test]
fn completion_summary_counts_complete_items_in_the_numerator() {
    let mut statuses = ChecklistStatuses::new();
    statuses.insert("estate_documents".to_string(), ChecklistItemStatus::Complete);
    statuses.insert(
        "disability_insurance".to_string(),
        ChecklistItemStatus::Complete,
    );
    let (complete, _) = completion_summary(&statuses);
    assert_eq!(complete, 2);
}

#[test]
fn completion_summary_excludes_not_applicable_items_from_the_denominator() {
    let mut statuses = ChecklistStatuses::new();
    statuses.insert(
        "espp_participation".to_string(),
        ChecklistItemStatus::NotApplicable,
    );
    let (_, applicable) = completion_summary(&statuses);
    assert_eq!(applicable, 10);
}

#[test]
fn completion_summary_with_empty_statuses_reports_zero_of_eleven_complete() {
    let statuses = ChecklistStatuses::new();
    assert_eq!(completion_summary(&statuses), (0, 11));
}

#[test]
fn completion_summary_all_not_applicable_reports_zero_of_zero() {
    let mut statuses = ChecklistStatuses::new();
    for item in checklist_items() {
        statuses.insert(item.id.to_string(), ChecklistItemStatus::NotApplicable);
    }
    assert_eq!(completion_summary(&statuses), (0, 0));
}

#[test]
fn completion_summary_ignores_statuses_for_unknown_item_ids() {
    let mut statuses = ChecklistStatuses::new();
    statuses.insert("not_a_checklist_item".to_string(), ChecklistItemStatus::Complete);
    assert_eq!(completion_summary(&statuses), (0, 11));
}

#[test]
fn label_returns_a_human_readable_string_for_each_status() {
    assert_eq!(ChecklistItemStatus::Complete.label(), "Complete");
    assert_eq!(ChecklistItemStatus::Incomplete.label(), "Incomplete");
    assert_eq!(ChecklistItemStatus::NotApplicable.label(), "N/A");
}

#[test]
fn new_counter_starts_at_zero() {
    let counter = ItemUsageCounter::new();
    assert_eq!(counter.count(), 0);
    assert!(!counter.is_at_warning_threshold());
    assert!(!counter.is_blocked());
}

#[test]
fn increment_increases_count_by_one() {
    let mut counter = ItemUsageCounter::new();
    counter.increment();
    assert_eq!(counter.count(), 1);
    counter.increment();
    assert_eq!(counter.count(), 2);
}

#[test]
fn removing_a_source_never_decrements_the_counter() {
    let mut counter = ItemUsageCounter::new();
    counter.increment();
    counter.increment();
    counter.increment();
    let count_before_removal = counter.count();

    assert_eq!(counter.count(), count_before_removal);
    assert_eq!(counter.count(), 3);
}

#[test]
fn not_at_warning_threshold_below_eight() {
    let mut counter = ItemUsageCounter::new();
    for _ in 0..7 {
        counter.increment();
    }
    assert_eq!(counter.count(), 7);
    assert!(!counter.is_at_warning_threshold());
}

#[test]
fn at_warning_threshold_at_eight_and_above() {
    let mut counter = ItemUsageCounter::new();
    for _ in 0..8 {
        counter.increment();
    }
    assert!(counter.is_at_warning_threshold());

    counter.increment();
    assert!(counter.is_at_warning_threshold());
}

#[test]
fn not_blocked_below_ten() {
    let mut counter = ItemUsageCounter::new();
    for _ in 0..9 {
        counter.increment();
    }
    assert_eq!(counter.count(), 9);
    assert!(!counter.is_blocked());
}

#[test]
fn blocked_at_ten_and_above() {
    let mut counter = ItemUsageCounter::new();
    for _ in 0..10 {
        counter.increment();
    }
    assert!(counter.is_blocked());
}

#[test]
fn a_blocked_counter_is_always_also_at_the_warning_threshold() {
    assert_eq!(PLAID_ITEM_LIMIT, 10);
    assert_eq!(PLAID_ITEM_WARNING_THRESHOLD, 8);
    for n in 0..20u32 {
        let counter = ItemUsageCounter::from_count(n);
        assert_eq!(counter.count(), n);
        if counter.is_blocked() {
            assert!(counter.is_at_warning_threshold());
        }
    }
}

#[test]
fn spec_default_matches_the_spec_exactly() {
    let config = RetryConfig::spec_default();
    assert_eq!(config.max_attempts, 3);
    assert_eq!(config.initial_backoff, Duration::from_secs(2));
    assert_eq!(config.per_attempt_timeout, Duration::from_secs(15));
}

#[test]
fn the_default_policy_retries_twice_after_a_failed_first_attempt() {
    assert_eq!(RetryConfig::spec_default().retries(), 2);
}

#[test]
fn timeouts_and_transient_errors_are_retried_but_others_are_not() {
    assert!(should_retry(&RetryableError::Timeout));
    assert!(should_retry(&RetryableError::Operation(ProviderError::Transient(
        "503".to_string()
    ))));
    assert!(!should_retry(&RetryableError::Operation(ProviderError::Auth(
        "bad token".to_string()
    ))));
    assert!(!should_retry(&RetryableError::Operation(ProviderError::Other(
        "boom".to_string()
    ))));
}

#[test]
fn filename_suggests_liability_matches_known_markers_case_insensitively() {
    assert!(filename_suggests_liability("Chase_CreditCard_2026.pdf"));
    assert!(filename_suggests_liability("visa_statement.pdf"));
    assert!(!filename_suggests_liability("checking_statement.pdf"));
}

#[test]
fn setting_a_status_reads_back_and_leaves_the_others() {
    let mut statuses = ChecklistStatuses::new();
    obol::checklist::set_checklist_item_status(&mut statuses, "trust_funding", ChecklistItemStatus::Complete);
    obol::checklist::set_checklist_item_status(&mut statuses, "poa_accessible", ChecklistItemStatus::NotApplicable);
    obol::checklist::set_checklist_item_status(&mut statuses, "trust_funding", ChecklistItemStatus::Incomplete);
    assert_eq!(status_for(&statuses, "trust_funding"), ChecklistItemStatus::Incomplete);
    assert_eq!(status_for(&statuses, "poa_accessible"), ChecklistItemStatus::NotApplicable);
    assert_eq!(completion_summary(&statuses), (0, 10));
}
