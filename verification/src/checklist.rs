//! The financial-plan checklist: a fixed list of action items, each with
//! a status the user cycles through (incomplete, complete, not
//! applicable). Statuses are kept by item id, so an id missing from the
//! stored statuses simply reads as incomplete.

use vstd::prelude::*;

use crate::str_map::StrMap;

verus! {

/// One action item of the checklist.
pub struct ChecklistItem {
    pub id: &'static str,
    pub description: &'static str,
}

/// The ids of the checklist's items, in display order.
pub open spec fn checklist_ids() -> Seq<Seq<char>> {
    seq![
        "estate_documents"@,
        "disability_insurance"@,
        "term_life_insurance"@,
        "retirement_account_rollovers"@,
        "401k_roth_election"@,
        "fsa_enrollment"@,
        "espp_participation"@,
        "beneficiary_designations"@,
        "trust_funding"@,
        "umbrella_insurance"@,
        "poa_accessible"@,
    ]
}

/// The ids of the items `v`.
pub open spec fn item_ids(v: Seq<ChecklistItem>) -> Seq<Seq<char>> {
    v.map_values(|i: ChecklistItem| i.id@)
}

/// The checklist's items, in display order.
pub fn checklist_items() -> (r: Vec<ChecklistItem>)
    ensures
        item_ids(r@) == checklist_ids(),
{
    let r = vec![
        ChecklistItem {
            id: "estate_documents",
            description: "Estate documents (Will, Revocable Living Trust, Medical POA, Financial POA, Living Will, HIPAA release)",
        },
        ChecklistItem {
            id: "disability_insurance",
            description: "Own-occupation disability insurance in place",
        },
        ChecklistItem { id: "term_life_insurance", description: "Term life insurance in place" },
        ChecklistItem {
            id: "retirement_account_rollovers",
            description: "Retirement account rollover(s) completed",
        },
        ChecklistItem {
            id: "401k_roth_election",
            description: "Roth vs. pre-tax 401(k) election made",
        },
        ChecklistItem { id: "fsa_enrollment", description: "FSA enrollment" },
        ChecklistItem {
            id: "espp_participation",
            description: "ESPP participation / immediate-sale discipline",
        },
        ChecklistItem {
            id: "beneficiary_designations",
            description: "Beneficiary designations current (retirement accounts + life insurance)",
        },
        ChecklistItem {
            id: "trust_funding",
            description: "Trust funding confirmed (assets actually titled into the Revocable Living Trust, not just signed)",
        },
        ChecklistItem {
            id: "umbrella_insurance",
            description: "Umbrella liability coverage in place",
        },
        ChecklistItem {
            id: "poa_accessible",
            description: "Power of attorney / healthcare directives accessible (not just filed away)",
        },
    ];
    assert(item_ids(r@) =~= checklist_ids());
    r
}

/// Where one checklist item stands.
#[derive(Debug, Clone, Copy, PartialEq, Eq, Structural)]
pub enum ChecklistItemStatus {
    Complete,
    NotApplicable,
    /// Also what an unknown stored status reads as, so that an
    /// unrecognized value never counts as done.
    Incomplete,
}

/// The status that one press moves a status to:
/// incomplete, then complete, then not applicable, then incomplete again.
pub open spec fn next_status(s: ChecklistItemStatus) -> ChecklistItemStatus {
    match s {
        ChecklistItemStatus::Incomplete => ChecklistItemStatus::Complete,
        ChecklistItemStatus::Complete => ChecklistItemStatus::NotApplicable,
        ChecklistItemStatus::NotApplicable => ChecklistItemStatus::Incomplete,
    }
}

pub open spec fn status_label(s: ChecklistItemStatus) -> Seq<char> {
    match s {
        ChecklistItemStatus::Complete => "Complete"@,
        ChecklistItemStatus::Incomplete => "Incomplete"@,
        ChecklistItemStatus::NotApplicable => "N/A"@,
    }
}

impl ChecklistItemStatus {
    /// The status as shown to the user.
    pub fn label(&self) -> (r: &'static str)
        ensures
            r@ == status_label(*self),
    {
        match self {
            ChecklistItemStatus::Complete => "Complete",
            ChecklistItemStatus::Incomplete => "Incomplete",
            ChecklistItemStatus::NotApplicable => "N/A",
        }
    }

    /// The next status in the cycle.
    pub fn cycle(self) -> (r: Self)
        ensures
            r == next_status(self),
    {
        match self {
            ChecklistItemStatus::Incomplete => ChecklistItemStatus::Complete,
            ChecklistItemStatus::Complete => ChecklistItemStatus::NotApplicable,
            ChecklistItemStatus::NotApplicable => ChecklistItemStatus::Incomplete,
        }
    }
}

/// Three presses bring any status back to itself, and no press leaves a
/// status where it was.
pub proof fn lemma_cycle_period_three(s: ChecklistItemStatus)
    ensures
        next_status(next_status(next_status(s))) == s,
        next_status(s) != s,
        next_status(next_status(s)) != s,
{
}

/// The stored statuses, keyed by item id.
pub type ChecklistStatuses = StrMap<ChecklistItemStatus>;

/// The status of item `id` in `m`: the stored one, or incomplete.
pub open spec fn status_in(m: Map<Seq<char>, ChecklistItemStatus>, id: Seq<char>) -> ChecklistItemStatus {
    if m.contains_key(id) {
        m[id]
    } else {
        ChecklistItemStatus::Incomplete
    }
}

/// The status of item `item_id`: the stored one, or incomplete when none
/// is stored.
pub fn status_for(statuses: &ChecklistStatuses, item_id: &str) -> (r: ChecklistItemStatus)
    ensures
        r == status_in(statuses@, item_id@),
{
    match statuses.get(item_id) {
        Some(s) => *s,
        None => ChecklistItemStatus::Incomplete,
    }
}

/// How many of the items `ids` are complete.
pub open spec fn complete_count(m: Map<Seq<char>, ChecklistItemStatus>, ids: Seq<Seq<char>>) -> nat
    decreases ids.len(),
{
    if ids.len() == 0 {
        0
    } else {
        complete_count(m, ids.drop_last()) + if status_in(m, ids.last())
            == ChecklistItemStatus::Complete {
            1nat
        } else {
            0nat
        }
    }
}

/// How many of the items `ids` apply (are not marked not applicable).
pub open spec fn applicable_count(m: Map<Seq<char>, ChecklistItemStatus>, ids: Seq<Seq<char>>) -> nat
    decreases ids.len(),
{
    if ids.len() == 0 {
        0
    } else {
        applicable_count(m, ids.drop_last()) + if status_in(m, ids.last())
            != ChecklistItemStatus::NotApplicable {
            1nat
        } else {
            0nat
        }
    }
}

/// `(complete, applicable)` over the checklist's items: an item marked
/// not applicable counts in neither; `(0, 0)` when none applies.
pub fn completion_summary(statuses: &ChecklistStatuses) -> (r: (usize, usize))
    ensures
        r.0 == complete_count(statuses@, checklist_ids()),
        r.1 == applicable_count(statuses@, checklist_ids()),
{
    let items = checklist_items();
    let ghost ids = checklist_ids();
    let mut complete: usize = 0;
    let mut applicable: usize = 0;
    let mut i: usize = 0;
    while i < items.len()
        invariant
            i <= items.len(),
            item_ids(items@) == ids,
            ids == checklist_ids(),
            complete <= i,
            applicable <= i,
            complete == complete_count(statuses@, ids.take(i as int)),
            applicable == applicable_count(statuses@, ids.take(i as int)),
        decreases items.len() - i,
    {
        assert(ids.take(i + 1).drop_last() =~= ids.take(i as int));
        assert(ids[i as int] == items@[i as int].id@);
        let s = status_for(statuses, items[i].id);
        if s == ChecklistItemStatus::Complete {
            complete = complete + 1;
        }
        if s != ChecklistItemStatus::NotApplicable {
            applicable = applicable + 1;
        }
        i = i + 1;
    }
    assert(ids.take(items.len() as int) =~= ids);
    (complete, applicable)
}

/// Never more items are complete than apply, and never more apply than
/// the list holds.
pub proof fn lemma_summary_bounds(m: Map<Seq<char>, ChecklistItemStatus>, ids: Seq<Seq<char>>)
    ensures
        complete_count(m, ids) <= applicable_count(m, ids) <= ids.len(),
    decreases ids.len(),
{
    if ids.len() > 0 {
        lemma_summary_bounds(m, ids.drop_last());
    }
}

/// Stores `status` as the status of item `item_id`, in place of any it
/// had. The id is not checked against the checklist: an unknown id is
/// kept but never read.
pub fn set_checklist_item_status(statuses: &mut ChecklistStatuses, item_id: &str, status: ChecklistItemStatus)
    ensures
        final(statuses)@ == old(statuses)@.insert(item_id@, status),
{
    statuses.insert(item_id.to_string(), status);
}

/// Marking one item changes only that item's status: afterwards it reads
/// back as what was written, and every other item reads as before.
pub proof fn lemma_set_status_reads_back(
    m: Map<Seq<char>, ChecklistItemStatus>,
    id: Seq<char>,
    s: ChecklistItemStatus,
    other: Seq<char>,
)
    ensures
        status_in(m.insert(id, s), id) == s,
        other != id ==> status_in(m.insert(id, s), other) == status_in(m, other),
{
}

} // verus!
