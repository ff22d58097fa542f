//! The lifetime count of Plaid Items this app has created. Plaid offers
//! no way to ask for the remaining quota, so the app keeps the count
//! itself: it warns from the warning threshold on and blocks new
//! connections at the limit. The count never goes down, since removing
//! an Item does not give its slot back.

use vstd::prelude::*;

verus! {

/// The plan's Item cap: new connections are blocked at this count.
pub const PLAID_ITEM_LIMIT: u32 = 10;

/// From this count on, the user is warned that the cap is near.
pub const PLAID_ITEM_WARNING_THRESHOLD: u32 = 8;

/// The number of Plaid Items ever created. There is no way to lower it.
#[derive(Debug, Clone, Copy, PartialEq, Eq, Structural)]
pub struct ItemUsageCounter {
    count: u32,
}

impl Default for ItemUsageCounter {
    /// A counter at zero, as `new` gives.
    fn default() -> (r: Self)
        ensures
            r.value() == 0,
    {
        ItemUsageCounter { count: 0 }
    }
}

impl ItemUsageCounter {
    pub closed spec fn value(&self) -> nat {
        self.count as nat
    }

    /// A counter at zero.
    pub fn new() -> (r: Self)
        ensures
            r.value() == 0,
    {
        ItemUsageCounter { count: 0 }
    }

    /// A counter holding a count that was stored earlier.
    pub fn from_count(count: u32) -> (r: Self)
        ensures
            r.value() == count,
    {
        ItemUsageCounter { count }
    }

    /// The number of Items created so far.
    pub fn count(&self) -> (r: u32)
        ensures
            r == self.value(),
    {
        self.count
    }

    /// Records one more Item, created just now.
    pub fn increment(&mut self)
        requires
            old(self).value() < u32::MAX,
        ensures
            final(self).value() == old(self).value() + 1,
    {
        self.count = self.count + 1;
    }

    /// Whether the user should be warned that the cap is near.
    pub fn is_at_warning_threshold(&self) -> (r: bool)
        ensures
            r == (self.value() >= PLAID_ITEM_WARNING_THRESHOLD),
    {
        self.count >= PLAID_ITEM_WARNING_THRESHOLD
    }

    /// Whether a new connection must be refused.
    pub fn is_blocked(&self) -> (r: bool)
        ensures
            r == (self.value() >= PLAID_ITEM_LIMIT),
    {
        self.count >= PLAID_ITEM_LIMIT
    }
}

/// A blocked counter is always also past the warning threshold, and
/// counting up never lifts a warning or a block.
pub proof fn lemma_block_implies_warning(c: ItemUsageCounter, later: ItemUsageCounter)
    requires
        c.value() <= later.value(),
    ensures
        c.value() >= PLAID_ITEM_LIMIT ==> c.value() >= PLAID_ITEM_WARNING_THRESHOLD,
        c.value() >= PLAID_ITEM_WARNING_THRESHOLD ==> later.value() >= PLAID_ITEM_WARNING_THRESHOLD,
        c.value() >= PLAID_ITEM_LIMIT ==> later.value() >= PLAID_ITEM_LIMIT,
{
}

/// A counter is nothing but its count: two counters with the same count
/// are the same value. So `new()` and `default()`, both at zero, are
/// equal.
pub proof fn lemma_counter_is_its_count(a: ItemUsageCounter, b: ItemUsageCounter)
    requires
        a.value() == b.value(),
    ensures
        a == b,
{
}

/// One call of the counter's public API, from `before` to `after`:
/// `increment` (when `incremented`) raises the count by one; every other
/// call (`count`, `is_at_warning_threshold`, `is_blocked`) only reads the
/// counter and leaves it as it was.
pub open spec fn api_step(before: ItemUsageCounter, after: ItemUsageCounter, incremented: bool) -> bool {
    if incremented {
        after.value() == before.value() + 1
    } else {
        after == before
    }
}

/// How many of the calls were increments.
pub open spec fn count_increments(incremented: Seq<bool>) -> nat
    decreases incremented.len(),
{
    if incremented.len() == 0 {
        0
    } else {
        count_increments(incremented.drop_last()) + if incremented.last() {
            1nat
        } else {
            0nat
        }
    }
}

/// The lifetime count never goes down: along any sequence of calls to
/// the counter's public API (`states[i]` before call `i`, `states[i + 1]`
/// after it), the count never decreases, and it ends exactly one above
/// where it started for each `increment`.
pub proof fn lemma_count_never_decreases(states: Seq<ItemUsageCounter>, incremented: Seq<bool>)
    requires
        states.len() == incremented.len() + 1,
        forall|i: int|
            0 <= i < incremented.len() ==> api_step(
                #[trigger] states[i],
                states[i + 1],
                incremented[i],
            ),
    ensures
        forall|i: int, j: int|
            0 <= i <= j < states.len() ==> (#[trigger] states[i]).value() <= (
            #[trigger] states[j]).value(),
        states.last().value() == states[0].value() + count_increments(incremented),
    decreases incremented.len(),
{
    if incremented.len() > 0 {
        let n = incremented.len() as int;
        let prefix = states.drop_last();
        let inc_prefix = incremented.drop_last();
        assert forall|i: int| 0 <= i < inc_prefix.len() implies api_step(
            #[trigger] prefix[i],
            prefix[i + 1],
            inc_prefix[i],
        ) by {
            assert(api_step(states[i], states[i + 1], incremented[i]));
        }
        lemma_count_never_decreases(prefix, inc_prefix);
        assert(api_step(states[n - 1], states[n], incremented[n - 1]));
        assert forall|i: int, j: int| 0 <= i <= j < states.len() implies (
        #[trigger] states[i]).value() <= (#[trigger] states[j]).value() by {
            if j < n {
                assert(prefix[i] == states[i] && prefix[j] == states[j]);
            } else if i < n {
                assert(prefix[i] == states[i] && prefix[n - 1] == states[n - 1]);
            }
        }
    }
}

} // verus!
