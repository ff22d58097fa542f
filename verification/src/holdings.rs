//! Asset-class breakdown of holdings. A holding's class is read off its
//! description (compared in lower case): cash-like wording makes it
//! cash, fund-like wording a fund, anything else an individual stock.

use vstd::prelude::*;

use crate::account::Holding;
use crate::text::{chars_of, contains, contains_exec, lowercase, lowercase_chars};

verus! {

/// Coarse asset classes, in display order (safest first).
#[derive(Debug, Clone, Copy, PartialEq, Eq, Structural, PartialOrd, Ord)]
pub enum AssetClass {
    Cash,
    Fund,
    Stock,
}

pub open spec fn class_label(c: AssetClass) -> Seq<char> {
    match c {
        AssetClass::Cash => "Cash"@,
        AssetClass::Fund => "Fund"@,
        AssetClass::Stock => "Individual Stock"@,
    }
}

impl AssetClass {
    /// The class's name as shown to the user.
    pub fn label(&self) -> (r: &'static str)
        ensures
            r@ == class_label(*self),
    {
        match self {
            AssetClass::Cash => "Cash",
            AssetClass::Fund => "Fund",
            AssetClass::Stock => "Individual Stock",
        }
    }
}

/// The class a description falls in.
pub open spec fn class_of(description: Seq<char>) -> AssetClass {
    let d = lowercase(description);
    if contains(d, "money market"@) || contains(d, "settlement"@) || contains(d, "cash"@) {
        AssetClass::Cash
    } else if contains(d, "etf"@) || contains(d, "index"@) || contains(d, "fund"@) {
        AssetClass::Fund
    } else {
        AssetClass::Stock
    }
}

/// The asset class of `holding`, read off its description.
pub fn classify(holding: &Holding) -> (r: AssetClass)
    ensures
        r == class_of(holding.description@),
{
    let d = lowercase_chars(holding.description.as_str());
    if contains_exec(&d, &chars_of("money market")) || contains_exec(&d, &chars_of("settlement"))
        || contains_exec(&d, &chars_of("cash")) {
        AssetClass::Cash
    } else if contains_exec(&d, &chars_of("etf")) || contains_exec(&d, &chars_of("index"))
        || contains_exec(&d, &chars_of("fund")) {
        AssetClass::Fund
    } else {
        AssetClass::Stock
    }
}

/// The summed value (in cents) of the holdings of class `c`.
pub open spec fn class_total(hs: Seq<Holding>, c: AssetClass) -> int
    decreases hs.len(),
{
    if hs.len() == 0 {
        0
    } else {
        class_total(hs.drop_last(), c) + if class_of(hs.last().description@) == c {
            hs.last().value as int
        } else {
            0
        }
    }
}

/// Some holding is of class `c`.
pub open spec fn class_present(hs: Seq<Holding>, c: AssetClass) -> bool {
    exists|i: int| 0 <= i < hs.len() && class_of(#[trigger] hs[i].description@) == c
}

/// `(c, total)` when some holding is of class `c`, nothing otherwise.
pub open spec fn bucket_entry(hs: Seq<Holding>, c: AssetClass) -> Seq<(AssetClass, int)> {
    if class_present(hs, c) {
        seq![(c, class_total(hs, c))]
    } else {
        seq![]
    }
}

/// Each class that some holding falls in, with its total, in class order.
pub open spec fn buckets(hs: Seq<Holding>) -> Seq<(AssetClass, int)> {
    bucket_entry(hs, AssetClass::Cash) + bucket_entry(hs, AssetClass::Fund) + bucket_entry(
        hs,
        AssetClass::Stock,
    )
}

pub open spec fn totals_view(v: Seq<(AssetClass, i128)>) -> Seq<(AssetClass, int)> {
    v.map_values(|p: (AssetClass, i128)| (p.0, p.1 as int))
}

/// Sums the holdings' values (in cents) by asset class. Classes come in
/// their display order, and a class that no holding falls in is left
/// out.
pub fn bucket(holdings: &[Holding]) -> (r: Vec<(AssetClass, i128)>)
    ensures
        totals_view(r@) == buckets(holdings@),
{
    let mut cash: i128 = 0;
    let mut fund: i128 = 0;
    let mut stock: i128 = 0;
    let mut has_cash = false;
    let mut has_fund = false;
    let mut has_stock = false;
    let mut i: usize = 0;
    let ghost hs = holdings@;
    let ghost bound: int = 0x8000_0000_0000_0000;
    while i < holdings.len()
        invariant
            i <= holdings.len(),
            hs == holdings@,
            bound == 0x8000_0000_0000_0000,
            cash == class_total(hs.take(i as int), AssetClass::Cash),
            fund == class_total(hs.take(i as int), AssetClass::Fund),
            stock == class_total(hs.take(i as int), AssetClass::Stock),
            -(i as int) * bound <= cash <= (i as int) * bound,
            -(i as int) * bound <= fund <= (i as int) * bound,
            -(i as int) * bound <= stock <= (i as int) * bound,
            has_cash == class_present(hs.take(i as int), AssetClass::Cash),
            has_fund == class_present(hs.take(i as int), AssetClass::Fund),
            has_stock == class_present(hs.take(i as int), AssetClass::Stock),
        decreases holdings.len() - i,
    {
        let ghost pre = hs.take(i + 1);
        assert(pre.drop_last() =~= hs.take(i as int));
        assert(pre.last() == hs[i as int]);
        let c = classify(&holdings[i]);
        let v = holdings[i].value as i128;
        assert forall|k: AssetClass| #[trigger] class_present(pre, k) == (class_present(
            hs.take(i as int),
            k,
        ) || class_of(hs[i as int].description@) == k) by {
            if class_present(pre, k) && class_of(hs[i as int].description@) != k {
                let j = choose|j: int| 0 <= j < pre.len() && class_of(#[trigger] pre[j].description@) == k;
                assert(j < i);
                assert(hs.take(i as int)[j] == pre[j]);
            }
            if class_present(hs.take(i as int), k) {
                let j = choose|j: int|
                    0 <= j < i && class_of(#[trigger] hs.take(i as int)[j].description@) == k;
                assert(pre[j] == hs.take(i as int)[j]);
            }
            if class_of(hs[i as int].description@) == k {
                assert(class_of(pre[i as int].description@) == k);
            }
        }
        match c {
            AssetClass::Cash => {
                cash = cash + v;
                has_cash = true;
            },
            AssetClass::Fund => {
                fund = fund + v;
                has_fund = true;
            },
            AssetClass::Stock => {
                stock = stock + v;
                has_stock = true;
            },
        }
        i = i + 1;
    }
    assert(hs.take(holdings.len() as int) =~= hs);
    let mut r: Vec<(AssetClass, i128)> = Vec::new();
    if has_cash {
        r.push((AssetClass::Cash, cash));
    }
    let ghost after_cash = r@;
    if has_fund {
        r.push((AssetClass::Fund, fund));
    }
    let ghost after_fund = r@;
    if has_stock {
        r.push((AssetClass::Stock, stock));
    }
    assert(totals_view(after_cash) =~= bucket_entry(hs, AssetClass::Cash));
    assert(totals_view(after_fund) =~= bucket_entry(hs, AssetClass::Cash) + bucket_entry(
        hs,
        AssetClass::Fund,
    ));
    assert(totals_view(r@) =~= buckets(hs));
    r
}

/// The width, in cells, of a full bar of the holdings breakdown.
pub const BAR_WIDTH: usize = 30;

/// One row of the holdings breakdown: a class, its total, how many of
/// the bar's cells it fills and its share in tenths of a percent.
#[derive(Debug, Clone, Copy, PartialEq, Eq, Structural)]
pub struct BreakdownRow {
    pub class: AssetClass,
    /// Cents.
    pub value: i128,
    pub filled: usize,
    pub percent_tenths: i128,
}

/// The sum of the totals of `b`.
pub open spec fn buckets_sum(b: Seq<(AssetClass, i128)>) -> int
    decreases b.len(),
{
    if b.len() == 0 {
        0
    } else {
        buckets_sum(b.drop_last()) + b.last().1
    }
}

/// The sum of the magnitudes of the totals of `b`.
pub open spec fn buckets_magnitude(b: Seq<(AssetClass, i128)>) -> int
    decreases b.len(),
{
    if b.len() == 0 {
        0
    } else {
        buckets_magnitude(b.drop_last()) + if b.last().1 < 0 { -b.last().1 } else { b.last().1 as int }
    }
}

/// `x` clamped to `0..=hi`.
pub open spec fn clamp(x: int, hi: int) -> int {
    if x < 0 { 0 } else if x > hi { hi } else { x }
}

/// The cells of a `BAR_WIDTH` bar that a share of `v` out of `t` fills:
/// the share times the width, rounded half up, kept within the bar;
/// none when the total is not positive.
pub open spec fn bar_fill(v: int, t: int) -> int {
    if t <= 0 { 0 } else { clamp((2 * BAR_WIDTH * v + t) / (2 * t), BAR_WIDTH as int) }
}

/// The share of `v` out of `t` in tenths of a percent, rounded half up;
/// zero when the total is not positive.
pub open spec fn share_tenths(v: int, t: int) -> int {
    if t <= 0 { 0 } else { (2000 * v + t) / (2 * t) }
}

/// The breakdown row of a bucket whose classes total `t`.
pub open spec fn breakdown_row(b: (AssetClass, i128), t: int) -> BreakdownRow {
    BreakdownRow {
        class: b.0,
        value: b.1,
        filled: bar_fill(b.1 as int, t) as usize,
        percent_tenths: share_tenths(b.1 as int, t) as i128,
    }
}

proof fn lemma_sum_within_magnitude(b: Seq<(AssetClass, i128)>)
    ensures
        -buckets_magnitude(b) <= buckets_sum(b) <= buckets_magnitude(b),
        0 <= buckets_magnitude(b),
    decreases b.len(),
{
    if b.len() > 0 {
        lemma_sum_within_magnitude(b.drop_last());
    }
}

proof fn lemma_magnitude_grows(b: Seq<(AssetClass, i128)>, i: int)
    requires
        0 <= i <= b.len(),
    ensures
        buckets_magnitude(b.take(i)) <= buckets_magnitude(b),
        forall|j: int| 0 <= j < b.len() ==> -buckets_magnitude(b) <= #[trigger] b[j].1 <= buckets_magnitude(b),
    decreases b.len(),
{
    if b.len() > 0 {
        let d = b.drop_last();
        if i == b.len() {
            assert(b.take(i) =~= b);
        } else {
            assert(b.take(i) =~= d.take(i));
            lemma_magnitude_grows(d, i);
        }
        lemma_magnitude_grows(d, 0);
        lemma_sum_within_magnitude(d);
        assert forall|j: int| 0 <= j < b.len() implies -buckets_magnitude(b) <= #[trigger] b[j].1
            <= buckets_magnitude(b) by {
            if j < d.len() {
                assert(d[j] == b[j]);
            }
        }
    }
}

/// The rows of the holdings breakdown for the class totals `buckets`, in
/// the same order: each class's share of the whole as cells of a bar and
/// as a percentage. Amounts are cents, at most 2^110 of them in all.
pub fn breakdown_rows(buckets: &[(AssetClass, i128)]) -> (r: Vec<BreakdownRow>)
    requires
        buckets_magnitude(buckets@) <= 0x4000_0000_0000_0000_0000_0000_0000,
    ensures
        r@.len() == buckets@.len(),
        forall|i: int| 0 <= i < r@.len() ==> #[trigger] r@[i] == breakdown_row(buckets@[i], buckets_sum(buckets@)),
{
    let ghost b = buckets@;
    let ghost bound: int = 0x4000_0000_0000_0000_0000_0000_0000;
    proof {
        lemma_magnitude_grows(b, 0);
    }
    let mut total: i128 = 0;
    let mut i: usize = 0;
    while i < buckets.len()
        invariant
            i <= buckets.len(),
            b == buckets@,
            bound == 0x4000_0000_0000_0000_0000_0000_0000,
            buckets_magnitude(b) <= bound,
            total == buckets_sum(b.take(i as int)),
            -buckets_magnitude(b.take(i as int)) <= total <= buckets_magnitude(b.take(i as int)),
        decreases buckets.len() - i,
    {
        assert(b.take(i + 1).drop_last() =~= b.take(i as int));
        proof {
            lemma_magnitude_grows(b, i + 1);
            lemma_sum_within_magnitude(b.take(i + 1));
        }
        total = total + buckets[i].1;
        i = i + 1;
    }
    assert(b.take(buckets.len() as int) =~= b);
    let mut rows: Vec<BreakdownRow> = Vec::new();
    let mut k: usize = 0;
    while k < buckets.len()
        invariant
            k <= buckets.len(),
            b == buckets@,
            bound == 0x4000_0000_0000_0000_0000_0000_0000,
            buckets_magnitude(b) <= bound,
            total == buckets_sum(b),
            -bound <= total <= bound,
            forall|j: int| 0 <= j < b.len() ==> -bound <= #[trigger] b[j].1 <= bound,
            rows@.len() == k,
            forall|j: int| 0 <= j < k ==> #[trigger] rows@[j] == breakdown_row(b[j], total as int),
        decreases buckets.len() - k,
    {
        let (class, value) = buckets[k];
        assert(-bound <= value <= bound);
        let (filled, percent_tenths): (usize, i128) = if total <= 0 {
            (0, 0)
        } else {
            let q_floor = crate::amount::floor_div(60 * value + total, 2 * total);
            let f: usize = if q_floor < 0 {
                0
            } else if q_floor > 30 {
                30
            } else {
                q_floor as usize
            };
            let p_floor = crate::amount::floor_div(2000 * value + total, 2 * total);
            (f, p_floor)
        };
        rows.push(BreakdownRow { class, value, filled, percent_tenths });
        k = k + 1;
    }
    rows
}

} // verus!
