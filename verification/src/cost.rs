//! The month cost report: storage averaged over a 30-day month from daily
//! peaks, and per-class operation charges past the free tiers.
//!
//! Money amounts are held in cents so that the report is exact.

use vstd::prelude::*;

verus! {

use crate::usage::DailyLedger;

/// Bytes in one GiB.
pub const GIB: u64 = 0x40000000;

/// Free storage allowance, in GB-months.
pub const FREE_STORAGE_GB_MONTH: u64 = 10;

/// Free class A operations per month.
pub const FREE_CLASS_A_OPS: u64 = 1000000;

/// Free class B operations per month.
pub const FREE_CLASS_B_OPS: u64 = 10000000;

/// Price of one million class A operations past the free tier, in cents.
pub const CLASS_A_UNIT_PRICE_CENTS: u64 = 450;

/// Price of one million class B operations past the free tier, in cents.
pub const CLASS_B_UNIT_PRICE_CENTS: u64 = 36;

/// Ceiling of `a / b` for non-negative `a` and positive `b`.
pub open spec fn ceil_div(a: int, b: int) -> int {
    (a + b - 1) / b
}

/// Sum of the daily storage peaks.
pub open spec fn sum_peaks(days: Seq<DailyLedger>) -> int
    decreases days.len(),
{
    if days.len() == 0 {
        0
    } else {
        sum_peaks(days.drop_last()) + days.last().peak_storage_bytes
    }
}

/// Sum of all class A op counters over the days.
pub open spec fn sum_class_a(days: Seq<DailyLedger>) -> int
    decreases days.len(),
{
    if days.len() == 0 {
        0
    } else {
        sum_class_a(days.drop_last()) + days.last().class_a.total()
    }
}

/// Sum of all class B op counters over the days.
pub open spec fn sum_class_b(days: Seq<DailyLedger>) -> int
    decreases days.len(),
{
    if days.len() == 0 {
        0
    } else {
        sum_class_b(days.drop_last()) + days.last().class_b.total()
    }
}

/// Operations billed in whole millions past a free tier.
pub open spec fn spec_billable_millions(total: int, free: int) -> int {
    if total <= free {
        0
    } else {
        ceil_div(total - free, 1000000)
    }
}

/// The month cost report, with amounts in cents.
#[derive(Clone, Debug)]
pub struct CostReport {
    pub month: String,
    pub sum_peak_bytes: u128,
    pub avg_gb_month: u128,
    pub free_gb_month: u64,
    pub billable_gb_month: u128,
    pub storage_cost_cents: u128,
    pub total_class_a_ops: u128,
    pub free_class_a_ops: u64,
    pub billable_millions_a: u128,
    pub class_a_cost_cents: u128,
    pub total_class_b_ops: u128,
    pub free_class_b_ops: u64,
    pub billable_millions_b: u128,
    pub class_b_cost_cents: u128,
    pub total_cost_cents: u128,
}

proof fn lemma_sum_peaks_bound(days: Seq<DailyLedger>)
    ensures
        0 <= sum_peaks(days) <= days.len() * (u64::MAX as int),
    decreases days.len(),
{
    if days.len() > 0 {
        lemma_sum_peaks_bound(days.drop_last());
    }
}

proof fn lemma_sum_class_a_bound(days: Seq<DailyLedger>)
    ensures
        0 <= sum_class_a(days) <= days.len() * (12 * u64::MAX as int),
    decreases days.len(),
{
    if days.len() > 0 {
        lemma_sum_class_a_bound(days.drop_last());
    }
}

proof fn lemma_sum_class_b_bound(days: Seq<DailyLedger>)
    ensures
        0 <= sum_class_b(days) <= days.len() * (12 * u64::MAX as int),
    decreases days.len(),
{
    if days.len() > 0 {
        lemma_sum_class_b_bound(days.drop_last());
    }
}

/// Sum of all class A counters of one day, exactly.
fn day_class_a_total(d: &DailyLedger) -> (r: u128)
    ensures
        r == d.class_a.total(),
{
    let c = &d.class_a;
    c.list_objects_v2 as u128 + c.get_bucket_location as u128 + c.get_object as u128
        + c.head_object as u128 + c.upload_part as u128 + c.copy_object as u128 + c.put_object
        as u128 + c.create_multipart_upload as u128 + c.complete_multipart_upload as u128
        + c.delete_objects as u128 + c.abort_multipart_upload as u128 + c.delete_object as u128
}

/// Sum of all class B counters of one day, exactly.
fn day_class_b_total(d: &DailyLedger) -> (r: u128)
    ensures
        r == d.class_b.total(),
{
    let c = &d.class_b;
    c.list_objects_v2 as u128 + c.get_bucket_location as u128 + c.get_object as u128
        + c.head_object as u128 + c.upload_part as u128 + c.copy_object as u128 + c.put_object
        as u128 + c.create_multipart_upload as u128 + c.complete_multipart_upload as u128
        + c.delete_objects as u128 + c.abort_multipart_upload as u128 + c.delete_object as u128
}

/// Compute the cost report for a month from its daily ledgers.
///
/// Storage: the daily peaks are summed, converted to GB-months by a
/// ceiling division over thirty GiB-days, and billed past a 10 GB-month
/// free tier (at a unit price of zero: the report carries the breakdown).
/// Operations: class totals past their free tiers are billed per started
/// million.
pub fn month_cost(month: String, days: &Vec<DailyLedger>) -> (r: CostReport)
    requires
        days@.len() < 0x100000000,
    ensures
        r.month == month,
        r.sum_peak_bytes == sum_peaks(days@),
        r.avg_gb_month == ceil_div(sum_peaks(days@), 30 * GIB),
        r.billable_gb_month == if r.avg_gb_month > FREE_STORAGE_GB_MONTH {
            r.avg_gb_month - FREE_STORAGE_GB_MONTH
        } else {
            0
        },
        r.storage_cost_cents == 0,
        r.total_class_a_ops == sum_class_a(days@),
        r.total_class_b_ops == sum_class_b(days@),
        r.billable_millions_a == spec_billable_millions(
            sum_class_a(days@),
            FREE_CLASS_A_OPS as int,
        ),
        r.billable_millions_b == spec_billable_millions(
            sum_class_b(days@),
            FREE_CLASS_B_OPS as int,
        ),
        r.class_a_cost_cents == r.billable_millions_a * CLASS_A_UNIT_PRICE_CENTS,
        r.class_b_cost_cents == r.billable_millions_b * CLASS_B_UNIT_PRICE_CENTS,
        r.total_cost_cents == r.class_a_cost_cents + r.class_b_cost_cents,
{
    let n: usize = days.len();
    let mut sum_peak: u128 = 0;
    let mut total_a: u128 = 0;
    let mut total_b: u128 = 0;
    let mut i: usize = 0;
    proof {
        assert(days@.take(0) =~= Seq::<DailyLedger>::empty());
    }
    while i < n
        invariant
            n == days@.len(),
            n < 0x100000000,
            i <= n,
            sum_peak == sum_peaks(days@.take(i as int)),
            total_a == sum_class_a(days@.take(i as int)),
            total_b == sum_class_b(days@.take(i as int)),
        decreases n - i,
    {
        proof {
            lemma_sum_peaks_bound(days@.take(i as int));
            lemma_sum_class_a_bound(days@.take(i as int));
            lemma_sum_class_b_bound(days@.take(i as int));
            assert(days@.take(i + 1).drop_last() =~= days@.take(i as int));
            assert(days@.take(i + 1).last() == days@[i as int]);
        }
        let d = &days[i];
        sum_peak = sum_peak + d.peak_storage_bytes as u128;
        total_a = total_a + day_class_a_total(d);
        total_b = total_b + day_class_b_total(d);
        i += 1;
    }
    proof {
        assert(days@.take(n as int) =~= days@);
        lemma_sum_peaks_bound(days@);
        lemma_sum_class_a_bound(days@);
        lemma_sum_class_b_bound(days@);
    }
    let denom: u128 = 30 * GIB as u128;
    let avg_gb_month: u128 = (sum_peak + denom - 1) / denom;
    let billable_gb_month: u128 = if avg_gb_month > FREE_STORAGE_GB_MONTH as u128 {
        avg_gb_month - FREE_STORAGE_GB_MONTH as u128
    } else {
        0
    };
    let billable_millions_a: u128 = if total_a <= FREE_CLASS_A_OPS as u128 {
        0
    } else {
        (total_a - FREE_CLASS_A_OPS as u128 + 999999) / 1000000
    };
    let billable_millions_b: u128 = if total_b <= FREE_CLASS_B_OPS as u128 {
        0
    } else {
        (total_b - FREE_CLASS_B_OPS as u128 + 999999) / 1000000
    };
    let class_a_cost_cents: u128 = billable_millions_a * CLASS_A_UNIT_PRICE_CENTS as u128;
    let class_b_cost_cents: u128 = billable_millions_b * CLASS_B_UNIT_PRICE_CENTS as u128;
    CostReport {
        month,
        sum_peak_bytes: sum_peak,
        avg_gb_month,
        free_gb_month: FREE_STORAGE_GB_MONTH,
        billable_gb_month,
        storage_cost_cents: 0,
        total_class_a_ops: total_a,
        free_class_a_ops: FREE_CLASS_A_OPS,
        billable_millions_a,
        class_a_cost_cents,
        total_class_b_ops: total_b,
        free_class_b_ops: FREE_CLASS_B_OPS,
        billable_millions_b,
        class_b_cost_cents,
        total_cost_cents: class_a_cost_cents + class_b_cost_cents,
    }
}

} // verus!
