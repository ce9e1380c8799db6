//! The daily-ledger merge protocol: fold the local delta into the fetched
//! remote ledger and write it back under `If-Match`, re-fetching after
//! every precondition failure. The surrounding task performs the store
//! calls; the flow here decides each step.

use vstd::prelude::*;

verus! {

use crate::dates::DateYmd;
use crate::dates::pred_date;
use crate::dates::valid_date;
use crate::errors::ErrorKind;
use crate::errors::SpError;
use crate::strutil::str_eq;
use crate::usage::DailyLedger;
use crate::usage::UsageDelta;
use crate::usage::fold_delta;
use crate::usage::spec_fold_delta;
use vstd::string::StringExecFns;

/// How many prior days the baseline search probes before falling back to a
/// full bucket scan.
pub const BASELINE_PROBE_DAYS: usize = 62;

/// How many `If-Match` conflicts the merge retries before giving up.
pub const MERGE_MAX_ATTEMPTS: u32 = 8;

/// The fast path: when the requested date is today and today was already
/// merged, the merge is a no-op.
pub fn merge_fast_path(date: &str, today: &str, last_merge_date: &str) -> (r: bool)
    ensures
        r == (date@ == today@ && last_merge_date@ == date@),
{
    str_eq(date, today) && str_eq(last_merge_date, date)
}

/// The object key of a day's ledger: the protected analytics prefix, the
/// date, and the `.json` suffix.
pub fn ledger_key_for(date: &str) -> (r: String)
    ensures
        r@ == "analytics/daily/"@ + date@ + ".json"@,
{
    let mut out = String::from_str("analytics/daily/");
    out.append(date);
    out.append(".json");
    out
}

/// The date `n` days before `d`, when the calendar reaches back that far.
pub open spec fn nth_pred(d: DateYmd, n: nat) -> Option<DateYmd>
    decreases n,
{
    if n == 0 {
        Some(d)
    } else {
        match nth_pred(d, (n - 1) as nat) {
            None => None,
            Some(p) => crate::dates::spec_pred_date(p),
        }
    }
}

/// The dates the baseline search probes: up to `limit` days strictly
/// before `date`, most recent first.
pub fn baseline_probe_dates(date: DateYmd, limit: usize) -> (r: Vec<DateYmd>)
    requires
        valid_date(date),
    ensures
        r@.len() <= limit,
        forall|i: int| 0 <= i < r@.len() ==> valid_date(#[trigger] r@[i]),
        forall|i: int| 0 <= i < r@.len() ==> Some(#[trigger] r@[i]) == nth_pred(
            date,
            (i + 1) as nat,
        ),
        r@.len() == limit || nth_pred(date, (r@.len() + 1) as nat) is None,
{
    let mut out: Vec<DateYmd> = Vec::new();
    let mut cur = date;
    let mut k: usize = 0;
    while k < limit
        invariant
            valid_date(cur),
            out@.len() == k <= limit,
            Some(cur) == nth_pred(date, k as nat),
            forall|i: int| 0 <= i < k ==> valid_date(#[trigger] out@[i]),
            forall|i: int| 0 <= i < k ==> Some(#[trigger] out@[i]) == nth_pred(
                date,
                (i + 1) as nat,
            ),
        decreases limit - k,
    {
        match pred_date(cur) {
            Some(p) => {
                proof {
                    assert(nth_pred(date, (k + 1) as nat) == crate::dates::spec_pred_date(cur));
                }
                out.push(p);
                cur = p;
            },
            None => {
                return out;
            },
        }
        k += 1;
    }
    out
}

/// Where the merge stands.
#[derive(Clone, Copy, Debug, PartialEq, Eq, Structural)]
pub enum MergePhase {
    /// Fetch the remote ledger (again, after a conflict).
    Fetch,
    /// A folded ledger is ready; write it back conditionally.
    Write,
    /// The write landed; the local delta must be cleared.
    Done,
    Failed,
}

/// One merge in progress.
pub struct MergeFlow {
    pub date: String,
    pub local: UsageDelta,
    pub attempts: u32,
    pub phase: MergePhase,
    /// The revision observed in the ledger fetched last, once one was.
    pub fetched_rev: Option<u64>,
}

impl MergeFlow {
    /// Start a merge of the local delta for one date.
    pub fn start_merge(date: String, local: UsageDelta) -> (r: MergeFlow)
        ensures
            r.date == date,
            r.local == local,
            r.attempts == 0,
            r.phase == MergePhase::Fetch,
            r.fetched_rev is None,
    {
        MergeFlow { date, local, attempts: 0, phase: MergePhase::Fetch, fetched_rev: None }
    }

    /// The remote ledger arrived (a freshly seeded one counts): fold the
    /// local delta into it. The folded revision strictly exceeds the
    /// fetched one, and the write must go out under `If-Match` of the etag
    /// observed at this fetch.
    pub fn on_fetched(&mut self, fetched: &DailyLedger, updated_at: String) -> (r: DailyLedger)
        requires
            old(self).phase == MergePhase::Fetch,
            fetched.rev < u64::MAX,
        ensures
            final(self).phase == MergePhase::Write,
            final(self).fetched_rev == Some(fetched.rev),
            final(self).date == old(self).date,
            final(self).local == old(self).local,
            final(self).attempts == old(self).attempts,
            r == spec_fold_delta(*fetched, old(self).local, updated_at),
            r.rev == fetched.rev + 1,
            r.rev > fetched.rev,
            crate::usage::ledger_wf(r),
    {
        self.phase = MergePhase::Write;
        self.fetched_rev = Some(fetched.rev);
        fold_delta(fetched, &self.local, updated_at)
    }

    /// The conditional write landed: the merge is complete, and the caller
    /// must delete the local delta file and record the merge date.
    pub fn on_write_ok(&mut self)
        requires
            old(self).phase == MergePhase::Write,
        ensures
            final(self).phase == MergePhase::Done,
            final(self).date == old(self).date,
    {
        self.phase = MergePhase::Done;
    }

    /// The store reported a precondition failure: someone else wrote the
    /// ledger since the fetch. The only correct continuation is a fresh
    /// fetch; after too many conflicts the merge fails as retriable.
    pub fn on_write_conflict(&mut self, now: i64) -> (r: Result<(), SpError>)
        requires
            old(self).phase == MergePhase::Write,
            old(self).attempts < u32::MAX,
        ensures
            final(self).attempts == old(self).attempts + 1,
            final(self).date == old(self).date,
            final(self).local == old(self).local,
            old(self).attempts + 1 < MERGE_MAX_ATTEMPTS ==> r is Ok && final(self).phase
                == MergePhase::Fetch,
            old(self).attempts + 1 >= MERGE_MAX_ATTEMPTS ==> (r matches Err(e) && e.kind
                == ErrorKind::RetryableNet) && final(self).phase == MergePhase::Failed,
    {
        self.attempts = self.attempts + 1;
        if self.attempts < MERGE_MAX_ATTEMPTS {
            self.phase = MergePhase::Fetch;
            Ok(())
        } else {
            self.phase = MergePhase::Failed;
            Err(
                SpError::with_retry(
                    ErrorKind::RetryableNet,
                    String::from_str("ledger write conflict"),
                    500,
                    now,
                ),
            )
        }
    }
}

/// Sum of the sizes of the listed objects, skipping directory entries and
/// everything under the analytics prefix: the storage baseline of a bucket
/// with no prior ledger.
pub open spec fn spec_baseline_total(entries: Seq<(Seq<char>, u64)>) -> int
    decreases entries.len(),
{
    if entries.len() == 0 {
        0
    } else {
        let rest = spec_baseline_total(entries.drop_last());
        let e = entries.last();
        if counts_toward_baseline(e.0) {
            rest + e.1
        } else {
            rest
        }
    }
}

/// An entry counts when it is an object (not a `/`-terminated prefix) and
/// lies outside the analytics prefix.
pub open spec fn counts_toward_baseline(key: Seq<char>) -> bool {
    &&& !(key.len() > 0 && key.last() == '/')
    &&& !crate::strutil::spec_starts_with(key, "analytics/"@)
}

/// Fold the listed object sizes into the storage baseline, saturating.
pub fn compute_bucket_total_storage(entries: &Vec<(String, u64)>) -> (r: u64)
    ensures
        r as int == if spec_baseline_total(
            entries@.map_values(|e: (String, u64)| (e.0@, e.1)),
        ) > u64::MAX {
            u64::MAX as int
        } else {
            spec_baseline_total(entries@.map_values(|e: (String, u64)| (e.0@, e.1)))
        },
{
    let ghost m = entries@.map_values(|e: (String, u64)| (e.0@, e.1));
    let n: usize = entries.len();
    let mut total: u64 = 0;
    let mut i: usize = 0;
    proof {
        assert(m.take(0) =~= Seq::<(Seq<char>, u64)>::empty());
        lemma_baseline_nonneg(m.take(0));
    }
    while i < n
        invariant
            n == entries@.len(),
            m == entries@.map_values(|e: (String, u64)| (e.0@, e.1)),
            i <= n,
            total as int == if spec_baseline_total(m.take(i as int)) > u64::MAX {
                u64::MAX as int
            } else {
                spec_baseline_total(m.take(i as int))
            },
        decreases n - i,
    {
        let key = &entries[i].0;
        let kn: usize = vstd::string::StrSliceExecFns::unicode_len(key.as_str());
        let is_dir = kn > 0 && vstd::string::StrSliceExecFns::get_char(key.as_str(), kn - 1)
            == '/';
        let is_analytics = crate::strutil::starts_with_str(key.as_str(), "analytics/");
        proof {
            assert(m.take(i + 1).drop_last() =~= m.take(i as int));
            assert(m.take(i + 1).last() == m[i as int]);
            assert(m[i as int].0 == entries@[i as int].0@);
            lemma_baseline_nonneg(m.take(i as int));
        }
        if !is_dir && !is_analytics {
            total = total.saturating_add(entries[i].1);
        }
        i += 1;
    }
    proof {
        assert(m.take(n as int) =~= m);
    }
    total
}

/// Baseline totals are never negative.
proof fn lemma_baseline_nonneg(entries: Seq<(Seq<char>, u64)>)
    ensures
        spec_baseline_total(entries) >= 0,
    decreases entries.len(),
{
    if entries.len() > 0 {
        lemma_baseline_nonneg(entries.drop_last());
    }
}

} // verus!
