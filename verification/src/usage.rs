//! Usage accounting: per-operation counters, per-day deltas, the daily
//! ledger fold, and the month cost report.
//!
//! Counter folds are additive (saturating), so they commute and may be
//! interleaved across concurrent transfers.

use vstd::prelude::*;

verus! {

use crate::classify::S3Op;
use crate::classify::OpClass;
use crate::classify::spec_op_class;

/// `a + b`, clamped to `u64::MAX`.
pub open spec fn sat_add(a: u64, b: u64) -> u64 {
    if a + b > u64::MAX {
        u64::MAX
    } else {
        (a + b) as u64
    }
}

/// `a - b`, clamped to `0`.
pub open spec fn sat_sub(a: u64, b: u64) -> u64 {
    if a >= b {
        (a - b) as u64
    } else {
        0
    }
}

/// One counter per S3 operation.
#[derive(Clone, Copy, Debug, PartialEq, Eq, Structural)]
pub struct OpCounters {
    pub list_objects_v2: u64,
    pub get_bucket_location: u64,
    pub get_object: u64,
    pub head_object: u64,
    pub upload_part: u64,
    pub copy_object: u64,
    pub put_object: u64,
    pub create_multipart_upload: u64,
    pub complete_multipart_upload: u64,
    pub delete_objects: u64,
    pub abort_multipart_upload: u64,
    pub delete_object: u64,
}

impl OpCounters {
    /// The count this record holds for `op`.
    pub open spec fn count(self, op: S3Op) -> u64 {
        match op {
            S3Op::ListObjectsV2 => self.list_objects_v2,
            S3Op::GetBucketLocation => self.get_bucket_location,
            S3Op::GetObject => self.get_object,
            S3Op::HeadObject => self.head_object,
            S3Op::UploadPart => self.upload_part,
            S3Op::CopyObject => self.copy_object,
            S3Op::PutObject => self.put_object,
            S3Op::CreateMultipartUpload => self.create_multipart_upload,
            S3Op::CompleteMultipartUpload => self.complete_multipart_upload,
            S3Op::DeleteObjects => self.delete_objects,
            S3Op::AbortMultipartUpload => self.abort_multipart_upload,
            S3Op::DeleteObject => self.delete_object,
        }
    }

    /// Sum of all counters.
    pub open spec fn total(self) -> int {
        self.list_objects_v2 + self.get_bucket_location + self.get_object + self.head_object
            + self.upload_part + self.copy_object + self.put_object + self.create_multipart_upload
            + self.complete_multipart_upload + self.delete_objects + self.abort_multipart_upload
            + self.delete_object
    }

    /// All counters zero.
    pub open spec fn spec_zero() -> OpCounters {
        OpCounters {
            list_objects_v2: 0,
            get_bucket_location: 0,
            get_object: 0,
            head_object: 0,
            upload_part: 0,
            copy_object: 0,
            put_object: 0,
            create_multipart_upload: 0,
            complete_multipart_upload: 0,
            delete_objects: 0,
            abort_multipart_upload: 0,
            delete_object: 0,
        }
    }

    /// A fresh record with every counter zero.
    pub fn zero() -> (r: OpCounters)
        ensures
            r == OpCounters::spec_zero(),
    {
        OpCounters {
            list_objects_v2: 0,
            get_bucket_location: 0,
            get_object: 0,
            head_object: 0,
            upload_part: 0,
            copy_object: 0,
            put_object: 0,
            create_multipart_upload: 0,
            complete_multipart_upload: 0,
            delete_objects: 0,
            abort_multipart_upload: 0,
            delete_object: 0,
        }
    }

    /// Key-wise saturating sum of two records.
    pub open spec fn spec_plus(self, o: OpCounters) -> OpCounters {
        OpCounters {
            list_objects_v2: sat_add(self.list_objects_v2, o.list_objects_v2),
            get_bucket_location: sat_add(self.get_bucket_location, o.get_bucket_location),
            get_object: sat_add(self.get_object, o.get_object),
            head_object: sat_add(self.head_object, o.head_object),
            upload_part: sat_add(self.upload_part, o.upload_part),
            copy_object: sat_add(self.copy_object, o.copy_object),
            put_object: sat_add(self.put_object, o.put_object),
            create_multipart_upload: sat_add(
                self.create_multipart_upload,
                o.create_multipart_upload,
            ),
            complete_multipart_upload: sat_add(
                self.complete_multipart_upload,
                o.complete_multipart_upload,
            ),
            delete_objects: sat_add(self.delete_objects, o.delete_objects),
            abort_multipart_upload: sat_add(self.abort_multipart_upload, o.abort_multipart_upload),
            delete_object: sat_add(self.delete_object, o.delete_object),
        }
    }

    /// Fold another record into this one, key-wise and saturating.
    pub fn plus(&self, o: &OpCounters) -> (r: OpCounters)
        ensures
            r == self.spec_plus(*o),
    {
        OpCounters {
            list_objects_v2: self.list_objects_v2.saturating_add(o.list_objects_v2),
            get_bucket_location: self.get_bucket_location.saturating_add(o.get_bucket_location),
            get_object: self.get_object.saturating_add(o.get_object),
            head_object: self.head_object.saturating_add(o.head_object),
            upload_part: self.upload_part.saturating_add(o.upload_part),
            copy_object: self.copy_object.saturating_add(o.copy_object),
            put_object: self.put_object.saturating_add(o.put_object),
            create_multipart_upload: self.create_multipart_upload.saturating_add(
                o.create_multipart_upload,
            ),
            complete_multipart_upload: self.complete_multipart_upload.saturating_add(
                o.complete_multipart_upload,
            ),
            delete_objects: self.delete_objects.saturating_add(o.delete_objects),
            abort_multipart_upload: self.abort_multipart_upload.saturating_add(
                o.abort_multipart_upload,
            ),
            delete_object: self.delete_object.saturating_add(o.delete_object),
        }
    }

    /// One counter for `op`, zero for every other operation.
    pub open spec fn spec_one(op: S3Op) -> OpCounters {
        OpCounters::spec_zero().spec_bump(op)
    }

    /// This record with the counter for `op` raised by one.
    pub open spec fn spec_bump(self, op: S3Op) -> OpCounters {
        match op {
            S3Op::ListObjectsV2 => OpCounters {
                list_objects_v2: sat_add(self.list_objects_v2, 1),
                ..self
            },
            S3Op::GetBucketLocation => OpCounters {
                get_bucket_location: sat_add(self.get_bucket_location, 1),
                ..self
            },
            S3Op::GetObject => OpCounters { get_object: sat_add(self.get_object, 1), ..self },
            S3Op::HeadObject => OpCounters { head_object: sat_add(self.head_object, 1), ..self },
            S3Op::UploadPart => OpCounters { upload_part: sat_add(self.upload_part, 1), ..self },
            S3Op::CopyObject => OpCounters { copy_object: sat_add(self.copy_object, 1), ..self },
            S3Op::PutObject => OpCounters { put_object: sat_add(self.put_object, 1), ..self },
            S3Op::CreateMultipartUpload => OpCounters {
                create_multipart_upload: sat_add(self.create_multipart_upload, 1),
                ..self
            },
            S3Op::CompleteMultipartUpload => OpCounters {
                complete_multipart_upload: sat_add(self.complete_multipart_upload, 1),
                ..self
            },
            S3Op::DeleteObjects => OpCounters {
                delete_objects: sat_add(self.delete_objects, 1),
                ..self
            },
            S3Op::AbortMultipartUpload => OpCounters {
                abort_multipart_upload: sat_add(self.abort_multipart_upload, 1),
                ..self
            },
            S3Op::DeleteObject => OpCounters {
                delete_object: sat_add(self.delete_object, 1),
                ..self
            },
        }
    }

    /// Raise the counter for `op` by one.
    pub fn bump(&self, op: S3Op) -> (r: OpCounters)
        ensures
            r == self.spec_bump(op),
            r.count(op) == sat_add(self.count(op), 1),
            forall|o: S3Op| o != op ==> r.count(o) == self.count(o),
    {
        let mut r = *self;
        match op {
            S3Op::ListObjectsV2 => {
                r.list_objects_v2 = r.list_objects_v2.saturating_add(1);
            },
            S3Op::GetBucketLocation => {
                r.get_bucket_location = r.get_bucket_location.saturating_add(1);
            },
            S3Op::GetObject => {
                r.get_object = r.get_object.saturating_add(1);
            },
            S3Op::HeadObject => {
                r.head_object = r.head_object.saturating_add(1);
            },
            S3Op::UploadPart => {
                r.upload_part = r.upload_part.saturating_add(1);
            },
            S3Op::CopyObject => {
                r.copy_object = r.copy_object.saturating_add(1);
            },
            S3Op::PutObject => {
                r.put_object = r.put_object.saturating_add(1);
            },
            S3Op::CreateMultipartUpload => {
                r.create_multipart_upload = r.create_multipart_upload.saturating_add(1);
            },
            S3Op::CompleteMultipartUpload => {
                r.complete_multipart_upload = r.complete_multipart_upload.saturating_add(1);
            },
            S3Op::DeleteObjects => {
                r.delete_objects = r.delete_objects.saturating_add(1);
            },
            S3Op::AbortMultipartUpload => {
                r.abort_multipart_upload = r.abort_multipart_upload.saturating_add(1);
            },
            S3Op::DeleteObject => {
                r.delete_object = r.delete_object.saturating_add(1);
            },
        }
        r
    }
}

/// Per-process, per-day counter bundle, folded into the remote ledger at
/// merge time.
#[derive(Clone, Copy, Debug, PartialEq, Eq, Structural)]
pub struct UsageDelta {
    pub class_a: OpCounters,
    pub class_b: OpCounters,
    pub ingress_bytes: u64,
    pub egress_bytes: u64,
    pub added_storage_bytes: u64,
    pub deleted_storage_bytes: u64,
}

impl UsageDelta {
    /// The all-zero delta.
    pub open spec fn spec_zero() -> UsageDelta {
        UsageDelta {
            class_a: OpCounters::spec_zero(),
            class_b: OpCounters::spec_zero(),
            ingress_bytes: 0,
            egress_bytes: 0,
            added_storage_bytes: 0,
            deleted_storage_bytes: 0,
        }
    }

    /// A fresh delta with everything zero.
    pub fn zero() -> (r: UsageDelta)
        ensures
            r == UsageDelta::spec_zero(),
    {
        UsageDelta {
            class_a: OpCounters::zero(),
            class_b: OpCounters::zero(),
            ingress_bytes: 0,
            egress_bytes: 0,
            added_storage_bytes: 0,
            deleted_storage_bytes: 0,
        }
    }

    /// Key-wise saturating sum of two deltas.
    pub open spec fn spec_plus(self, o: UsageDelta) -> UsageDelta {
        UsageDelta {
            class_a: self.class_a.spec_plus(o.class_a),
            class_b: self.class_b.spec_plus(o.class_b),
            ingress_bytes: sat_add(self.ingress_bytes, o.ingress_bytes),
            egress_bytes: sat_add(self.egress_bytes, o.egress_bytes),
            added_storage_bytes: sat_add(self.added_storage_bytes, o.added_storage_bytes),
            deleted_storage_bytes: sat_add(self.deleted_storage_bytes, o.deleted_storage_bytes),
        }
    }

    /// Fold another delta into this one. Folds are associative and
    /// commutative up to saturation, so interleavings across transfers agree.
    pub fn plus(&self, o: &UsageDelta) -> (r: UsageDelta)
        ensures
            r == self.spec_plus(*o),
    {
        UsageDelta {
            class_a: self.class_a.plus(&o.class_a),
            class_b: self.class_b.plus(&o.class_b),
            ingress_bytes: self.ingress_bytes.saturating_add(o.ingress_bytes),
            egress_bytes: self.egress_bytes.saturating_add(o.egress_bytes),
            added_storage_bytes: self.added_storage_bytes.saturating_add(o.added_storage_bytes),
            deleted_storage_bytes: self.deleted_storage_bytes.saturating_add(
                o.deleted_storage_bytes,
            ),
        }
    }
}

/// Whether `op` carries its request body into storage (single PUT and
/// multipart part uploads).
pub open spec fn op_carries_body(op: S3Op) -> bool {
    op == S3Op::PutObject || op == S3Op::UploadPart
}

/// The delta recorded at request time for one classified request: exactly
/// one op counter is raised, in the class the operation belongs to, and for
/// body-carrying operations the body length is charged to ingress and to
/// added storage.
pub fn delta_for_request(op: S3Op, body_len: u64) -> (r: UsageDelta)
    ensures
        spec_op_class(op) == OpClass::A ==> r.class_a == OpCounters::spec_one(op) && r.class_b
            == OpCounters::spec_zero(),
        spec_op_class(op) == OpClass::B ==> r.class_b == OpCounters::spec_one(op) && r.class_a
            == OpCounters::spec_zero(),
        r.class_a.total() + r.class_b.total() == 1,
        op_carries_body(op) ==> r.ingress_bytes == body_len && r.added_storage_bytes == body_len,
        !op_carries_body(op) ==> r.ingress_bytes == 0 && r.added_storage_bytes == 0,
        r.egress_bytes == 0,
        r.deleted_storage_bytes == 0,
{
    let mut r = UsageDelta::zero();
    match crate::classify::op_class(op) {
        OpClass::A => {
            r.class_a = r.class_a.bump(op);
        },
        OpClass::B => {
            r.class_b = r.class_b.bump(op);
        },
    }
    match op {
        S3Op::PutObject => {
            r.ingress_bytes = body_len;
            r.added_storage_bytes = body_len;
        },
        S3Op::UploadPart => {
            r.ingress_bytes = body_len;
            r.added_storage_bytes = body_len;
        },
        _ => {},
    }
    r
}

/// The delta recorded for one streamed response chunk of a GetObject:
/// its length is charged to egress and nothing else moves.
pub fn delta_for_egress_chunk(len: u64) -> (r: UsageDelta)
    ensures
        r == (UsageDelta { egress_bytes: len, ..UsageDelta::spec_zero() }),
{
    let mut r = UsageDelta::zero();
    r.egress_bytes = len;
    r
}

/// The delta recorded when a delete is confirmed: the deleted object's size,
/// supplied by the caller from a best-effort stat before the delete.
pub fn delta_for_deleted(size: u64) -> (r: UsageDelta)
    ensures
        r == (UsageDelta { deleted_storage_bytes: size, ..UsageDelta::spec_zero() }),
{
    let mut r = UsageDelta::zero();
    r.deleted_storage_bytes = size;
    r
}

/// One ledger object per UTC day.
#[derive(Clone, Debug)]
pub struct DailyLedger {
    pub date: String,
    pub class_a: OpCounters,
    pub class_b: OpCounters,
    pub ingress_bytes: u64,
    pub egress_bytes: u64,
    pub storage_bytes: u64,
    pub peak_storage_bytes: u64,
    pub deleted_storage_bytes: u64,
    pub rev: u64,
    pub updated_at: String,
}

/// Ledger invariant: the recorded peak dominates the current storage level.
pub open spec fn ledger_wf(l: DailyLedger) -> bool {
    l.peak_storage_bytes >= l.storage_bytes
}

impl DailyLedger {
    /// A ledger seeded from a storage baseline: counters zero, storage and
    /// peak at the baseline, first revision.
    pub fn seed(date: String, baseline_storage: u64, updated_at: String) -> (r: DailyLedger)
        ensures
            r == (DailyLedger {
                date: date,
                class_a: OpCounters::spec_zero(),
                class_b: OpCounters::spec_zero(),
                ingress_bytes: 0,
                egress_bytes: 0,
                storage_bytes: baseline_storage,
                peak_storage_bytes: baseline_storage,
                deleted_storage_bytes: 0,
                rev: 1,
                updated_at: updated_at,
            }),
            ledger_wf(r),
    {
        DailyLedger {
            date,
            class_a: OpCounters::zero(),
            class_b: OpCounters::zero(),
            ingress_bytes: 0,
            egress_bytes: 0,
            storage_bytes: baseline_storage,
            peak_storage_bytes: baseline_storage,
            deleted_storage_bytes: 0,
            rev: 1,
            updated_at,
        }
    }

    /// The no-op ledger returned on the merge fast path.
    pub fn noop(date: String, updated_at: String) -> (r: DailyLedger)
        ensures
            r.rev == 0,
            r.date == date,
            r.class_a == OpCounters::spec_zero(),
            r.class_b == OpCounters::spec_zero(),
            ledger_wf(r),
    {
        DailyLedger {
            date,
            class_a: OpCounters::zero(),
            class_b: OpCounters::zero(),
            ingress_bytes: 0,
            egress_bytes: 0,
            storage_bytes: 0,
            peak_storage_bytes: 0,
            deleted_storage_bytes: 0,
            rev: 0,
            updated_at,
        }
    }
}

/// The merge fold: op counters and byte totals are added key-wise, storage
/// is recomputed from the delta's added and deleted bytes (saturating), the
/// peak is raised to cover the new storage level, and the revision advances
/// by exactly one.
pub open spec fn spec_fold_delta(l: DailyLedger, d: UsageDelta, updated_at: String) -> DailyLedger {
    let new_storage = sat_sub(sat_add(l.storage_bytes, d.added_storage_bytes), d.deleted_storage_bytes);
    DailyLedger {
        date: l.date,
        class_a: l.class_a.spec_plus(d.class_a),
        class_b: l.class_b.spec_plus(d.class_b),
        ingress_bytes: sat_add(l.ingress_bytes, d.ingress_bytes),
        egress_bytes: sat_add(l.egress_bytes, d.egress_bytes),
        storage_bytes: new_storage,
        peak_storage_bytes: if new_storage > l.peak_storage_bytes {
            new_storage
        } else {
            l.peak_storage_bytes
        },
        deleted_storage_bytes: sat_add(l.deleted_storage_bytes, d.deleted_storage_bytes),
        rev: (l.rev + 1) as u64,
        updated_at: updated_at,
    }
}

/// Fold a local delta into a fetched ledger.
pub fn fold_delta(l: &DailyLedger, d: &UsageDelta, updated_at: String) -> (r: DailyLedger)
    requires
        l.rev < u64::MAX,
    ensures
        r == spec_fold_delta(*l, *d, updated_at),
        r.rev == l.rev + 1,
        ledger_wf(r),
        r.peak_storage_bytes >= l.peak_storage_bytes,
{
    let new_storage = l.storage_bytes.saturating_add(d.added_storage_bytes).saturating_sub(
        d.deleted_storage_bytes,
    );
    DailyLedger {
        date: l.date.clone(),
        class_a: l.class_a.plus(&d.class_a),
        class_b: l.class_b.plus(&d.class_b),
        ingress_bytes: l.ingress_bytes.saturating_add(d.ingress_bytes),
        egress_bytes: l.egress_bytes.saturating_add(d.egress_bytes),
        storage_bytes: new_storage,
        peak_storage_bytes: if new_storage > l.peak_storage_bytes {
            new_storage
        } else {
            l.peak_storage_bytes
        },
        deleted_storage_bytes: l.deleted_storage_bytes.saturating_add(d.deleted_storage_bytes),
        rev: l.rev + 1,
        updated_at,
    }
}

/// After a merge fold, the ledger's revision strictly exceeds the revision
/// observed in the fetched ledger.
pub proof fn lemma_merge_rev_strictly_increases(l: DailyLedger, d: UsageDelta, updated_at: String)
    requires
        l.rev < u64::MAX,
    ensures
        spec_fold_delta(l, d, updated_at).rev > l.rev,
{
}

/// A run of merge folds applied in order.
pub open spec fn spec_fold_run(l: DailyLedger, steps: Seq<(UsageDelta, String)>) -> DailyLedger
    decreases steps.len(),
{
    if steps.len() == 0 {
        l
    } else {
        spec_fold_delta(
            spec_fold_run(l, steps.drop_last()),
            steps.last().0,
            steps.last().1,
        )
    }
}

/// The peak never falls across a fold run.
pub proof fn lemma_fold_run_peak_monotone(l: DailyLedger, steps: Seq<(UsageDelta, String)>)
    ensures
        spec_fold_run(l, steps).peak_storage_bytes >= l.peak_storage_bytes,
    decreases steps.len(),
{
    if steps.len() > 0 {
        lemma_fold_run_peak_monotone(l, steps.drop_last());
    }
}

/// The peak of any ledger dominates every storage level the ledger has ever
/// held: after any run of merge folds, the final peak is at least the
/// storage level after every earlier prefix of the run (and the starting
/// level of a well-formed ledger).
pub proof fn lemma_peak_dominates_history(
    l: DailyLedger,
    steps: Seq<(UsageDelta, String)>,
    i: int,
)
    requires
        ledger_wf(l),
        0 <= i <= steps.len(),
    ensures
        spec_fold_run(l, steps).peak_storage_bytes >= spec_fold_run(
            l,
            steps.take(i),
        ).storage_bytes,
    decreases steps.len(),
{
    if steps.len() == 0 {
    } else if i == steps.len() {
        assert(steps.take(i) =~= steps);
    } else {
        lemma_peak_dominates_history(l, steps.drop_last(), i);
        assert(steps.drop_last().take(i) =~= steps.take(i));
        lemma_fold_run_peak_monotone(l, steps.drop_last());
    }
}

} // verus!
