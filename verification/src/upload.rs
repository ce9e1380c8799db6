//! The upload engine: a resumable multipart streaming upload as a state
//! machine over plain values. The surrounding task opens the source, asks
//! the machine what to do at every loop boundary, performs the read or the
//! store write it was told to, and reports the outcome back.

use vstd::prelude::*;

verus! {

use crate::chunking::full_chunk_sizes;
use crate::chunking::sum64;
use crate::errors::ErrorKind;
use crate::errors::SpError;

/// The lower bound every part size is raised to.
pub const MIN_PART_SIZE: u64 = 0x800000;

/// Parameters of a new upload.
#[derive(Clone, Debug)]
pub struct NewUploadParams {
    pub key: String,
    pub source_path: String,
    pub part_size: u64,
    pub content_type: Option<String>,
    pub content_disposition: Option<String>,
}

/// Progress of one uploaded part.
#[derive(Clone, Copy, Debug, PartialEq, Eq, Structural)]
pub struct UploadPartProgress {
    pub part_number: u32,
    pub bytes_transferred: u64,
}

/// What `upload_status` reports.
#[derive(Clone, Debug)]
pub struct UploadStatus {
    pub transfer_id: u64,
    pub key: String,
    pub bytes_total: u64,
    pub bytes_done: u64,
    pub parts_completed: u32,
    pub rate_bps: u64,
    pub eta_ms: Option<u64>,
    pub last_error: Option<SpError>,
}

/// Where a transfer stands.
#[derive(Clone, Copy, Debug, PartialEq, Eq, Structural)]
pub enum UploadPhase {
    Running,
    Finalizing,
    Completed,
    Failed,
}

/// What the engine loop must do next at a loop boundary.
#[derive(Clone, Copy, Debug, PartialEq, Eq, Structural)]
pub enum UploadGate {
    /// The transfer was cancelled: abort the writer, delete the partial
    /// object, and stop.
    Abort,
    /// The transfer is paused: sleep briefly and check again.
    Wait,
    /// Read and write the next part.
    Proceed,
}

/// One upload transfer.
#[derive(Clone, Debug)]
pub struct UploadTransfer {
    pub key: String,
    pub source_path: String,
    pub part_size: u64,
    pub bytes_total: u64,
    pub bytes_done: u64,
    pub parts_completed: u32,
    pub paused: bool,
    pub cancelled: bool,
    pub phase: UploadPhase,
    pub last_error: Option<SpError>,
}

/// Transfer invariant: the part size floor holds, progress never exceeds
/// the total, and a completed transfer has moved every byte.
pub open spec fn upload_wf(t: UploadTransfer) -> bool {
    &&& t.part_size >= MIN_PART_SIZE
    &&& t.bytes_done <= t.bytes_total
    &&& t.phase == UploadPhase::Completed ==> t.bytes_done == t.bytes_total
}

impl UploadTransfer {
    /// Bytes not yet handed to the store writer.
    pub open spec fn spec_remaining(self) -> int {
        self.bytes_total - self.bytes_done
    }

    /// Start a transfer: a part size below the floor is silently raised to
    /// it, and counters start at zero.
    pub fn start_upload(params: NewUploadParams, bytes_total: u64) -> (t: UploadTransfer)
        ensures
            upload_wf(t),
            t.part_size == if params.part_size >= MIN_PART_SIZE {
                params.part_size
            } else {
                MIN_PART_SIZE
            },
            t.key == params.key,
            t.source_path == params.source_path,
            t.bytes_total == bytes_total,
            t.bytes_done == 0,
            t.parts_completed == 0,
            !t.paused,
            !t.cancelled,
            t.phase == UploadPhase::Running,
            t.last_error is None,
    {
        let part_size = if params.part_size >= MIN_PART_SIZE {
            params.part_size
        } else {
            MIN_PART_SIZE
        };
        UploadTransfer {
            key: params.key,
            source_path: params.source_path,
            part_size,
            bytes_total,
            bytes_done: 0,
            parts_completed: 0,
            paused: false,
            cancelled: false,
            phase: UploadPhase::Running,
            last_error: None,
        }
    }

    /// The loop-boundary decision: cancellation wins, then pause, then work.
    pub fn loop_gate(&self) -> (r: UploadGate)
        ensures
            r == (if self.cancelled {
                UploadGate::Abort
            } else if self.paused {
                UploadGate::Wait
            } else {
                UploadGate::Proceed
            }),
    {
        if self.cancelled {
            UploadGate::Abort
        } else if self.paused {
            UploadGate::Wait
        } else {
            UploadGate::Proceed
        }
    }

    /// A read handed back `n` bytes that were written as one part: progress
    /// advances by exactly `n` and the next 1-based part number is taken.
    pub fn on_part_read(&mut self, n: u64) -> (r: UploadPartProgress)
        requires
            upload_wf(*old(self)),
            old(self).phase == UploadPhase::Running,
            0 < n <= old(self).spec_remaining(),
            old(self).parts_completed < u32::MAX,
        ensures
            upload_wf(*final(self)),
            final(self).bytes_done == old(self).bytes_done + n,
            final(self).parts_completed == old(self).parts_completed + 1,
            final(self).phase == UploadPhase::Running,
            final(self).key == old(self).key,
            final(self).source_path == old(self).source_path,
            final(self).bytes_total == old(self).bytes_total,
            final(self).part_size == old(self).part_size,
            final(self).paused == old(self).paused,
            final(self).cancelled == old(self).cancelled,
            final(self).last_error == old(self).last_error,
            r.part_number == final(self).parts_completed,
            r.bytes_transferred == n,
    {
        self.bytes_done = self.bytes_done + n;
        self.parts_completed = self.parts_completed + 1;
        UploadPartProgress { part_number: self.parts_completed, bytes_transferred: n }
    }

    /// A zero-byte read: the source is exhausted, so the writer is closed.
    /// With a stable source this happens exactly when every byte was read.
    pub fn on_eof(&mut self)
        requires
            upload_wf(*old(self)),
            old(self).phase == UploadPhase::Running,
            old(self).bytes_done == old(self).bytes_total,
        ensures
            upload_wf(*final(self)),
            *final(self) == (UploadTransfer { phase: UploadPhase::Finalizing, ..*old(self) }),
    {
        self.phase = UploadPhase::Finalizing;
    }

    /// The writer closed successfully: the transfer is complete, with all
    /// bytes done (zero parts and zero bytes for an empty source).
    pub fn on_finalized(&mut self)
        requires
            upload_wf(*old(self)),
            old(self).phase == UploadPhase::Finalizing,
            old(self).bytes_done == old(self).bytes_total,
        ensures
            upload_wf(*final(self)),
            *final(self) == (UploadTransfer { phase: UploadPhase::Completed, ..*old(self) }),
            final(self).bytes_done == final(self).bytes_total,
    {
        self.phase = UploadPhase::Completed;
    }

    /// The loop observed the cancel flag: the transfer fails as cancelled
    /// and the engine must delete the partial object.
    pub fn on_cancel_observed(&mut self, now: i64)
        requires
            upload_wf(*old(self)),
            old(self).phase == UploadPhase::Running || old(self).phase == UploadPhase::Finalizing,
            old(self).cancelled,
        ensures
            upload_wf(*final(self)),
            final(self).phase == UploadPhase::Failed,
            final(self).last_error matches Some(e) && e.kind == ErrorKind::Cancelled,
            final(self).bytes_done == old(self).bytes_done,
            final(self).cancelled,
    {
        self.phase = UploadPhase::Failed;
        self.last_error = Some(
            SpError::new(ErrorKind::Cancelled, String::from_str("cancelled"), now),
        );
    }

    /// A read or write failed: record the error and stop.
    pub fn on_error(&mut self, e: SpError)
        requires
            upload_wf(*old(self)),
        ensures
            upload_wf(*final(self)),
            final(self).phase == UploadPhase::Failed,
            final(self).last_error == Some(e),
            final(self).bytes_done == old(self).bytes_done,
    {
        self.phase = UploadPhase::Failed;
        self.last_error = Some(e);
    }

    /// Request a pause or a resume.
    pub fn set_paused(&mut self, p: bool)
        requires
            upload_wf(*old(self)),
        ensures
            upload_wf(*final(self)),
            *final(self) == (UploadTransfer { paused: p, ..*old(self) }),
    {
        self.paused = p;
    }

    /// Request cancellation; the loop observes it at its next boundary.
    pub fn set_cancelled(&mut self)
        requires
            upload_wf(*old(self)),
        ensures
            upload_wf(*final(self)),
            *final(self) == (UploadTransfer { cancelled: true, ..*old(self) }),
    {
        self.cancelled = true;
    }

    /// The status view of this transfer.
    pub fn status(&self, transfer_id: u64) -> (r: UploadStatus)
        ensures
            r.transfer_id == transfer_id,
            r.key == self.key,
            r.bytes_total == self.bytes_total,
            r.bytes_done == self.bytes_done,
            r.parts_completed == self.parts_completed,
            r.last_error == self.last_error,
            r.rate_bps == 0,
            r.eta_ms is None,
    {
        UploadStatus {
            transfer_id,
            key: self.key.clone(),
            bytes_total: self.bytes_total,
            bytes_done: self.bytes_done,
            parts_completed: self.parts_completed,
            rate_bps: 0,
            eta_ms: None,
            last_error: match &self.last_error {
                Some(e) => Some(e.duplicate()),
                None => None,
            },
        }
    }
}

/// The sum of the emitted per-part byte counts over a full upload of a
/// stable source equals the source length, and an empty source uploads
/// with zero parts.
pub proof fn lemma_upload_progress_total(total: u64, part: u64)
    requires
        part > 0,
    ensures
        sum64(full_chunk_sizes(total, part)) == total,
        total == 0 <==> full_chunk_sizes(total, part).len() == 0,
{
    crate::chunking::lemma_full_chunks_total(total, part);
}

} // verus!
