//! The download engine: a ranged, resumable download with ETag-pinned
//! integrity, as a state machine over plain values. The surrounding task
//! performs the HEAD, the range GETs and the file writes it is told to,
//! and reports each outcome back.

use vstd::prelude::*;

verus! {

use crate::chunking::full_chunk_sizes;
use crate::chunking::sum64;
use crate::errors::ErrorKind;
use crate::errors::SpError;
use crate::strutil::drop_leading;
use crate::strutil::drop_trailing;
use crate::strutil::lemma_drop_leading_unique;
use crate::strutil::lemma_drop_trailing_unique;
use vstd::string::StrSliceExecFns;

/// The lower bound every chunk size is raised to.
pub const MIN_CHUNK_SIZE: u64 = 0x100000;

/// Parameters of a new download.
#[derive(Clone, Debug)]
pub struct NewDownloadParams {
    pub key: String,
    pub dest_path: String,
    pub chunk_size: u64,
    pub expected_etag: Option<String>,
}

/// Progress of one downloaded chunk.
#[derive(Clone, Copy, Debug, PartialEq, Eq, Structural)]
pub struct DownloadChunkProgress {
    pub range_start: u64,
    pub bytes_transferred: u64,
}

/// What `download_status` reports.
#[derive(Clone, Debug)]
pub struct DownloadStatus {
    pub transfer_id: u64,
    pub key: String,
    pub bytes_total: Option<u64>,
    pub bytes_done: u64,
    pub rate_bps: u64,
    pub expected_etag: Option<String>,
    pub observed_etag: Option<String>,
    pub last_error: Option<SpError>,
}

/// Where a transfer stands.
#[derive(Clone, Copy, Debug, PartialEq, Eq, Structural)]
pub enum DownloadPhase {
    /// Waiting for the HEAD of the object.
    Preflight,
    /// Streaming ranges into the `.part` file.
    Running,
    /// All bytes streamed; the `.part` file awaits its atomic rename.
    Renaming,
    Completed,
    Failed,
}

/// What the engine loop must do next at a loop boundary.
#[derive(Clone, Copy, Debug, PartialEq, Eq, Structural)]
pub enum DownloadGate {
    /// The transfer was cancelled: delete the `.part` file and stop.
    Abort,
    /// The transfer is paused: sleep briefly and check again.
    Wait,
    /// Issue the next range request.
    Proceed,
}

/// An ETag with any surrounding quotes removed; comparisons must use this
/// form on both sides.
pub open spec fn spec_strip_quotes(s: Seq<char>) -> Seq<char> {
    drop_trailing(drop_leading(s, '"'), '"')
}

/// Strip surrounding quotes off an ETag.
pub fn strip_quotes(s: &str) -> (r: String)
    ensures
        r@ == spec_strip_quotes(s@),
{
    let n: usize = s.unicode_len();
    let mut a: usize = 0;
    while a < n && s.get_char(a) == '"'
        invariant
            n == s@.len(),
            a <= n,
            forall|j: int| 0 <= j < a ==> s@[j] == '"',
        decreases n - a,
    {
        a += 1;
    }
    let mut b: usize = n;
    while b > a && s.get_char(b - 1) == '"'
        invariant
            n == s@.len(),
            a <= b <= n,
            forall|j: int| b <= j < n ==> s@[j] == '"',
        decreases b,
    {
        b -= 1;
    }
    let mid = s.substring_char(a, b);
    proof {
        lemma_drop_leading_unique(s@, '"', a as int);
        let t = s@.skip(a as int);
        assert forall|j: int| (b - a) <= j < t.len() implies t[j] == '"' by {
            assert(t[j] == s@[a + j]);
        }
        if b > a {
            assert(t[b - a - 1] == s@[b - 1]);
        }
        lemma_drop_trailing_unique(t, '"', b - a);
        assert(mid@ =~= t.take(b - a));
    }
    mid.to_owned()
}

/// Whether a supplied expectation disagrees with the observed ETag, after
/// both are normalized by stripping quotes.
pub open spec fn spec_etag_mismatch(expected: Option<Seq<char>>, observed: Option<Seq<char>>,
) -> bool {
    match (expected, observed) {
        (Some(e), Some(o)) => spec_strip_quotes(e) != spec_strip_quotes(o),
        _ => false,
    }
}

/// The character view of an optional string.
pub open spec fn opt_view(o: Option<String>) -> Option<Seq<char>> {
    match o {
        Some(s) => Some(s@),
        None => None,
    }
}

/// One download transfer.
#[derive(Clone, Debug)]
pub struct DownloadTransfer {
    pub key: String,
    pub dest_path: String,
    pub chunk: u64,
    pub expected_etag: Option<String>,
    pub observed_etag: Option<String>,
    pub bytes_total: Option<u64>,
    pub bytes_done: u64,
    pub paused: bool,
    pub cancelled: bool,
    pub phase: DownloadPhase,
    pub last_error: Option<SpError>,
}

/// Transfer invariant: the chunk floor holds, nothing is written before
/// the preflight, a completed transfer of known length has every byte, and
/// a pin failure wrote nothing.
pub open spec fn download_wf(t: DownloadTransfer) -> bool {
    &&& t.chunk >= MIN_CHUNK_SIZE
    &&& t.phase == DownloadPhase::Preflight ==> t.bytes_done == 0
    &&& match t.bytes_total {
        Some(total) => t.bytes_done <= total && ((t.phase == DownloadPhase::Renaming || t.phase
            == DownloadPhase::Completed) ==> t.bytes_done == total),
        None => true,
    }
}

impl DownloadTransfer {
    /// Start a transfer: a chunk size below the floor is silently raised
    /// to it, and nothing is known of the object yet.
    pub fn start_download(params: NewDownloadParams) -> (t: DownloadTransfer)
        ensures
            download_wf(t),
            t.chunk == if params.chunk_size >= MIN_CHUNK_SIZE {
                params.chunk_size
            } else {
                MIN_CHUNK_SIZE
            },
            t.key == params.key,
            t.dest_path == params.dest_path,
            t.expected_etag == params.expected_etag,
            t.observed_etag is None,
            t.bytes_total is None,
            t.bytes_done == 0,
            !t.paused,
            !t.cancelled,
            t.phase == DownloadPhase::Preflight,
            t.last_error is None,
    {
        let chunk = if params.chunk_size >= MIN_CHUNK_SIZE {
            params.chunk_size
        } else {
            MIN_CHUNK_SIZE
        };
        DownloadTransfer {
            key: params.key,
            dest_path: params.dest_path,
            chunk,
            expected_etag: params.expected_etag,
            observed_etag: None,
            bytes_total: None,
            bytes_done: 0,
            paused: false,
            cancelled: false,
            phase: DownloadPhase::Preflight,
            last_error: None,
        }
    }

    /// The preflight HEAD came back. When the supplied expectation and the
    /// observed ETag disagree (after stripping quotes on both sides), the
    /// transfer fails as `SourceChanged` before any byte is written;
    /// otherwise streaming starts with the ETag pinned.
    pub fn on_head(&mut self, total: Option<u64>, etag: Option<String>, now: i64) -> (r: Result<
        (),
        SpError,
    >)
        requires
            download_wf(*old(self)),
            old(self).phase == DownloadPhase::Preflight,
        ensures
            download_wf(*final(self)),
            final(self).bytes_total == total,
            final(self).observed_etag == etag,
            final(self).bytes_done == 0,
            final(self).key == old(self).key,
            final(self).dest_path == old(self).dest_path,
            final(self).chunk == old(self).chunk,
            final(self).expected_etag == old(self).expected_etag,
            final(self).paused == old(self).paused,
            final(self).cancelled == old(self).cancelled,
            spec_etag_mismatch(opt_view(old(self).expected_etag), opt_view(etag)) ==> {
                &&& r matches Err(e) && e.kind == ErrorKind::SourceChanged
                &&& final(self).phase == DownloadPhase::Failed
                &&& final(self).last_error matches Some(le) && le.kind == ErrorKind::SourceChanged
            },
            !spec_etag_mismatch(opt_view(old(self).expected_etag), opt_view(etag)) ==> r is Ok
                && final(self).phase == DownloadPhase::Running && final(self).last_error == old(
                self,
            ).last_error,
    {
        let mismatch: bool = match (&self.expected_etag, &etag) {
            (Some(e), Some(o)) => {
                let en = strip_quotes(e.as_str());
                let on = strip_quotes(o.as_str());
                !crate::strutil::str_eq(en.as_str(), on.as_str())
            },
            _ => false,
        };
        self.bytes_total = total;
        self.observed_etag = etag;
        if mismatch {
            self.phase = DownloadPhase::Failed;
            let e = SpError::new(ErrorKind::SourceChanged, String::from_str("ETag mismatch"), now);
            self.last_error = Some(e.duplicate());
            Err(e)
        } else {
            self.phase = DownloadPhase::Running;
            Ok(())
        }
    }

    /// The loop-boundary decision: cancellation wins, then pause, then work.
    pub fn loop_gate(&self) -> (r: DownloadGate)
        ensures
            r == (if self.cancelled {
                DownloadGate::Abort
            } else if self.paused {
                DownloadGate::Wait
            } else {
                DownloadGate::Proceed
            }),
    {
        if self.cancelled {
            DownloadGate::Abort
        } else if self.paused {
            DownloadGate::Wait
        } else {
            DownloadGate::Proceed
        }
    }

    /// The next range to request, inclusive on both ends: from the current
    /// offset, one chunk or up to the known end, whichever comes first
    /// (open-ended chunks when the length is unknown).
    pub fn next_range(&self) -> (r: (u64, u64))
        requires
            download_wf(*self),
            self.phase == DownloadPhase::Running,
            match self.bytes_total {
                Some(total) => self.bytes_done < total,
                None => true,
            },
        ensures
            r.0 == self.bytes_done,
            r.1 as int == match self.bytes_total {
                Some(total) => if self.bytes_done + self.chunk - 1 <= total - 1 {
                    self.bytes_done + self.chunk - 1
                } else {
                    total - 1
                },
                None => if self.bytes_done + self.chunk - 1 <= u64::MAX {
                    self.bytes_done + self.chunk - 1
                } else {
                    u64::MAX as int
                },
            },
            r.0 <= r.1,
    {
        let start = self.bytes_done;
        let end = match self.bytes_total {
            Some(total) => {
                let cap = total - 1;
                let want = start.saturating_add(self.chunk - 1);
                if want <= cap {
                    want
                } else {
                    cap
                }
            },
            None => start.saturating_add(self.chunk - 1),
        };
        (start, end)
    }

    /// The ETag every range request must be pinned to with `If-Match`,
    /// once the preflight observed one: a mid-transfer mutation then
    /// surfaces as a server-side precondition failure, never silent
    /// corruption.
    pub fn range_pin(&self) -> (r: Option<String>)
        ensures
            opt_view(r) == opt_view(self.observed_etag),
    {
        match &self.observed_etag {
            Some(e) => Some(e.clone()),
            None => None,
        }
    }

    /// One range response was streamed to the `.part` file: the offset
    /// advances by exactly the bytes copied. A known-length transfer
    /// finishes when the offset reaches the length; an unknown-length
    /// transfer finishes on its first zero-byte response.
    pub fn on_chunk(&mut self, copied: u64) -> (r: DownloadChunkProgress)
        requires
            download_wf(*old(self)),
            old(self).phase == DownloadPhase::Running,
            !old(self).paused,
            !old(self).cancelled,
            match old(self).bytes_total {
                Some(total) => old(self).bytes_done + copied <= total,
                None => old(self).bytes_done + copied <= u64::MAX,
            },
        ensures
            download_wf(*final(self)),
            final(self).bytes_done == old(self).bytes_done + copied,
            final(self).phase == match old(self).bytes_total {
                Some(total) => if old(self).bytes_done + copied == total {
                    DownloadPhase::Renaming
                } else {
                    DownloadPhase::Running
                },
                None => if copied == 0 {
                    DownloadPhase::Renaming
                } else {
                    DownloadPhase::Running
                },
            },
            final(self).bytes_total == old(self).bytes_total,
            final(self).key == old(self).key,
            final(self).dest_path == old(self).dest_path,
            final(self).chunk == old(self).chunk,
            final(self).expected_etag == old(self).expected_etag,
            final(self).observed_etag == old(self).observed_etag,
            final(self).paused == old(self).paused,
            final(self).cancelled == old(self).cancelled,
            final(self).last_error == old(self).last_error,
            r.range_start == old(self).bytes_done,
            r.bytes_transferred == copied,
    {
        let start = self.bytes_done;
        self.bytes_done = self.bytes_done + copied;
        match self.bytes_total {
            Some(total) => {
                if self.bytes_done == total {
                    self.phase = DownloadPhase::Renaming;
                }
            },
            None => {
                if copied == 0 {
                    self.phase = DownloadPhase::Renaming;
                }
            },
        }
        DownloadChunkProgress { range_start: start, bytes_transferred: copied }
    }

    /// The `.part` file was renamed onto the destination: complete. For a
    /// known length, every byte is in place.
    pub fn on_renamed(&mut self)
        requires
            download_wf(*old(self)),
            old(self).phase == DownloadPhase::Renaming,
        ensures
            download_wf(*final(self)),
            *final(self) == (DownloadTransfer { phase: DownloadPhase::Completed, ..*old(self) }),
            final(self).bytes_total matches Some(total) ==> final(self).bytes_done == total,
    {
        self.phase = DownloadPhase::Completed;
    }

    /// The loop observed the cancel flag: the transfer fails as cancelled
    /// and the engine must delete the `.part` file.
    pub fn on_cancel_observed(&mut self, now: i64)
        requires
            download_wf(*old(self)),
            old(self).cancelled,
        ensures
            download_wf(*final(self)),
            final(self).phase == DownloadPhase::Failed,
            final(self).last_error matches Some(e) && e.kind == ErrorKind::Cancelled,
            final(self).cancelled,
    {
        self.phase = DownloadPhase::Failed;
        self.last_error = Some(
            SpError::new(ErrorKind::Cancelled, String::from_str("cancelled"), now),
        );
    }

    /// A request or write failed: record the error and stop.
    pub fn on_error(&mut self, e: SpError)
        requires
            download_wf(*old(self)),
        ensures
            download_wf(*final(self)),
            final(self).phase == DownloadPhase::Failed,
            final(self).last_error == Some(e),
    {
        self.phase = DownloadPhase::Failed;
        self.last_error = Some(e);
    }

    /// Request a pause or a resume.
    pub fn set_paused(&mut self, p: bool)
        requires
            download_wf(*old(self)),
        ensures
            download_wf(*final(self)),
            *final(self) == (DownloadTransfer { paused: p, ..*old(self) }),
    {
        self.paused = p;
    }

    /// Request cancellation; the loop observes it at its next boundary.
    pub fn set_cancelled(&mut self)
        requires
            download_wf(*old(self)),
        ensures
            download_wf(*final(self)),
            *final(self) == (DownloadTransfer { cancelled: true, ..*old(self) }),
    {
        self.cancelled = true;
    }

    /// The status view of this transfer.
    pub fn status(&self, transfer_id: u64) -> (r: DownloadStatus)
        ensures
            r.transfer_id == transfer_id,
            r.key == self.key,
            r.bytes_total == self.bytes_total,
            r.bytes_done == self.bytes_done,
            r.expected_etag == self.expected_etag,
            r.observed_etag == self.observed_etag,
            r.last_error == self.last_error,
            r.rate_bps == 0,
    {
        DownloadStatus {
            transfer_id,
            key: self.key.clone(),
            bytes_total: self.bytes_total,
            bytes_done: self.bytes_done,
            rate_bps: 0,
            expected_etag: match &self.expected_etag {
                Some(e) => Some(e.clone()),
                None => None,
            },
            observed_etag: match &self.observed_etag {
                Some(e) => Some(e.clone()),
                None => None,
            },
            last_error: match &self.last_error {
                Some(e) => Some(e.duplicate()),
                None => None,
            },
        }
    }
}

/// Over a full download of a known length served in full chunks, the
/// streamed chunk lengths sum to exactly the object length, in exactly
/// one-chunk-per-range requests, the count being the length divided by the
/// chunk size rounded up.
pub proof fn lemma_download_chunks_cover(total: u64, chunk: u64)
    requires
        chunk > 0,
    ensures
        sum64(full_chunk_sizes(total, chunk)) == total,
        full_chunk_sizes(total, chunk).len() == (total + chunk - 1) / (chunk as int),
{
    crate::chunking::lemma_full_chunks_total(total, chunk);
}

} // verus!
