//! The upload and download state machines.

use swiftpan::download::strip_quotes;
use swiftpan::download::DownloadGate;
use swiftpan::download::DownloadPhase;
use swiftpan::download::DownloadTransfer;
use swiftpan::download::NewDownloadParams;
use swiftpan::download::MIN_CHUNK_SIZE;
use swiftpan::errors::ErrorKind;
use swiftpan::table::TransferTable;
use swiftpan::upload::NewUploadParams;
use swiftpan::upload::UploadGate;
use swiftpan::upload::UploadPhase;
use swiftpan::upload::UploadTransfer;
use swiftpan::upload::MIN_PART_SIZE;

fn upload_params(part_size: u64) -> NewUploadParams {
    NewUploadParams {
        key: "obj/u".to_string(),
        source_path: "/tmp/src.bin".to_string(),
        part_size,
        content_type: None,
        content_disposition: None,
    }
}

fn download_params(chunk_size: u64, expected: Option<&str>) -> NewDownloadParams {
    NewDownloadParams {
        key: "obj/x".to_string(),
        dest_path: "/tmp/x.bin".to_string(),
        chunk_size,
        expected_etag: expected.map(|s| s.to_string()),
    }
}

#[test]
fn small_part_size_is_raised_to_the_floor() {
    let t = UploadTransfer::start_upload(upload_params(1), 100);
    assert_eq!(t.part_size, MIN_PART_SIZE);
    assert_eq!(t.part_size, 8 * 1024 * 1024);
    let big = UploadTransfer::start_upload(upload_params(MIN_PART_SIZE + 1), 100);
    assert_eq!(big.part_size, MIN_PART_SIZE + 1);
}

#[test]
fn small_chunk_size_is_raised_to_the_floor() {
    let t = DownloadTransfer::start_download(download_params(1, None));
    assert_eq!(t.chunk, MIN_CHUNK_SIZE);
    assert_eq!(t.chunk, 1024 * 1024);
    let big = DownloadTransfer::start_download(download_params(MIN_CHUNK_SIZE + 7, None));
    assert_eq!(big.chunk, MIN_CHUNK_SIZE + 7);
}

#[test]
fn empty_upload_completes_with_zero_parts() {
    let mut t = UploadTransfer::start_upload(upload_params(MIN_PART_SIZE), 0);
    assert_eq!(t.bytes_total, 0);
    // the first read returns zero bytes: straight to finalizing
    t.on_eof();
    t.on_finalized();
    assert_eq!(t.phase, UploadPhase::Completed);
    assert_eq!(t.bytes_done, 0);
    assert_eq!(t.parts_completed, 0);
}

#[test]
fn upload_progress_sums_to_the_file_length() {
    let total: u64 = 2 * MIN_PART_SIZE + 5;
    let mut t = UploadTransfer::start_upload(upload_params(MIN_PART_SIZE), total);
    let mut emitted: u64 = 0;
    let p1 = t.on_part_read(MIN_PART_SIZE);
    emitted += p1.bytes_transferred;
    assert_eq!(p1.part_number, 1);
    let p2 = t.on_part_read(MIN_PART_SIZE);
    emitted += p2.bytes_transferred;
    assert_eq!(p2.part_number, 2);
    let p3 = t.on_part_read(5);
    emitted += p3.bytes_transferred;
    assert_eq!(p3.part_number, 3);
    t.on_eof();
    t.on_finalized();
    assert_eq!(t.phase, UploadPhase::Completed);
    assert_eq!(emitted, total);
    assert_eq!(t.bytes_done, total);
}

#[test]
fn upload_pause_resume_and_cancel() {
    let mut t = UploadTransfer::start_upload(upload_params(MIN_PART_SIZE), 100 * 1024 * 1024);
    let _first = t.on_part_read(MIN_PART_SIZE);
    let done_at_pause = t.bytes_done;
    t.set_paused(true);
    assert_eq!(t.loop_gate(), UploadGate::Wait);
    // while paused nothing advances
    assert_eq!(t.bytes_done, done_at_pause);
    t.set_paused(false);
    assert_eq!(t.loop_gate(), UploadGate::Proceed);
    let _second = t.on_part_read(MIN_PART_SIZE);
    assert!(t.bytes_done > done_at_pause);

    t.set_cancelled();
    assert_eq!(t.loop_gate(), UploadGate::Abort);
    t.on_cancel_observed(0);
    assert_eq!(t.phase, UploadPhase::Failed);
    assert_eq!(t.last_error.as_ref().unwrap().kind, ErrorKind::Cancelled);
}

#[test]
fn download_ranges_cover_ten_mib_in_three_chunks() {
    let ten_mib: u64 = 10 * 1024 * 1024;
    let four_mib: u64 = 4 * 1024 * 1024;
    let mut t = DownloadTransfer::start_download(download_params(four_mib, Some("abc")));
    t.on_head(Some(ten_mib), Some("abc".to_string()), 0)
        .expect("matching etag starts the stream");
    assert_eq!(t.phase, DownloadPhase::Running);

    let r1 = t.next_range();
    assert_eq!(r1, (0, four_mib - 1));
    let c1 = t.on_chunk(four_mib);
    assert_eq!(c1.range_start, 0);

    let r2 = t.next_range();
    assert_eq!(r2, (four_mib, 2 * four_mib - 1));
    let c2 = t.on_chunk(four_mib);
    assert_eq!(c2.range_start, four_mib);

    let r3 = t.next_range();
    assert_eq!(r3, (2 * four_mib, ten_mib - 1));
    let c3 = t.on_chunk(ten_mib - 2 * four_mib);
    assert_eq!(c3.bytes_transferred, 2 * 1024 * 1024);

    assert_eq!(t.phase, DownloadPhase::Renaming);
    t.on_renamed();
    assert_eq!(t.phase, DownloadPhase::Completed);
    assert_eq!(t.bytes_done, ten_mib);
}

#[test]
fn source_mutation_is_detected_before_any_byte() {
    let mut t = DownloadTransfer::start_download(download_params(MIN_CHUNK_SIZE, Some("old")));
    let r = t.on_head(Some(1024), Some("\"new\"".to_string()), 0);
    let e = r.expect_err("a changed source must fail the transfer");
    assert_eq!(e.kind, ErrorKind::SourceChanged);
    assert_eq!(t.phase, DownloadPhase::Failed);
    assert_eq!(t.bytes_done, 0);
    assert_eq!(t.last_error.as_ref().unwrap().kind, ErrorKind::SourceChanged);
}

#[test]
fn every_range_request_is_pinned_to_the_observed_etag() {
    let mut t = DownloadTransfer::start_download(download_params(MIN_CHUNK_SIZE, None));
    assert_eq!(t.range_pin(), None);
    t.on_head(Some(10 * 1024 * 1024), Some("\"e77\"".to_string()), 0)
        .expect("no pin requested, so no mismatch");
    assert_eq!(t.range_pin().as_deref(), Some("\"e77\""));
    let _ = t.on_chunk(MIN_CHUNK_SIZE);
    assert_eq!(t.range_pin().as_deref(), Some("\"e77\""), "the pin survives every chunk");
}

#[test]
fn etag_quotes_are_stripped_on_both_sides() {
    assert_eq!(strip_quotes("\"abc\""), "abc");
    assert_eq!(strip_quotes("abc"), "abc");
    assert_eq!(strip_quotes("\"\""), "");
    let mut t = DownloadTransfer::start_download(download_params(MIN_CHUNK_SIZE, Some("\"e1\"")));
    t.on_head(Some(10), Some("e1".to_string()), 0)
        .expect("quoted and bare forms of the same etag must match");
}

#[test]
fn unknown_length_stops_on_first_empty_response() {
    let mut t = DownloadTransfer::start_download(download_params(MIN_CHUNK_SIZE, None));
    t.on_head(None, None, 0).expect("no pin, no mismatch");
    let r = t.next_range();
    assert_eq!(r, (0, MIN_CHUNK_SIZE - 1));
    let _ = t.on_chunk(MIN_CHUNK_SIZE);
    assert_eq!(t.phase, DownloadPhase::Running);
    let _ = t.on_chunk(0);
    assert_eq!(t.phase, DownloadPhase::Renaming);
}

#[test]
fn download_cancel_cleans_up() {
    let mut t = DownloadTransfer::start_download(download_params(MIN_CHUNK_SIZE, None));
    t.on_head(Some(10 * 1024 * 1024), None, 0).unwrap();
    t.set_cancelled();
    assert_eq!(t.loop_gate(), DownloadGate::Abort);
    t.on_cancel_observed(0);
    assert_eq!(t.phase, DownloadPhase::Failed);
    assert_eq!(t.last_error.as_ref().unwrap().kind, ErrorKind::Cancelled);
}

#[test]
fn transfer_table_hands_out_unique_ids() {
    let mut table: TransferTable<u32> = TransferTable::new();
    let a = table.insert(10);
    let b = table.insert(20);
    assert_ne!(a, b);
    let ia = table.find(a).unwrap();
    assert_eq!(table.entries[ia].1, 10);
    table.set_at(ia, 11);
    assert_eq!(table.entries[table.find(a).unwrap()].1, 11);
    assert!(table.find(999).is_none());
}

#[test]
fn status_views_report_the_record() {
    let t = UploadTransfer::start_upload(upload_params(MIN_PART_SIZE), 42);
    let s = t.status(7);
    assert_eq!(s.transfer_id, 7);
    assert_eq!(s.key, "obj/u");
    assert_eq!(s.bytes_total, 42);
    assert_eq!(s.bytes_done, 0);

    let d = DownloadTransfer::start_download(download_params(MIN_CHUNK_SIZE, Some("e")));
    let ds = d.status(9);
    assert_eq!(ds.transfer_id, 9);
    assert_eq!(ds.expected_etag.as_deref(), Some("e"));
    assert!(ds.observed_etag.is_none());
}
