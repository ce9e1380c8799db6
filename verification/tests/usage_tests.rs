//! Usage accounting, ledger fold, cost report and codec behavior.

use swiftpan::classify::S3Op;
use swiftpan::cost::month_cost;
use swiftpan::ledgerjson::decode_ledger;
use swiftpan::ledgerjson::encode_ledger;
use swiftpan::merge::baseline_probe_dates;
use swiftpan::merge::compute_bucket_total_storage;
use swiftpan::merge::ledger_key_for;
use swiftpan::merge::merge_fast_path;
use swiftpan::merge::MergeFlow;
use swiftpan::merge::MergePhase;
use swiftpan::usage::delta_for_deleted;
use swiftpan::usage::delta_for_egress_chunk;
use swiftpan::usage::delta_for_request;
use swiftpan::usage::fold_delta;
use swiftpan::usage::DailyLedger;
use swiftpan::usage::UsageDelta;

fn empty_ledger(date: &str, baseline: u64) -> DailyLedger {
    DailyLedger::seed(date.to_string(), baseline, "2025-03-14T00:00:00Z".to_string())
}

#[test]
fn small_put_and_cost_accounting() {
    // an empty bucket: the seeded ledger has a zero baseline
    let seeded = empty_ledger("2025-03-14", 0);
    assert_eq!(seeded.storage_bytes, 0);
    assert_eq!(seeded.rev, 1);

    // a 2-byte PUT merged first: storage and peak reach 2
    let put = delta_for_request(S3Op::PutObject, 2);
    let after_put = fold_delta(&seeded, &put, "2025-03-14T01:00:00Z".to_string());
    assert_eq!(after_put.storage_bytes, 2);
    assert_eq!(after_put.peak_storage_bytes, 2);

    // the DELETE (with its best-effort stat of 2 bytes) merged after
    let del = delta_for_request(S3Op::DeleteObject, 0).plus(&delta_for_deleted(2));
    let merged = fold_delta(&after_put, &del, "2025-03-14T02:00:00Z".to_string());
    assert_eq!(merged.class_a.put_object, 1);
    assert_eq!(merged.class_a.delete_object, 1);
    assert_eq!(merged.ingress_bytes, 2);
    assert_eq!(merged.storage_bytes, 0);
    assert!(merged.peak_storage_bytes >= 2);
    assert_eq!(merged.deleted_storage_bytes, 2);
    assert_eq!(merged.rev, 3);
}

#[test]
fn request_deltas_count_exactly_one_op() {
    let d = delta_for_request(S3Op::GetObject, 0);
    assert_eq!(d.class_b.get_object, 1);
    assert_eq!(d.class_a.put_object, 0);
    assert_eq!(d.ingress_bytes, 0);

    let u = delta_for_request(S3Op::UploadPart, 1024);
    assert_eq!(u.class_a.upload_part, 1);
    assert_eq!(u.ingress_bytes, 1024);
    assert_eq!(u.added_storage_bytes, 1024);

    let c = delta_for_egress_chunk(777);
    assert_eq!(c.egress_bytes, 777);
    assert_eq!(c.class_b.get_object, 0);
}

#[test]
fn peak_never_falls_and_tracks_storage() {
    let seeded = empty_ledger("2025-03-01", 100);
    assert_eq!(seeded.peak_storage_bytes, 100);

    let mut grow = UsageDelta::zero();
    grow.added_storage_bytes = 50;
    let l1 = fold_delta(&seeded, &grow, "t1".to_string());
    assert_eq!(l1.storage_bytes, 150);
    assert_eq!(l1.peak_storage_bytes, 150);

    let mut shrink = UsageDelta::zero();
    shrink.deleted_storage_bytes = 120;
    let l2 = fold_delta(&l1, &shrink, "t2".to_string());
    assert_eq!(l2.storage_bytes, 30);
    assert_eq!(l2.peak_storage_bytes, 150);
    assert_eq!(l2.rev, 3);
}

#[test]
fn concurrent_merge_folds_sum_and_rev_advances_per_write() {
    // two disjoint local deltas merged one after the other (the write lock
    // and If-Match serialize them): counters sum, rev advances by exactly
    // the number of successful writes
    let seeded = empty_ledger("2025-03-14", 0);
    let a = delta_for_request(S3Op::PutObject, 10);
    let b = delta_for_request(S3Op::GetObject, 0);
    let l1 = fold_delta(&seeded, &a, "t1".to_string());
    let l2 = fold_delta(&l1, &b, "t2".to_string());
    assert_eq!(l2.class_a.put_object, 1);
    assert_eq!(l2.class_b.get_object, 1);
    assert_eq!(l2.ingress_bytes, 10);
    assert_eq!(l2.rev, seeded.rev + 2);
}

#[test]
fn ledger_json_round_trip() {
    let mut l = empty_ledger("2025-03-14", 7);
    l.class_a.put_object = 3;
    l.class_b.head_object = 9;
    l.ingress_bytes = 123456789;
    l.egress_bytes = 42;
    l.peak_storage_bytes = 99;
    l.deleted_storage_bytes = 5;
    l.rev = 17;
    let bytes = encode_ledger(&l);
    let text = String::from_utf8(bytes.clone()).unwrap();
    assert!(text.starts_with("{\"date\":\"2025-03-14\""));
    let back = decode_ledger(&bytes).expect("canonical bytes must decode");
    assert_eq!(back.date, l.date);
    assert_eq!(back.class_a, l.class_a);
    assert_eq!(back.class_b, l.class_b);
    assert_eq!(back.ingress_bytes, l.ingress_bytes);
    assert_eq!(back.egress_bytes, l.egress_bytes);
    assert_eq!(back.storage_bytes, l.storage_bytes);
    assert_eq!(back.peak_storage_bytes, l.peak_storage_bytes);
    assert_eq!(back.deleted_storage_bytes, l.deleted_storage_bytes);
    assert_eq!(back.rev, l.rev);
    assert_eq!(back.updated_at, l.updated_at);
}

#[test]
fn ledger_json_rejects_noise() {
    assert!(decode_ledger(&b"{}".to_vec()).is_none());
    assert!(decode_ledger(&Vec::new()).is_none());
    let mut l = empty_ledger("2025-03-14", 0);
    l.rev = 1;
    let mut bytes = encode_ledger(&l);
    bytes.push(b' ');
    assert!(decode_ledger(&bytes).is_none(), "trailing bytes must be refused");
}

#[test]
fn month_cost_formulas() {
    // 60 GiB-days of peak over the month: 2 GB-months, inside the free tier
    let mut days = Vec::new();
    let mut d1 = empty_ledger("2025-03-01", 0);
    d1.peak_storage_bytes = 60 * (1u64 << 30);
    d1.class_a.put_object = 1_500_000;
    d1.class_b.get_object = 10_000_001;
    days.push(d1);
    let r = month_cost("2025-03".to_string(), &days);
    assert_eq!(r.avg_gb_month, 2);
    assert_eq!(r.billable_gb_month, 0);
    assert_eq!(r.total_class_a_ops, 1_500_000);
    // 500k over the free million: one started million at 450 cents
    assert_eq!(r.billable_millions_a, 1);
    assert_eq!(r.class_a_cost_cents, 450);
    // one op over the free ten million: one started million at 36 cents
    assert_eq!(r.billable_millions_b, 1);
    assert_eq!(r.class_b_cost_cents, 36);
    assert_eq!(r.total_cost_cents, 486);
}

#[test]
fn month_cost_empty_month_is_free() {
    let days: Vec<DailyLedger> = Vec::new();
    let r = month_cost("2025-02".to_string(), &days);
    assert_eq!(r.sum_peak_bytes, 0);
    assert_eq!(r.avg_gb_month, 0);
    assert_eq!(r.total_cost_cents, 0);
}

#[test]
fn merge_flow_fetches_folds_and_retries_on_conflict() {
    assert!(merge_fast_path("2025-03-14", "2025-03-14", "2025-03-14"));
    assert!(!merge_fast_path("2025-03-13", "2025-03-14", "2025-03-13"));

    assert_eq!(
        ledger_key_for("2025-03-14"),
        "analytics/daily/2025-03-14.json"
    );

    let local = delta_for_request(S3Op::PutObject, 5);
    let mut flow = MergeFlow::start_merge("2025-03-14".to_string(), local);
    assert_eq!(flow.phase, MergePhase::Fetch);

    let fetched = empty_ledger("2025-03-14", 0);
    let folded = flow.on_fetched(&fetched, "t1".to_string());
    assert_eq!(flow.phase, MergePhase::Write);
    assert!(folded.rev > fetched.rev);

    // a precondition failure goes back to a fresh fetch, never a blind write
    flow.on_write_conflict(0).expect("first conflict retries");
    assert_eq!(flow.phase, MergePhase::Fetch);
    let folded2 = flow.on_fetched(&folded, "t2".to_string());
    assert_eq!(folded2.rev, folded.rev + 1);
    flow.on_write_ok();
    assert_eq!(flow.phase, MergePhase::Done);
}

#[test]
fn baseline_probe_and_bucket_scan() {
    let d = swiftpan::dates::parse_date("2025-03-01").unwrap();
    let probes = baseline_probe_dates(d, 62);
    assert_eq!(probes.len(), 62);
    assert_eq!(swiftpan::dates::format_date(probes[0]), "2025-02-28");
    assert_eq!(swiftpan::dates::format_date(probes[27]), "2025-02-01");
    assert_eq!(swiftpan::dates::format_date(probes[28]), "2025-01-31");

    let entries = vec![
        ("a.txt".to_string(), 10u64),
        ("dir/".to_string(), 999u64),
        ("analytics/daily/2025-03-01.json".to_string(), 50u64),
        ("b/c.bin".to_string(), 32u64),
    ];
    assert_eq!(compute_bucket_total_storage(&entries), 42);
}

#[test]
fn baseline_probe_stops_at_the_calendar_start() {
    // the second day of the calendar has exactly one predecessor
    let early = swiftpan::dates::parse_date("0001-01-02").unwrap();
    let probes = baseline_probe_dates(early, 62);
    assert_eq!(probes.len(), 1);
    assert_eq!(swiftpan::dates::format_date(probes[0]), "0001-01-01");
}

#[test]
fn dates_parse_format_and_step_back() {
    let d = swiftpan::dates::parse_date("2024-03-01").unwrap();
    let p = swiftpan::dates::pred_date(d).unwrap();
    assert_eq!(swiftpan::dates::format_date(p), "2024-02-29");
    assert!(swiftpan::dates::parse_date("2025-02-29").is_none());
    assert!(swiftpan::dates::parse_date("2025-13-01").is_none());
    assert!(swiftpan::dates::parse_date("not-a-date").is_none());
    assert_eq!(swiftpan::dates::format_date(d), "2024-03-01");
}
