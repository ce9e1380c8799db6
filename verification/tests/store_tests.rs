//! Request classification, listing pages, the delete guard, the logger,
//! settings, shares and the smaller helpers.

use swiftpan::background::BackgroundManager;
use swiftpan::background::ConcurrencyLimits;
use swiftpan::background::RateLimitConfig;
use swiftpan::background::TaskKind;
use swiftpan::background::TaskSpec;
use swiftpan::classify::classify_s3_action;
use swiftpan::classify::op_class;
use swiftpan::classify::op_name;
use swiftpan::classify::OpClass;
use swiftpan::classify::S3Op;
use swiftpan::errors::ErrorKind;
use swiftpan::logger::clamp_keep_range;
use swiftpan::logger::format_line;
use swiftpan::logger::should_log;
use swiftpan::logger::LogLevel;
use swiftpan::logger::Logger;
use swiftpan::settings::AppSettings;
use swiftpan::settings::SettingsStore;
use swiftpan::share::ledger_cache_fresh;
use swiftpan::share::make_share_entry;
use swiftpan::share::push_share_entry;
use swiftpan::share::ShareLedger;
use swiftpan::share::ShareParams;
use swiftpan::store::ascii_lower;
use swiftpan::store::cfg_fingerprint;
use swiftpan::store::flat_entries_from_listing;
use swiftpan::store::guard_delete_object;
use swiftpan::store::list_page_from_entries;
use swiftpan::store::presign_expires_at;
use swiftpan::store::should_retry_tls;
use swiftpan::store::ClientCache;
use swiftpan::store::RawEntry;
use swiftpan::platform::derive_name_from_uri;
use swiftpan::platform::parse_copy_direction;
use swiftpan::platform::AndroidFsCopyParams;
use swiftpan::platform::CopyDirection;
use swiftpan::strutil::last_segment;
use swiftpan::strutil::percent_decode;
use swiftpan::vault::R2Config;

#[test]
fn classification_table() {
    let c = |m: &str, q: &str, copy: bool| classify_s3_action(m, q, copy);
    assert_eq!(c("GET", "list-type=2&prefix=a", false), Some(S3Op::ListObjectsV2));
    assert_eq!(c("GET", "location", false), Some(S3Op::GetBucketLocation));
    assert_eq!(c("GET", "", false), Some(S3Op::GetObject));
    assert_eq!(c("HEAD", "", false), Some(S3Op::HeadObject));
    assert_eq!(c("PUT", "partNumber=3&uploadId=u1", false), Some(S3Op::UploadPart));
    assert_eq!(c("PUT", "", true), Some(S3Op::CopyObject));
    assert_eq!(c("PUT", "", false), Some(S3Op::PutObject));
    assert_eq!(c("POST", "uploads", false), Some(S3Op::CreateMultipartUpload));
    assert_eq!(c("POST", "uploadId=u1", false), Some(S3Op::CompleteMultipartUpload));
    assert_eq!(c("POST", "delete", false), Some(S3Op::DeleteObjects));
    assert_eq!(c("POST", "other", false), None);
    assert_eq!(c("DELETE", "uploadId=u1", false), Some(S3Op::AbortMultipartUpload));
    assert_eq!(c("DELETE", "", false), Some(S3Op::DeleteObject));
    assert_eq!(c("PATCH", "", false), None);

    assert_eq!(op_class(S3Op::GetObject), OpClass::B);
    assert_eq!(op_class(S3Op::PutObject), OpClass::A);
    assert_eq!(op_name(S3Op::CompleteMultipartUpload), "CompleteMultipartUpload");
}

#[test]
fn protected_prefix_rejects_deletes_without_any_network() {
    let e = guard_delete_object("analytics/daily/2025-03-14.json", 0)
        .expect_err("the ledger prefix is protected");
    assert_eq!(e.kind, ErrorKind::NotRetriable);
    assert_eq!(e.message, "deleting analytics files is prohibited");
    assert!(guard_delete_object("analytics/static/share.json", 0).is_ok());
    assert!(guard_delete_object("user/file.txt", 0).is_ok());
}

#[test]
fn listing_groups_sorts_and_flags() {
    let raw = |k: &str, s: u64| RawEntry {
        key: k.to_string(),
        size: s,
        last_modified_ms: Some(1),
        etag: Some("e".to_string()),
    };
    let entries = vec![
        raw("p/zeta.txt", 3),
        raw("p/beta/inner.txt", 4),
        raw("p/alpha.txt", 5),
        raw("p/beta/deeper/x.bin", 6),
        raw("p/alpha/one.txt", 7),
        raw("p/dirmarker/", 0),
    ];
    let page = list_page_from_entries("p/", &entries, 1000);
    assert_eq!(page.prefix, "p/");
    let keys: Vec<&str> = page.items.iter().map(|i| i.key.as_str()).collect();
    assert_eq!(keys, vec!["p/alpha/", "p/beta/", "p/alpha.txt", "p/zeta.txt"]);
    assert!(page.items[0].is_prefix);
    assert!(page.items[1].is_prefix);
    assert!(!page.items[2].is_prefix);
    assert_eq!(page.items[2].size, Some(5));
    assert!(!page.items[2].protected);
}

#[test]
fn listing_caps_objects_and_never_duplicates() {
    let raw = |k: &str| RawEntry {
        key: k.to_string(),
        size: 1,
        last_modified_ms: None,
        etag: None,
    };
    let entries = vec![raw("a"), raw("b"), raw("c"), raw("d")];
    let page = list_page_from_entries("", &entries, 2);
    assert_eq!(page.items.len(), 2);
    assert_eq!(page.items[0].key, "a");
    assert_eq!(page.items[1].key, "b");

    let flat = flat_entries_from_listing(&entries, 3);
    assert_eq!(flat.len(), 3);
    let full = flat_entries_from_listing(&entries, 100);
    let keys: Vec<&str> = full.iter().map(|i| i.key.as_str()).collect();
    assert_eq!(keys, vec!["a", "b", "c", "d"], "sorted, complete, duplicate-free");
}

#[test]
fn listing_marks_protected_entries() {
    let entries = vec![RawEntry {
        key: "analytics/daily/2025-03-14.json".to_string(),
        size: 9,
        last_modified_ms: None,
        etag: None,
    }];
    let page = list_page_from_entries("analytics/daily/", &entries, 10);
    assert_eq!(page.items.len(), 1);
    assert!(page.items[0].protected);
}

#[test]
fn fingerprint_joins_the_five_fields() {
    let cfg = R2Config {
        endpoint: "https://e".to_string(),
        access_key_id: "k".to_string(),
        secret_access_key: "s".to_string(),
        bucket: "b".to_string(),
        region: None,
    };
    assert_eq!(cfg_fingerprint(&cfg), "https://e|k|s|b|auto");

    let mut cache: ClientCache<u32> = ClientCache::new();
    assert!(cache.lookup("https://e|k|s|b|auto").is_none());
    cache.store(cfg_fingerprint(&cfg), 7);
    assert_eq!(cache.lookup("https://e|k|s|b|auto"), Some(&7));
    assert!(cache.lookup("other").is_none());
    cache.invalidate();
    assert!(cache.lookup("https://e|k|s|b|auto").is_none());
}

#[test]
fn tls_fingerprint_triggers_one_retry() {
    assert!(should_retry_tls("error: UnknownIssuer in chain"));
    assert!(should_retry_tls("Invalid Peer Certificate: expired"));
    assert!(!should_retry_tls("connection reset by peer"));
    // lowercasing touches ASCII letters only, on both scan paths
    assert_eq!(ascii_lower("AbZ z9"), "abz z9");
    assert_eq!(ascii_lower("N\u{00DC}LL UnknownIssuer"), "n\u{00DC}ll unknownissuer");
    assert!(should_retry_tls("\u{00DC} UnknownIssuer"));
}

#[test]
fn presign_expiry_is_now_plus_ttl() {
    assert_eq!(presign_expires_at(1000, 900), 1000 + 900_000);
}

#[test]
fn log_level_names_round_trip_case_insensitively() {
    let all = [
        LogLevel::Trace,
        LogLevel::Debug,
        LogLevel::Info,
        LogLevel::Warn,
        LogLevel::Error,
    ];
    for l in all {
        assert_eq!(LogLevel::from_str(l.as_str()), l);
    }
    assert_eq!(LogLevel::from_str("TRACE"), LogLevel::Trace);
    assert_eq!(LogLevel::from_str("Warn"), LogLevel::Warn);
    assert_eq!(LogLevel::from_str("eRrOr"), LogLevel::Error);
}

#[test]
fn logger_levels_lines_and_cache() {
    assert_eq!(LogLevel::from_str("warn"), LogLevel::Warn);
    assert_eq!(LogLevel::from_str("nonsense"), LogLevel::Info);
    assert!(should_log(LogLevel::Error, LogLevel::Info));
    assert!(!should_log(LogLevel::Debug, LogLevel::Info));
    assert_eq!(
        format_line("2025-03-14T00:00:00Z", LogLevel::Info, "r2", "ok"),
        "2025-03-14T00:00:00Z [INFO] r2: ok"
    );

    let mut lg = Logger::new();
    lg.set_level_str("debug");
    for i in 0..4100u32 {
        lg.push_cache(format!("line {i}"));
    }
    assert_eq!(lg.cache.len(), 4000);
    let t = lg.tail(2);
    assert_eq!(t, vec!["line 4098".to_string(), "line 4099".to_string()]);
    lg.clear();
    assert_eq!(lg.cache.len(), 0);

    assert_eq!(clamp_keep_range(4 * 1024 * 1024), None);
    assert_eq!(
        clamp_keep_range(5 * 1024 * 1024),
        Some((3 * 1024 * 1024, 2 * 1024 * 1024))
    );
}

#[test]
fn settings_defaults_and_store() {
    let store = SettingsStore::init(None);
    let s = store.get();
    assert_eq!(s.log_level, "info");
    assert_eq!(s.max_concurrency, 2);
    assert!(!s.upload_thumbnail);

    let mut store = SettingsStore::init(Some(AppSettings::fresh()));
    let mut s2 = store.get();
    s2.log_level = "trace".to_string();
    s2.upload_thumbnail = true;
    store.set(s2);
    assert_eq!(store.get().log_level, "trace");
    assert!(store.get().upload_thumbnail);
}

#[test]
fn share_ledger_caps_at_a_thousand() {
    let mut ledger = ShareLedger::new();
    for i in 0..1005u64 {
        let p = ShareParams {
            key: format!("k{i}"),
            ttl_secs: 900,
            download_filename: None,
        };
        let entry = make_share_entry(p, format!("https://u/{i}"), i as i64, i as i64 + 900_000);
        push_share_entry(&mut ledger, entry, i as i64);
    }
    assert_eq!(ledger.items.len(), 1000);
    assert_eq!(ledger.items[0].key, "k1004");
    assert_eq!(ledger.items[999].key, "k5");
    assert!(ledger_cache_fresh(1000, 500));
    assert!(!ledger_cache_fresh(100_000_000, 500));
    assert!(!ledger_cache_fresh(400, 500));
}

#[test]
fn background_manager_is_a_stub() {
    let task = TaskSpec {
        kind: TaskKind::Upload,
        id: "t1".to_string(),
        priority: 0,
    };
    assert_eq!(
        BackgroundManager::submit(task, 0).unwrap_err().kind,
        ErrorKind::NotImplemented
    );
    let limits = ConcurrencyLimits { per_task_parts: 2, global_active_tasks: 2 };
    let rate = RateLimitConfig { max_bytes_per_sec: None };
    assert_eq!(
        BackgroundManager::set_limits(limits, rate, 0).unwrap_err().kind,
        ErrorKind::NotImplemented
    );
    assert!(BackgroundManager::global_pause(0).is_err());
    assert!(BackgroundManager::global_resume(0).is_err());
    assert!(BackgroundManager::clear_completed(0).is_err());
}

#[test]
fn copy_direction_validation() {
    let base = AndroidFsCopyParams {
        direction: "sandbox_to_tree".to_string(),
        local_path: "/tmp/a".to_string(),
        tree_uri: Some("content://tree/1".to_string()),
        relative_path: Some("pics/a.jpg".to_string()),
        mime: None,
        uri: None,
    };
    assert_eq!(parse_copy_direction(&base, 0).unwrap(), CopyDirection::SandboxToTree);

    let mut missing_rel = base.clone();
    missing_rel.relative_path = Some(String::new());
    assert!(parse_copy_direction(&missing_rel, 0).is_err());

    let mut tree_read = base.clone();
    tree_read.direction = "tree_to_sandbox".to_string();
    assert_eq!(parse_copy_direction(&tree_read, 0).unwrap(), CopyDirection::TreeToSandbox);

    let mut from_uri = base.clone();
    from_uri.direction = "uri_to_sandbox".to_string();
    assert!(parse_copy_direction(&from_uri, 0).is_err(), "uri required");
    from_uri.uri = Some("content://docs/x".to_string());
    assert_eq!(parse_copy_direction(&from_uri, 0).unwrap(), CopyDirection::UriToSandbox);

    let mut unknown = base;
    unknown.direction = "sideways".to_string();
    assert_eq!(parse_copy_direction(&unknown, 0).unwrap_err().kind, ErrorKind::NotRetriable);

    assert_eq!(
        derive_name_from_uri(&b"content://docs/my%20photo.jpg".to_vec()),
        b"my photo.jpg".to_vec()
    );
}

#[test]
fn uri_text_helpers() {
    let decoded = percent_decode(&b"a%20b%2Fc%ZZ".to_vec());
    assert_eq!(decoded, b"a b/c%ZZ".to_vec());
    let name = last_segment(&b"content://docs/tree/photo.jpg".to_vec());
    assert_eq!(name, b"photo.jpg".to_vec());
    assert_eq!(last_segment(&b"noslash".to_vec()), b"noslash".to_vec());
    assert_eq!(last_segment(&b"ends/".to_vec()), b"".to_vec());
}
