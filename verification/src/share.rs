//! Share links: presign bookkeeping, the capped in-bucket share ledger,
//! and the local cache's freshness window.

use vstd::prelude::*;

verus! {

/// The ledger object's key under the reserved static prefix.
pub const STATIC_SHARE_PATH: &'static str = "analytics/static/share.json";

/// How many entries the share ledger keeps.
pub const SHARE_LEDGER_CAP: usize = 1000;

/// How long a cached copy of the ledger stays fresh, in milliseconds.
pub const SHARE_CACHE_FRESH_MS: i64 = 0x5265C00;

/// Parameters of a share request.
#[derive(Clone, Debug)]
pub struct ShareParams {
    pub key: String,
    pub ttl_secs: u64,
    pub download_filename: Option<String>,
}

/// The issued link.
#[derive(Clone, Debug)]
pub struct ShareLink {
    pub url: String,
    pub expires_at_ms: i64,
}

/// One ledger entry.
#[derive(Clone, Debug)]
pub struct ShareEntry {
    pub key: String,
    pub url: String,
    pub created_at_ms: i64,
    pub expires_at_ms: i64,
    pub ttl_secs: u64,
    pub download_filename: Option<String>,
}

/// The share ledger: newest first, capped.
#[derive(Clone, Debug)]
pub struct ShareLedger {
    pub items: Vec<ShareEntry>,
    pub updated_at_ms: i64,
}

impl ShareLedger {
    /// An empty ledger.
    pub fn new() -> (r: ShareLedger)
        ensures
            r.items@.len() == 0,
            r.updated_at_ms == 0,
    {
        ShareLedger { items: Vec::new(), updated_at_ms: 0 }
    }
}

/// A cached ledger copy is fresh within the 24-hour window.
pub fn ledger_cache_fresh(now_ms: i64, updated_at_ms: i64) -> (r: bool)
    ensures
        r == (now_ms - updated_at_ms < SHARE_CACHE_FRESH_MS && now_ms >= updated_at_ms),
{
    if now_ms >= updated_at_ms {
        match now_ms.checked_sub(updated_at_ms) {
            Some(age) => age < SHARE_CACHE_FRESH_MS,
            None => false,
        }
    } else {
        false
    }
}

/// Build the entry recorded for a freshly issued link.
pub fn make_share_entry(params: ShareParams, url: String, now_ms: i64, expires_at_ms: i64) -> (r:
    ShareEntry)
    ensures
        r.key == params.key,
        r.url == url,
        r.created_at_ms == now_ms,
        r.expires_at_ms == expires_at_ms,
        r.ttl_secs == params.ttl_secs,
        r.download_filename == params.download_filename,
{
    ShareEntry {
        key: params.key,
        url,
        created_at_ms: now_ms,
        expires_at_ms,
        ttl_secs: params.ttl_secs,
        download_filename: params.download_filename,
    }
}

/// Prepend a fresh entry and cap the ledger at its limit, dropping the
/// oldest entries past the cap.
pub fn push_share_entry(ledger: &mut ShareLedger, entry: ShareEntry, now_ms: i64)
    ensures
        final(ledger).items@.len() <= SHARE_LEDGER_CAP,
        final(ledger).items@.len() > 0,
        final(ledger).items@[0] == entry,
        final(ledger).items@ == (seq![entry] + old(ledger).items@).take(
            final(ledger).items@.len() as int,
        ),
        final(ledger).updated_at_ms == now_ms,
{
    let mut rebuilt: Vec<ShareEntry> = Vec::new();
    rebuilt.push(entry);
    let ghost target = seq![rebuilt@[0]] + ledger.items@;
    let mut k: usize = 0;
    while k < ledger.items.len() && rebuilt.len() < SHARE_LEDGER_CAP
        invariant
            target == seq![rebuilt@[0 as int]] + ledger.items@,
            k <= ledger.items@.len(),
            rebuilt@.len() == k + 1 <= SHARE_LEDGER_CAP,
            rebuilt@ =~= target.take(k + 1),
        decreases ledger.items@.len() - k,
    {
        proof {
            assert(target[k + 1] == ledger.items@[k as int]);
        }
        rebuilt.push(clone_share_entry(&ledger.items[k]));
        proof {
            assert(rebuilt@ =~= target.take(k + 2));
        }
        k += 1;
    }
    ledger.items = rebuilt;
    ledger.updated_at_ms = now_ms;
}

/// A field-wise copy of a share entry.
pub fn clone_share_entry(e: &ShareEntry) -> (r: ShareEntry)
    ensures
        r == *e,
{
    ShareEntry {
        key: e.key.clone(),
        url: e.url.clone(),
        created_at_ms: e.created_at_ms,
        expires_at_ms: e.expires_at_ms,
        ttl_secs: e.ttl_secs,
        download_filename: match &e.download_filename {
            Some(x) => Some(x.clone()),
            None => None,
        },
    }
}

} // verus!
