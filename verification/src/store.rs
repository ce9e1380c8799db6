//! The object-store view: listing pages with delimiter grouping and a
//! stable order, the protected-prefix guard on deletes, the client cache
//! keyed by credential fingerprint, and the TLS-failure retry test.

use vstd::prelude::*;

verus! {

use crate::errors::ErrorKind;
use crate::errors::SpError;
use crate::strutil::find_char;
use crate::strutil::has_substr;
use crate::strutil::contains_str;
use crate::strutil::spec_starts_with;
use crate::strutil::starts_with_str;
use crate::vault::R2Config;
use vstd::multiset::Multiset;
use vstd::string::StrSliceExecFns;
use vstd::string::StringExecFns;

/// The key prefix reserved for the usage ledgers; user-level deletes and
/// overwrites under it are refused.
pub const ANALYTICS_PREFIX: &'static str = "analytics/daily/";

/// One listing entry: an object, or a first-level prefix group.
#[derive(Clone, Debug)]
pub struct FileEntry {
    pub key: String,
    pub size: Option<u64>,
    pub last_modified_ms: Option<i64>,
    pub etag: Option<String>,
    pub is_prefix: bool,
    pub protected: bool,
}

/// One page of a delimited listing.
#[derive(Clone, Debug)]
pub struct ListPage {
    pub prefix: String,
    pub items: Vec<FileEntry>,
    pub next_token: Option<String>,
}

/// A raw listing entry as the store reports it.
#[derive(Clone, Debug)]
pub struct RawEntry {
    pub key: String,
    pub size: u64,
    pub last_modified_ms: Option<i64>,
    pub etag: Option<String>,
}

/// The protected prefix as a string slice.
pub fn analytics_prefix() -> (r: &'static str)
    ensures
        r@ == "analytics/daily/"@,
{
    "analytics/daily/"
}

/// The delete guard: a key under the protected analytics prefix is
/// refused as `NotRetriable` before any network call; every other key may
/// proceed.
pub fn guard_delete_object(key: &str, now: i64) -> (r: Result<(), SpError>)
    ensures
        spec_starts_with(key@, "analytics/daily/"@) <==> r is Err,
        r matches Err(e) ==> e.kind == ErrorKind::NotRetriable && e.message@
            == "deleting analytics files is prohibited"@,
{
    if starts_with_str(key, "analytics/daily/") {
        Err(
            SpError::new(
                ErrorKind::NotRetriable,
                String::from_str("deleting analytics files is prohibited"),
                now,
            ),
        )
    } else {
        Ok(())
    }
}

/// The in-memory fingerprint a client cache is keyed by: the five
/// credential fields joined with `|`, the region defaulting to `auto`.
pub fn cfg_fingerprint(cfg: &R2Config) -> (r: String)
    ensures
        r@ == cfg.endpoint@ + "|"@ + cfg.access_key_id@ + "|"@ + cfg.secret_access_key@ + "|"@
            + cfg.bucket@ + "|"@ + (match cfg.region {
            Some(rg) => rg@,
            None => "auto"@,
        }),
{
    let mut out = String::new();
    out.append(cfg.endpoint.as_str());
    out.append("|");
    out.append(cfg.access_key_id.as_str());
    out.append("|");
    out.append(cfg.secret_access_key.as_str());
    out.append("|");
    out.append(cfg.bucket.as_str());
    out.append("|");
    match &cfg.region {
        Some(rg) => out.append(rg.as_str()),
        None => out.append("auto"),
    }
    out
}

/// A one-slot client cache keyed by fingerprint. A hit returns the cached
/// client; `invalidate` empties the slot.
pub struct ClientCache<T> {
    pub entry: Option<(String, T)>,
}

impl<T> ClientCache<T> {
    /// An empty cache.
    pub fn new() -> (r: ClientCache<T>)
        ensures
            r.entry is None,
    {
        ClientCache { entry: None }
    }

    /// The cached client, when the fingerprint matches.
    pub fn lookup(&self, fp: &str) -> (r: Option<&T>)
        ensures
            match r {
                Some(t) => self.entry matches Some(e) && e.0@ == fp@ && *t == self.entry.unwrap().1,
                None => match self.entry {
                    Some(e) => e.0@ != fp@,
                    None => true,
                },
            },
    {
        match &self.entry {
            Some(e) => {
                if crate::strutil::str_eq(e.0.as_str(), fp) {
                    Some(&e.1)
                } else {
                    None
                }
            },
            None => None,
        }
    }

    /// Cache one client under its fingerprint.
    pub fn store(&mut self, fp: String, t: T)
        ensures
            final(self).entry matches Some(e) && e.0 == fp && e.1 == t,
    {
        self.entry = Some((fp, t));
    }

    /// Drop the cached client, forcing the next build.
    pub fn invalidate(&mut self)
        ensures
            final(self).entry is None,
    {
        self.entry = None;
    }
}

/// Lowercase mapping of one ASCII character (other characters unchanged).
pub open spec fn spec_lower_char(c: char) -> char {
    if 65 <= (c as u32) <= 90 {
        (((c as u32) + 32) as u8) as char
    } else {
        c
    }
}

/// ASCII-lowercased text.
pub open spec fn spec_ascii_lower(s: Seq<char>) -> Seq<char> {
    s.map_values(|c: char| spec_lower_char(c))
}

/// Lowercase the ASCII letters of a string.
pub fn ascii_lower(s: &str) -> (r: String)
    ensures
        r@ == spec_ascii_lower(s@),
{
    let n: usize = s.unicode_len();
    let mut out: Vec<u8> = Vec::new();
    let mut i: usize = 0;
    while i < n
        invariant
            n == s@.len(),
            i <= n,
            out@.len() == i,
            forall|j: int| 0 <= j < i ==> out@[j] < 128,
            forall|j: int| 0 <= j < i ==> (out@[j] as char) == spec_lower_char(s@[j]) && (s@[
                j] as u32) < 128,
        decreases n - i,
    {
        let c = s.get_char(i);
        let u = c as u32;
        if u >= 128 {
            return lower_via_chars(s);
        }
        let b: u8 = if 65 <= u && u <= 90 {
            (u + 32) as u8
        } else {
            u as u8
        };
        proof {
            crate::jsontext::lemma_ascii_char_roundtrip(c);
            if 65 <= u && u <= 90 {
                assert((b as char) == spec_lower_char(c));
            } else {
                assert((b as char) == c);
            }
        }
        out.push(b);
        i += 1;
    }
    let r = crate::strutil::string_from_ascii(out);
    proof {
        assert(r@ =~= spec_ascii_lower(s@));
    }
    r
}

/// Lowercase character by character (the path for non-ASCII input, which
/// is left as it is except for ASCII letters).
fn lower_via_chars(s: &str) -> (r: String)
    ensures
        r@ == spec_ascii_lower(s@),
{
    let n: usize = s.unicode_len();
    let mut out = String::new();
    let mut i: usize = 0;
    while i < n
        invariant
            n == s@.len(),
            i <= n,
            out@ =~= spec_ascii_lower(s@).take(i as int),
        decreases n - i,
    {
        let c = s.get_char(i);
        let u = c as u32;
        let lc: char = if 65 <= u && u <= 90 {
            proof {
                crate::jsontext::lemma_ascii_char_roundtrip(c);
            }
            ((u + 32) as u8) as char
        } else {
            c
        };
        proof {
            assert(lc == spec_lower_char(c));
        }
        push_char(&mut out, lc);
        proof {
            assert(out@ =~= spec_ascii_lower(s@).take(i + 1));
        }
        i += 1;
    }
    proof {
        assert(spec_ascii_lower(s@).take(n as int) =~= spec_ascii_lower(s@));
    }
    out
}

/// Append one character to a string.
///
/// Relies on `String::push`: it appends exactly the given character.
#[verifier::external_body]
fn push_char(s: &mut String, c: char)
    ensures
        final(s)@ == old(s)@ + seq![c],
{
    s.push(c);
}

/// Whether a listing error message carries the TLS-trust fingerprint that
/// warrants one rebuild-and-retry: `unknownissuer` or
/// `invalid peer certificate`, matched case-insensitively.
pub fn should_retry_tls(msg: &str) -> (r: bool)
    ensures
        r == (has_substr(spec_ascii_lower(msg@), "unknownissuer"@) || has_substr(
            spec_ascii_lower(msg@),
            "invalid peer certificate"@,
        )),
{
    let low = ascii_lower(msg);
    contains_str(low.as_str(), "unknownissuer") || contains_str(
        low.as_str(),
        "invalid peer certificate",
    )
}

/// The expiry instant of a presigned link.
pub fn presign_expires_at(now_ms: i64, ttl_secs: u64) -> (r: i64)
    requires
        ttl_secs < 0x20000000000000,
        now_ms + (ttl_secs as int) * 1000 <= i64::MAX,
    ensures
        r == now_ms + ttl_secs * 1000,
{
    now_ms + (ttl_secs as i64) * 1000
}

// ---------------------------------------------------------------------
// Listing pages: delimiter grouping and a stable order.
// ---------------------------------------------------------------------
/// Lexicographic order on texts, by code point.
pub open spec fn lex_le(a: Seq<char>, b: Seq<char>) -> bool
    decreases a.len(),
{
    if a.len() == 0 {
        true
    } else if b.len() == 0 {
        false
    } else if a[0] != b[0] {
        a[0] < b[0]
    } else {
        lex_le(a.skip(1), b.skip(1))
    }
}

/// The order is reflexive.
pub proof fn lemma_lex_refl(a: Seq<char>)
    ensures
        lex_le(a, a),
    decreases a.len(),
{
    if a.len() > 0 {
        lemma_lex_refl(a.skip(1));
    }
}

/// The order is total.
pub proof fn lemma_lex_total(a: Seq<char>, b: Seq<char>)
    ensures
        lex_le(a, b) || lex_le(b, a),
    decreases a.len(),
{
    if a.len() > 0 && b.len() > 0 && a[0] == b[0] {
        lemma_lex_total(a.skip(1), b.skip(1));
    }
}

/// The order is transitive.
pub proof fn lemma_lex_trans(a: Seq<char>, b: Seq<char>, c: Seq<char>)
    requires
        lex_le(a, b),
        lex_le(b, c),
    ensures
        lex_le(a, c),
    decreases a.len(),
{
    if a.len() > 0 && b.len() > 0 && c.len() > 0 && a[0] == b[0] && b[0] == c[0] {
        lemma_lex_trans(a.skip(1), b.skip(1), c.skip(1));
    }
}

/// Compare two texts in the lexicographic order.
pub fn str_le(a: &str, b: &str) -> (r: bool)
    ensures
        r == lex_le(a@, b@),
{
    let an: usize = a.unicode_len();
    let bn: usize = b.unicode_len();
    let mut i: usize = 0;
    proof {
        assert(a@.skip(0) =~= a@);
        assert(b@.skip(0) =~= b@);
    }
    while i < an && i < bn
        invariant
            an == a@.len(),
            bn == b@.len(),
            i <= an,
            i <= bn,
            lex_le(a@, b@) == lex_le(a@.skip(i as int), b@.skip(i as int)),
        decreases an - i,
    {
        let ca = a.get_char(i);
        let cb = b.get_char(i);
        proof {
            assert(a@.skip(i as int)[0] == a@[i as int]);
            assert(b@.skip(i as int)[0] == b@[i as int]);
            assert(a@.skip(i as int).skip(1) =~= a@.skip(i + 1));
            assert(b@.skip(i as int).skip(1) =~= b@.skip(i + 1));
        }
        if ca != cb {
            return ca < cb;
        }
        i += 1;
    }
    proof {
        assert(a@.skip(i as int).len() == an - i);
        assert(b@.skip(i as int).len() == bn - i);
    }
    i >= an
}

/// Items keyed in non-decreasing order.
pub open spec fn entries_sorted(s: Seq<FileEntry>) -> bool {
    forall|i: int, j: int| 0 <= i < j < s.len() ==> lex_le(#[trigger] s[i].key@, #[trigger] s[j].key@)
}

/// Sort entries by key: the result is ordered and holds exactly the given
/// items.
pub fn sort_entries_by_key(v: Vec<FileEntry>) -> (r: Vec<FileEntry>)
    ensures
        entries_sorted(r@),
        r@.to_multiset() == v@.to_multiset(),
        forall|x: FileEntry| r@.contains(x) <==> v@.contains(x),
{
    broadcast use vstd::seq_lib::group_to_multiset_ensures;

    let mut rem = v;
    let mut out: Vec<FileEntry> = Vec::new();
    proof {
        assert(out@.to_multiset().add(rem@.to_multiset()) =~= v@.to_multiset());
    }
    while rem.len() > 0
        invariant
            entries_sorted(out@),
            out@.to_multiset().add(rem@.to_multiset()) == v@.to_multiset(),
            forall|j: int, k: int|
                0 <= j < out@.len() && 0 <= k < rem@.len() ==> lex_le(
                    #[trigger] out@[j].key@,
                    #[trigger] rem@[k].key@,
                ),
        decreases rem@.len(),
    {
        let rn: usize = rem.len();
        let mut m: usize = 0;
        let mut k: usize = 1;
        proof {
            lemma_lex_refl(rem@[0].key@);
        }
        while k < rn
            invariant
                rn == rem@.len(),
                m < rn,
                k <= rn,
                forall|t: int| 0 <= t < k ==> lex_le(rem@[m as int].key@, #[trigger] rem@[t].key@),
            decreases rn - k,
        {
            if !str_le(rem[m].key.as_str(), rem[k].key.as_str()) {
                proof {
                    lemma_lex_total(rem@[m as int].key@, rem@[k as int].key@);
                    assert forall|t: int| 0 <= t < k + 1 implies lex_le(
                        rem@[k as int].key@,
                        #[trigger] rem@[t].key@,
                    ) by {
                        if t < k {
                            lemma_lex_trans(rem@[k as int].key@, rem@[m as int].key@, rem@[t].key@);
                        } else {
                            lemma_lex_total(rem@[t].key@, rem@[t].key@);
                        }
                    }
                }
                m = k;
            }
            k += 1;
        }
        let ghost old_out = out@;
        let ghost old_rem = rem@;
        let e = rem.remove(m);
        out.push(e);
        proof {
            broadcast use vstd::seq_lib::group_to_multiset_ensures;

            assert(out@ == old_out.push(e));
            assert(old_out.push(e).to_multiset() =~= old_out.to_multiset().insert(e));
            assert(rem@ == old_rem.remove(m as int));
            assert(old_rem.remove(m as int).to_multiset() =~= old_rem.to_multiset().remove(
                old_rem[m as int],
            ));
            assert(old_rem[m as int] == e);
            assert(old_rem.to_multiset().count(e) > 0) by {
                assert(old_rem.contains(e));
            }
            assert(out@.to_multiset().add(rem@.to_multiset()) =~= old_out.to_multiset().add(
                old_rem.to_multiset(),
            ));
            assert forall|j: int, k2: int|
                0 <= j < out@.len() && 0 <= k2 < rem@.len() implies lex_le(
                #[trigger] out@[j].key@,
                #[trigger] rem@[k2].key@,
            ) by {
                let src = if k2 < m { k2 } else { k2 + 1 };
                assert(rem@[k2] == old_rem[src]);
                if j < old_out.len() {
                    assert(out@[j] == old_out[j]);
                } else {
                    assert(out@[j] == e);
                }
            }
            assert(entries_sorted(out@)) by {
                assert forall|i1: int, j1: int| 0 <= i1 < j1 < out@.len() implies lex_le(
                    #[trigger] out@[i1].key@,
                    #[trigger] out@[j1].key@,
                ) by {
                    if j1 < old_out.len() {
                    } else {
                        assert(out@[j1] == e);
                        assert(old_rem[m as int] == e);
                        assert(out@[i1] == old_out[i1]);
                    }
                }
            }
        }
    }
    proof {
        broadcast use vstd::seq_lib::group_to_multiset_ensures;

        assert(rem@.to_multiset() =~= Multiset::<FileEntry>::empty());
        assert(out@.to_multiset() =~= v@.to_multiset());
        assert forall|x: FileEntry| out@.contains(x) <==> v@.contains(x) by {
            assert(out@.contains(x) <==> out@.to_multiset().count(x) > 0);
            assert(v@.contains(x) <==> v@.to_multiset().count(x) > 0);
        }
    }
    out
}

/// The order is antisymmetric.
pub proof fn lemma_lex_antisym(a: Seq<char>, b: Seq<char>)
    requires
        lex_le(a, b),
        lex_le(b, a),
    ensures
        a == b,
    decreases a.len(),
{
    if a.len() == 0 {
        assert(b.len() == 0);
        assert(a =~= b);
    } else {
        assert(b.len() > 0);
        assert(a[0] == b[0]);
        lemma_lex_antisym(a.skip(1), b.skip(1));
        assert(a.skip(1).len() == b.skip(1).len());
        assert forall|i: int| 0 <= i < a.len() implies a[i] == b[i] by {
            if i > 0 {
                assert(a.skip(1)[i - 1] == a[i]);
                assert(b.skip(1)[i - 1] == b[i]);
            }
        }
        assert(a =~= b);
    }
}

/// `c` occurs somewhere in `s`.
pub open spec fn has_char(s: Seq<char>, c: char) -> bool {
    exists|i: int| 0 <= i < s.len() && s[i] == c
}

/// A `/`-terminated key names a directory placeholder, not an object.
pub open spec fn is_dir_key(key: Seq<char>) -> bool {
    key.len() > 0 && key.last() == '/'
}

/// The key relative to the listing prefix (the key itself when the prefix
/// does not apply).
pub open spec fn rel_of(key: Seq<char>, prefix: Seq<char>) -> Seq<char> {
    if spec_starts_with(key, prefix) {
        key.skip(prefix.len() as int)
    } else {
        key
    }
}

/// An object that belongs directly on this page: not a directory entry,
/// with no further `/` below the prefix.
pub open spec fn qualifies_file(key: Seq<char>, prefix: Seq<char>) -> bool {
    !is_dir_key(key) && !has_char(rel_of(key, prefix), '/')
}

/// The first-level group a deeper key belongs to: the prefix plus the
/// relative part through its first `/`.
pub open spec fn dir_group_of(key: Seq<char>, prefix: Seq<char>) -> Seq<char> {
    prefix + rel_of(key, prefix).take(crate::strutil::first_at(rel_of(key, prefix), '/') + 1)
}

/// A listing item carrying exactly one raw entry's fields.
pub open spec fn file_match(item: FileEntry, e: RawEntry) -> bool {
    &&& item.key == e.key
    &&& item.size == Some(e.size)
    &&& item.last_modified_ms == e.last_modified_ms
    &&& item.etag == e.etag
    &&& !item.is_prefix
    &&& item.protected == spec_starts_with(e.key@, "analytics/daily/"@)
}

/// Group texts in strictly increasing order.
pub open spec fn strings_sorted_strict(q: Seq<String>) -> bool {
    forall|i: int, j: int|
        0 <= i < j < q.len() ==> lex_le(#[trigger] q[i]@, #[trigger] q[j]@) && q[i]@ != q[j]@
}

/// A view is present in the group list.
pub open spec fn contains_view(q: Seq<String>, x: Seq<char>) -> bool {
    exists|i: int| 0 <= i < q.len() && #[trigger] q[i]@ == x
}

/// Insert a group name, keeping the list strictly sorted; a name already
/// present is dropped.
#[verifier::rlimit(100)]
#[verifier::spinoff_prover]
fn insert_sorted_unique(v: &mut Vec<String>, s: String)
    requires
        strings_sorted_strict(old(v)@),
    ensures
        strings_sorted_strict(final(v)@),
        forall|x: Seq<char>|
            #[trigger] contains_view(final(v)@, x) <==> (contains_view(old(v)@, x) || x == s@),
{
    let n: usize = v.len();
    let mut p: usize = 0;
    while p < n && str_le(v[p].as_str(), s.as_str()) && !crate::strutil::str_eq(
        v[p].as_str(),
        s.as_str(),
    )
        invariant
            n == v@.len(),
            p <= n,
            strings_sorted_strict(v@),
            forall|j: int| 0 <= j < p ==> lex_le(#[trigger] v@[j]@, s@) && v@[j]@ != s@,
        decreases n - p,
    {
        p += 1;
    }
    if p < n && crate::strutil::str_eq(v[p].as_str(), s.as_str()) {
        proof {
            assert(v@[p as int]@ == s@);
            assert forall|x: Seq<char>|
                #[trigger] contains_view(v@, x) <==> (contains_view(v@, x) || x == s@) by {
                if x == s@ {
                    assert(v@[p as int]@ == x);
                }
            }
        }
        return ;
    }
    proof {
        if p < n {
            lemma_lex_total(v@[p as int]@, s@);
            lemma_lex_refl(s@);
            assert(lex_le(s@, v@[p as int]@));
            assert(s@ != v@[p as int]@);
        }
    }
    let ghost oldv = v@;
    v.insert(p, s);
    proof {
        let pp = p as int;
        assert(v@ == oldv.insert(pp, s));
        assert forall|j: int| 0 <= j < pp implies v@[j] == oldv[j] by {}
        assert(v@[pp] == s);
        assert forall|j: int| pp < j < v@.len() implies v@[j] == oldv[j - 1] by {}
        assert(strings_sorted_strict(v@)) by {
            assert forall|i1: int, j1: int| 0 <= i1 < j1 < v@.len() implies lex_le(
                #[trigger] v@[i1]@,
                #[trigger] v@[j1]@,
            ) && v@[i1]@ != v@[j1]@ by {
                if i1 < pp && j1 == pp {
                } else if i1 == pp && pp < j1 {
                    assert(v@[j1]@ == oldv[j1 - 1]@);
                    assert(lex_le(s@, oldv[pp]@) && s@ != oldv[pp]@);
                    if j1 - 1 > pp {
                        assert(lex_le(oldv[pp]@, oldv[j1 - 1]@) && oldv[pp]@ != oldv[j1 - 1]@);
                        lemma_lex_trans(s@, oldv[pp]@, oldv[j1 - 1]@);
                        if s@ == oldv[j1 - 1]@ {
                            lemma_lex_antisym(oldv[pp]@, oldv[j1 - 1]@);
                        }
                    }
                } else if i1 < pp && pp < j1 {
                    assert(v@[i1]@ == oldv[i1]@);
                    assert(v@[j1]@ == oldv[j1 - 1]@);
                    if j1 - 1 == i1 {
                        assert(lex_le(oldv[i1]@, s@) && oldv[i1]@ != s@);
                        lemma_lex_refl(oldv[i1]@);
                    } else {
                        assert(lex_le(oldv[i1]@, oldv[j1 - 1]@) && oldv[i1]@ != oldv[j1 - 1]@);
                    }
                } else {
                }
            }
        }
        assert forall|x: Seq<char>|
            #[trigger] contains_view(v@, x) <==> (contains_view(oldv, x) || x == s@) by {
            if contains_view(v@, x) {
                let i = choose|i: int| 0 <= i < v@.len() && #[trigger] v@[i]@ == x;
                if i < pp {
                    assert(oldv[i]@ == x);
                } else if i == pp {
                } else {
                    assert(oldv[i - 1]@ == x);
                }
            }
            if contains_view(oldv, x) {
                let i = choose|i: int| 0 <= i < oldv.len() && #[trigger] oldv[i]@ == x;
                if i < pp {
                    assert(v@[i]@ == x);
                } else {
                    assert(v@[i + 1]@ == x);
                }
            }
            if x == s@ {
                assert(v@[pp]@ == x);
            }
        }
    }
}


/// How many items of a page are objects rather than prefix groups.
pub open spec fn count_objects(items: Seq<FileEntry>) -> int
    decreases items.len(),
{
    if items.len() == 0 {
        0
    } else {
        count_objects(items.drop_last()) + if items.last().is_prefix {
            0int
        } else {
            1int
        }
    }
}

/// In a page whose prefix groups stand exactly first, the object count is
/// what follows them.
proof fn lemma_count_objects_split(q: Seq<FileEntry>, dl: int)
    requires
        0 <= dl <= q.len(),
        forall|i: int| 0 <= i < q.len() ==> ((#[trigger] q[i].is_prefix) <==> i < dl),
    ensures
        count_objects(q) == q.len() - dl,
    decreases q.len(),
{
    if q.len() > 0 {
        if q.last().is_prefix {
            assert(dl == q.len());
            lemma_count_objects_split(q.drop_last(), dl - 1);
        } else {
            lemma_count_objects_split(q.drop_last(), dl);
        }
    }
}

/// Keys distinct pairwise in one arrangement stay distinct in any
/// rearrangement of the same items.
proof fn lemma_permutation_keeps_distinct_keys(v: Seq<FileEntry>, s: Seq<FileEntry>)
    requires
        s.to_multiset() == v.to_multiset(),
        forall|i: int, j: int| 0 <= i < j < v.len() ==> (#[trigger] v[i]).key@ != (
        #[trigger] v[j]).key@,
    ensures
        forall|i: int, j: int| 0 <= i < j < s.len() ==> (#[trigger] s[i]).key@ != (
        #[trigger] s[j]).key@,
{
    broadcast use vstd::seq_lib::group_to_multiset_ensures;

    assert(v.no_duplicates()) by {
        assert forall|i: int, j: int|
            (0 <= i < v.len() && 0 <= j < v.len() && i != j) implies v[i] != v[j] by {
            if i < j {
                assert(v[i].key@ != v[j].key@);
            } else {
                assert(v[j].key@ != v[i].key@);
            }
        }
    }
    v.lemma_multiset_has_no_duplicates();
    s.lemma_multiset_has_no_duplicates_conv();
    assert forall|i: int, j: int| 0 <= i < j < s.len() implies (#[trigger] s[i]).key@ != (
    #[trigger] s[j]).key@ by {
        if s[i].key@ == s[j].key@ {
            assert(s[i] != s[j]);
            assert(s.contains(s[i]) && s.contains(s[j]));
            assert(s.to_multiset().count(s[i]) > 0);
            assert(v.to_multiset().count(s[i]) > 0);
            assert(v.contains(s[i]));
            assert(s.to_multiset().count(s[j]) > 0);
            assert(v.to_multiset().count(s[j]) > 0);
            assert(v.contains(s[j]));
            let a = choose|a: int| 0 <= a < v.len() && v[a] == s[i];
            let b = choose|b: int| 0 <= b < v.len() && v[b] == s[j];
            assert(a != b);
            if a < b {
                assert(v[a].key@ != v[b].key@);
            } else {
                assert(v[b].key@ != v[a].key@);
            }
        }
    }
}

/// Raw keys pairwise distinct: what a real store listing reports.
pub open spec fn raw_keys_distinct(entries: Seq<RawEntry>) -> bool {
    forall|t1: int, t2: int|
        0 <= t1 < t2 < entries.len() ==> (#[trigger] entries[t1]).key@ != (
        #[trigger] entries[t2]).key@
}

/// One listing item carries the fields of some raw entry that belongs on
/// the page for this prefix.
pub open spec fn item_witnessed(item: FileEntry, entries: Seq<RawEntry>, prefix: Seq<char>) -> bool {
    exists|t: int|
        0 <= t < entries.len() && file_match(item, #[trigger] entries[t]) && qualifies_file(
            entries[t].key@,
            prefix,
        )
}

/// A group name is the first-level group of some deeper raw entry.
pub open spec fn group_witnessed(x: Seq<char>, entries: Seq<RawEntry>, prefix: Seq<char>) -> bool {
    exists|t: int|
        0 <= t < entries.len() && !is_dir_key(#[trigger] entries[t].key@) && has_char(
            rel_of(entries[t].key@, prefix),
            '/',
        ) && x == dir_group_of(entries[t].key@, prefix)
}

/// A raw entry is delivered by some item of the list.
pub open spec fn entry_delivered(e: RawEntry, items: Seq<FileEntry>) -> bool {
    exists|k: int| #![trigger items[k]] 0 <= k < items.len() && file_match(items[k], e)
}

/// Build one listing page: group deeper keys under their first-level
/// prefix, keep at most `max_keys` top-level objects, mark the protected
/// entries, and order the page with groups first, each section sorted.
#[verifier::rlimit(100)]
#[verifier::spinoff_prover]
pub fn list_page_from_entries(prefix: &str, entries: &Vec<RawEntry>, max_keys: usize) -> (r:
    ListPage)
    ensures
        r.prefix@ == prefix@,
        r.next_token is None,
        // groups stand before objects
        forall|i: int, j: int|
            0 <= i < j < r.items@.len() && !(#[trigger] r.items@[i].is_prefix) ==> !(
            #[trigger] r.items@[j].is_prefix),
        // each section is sorted
        forall|i: int, j: int|
            0 <= i < j < r.items@.len() && (#[trigger] r.items@[i].is_prefix) == (
            #[trigger] r.items@[j].is_prefix) ==> lex_le(r.items@[i].key@, r.items@[j].key@),
        // flags are faithful
        forall|k: int|
            0 <= k < r.items@.len() ==> (#[trigger] r.items@[k].protected) == spec_starts_with(
                r.items@[k].key@,
                "analytics/daily/"@,
            ),
        // every object item carries one raw entry that belongs on the page
        forall|k: int|
            0 <= k < r.items@.len() && !(#[trigger] r.items@[k].is_prefix) ==> item_witnessed(
                r.items@[k],
                entries@,
                prefix@,
            ),
        // every group item is the group of some deeper raw entry
        forall|k: int|
            0 <= k < r.items@.len() && (#[trigger] r.items@[k].is_prefix) ==> group_witnessed(
                r.items@[k].key@,
                entries@,
                prefix@,
            ),
        // with no truncation, every qualifying raw entry appears
        entries@.len() <= max_keys ==> forall|t: int|
            0 <= t < entries@.len() && qualifies_file(#[trigger] entries@[t].key@, prefix@)
                ==> entry_delivered(entries@[t], r.items@),
        // at most `max_keys` object entries
        count_objects(r.items@) <= max_keys,
        // distinct raw keys yield distinct object entries
        raw_keys_distinct(entries@) ==> forall|k1: int, k2: int|
            0 <= k1 < k2 < r.items@.len() && !(#[trigger] r.items@[k1]).is_prefix && !(
            #[trigger] r.items@[k2]).is_prefix ==> r.items@[k1].key@ != r.items@[k2].key@,
{
    let n: usize = entries.len();
    let mut dirs: Vec<String> = Vec::new();
    let mut files: Vec<FileEntry> = Vec::new();
    let mut count: usize = 0;
    let ghost mut wit: Seq<int> = Seq::empty();
    let mut i: usize = 0;
    while i < n && count < max_keys
        invariant
            n == entries@.len(),
            i <= n,
            count == files@.len() <= max_keys,
            count <= i,
            wit.len() == files@.len(),
            forall|k: int| 0 <= k < files@.len() ==> 0 <= #[trigger] wit[k] < i,
            forall|k: int|
                0 <= k < files@.len() ==> (#[trigger] files@[k]).key == entries@[wit[k]].key,
            forall|k1: int, k2: int|
                0 <= k1 < k2 < files@.len() ==> #[trigger] wit[k1] < #[trigger] wit[k2],
            strings_sorted_strict(dirs@),
            forall|k: int|
                0 <= k < files@.len() ==> item_witnessed(
                    #[trigger] files@[k],
                    entries@,
                    prefix@,
                ) && !files@[k].is_prefix,
            forall|k: int|
                0 <= k < dirs@.len() ==> group_witnessed(#[trigger] dirs@[k]@, entries@, prefix@),
            forall|t: int|
                0 <= t < i && qualifies_file(#[trigger] entries@[t].key@, prefix@)
                    ==> entry_delivered(entries@[t], files@),
        decreases n - i,
    {
        let e = &entries[i];
        let key = e.key.as_str();
        let kn: usize = key.unicode_len();
        let is_dir = kn > 0 && key.get_char(kn - 1) == '/';
        if is_dir {
            proof {
                assert(!qualifies_file(entries@[i as int].key@, prefix@));
            }
        }
        if !is_dir {
            let starts = starts_with_str(key, prefix);
            let pn: usize = prefix.unicode_len();
            let rel: &str = if starts {
                key.substring_char(pn, kn)
            } else {
                key
            };
            proof {
                assert(rel@ == rel_of(entries@[i as int].key@, prefix@));
            }
            match find_char(rel, '/') {
                Some(pos) => {
                    let mut dir = prefix.to_owned();
                    dir.append(rel.substring_char(0, pos + 1));
                    proof {
                        crate::strutil::lemma_first_at_unique(rel@, '/', pos as int);
                        assert(dir@ =~= dir_group_of(entries@[i as int].key@, prefix@));
                        assert(has_char(rel_of(entries@[i as int].key@, prefix@), '/')) by {
                            assert(rel@[pos as int] == '/');
                        }
                        assert(!qualifies_file(entries@[i as int].key@, prefix@));
                        assert(group_witnessed(dir@, entries@, prefix@));
                    }
                    let ghost old_dirs = dirs@;
                    let ghost dirv = dir@;
                    insert_sorted_unique(&mut dirs, dir);
                    proof {
                        assert forall|k: int| 0 <= k < dirs@.len() implies group_witnessed(
                            #[trigger] dirs@[k]@,
                            entries@,
                            prefix@,
                        ) by {
                            assert(contains_view(dirs@, dirs@[k]@));
                            if contains_view(old_dirs, dirs@[k]@) {
                                let k2 = choose|k2: int|
                                    0 <= k2 < old_dirs.len() && #[trigger] old_dirs[k2]@ == dirs@[
                                    k]@;
                                assert(group_witnessed(old_dirs[k2]@, entries@, prefix@));
                            } else {
                                assert(dirs@[k]@ == dirv);
                            }
                        }
                    }
                },
                None => {
                    proof {
                        assert(qualifies_file(entries@[i as int].key@, prefix@));
                    }
                    let item = FileEntry {
                        key: e.key.clone(),
                        size: Some(e.size),
                        last_modified_ms: e.last_modified_ms,
                        etag: match &e.etag {
                            Some(x) => Some(x.clone()),
                            None => None,
                        },
                        is_prefix: false,
                        protected: starts_with_str(key, "analytics/daily/"),
                    };
                    proof {
                        assert(file_match(item, entries@[i as int]));
                        assert(item_witnessed(item, entries@, prefix@));
                    }
                    let ghost fbefore = files@;
                    files.push(item);
                    count += 1;
                    proof {
                        wit = wit.push(i as int);
                        assert forall|t: int|
                            0 <= t < i + 1 && qualifies_file(
                                #[trigger] entries@[t].key@,
                                prefix@,
                            ) implies entry_delivered(entries@[t], files@) by {
                            if t < i {
                                assert(entry_delivered(entries@[t], fbefore));
                                let k0 = choose|k0: int| #![trigger fbefore[k0]]
                                    0 <= k0 < fbefore.len() && file_match(
                                        fbefore[k0],
                                        entries@[t],
                                    );
                                assert(files@[k0] == fbefore[k0]);
                            } else {
                                assert(files@[fbefore.len() as int] == item);
                            }
                        }
                    }
                },
            }
        }
        i += 1;
    }
    let ghost files_v = files@;
    proof {
        if raw_keys_distinct(entries@) {
            assert forall|k1: int, k2: int| 0 <= k1 < k2 < files_v.len() implies (
            #[trigger] files_v[k1]).key@ != (#[trigger] files_v[k2]).key@ by {
                assert(wit[k1] < wit[k2] < n);
                assert(entries@[wit[k1]].key@ != entries@[wit[k2]].key@);
                assert(files_v[k1].key == entries@[wit[k1]].key);
                assert(files_v[k2].key == entries@[wit[k2]].key);
            }
        }
    }
    let sorted_files = sort_entries_by_key(files);
    let mut items: Vec<FileEntry> = Vec::new();
    let dn: usize = dirs.len();
    let mut d: usize = 0;
    while d < dn
        invariant
            dn == dirs@.len(),
            d <= dn,
            items@.len() == d,
            strings_sorted_strict(dirs@),
            forall|k: int|
                0 <= k < d ==> (#[trigger] items@[k]).is_prefix && items@[k].key == dirs@[k]
                    && items@[k].protected == spec_starts_with(
                    items@[k].key@,
                    "analytics/daily/"@,
                ),
        decreases dn - d,
    {
        let dk = dirs[d].clone();
        let protected = starts_with_str(dk.as_str(), "analytics/daily/");
        items.push(
            FileEntry {
                key: dk,
                size: None,
                last_modified_ms: None,
                etag: None,
                is_prefix: true,
                protected,
            },
        );
        d += 1;
    }
    let ghost dir_items = items@;
    let fn2: usize = sorted_files.len();
    let mut f: usize = 0;
    while f < fn2
        invariant
            fn2 == sorted_files@.len(),
            f <= fn2,
            items@.len() == dir_items.len() + f,
            items@.subrange(0, dir_items.len() as int) == dir_items,
            forall|k: int|
                dir_items.len() <= k < items@.len() ==> #[trigger] items@[k] == sorted_files@[k
                    - dir_items.len()],
        decreases fn2 - f,
    {
        let item = clone_file_entry(&sorted_files[f]);
        items.push(item);
        proof {
            assert(items@.subrange(0, dir_items.len() as int) =~= dir_items);
        }
        f += 1;
    }
    let page = ListPage { prefix: prefix.to_owned(), items, next_token: None };
    proof {
        let q = page.items@;
        let dl = dir_items.len() as int;
        assert forall|k: int| 0 <= k < q.len() implies ((#[trigger] q[k].is_prefix) <==> k
            < dl) by {
            if k < dl {
                assert(q[k] == dir_items[k]);
            } else {
                assert(q[k] == sorted_files@[k - dl]);
                assert(sorted_files@.contains(sorted_files@[k - dl]));
                assert(files_v.contains(sorted_files@[k - dl]));
            }
        }
        assert forall|i1: int, j1: int|
            0 <= i1 < j1 < q.len() && (#[trigger] q[i1].is_prefix) == (
            #[trigger] q[j1].is_prefix) implies lex_le(q[i1].key@, q[j1].key@) by {
            if i1 < dl && j1 < dl {
                assert(q[i1] == dir_items[i1]);
                assert(q[j1] == dir_items[j1]);
                assert(q[i1].key == dirs@[i1] && q[j1].key == dirs@[j1]);
            } else if i1 >= dl && j1 >= dl {
                assert(q[i1] == sorted_files@[i1 - dl]);
                assert(q[j1] == sorted_files@[j1 - dl]);
            }
        }
        assert forall|k: int| 0 <= k < q.len() implies (#[trigger] q[k].protected)
            == spec_starts_with(q[k].key@, "analytics/daily/"@) by {
            if k >= dl {
                assert(q[k] == sorted_files@[k - dl]);
                assert(sorted_files@.contains(sorted_files@[k - dl]));
                assert(files_v.contains(q[k]));
                let kf = choose|kf: int| 0 <= kf < files_v.len() && #[trigger] files_v[kf] == q[k];
                assert(item_witnessed(files_v[kf], entries@, prefix@));
                let t2 = choose|t2: int|
                    0 <= t2 < entries@.len() && file_match(files_v[kf], #[trigger] entries@[t2])
                        && qualifies_file(entries@[t2].key@, prefix@);
                assert(q[k].key == entries@[t2].key);
            } else {
                assert(q[k] == dir_items[k]);
            }
        }
        assert forall|k: int|
            0 <= k < q.len() && !(#[trigger] q[k].is_prefix) implies item_witnessed(
            q[k],
            entries@,
            prefix@,
        ) by {
            assert(q[k] == sorted_files@[k - dl]);
            assert(sorted_files@.contains(q[k]));
            assert(files_v.contains(q[k]));
            let kf = choose|kf: int| 0 <= kf < files_v.len() && #[trigger] files_v[kf] == q[k];
            assert(item_witnessed(files_v[kf], entries@, prefix@));
        }
        assert forall|k: int|
            0 <= k < q.len() && (#[trigger] q[k].is_prefix) implies group_witnessed(
            q[k].key@,
            entries@,
            prefix@,
        ) by {
            assert(q[k] == dir_items[k]);
            assert(q[k].key == dirs@[k]);
            assert(group_witnessed(dirs@[k]@, entries@, prefix@));
        }
        lemma_count_objects_split(q, dl);
        assert(q.len() - dl == sorted_files@.len());
        assert(sorted_files@.len() == files_v.len()) by {
            broadcast use vstd::seq_lib::group_to_multiset_ensures;

            assert(sorted_files@.len() == sorted_files@.to_multiset().len());
            assert(files_v.len() == files_v.to_multiset().len());
        }
        assert(files_v.len() <= max_keys);
        if raw_keys_distinct(entries@) {
            lemma_permutation_keeps_distinct_keys(files_v, sorted_files@);
            assert forall|k1: int, k2: int|
                0 <= k1 < k2 < q.len() && !(#[trigger] q[k1]).is_prefix && !(
                #[trigger] q[k2]).is_prefix implies q[k1].key@ != q[k2].key@ by {
                assert(q[k1] == sorted_files@[k1 - dl]);
                assert(q[k2] == sorted_files@[k2 - dl]);
            }
        }
        if entries@.len() <= max_keys {
            assert forall|t: int|
                0 <= t < entries@.len() && qualifies_file(
                    #[trigger] entries@[t].key@,
                    prefix@,
                ) implies entry_delivered(entries@[t], q) by {
                assert(entry_delivered(entries@[t], files_v));
                let kf = choose|kf: int| #![trigger files_v[kf]]
                    0 <= kf < files_v.len() && file_match(files_v[kf], entries@[t]);
                assert(files_v.contains(files_v[kf]));
                assert(sorted_files@.contains(files_v[kf]));
                let k0 = choose|k0: int|
                    0 <= k0 < sorted_files@.len() && #[trigger] sorted_files@[k0] == files_v[kf];
                assert(q[k0 + dl] == sorted_files@[k0]);
                assert(file_match(q[k0 + dl], entries@[t]));
            }
        }
    }
    page
}

/// A field-wise copy of a listing item.
fn clone_file_entry(e: &FileEntry) -> (r: FileEntry)
    ensures
        r == *e,
{
    FileEntry {
        key: e.key.clone(),
        size: e.size,
        last_modified_ms: e.last_modified_ms,
        etag: match &e.etag {
            Some(x) => Some(x.clone()),
            None => None,
        },
        is_prefix: e.is_prefix,
        protected: e.protected,
    }
}



/// A listing item carries some non-directory raw entry of the whole scan.
pub open spec fn flat_witnessed(item: FileEntry, entries: Seq<RawEntry>) -> bool {
    exists|t: int|
        0 <= t < entries.len() && file_match(item, #[trigger] entries[t]) && !is_dir_key(
            entries[t].key@,
        )
}

/// Build the flat recursive listing: every object (at any depth) as an
/// item, capped at `max_total`, sorted by key, protected entries marked.
#[verifier::rlimit(100)]
#[verifier::spinoff_prover]
pub fn flat_entries_from_listing(entries: &Vec<RawEntry>, max_total: usize) -> (r: Vec<FileEntry>)
    ensures
        r@.len() <= max_total,
        entries_sorted(r@),
        forall|k: int| 0 <= k < r@.len() ==> !(#[trigger] r@[k]).is_prefix,
        forall|k: int|
            0 <= k < r@.len() ==> (#[trigger] r@[k]).protected == spec_starts_with(
                r@[k].key@,
                "analytics/daily/"@,
            ),
        forall|k: int| 0 <= k < r@.len() ==> flat_witnessed(#[trigger] r@[k], entries@),
        entries@.len() <= max_total ==> forall|t: int|
            0 <= t < entries@.len() && !is_dir_key(#[trigger] entries@[t].key@)
                ==> entry_delivered(entries@[t], r@),
        raw_keys_distinct(entries@) ==> forall|k1: int, k2: int|
            0 <= k1 < k2 < r@.len() ==> (#[trigger] r@[k1]).key@ != (#[trigger] r@[k2]).key@,
{
    let n: usize = entries.len();
    let mut files: Vec<FileEntry> = Vec::new();
    let ghost mut wit: Seq<int> = Seq::empty();
    let mut i: usize = 0;
    while i < n && files.len() < max_total
        invariant
            n == entries@.len(),
            i <= n,
            files@.len() <= max_total,
            files@.len() <= i,
            wit.len() == files@.len(),
            forall|k: int| 0 <= k < files@.len() ==> 0 <= #[trigger] wit[k] < i,
            forall|k: int|
                0 <= k < files@.len() ==> (#[trigger] files@[k]).key == entries@[wit[k]].key,
            forall|k1: int, k2: int|
                0 <= k1 < k2 < files@.len() ==> #[trigger] wit[k1] < #[trigger] wit[k2],
            forall|k: int|
                0 <= k < files@.len() ==> !(#[trigger] files@[k]).is_prefix && files@[k].protected
                    == spec_starts_with(files@[k].key@, "analytics/daily/"@) && flat_witnessed(
                    files@[k],
                    entries@,
                ),
            forall|t: int|
                0 <= t < i && !is_dir_key(#[trigger] entries@[t].key@) ==> entry_delivered(
                    entries@[t],
                    files@,
                ),
        decreases n - i,
    {
        let e = &entries[i];
        let key = e.key.as_str();
        let kn: usize = key.unicode_len();
        let is_dir = kn > 0 && key.get_char(kn - 1) == '/';
        if !is_dir {
            let item = FileEntry {
                key: e.key.clone(),
                size: Some(e.size),
                last_modified_ms: e.last_modified_ms,
                etag: match &e.etag {
                    Some(x) => Some(x.clone()),
                    None => None,
                },
                is_prefix: false,
                protected: starts_with_str(key, "analytics/daily/"),
            };
            proof {
                assert(file_match(item, entries@[i as int]));
                assert(flat_witnessed(item, entries@));
            }
            let ghost fbefore = files@;
            files.push(item);
            proof {
                wit = wit.push(i as int);
                assert forall|t: int|
                    0 <= t < i + 1 && !is_dir_key(#[trigger] entries@[t].key@) implies
                    entry_delivered(entries@[t], files@) by {
                    if t < i {
                        assert(entry_delivered(entries@[t], fbefore));
                        let k0 = choose|k0: int| #![trigger fbefore[k0]]
                            0 <= k0 < fbefore.len() && file_match(fbefore[k0], entries@[t]);
                        assert(files@[k0] == fbefore[k0]);
                    } else {
                        assert(files@[fbefore.len() as int] == item);
                    }
                }
            }
        }
        i += 1;
    }
    let ghost files_v = files@;
    proof {
        if raw_keys_distinct(entries@) {
            assert forall|k1: int, k2: int| 0 <= k1 < k2 < files_v.len() implies (
            #[trigger] files_v[k1]).key@ != (#[trigger] files_v[k2]).key@ by {
                assert(wit[k1] < wit[k2] < n);
                assert(entries@[wit[k1]].key@ != entries@[wit[k2]].key@);
                assert(files_v[k1].key == entries@[wit[k1]].key);
                assert(files_v[k2].key == entries@[wit[k2]].key);
            }
        }
    }
    let sorted = sort_entries_by_key(files);
    proof {
        broadcast use vstd::seq_lib::group_to_multiset_ensures;

        assert(sorted@.len() == sorted@.to_multiset().len());
        assert(files_v.len() == files_v.to_multiset().len());
        assert(sorted@.len() == files_v.len());
        assert forall|k: int| 0 <= k < sorted@.len() implies !(#[trigger] sorted@[k]).is_prefix
            && (#[trigger] sorted@[k]).protected == spec_starts_with(
            sorted@[k].key@,
            "analytics/daily/"@,
        ) && flat_witnessed(#[trigger] sorted@[k], entries@) by {
            assert(sorted@.contains(sorted@[k]));
            assert(files_v.contains(sorted@[k]));
            let kf = choose|kf: int| 0 <= kf < files_v.len() && #[trigger] files_v[kf] == sorted@[
            k];
            assert(flat_witnessed(files_v[kf], entries@));
        }
        if raw_keys_distinct(entries@) {
            lemma_permutation_keeps_distinct_keys(files_v, sorted@);
        }
        if entries@.len() <= max_total {
            assert forall|t: int|
                0 <= t < entries@.len() && !is_dir_key(#[trigger] entries@[t].key@) implies
                entry_delivered(entries@[t], sorted@) by {
                assert(entry_delivered(entries@[t], files_v));
                let kf = choose|kf: int| #![trigger files_v[kf]]
                    0 <= kf < files_v.len() && file_match(files_v[kf], entries@[t]);
                assert(files_v.contains(files_v[kf]));
                assert(sorted@.contains(files_v[kf]));
                let k0 = choose|k0: int|
                    0 <= k0 < sorted@.len() && #[trigger] sorted@[k0] == files_v[kf];
                assert(file_match(sorted@[k0], entries@[t]));
            }
        }
    }
    sorted
}

} // verus!
