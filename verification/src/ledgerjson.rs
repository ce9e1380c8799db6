//! The daily ledger's JSON object form: a canonical encoder, an exact
//! decoder, and the proof that decoding an encoded ledger returns an equal
//! value.

use vstd::prelude::*;

verus! {

use crate::jsontext::ascii_bytes;
use crate::jsontext::dec_of;
use crate::jsontext::expect_lit;
use crate::jsontext::is_digit_byte;
use crate::jsontext::json_plain;
use crate::jsontext::jstr_of;
use crate::jsontext::lemma_concat_split;
use crate::jsontext::lemma_sp_jstr_exact;
use crate::jsontext::lemma_sp_lit_exact;
use crate::jsontext::lemma_sp_u64_exact;
use crate::jsontext::parse_jstr;
use crate::jsontext::parse_u64;
use crate::jsontext::push_jstr;
use crate::jsontext::push_lit;
use crate::jsontext::push_u64;
use crate::jsontext::sp_jstr;
use crate::jsontext::sp_lit;
use crate::jsontext::sp_u64;
use crate::usage::DailyLedger;
use crate::usage::OpCounters;

/// A ledger whose string fields can stand in a JSON string unescaped.
pub open spec fn ledger_encodable(l: DailyLedger) -> bool {
    json_plain(l.date@) && json_plain(l.updated_at@)
}

/// One `"key":value` pair with a numeric value, the key literal given with
/// its surrounding punctuation.
pub open spec fn kv_bytes(key: Seq<char>, n: u64) -> Seq<u8> {
    ascii_bytes(key) + dec_of(n as nat)
}

/// The counter object: every operation, in a fixed order.
#[verifier::opaque]
pub open spec fn json_counters(c: OpCounters) -> Seq<u8> {
    kv_bytes("{\"ListObjectsV2\":"@, c.list_objects_v2) + kv_bytes(
        ",\"GetBucketLocation\":"@,
        c.get_bucket_location,
    ) + kv_bytes(",\"GetObject\":"@, c.get_object) + kv_bytes(",\"HeadObject\":"@, c.head_object)
        + kv_bytes(",\"UploadPart\":"@, c.upload_part) + kv_bytes(
        ",\"CopyObject\":"@,
        c.copy_object,
    ) + kv_bytes(",\"PutObject\":"@, c.put_object) + kv_bytes(
        ",\"CreateMultipartUpload\":"@,
        c.create_multipart_upload,
    ) + kv_bytes(",\"CompleteMultipartUpload\":"@, c.complete_multipart_upload) + kv_bytes(
        ",\"DeleteObjects\":"@,
        c.delete_objects,
    ) + kv_bytes(",\"AbortMultipartUpload\":"@, c.abort_multipart_upload) + kv_bytes(
        ",\"DeleteObject\":"@,
        c.delete_object,
    ) + ascii_bytes("}"@)
}

/// The opening half of the ledger object: date and the two counter
/// objects (grouped from the right, the way the parser consumes it).
pub open spec fn json_ledger_head(l: DailyLedger) -> Seq<u8> {
    ascii_bytes("{\"date\":"@) + (jstr_of(l.date@) + (ascii_bytes(",\"class_a\":"@) + (
    json_counters(l.class_a) + (ascii_bytes(",\"class_b\":"@) + json_counters(l.class_b)))))
}

/// The closing half of the ledger object: the byte totals, storage levels,
/// revision and timestamp.
#[verifier::opaque]
pub open spec fn json_ledger_tail(l: DailyLedger) -> Seq<u8> {
    kv_bytes(",\"ingress_bytes\":"@, l.ingress_bytes) + (kv_bytes(
        ",\"egress_bytes\":"@,
        l.egress_bytes,
    ) + (kv_bytes(",\"storage_bytes\":"@, l.storage_bytes) + (kv_bytes(
        ",\"peak_storage_bytes\":"@,
        l.peak_storage_bytes,
    ) + (kv_bytes(",\"deleted_storage_bytes\":"@, l.deleted_storage_bytes) + (kv_bytes(
        ",\"rev\":"@,
        l.rev,
    ) + (ascii_bytes(",\"updated_at\":"@) + (jstr_of(l.updated_at@) + ascii_bytes("}"@))))))))
}

/// The ledger object in canonical order.
pub open spec fn json_ledger(l: DailyLedger) -> Seq<u8> {
    json_ledger_head(l) + json_ledger_tail(l)
}

/// The ledger's mathematical image: its fields with strings as sequences.
pub struct LedgerModel {
    pub date: Seq<char>,
    pub class_a: OpCounters,
    pub class_b: OpCounters,
    pub ingress_bytes: u64,
    pub egress_bytes: u64,
    pub storage_bytes: u64,
    pub peak_storage_bytes: u64,
    pub deleted_storage_bytes: u64,
    pub rev: u64,
    pub updated_at: Seq<char>,
}

/// The image of a ledger value.
pub open spec fn ledger_model(l: DailyLedger) -> LedgerModel {
    LedgerModel {
        date: l.date@,
        class_a: l.class_a,
        class_b: l.class_b,
        ingress_bytes: l.ingress_bytes,
        egress_bytes: l.egress_bytes,
        storage_bytes: l.storage_bytes,
        peak_storage_bytes: l.peak_storage_bytes,
        deleted_storage_bytes: l.deleted_storage_bytes,
        rev: l.rev,
        updated_at: l.updated_at@,
    }
}

/// Parse one key literal followed by a number.
pub open spec fn sp_kv(s: Seq<u8>, i: int, key: Seq<char>) -> Option<(u64, int)> {
    match sp_lit(s, i, ascii_bytes(key)) {
        None => None,
        Some(j) => sp_u64(s, j),
    }
}

/// Parse the canonical counter object.
pub open spec fn sp_counters(s: Seq<u8>, i: int) -> Option<(OpCounters, int)> {
    match sp_kv(s, i, "{\"ListObjectsV2\":"@) {
        None => None,
        Some((v1, i1)) => match sp_kv(s, i1, ",\"GetBucketLocation\":"@) {
            None => None,
            Some((v2, i2)) => match sp_kv(s, i2, ",\"GetObject\":"@) {
                None => None,
                Some((v3, i3)) => match sp_kv(s, i3, ",\"HeadObject\":"@) {
                    None => None,
                    Some((v4, i4)) => match sp_kv(s, i4, ",\"UploadPart\":"@) {
                        None => None,
                        Some((v5, i5)) => match sp_kv(s, i5, ",\"CopyObject\":"@) {
                            None => None,
                            Some((v6, i6)) => match sp_kv(s, i6, ",\"PutObject\":"@) {
                                None => None,
                                Some((v7, i7)) => match sp_kv(
                                    s,
                                    i7,
                                    ",\"CreateMultipartUpload\":"@,
                                ) {
                                    None => None,
                                    Some((v8, i8)) => match sp_kv(
                                        s,
                                        i8,
                                        ",\"CompleteMultipartUpload\":"@,
                                    ) {
                                        None => None,
                                        Some((v9, i9)) => match sp_kv(s, i9, ",\"DeleteObjects\":"@) {
                                            None => None,
                                            Some((v10, i10)) => match sp_kv(
                                                s,
                                                i10,
                                                ",\"AbortMultipartUpload\":"@,
                                            ) {
                                                None => None,
                                                Some((v11, i11)) => match sp_kv(
                                                    s,
                                                    i11,
                                                    ",\"DeleteObject\":"@,
                                                ) {
                                                    None => None,
                                                    Some((v12, i12)) => match sp_lit(
                                                        s,
                                                        i12,
                                                        ascii_bytes("}"@),
                                                    ) {
                                                        None => None,
                                                        Some(e) => Some(
                                                            (
                                                                OpCounters {
                                                                    list_objects_v2: v1,
                                                                    get_bucket_location: v2,
                                                                    get_object: v3,
                                                                    head_object: v4,
                                                                    upload_part: v5,
                                                                    copy_object: v6,
                                                                    put_object: v7,
                                                                    create_multipart_upload: v8,
                                                                    complete_multipart_upload: v9,
                                                                    delete_objects: v10,
                                                                    abort_multipart_upload: v11,
                                                                    delete_object: v12,
                                                                },
                                                                e,
                                                            ),
                                                        ),
                                                    },
                                                },
                                            },
                                        },
                                    },
                                },
                            },
                        },
                    },
                },
            },
        },
    }
}

/// Parse the canonical ledger object, which must span the whole input.
pub open spec fn sp_ledger(s: Seq<u8>) -> Option<LedgerModel> {
    match sp_lit(s, 0, ascii_bytes("{\"date\":"@)) {
        None => None,
        Some(i0) => match sp_jstr(s, i0) {
            None => None,
            Some((date, i1)) => match sp_lit(s, i1, ascii_bytes(",\"class_a\":"@)) {
                None => None,
                Some(i2) => match sp_counters(s, i2) {
                    None => None,
                    Some((ca, i3)) => match sp_lit(s, i3, ascii_bytes(",\"class_b\":"@)) {
                        None => None,
                        Some(i4) => match sp_counters(s, i4) {
                            None => None,
                            Some((cb, i5)) => match sp_kv(s, i5, ",\"ingress_bytes\":"@) {
                                None => None,
                                Some((inb, i6)) => match sp_kv(s, i6, ",\"egress_bytes\":"@) {
                                    None => None,
                                    Some((egb, i7)) => match sp_kv(s, i7, ",\"storage_bytes\":"@) {
                                        None => None,
                                        Some((stb, i8)) => match sp_kv(
                                            s,
                                            i8,
                                            ",\"peak_storage_bytes\":"@,
                                        ) {
                                            None => None,
                                            Some((pkb, i9)) => match sp_kv(
                                                s,
                                                i9,
                                                ",\"deleted_storage_bytes\":"@,
                                            ) {
                                                None => None,
                                                Some((dlb, i10)) => match sp_kv(s, i10, ",\"rev\":"@) {
                                                    None => None,
                                                    Some((rv, i11)) => match sp_lit(
                                                        s,
                                                        i11,
                                                        ascii_bytes(",\"updated_at\":"@),
                                                    ) {
                                                        None => None,
                                                        Some(i12) => match sp_jstr(s, i12) {
                                                            None => None,
                                                            Some((ua, i13)) => match sp_lit(
                                                                s,
                                                                i13,
                                                                ascii_bytes("}"@),
                                                            ) {
                                                                None => None,
                                                                Some(e) => if e == s.len() {
                                                                    Some(
                                                                        LedgerModel {
                                                                            date: date,
                                                                            class_a: ca,
                                                                            class_b: cb,
                                                                            ingress_bytes: inb,
                                                                            egress_bytes: egb,
                                                                            storage_bytes: stb,
                                                                            peak_storage_bytes: pkb,
                                                                            deleted_storage_bytes: dlb,
                                                                            rev: rv,
                                                                            updated_at: ua,
                                                                        },
                                                                    )
                                                                } else {
                                                                    None
                                                                },
                                                            },
                                                        },
                                                    },
                                                },
                                            },
                                        },
                                    },
                                },
                            },
                        },
                    },
                },
            },
        },
    }
}

// ---------------------------------------------------------------------
// Emitters.
// ---------------------------------------------------------------------
/// Append the counter object.
#[verifier::rlimit(100)]
#[verifier::spinoff_prover]
pub fn push_counters(out: &mut Vec<u8>, c: &OpCounters)
    ensures
        final(out)@ == old(out)@ + json_counters(*c),
{
    proof {
        reveal(json_counters);
    }
    push_lit(out, "{\"ListObjectsV2\":");
    push_u64(out, c.list_objects_v2);
    push_lit(out, ",\"GetBucketLocation\":");
    push_u64(out, c.get_bucket_location);
    push_lit(out, ",\"GetObject\":");
    push_u64(out, c.get_object);
    push_lit(out, ",\"HeadObject\":");
    push_u64(out, c.head_object);
    push_lit(out, ",\"UploadPart\":");
    push_u64(out, c.upload_part);
    push_lit(out, ",\"CopyObject\":");
    push_u64(out, c.copy_object);
    push_lit(out, ",\"PutObject\":");
    push_u64(out, c.put_object);
    push_lit(out, ",\"CreateMultipartUpload\":");
    push_u64(out, c.create_multipart_upload);
    push_lit(out, ",\"CompleteMultipartUpload\":");
    push_u64(out, c.complete_multipart_upload);
    push_lit(out, ",\"DeleteObjects\":");
    push_u64(out, c.delete_objects);
    push_lit(out, ",\"AbortMultipartUpload\":");
    push_u64(out, c.abort_multipart_upload);
    push_lit(out, ",\"DeleteObject\":");
    push_u64(out, c.delete_object);
    push_lit(out, "}");
    proof {
        assert(out@ =~= old(out)@ + json_counters(*c));
    }
}

/// Encode a ledger to its canonical JSON bytes.
/// Append one key literal and its numeric value.
pub fn push_kv(out: &mut Vec<u8>, key: &str, n: u64)
    ensures
        final(out)@ == old(out)@ + kv_bytes(key@, n),
{
    push_lit(out, key);
    push_u64(out, n);
    proof {
        assert(out@ =~= old(out)@ + kv_bytes(key@, n));
    }
}

/// Encode a ledger to its canonical JSON bytes.
#[verifier::rlimit(100)]
#[verifier::spinoff_prover]
pub fn encode_ledger(l: &DailyLedger) -> (r: Vec<u8>)
    requires
        ledger_encodable(*l),
    ensures
        r@ == json_ledger(*l),
{
    let mut out: Vec<u8> = Vec::new();
    push_lit(&mut out, "{\"date\":");
    push_jstr(&mut out, l.date.as_str());
    push_lit(&mut out, ",\"class_a\":");
    push_counters(&mut out, &l.class_a);
    push_lit(&mut out, ",\"class_b\":");
    push_counters(&mut out, &l.class_b);
    let ghost mid = out@;
    proof {
        assert(mid =~= json_ledger_head(*l));
    }
    push_kv(&mut out, ",\"ingress_bytes\":", l.ingress_bytes);
    push_kv(&mut out, ",\"egress_bytes\":", l.egress_bytes);
    push_kv(&mut out, ",\"storage_bytes\":", l.storage_bytes);
    push_kv(&mut out, ",\"peak_storage_bytes\":", l.peak_storage_bytes);
    push_kv(&mut out, ",\"deleted_storage_bytes\":", l.deleted_storage_bytes);
    push_kv(&mut out, ",\"rev\":", l.rev);
    push_lit(&mut out, ",\"updated_at\":");
    push_jstr(&mut out, l.updated_at.as_str());
    push_lit(&mut out, "}");
    proof {
        reveal(json_ledger_tail);
        assert(out@ =~= mid + json_ledger_tail(*l));
        assert(out@ =~= json_ledger(*l));
    }
    out
}

// ---------------------------------------------------------------------
// Parsers.
// ---------------------------------------------------------------------
/// Parse one key literal followed by a number.
pub fn parse_kv(s: &Vec<u8>, i: usize, key: &str) -> (r: Option<(u64, usize)>)
    ensures
        match r {
            Some((v, j)) => sp_kv(s@, i as int, key@) == Some((v, j as int)),
            None => sp_kv(s@, i as int, key@) is None,
        },
{
    match expect_lit(s, i, key) {
        None => None,
        Some(j) => parse_u64(s, j),
    }
}

/// Parse the canonical counter object.
pub fn parse_counters(s: &Vec<u8>, i: usize) -> (r: Option<(OpCounters, usize)>)
    ensures
        match r {
            Some((c, j)) => sp_counters(s@, i as int) == Some((c, j as int)),
            None => sp_counters(s@, i as int) is None,
        },
{
    let (v1, i1) = match parse_kv(s, i, "{\"ListObjectsV2\":") {
        None => {
            return None;
        },
        Some(x) => x,
    };
    let (v2, i2) = match parse_kv(s, i1, ",\"GetBucketLocation\":") {
        None => {
            return None;
        },
        Some(x) => x,
    };
    let (v3, i3) = match parse_kv(s, i2, ",\"GetObject\":") {
        None => {
            return None;
        },
        Some(x) => x,
    };
    let (v4, i4) = match parse_kv(s, i3, ",\"HeadObject\":") {
        None => {
            return None;
        },
        Some(x) => x,
    };
    let (v5, i5) = match parse_kv(s, i4, ",\"UploadPart\":") {
        None => {
            return None;
        },
        Some(x) => x,
    };
    let (v6, i6) = match parse_kv(s, i5, ",\"CopyObject\":") {
        None => {
            return None;
        },
        Some(x) => x,
    };
    let (v7, i7) = match parse_kv(s, i6, ",\"PutObject\":") {
        None => {
            return None;
        },
        Some(x) => x,
    };
    let (v8, i8) = match parse_kv(s, i7, ",\"CreateMultipartUpload\":") {
        None => {
            return None;
        },
        Some(x) => x,
    };
    let (v9, i9) = match parse_kv(s, i8, ",\"CompleteMultipartUpload\":") {
        None => {
            return None;
        },
        Some(x) => x,
    };
    let (v10, i10) = match parse_kv(s, i9, ",\"DeleteObjects\":") {
        None => {
            return None;
        },
        Some(x) => x,
    };
    let (v11, i11) = match parse_kv(s, i10, ",\"AbortMultipartUpload\":") {
        None => {
            return None;
        },
        Some(x) => x,
    };
    let (v12, i12) = match parse_kv(s, i11, ",\"DeleteObject\":") {
        None => {
            return None;
        },
        Some(x) => x,
    };
    let e = match expect_lit(s, i12, "}") {
        None => {
            return None;
        },
        Some(x) => x,
    };
    Some(
        (
            OpCounters {
                list_objects_v2: v1,
                get_bucket_location: v2,
                get_object: v3,
                head_object: v4,
                upload_part: v5,
                copy_object: v6,
                put_object: v7,
                create_multipart_upload: v8,
                complete_multipart_upload: v9,
                delete_objects: v10,
                abort_multipart_upload: v11,
                delete_object: v12,
            },
            e,
        ),
    )
}

/// Decode a canonical ledger object; `None` on anything else.
pub fn decode_ledger(s: &Vec<u8>) -> (r: Option<DailyLedger>)
    ensures
        match r {
            Some(l) => sp_ledger(s@) == Some(ledger_model(l)),
            None => sp_ledger(s@) is None,
        },
{
    let i0 = match expect_lit(s, 0, "{\"date\":") {
        None => {
            return None;
        },
        Some(x) => x,
    };
    let (date, i1) = match parse_jstr(s, i0) {
        None => {
            return None;
        },
        Some(x) => x,
    };
    let i2 = match expect_lit(s, i1, ",\"class_a\":") {
        None => {
            return None;
        },
        Some(x) => x,
    };
    let (ca, i3) = match parse_counters(s, i2) {
        None => {
            return None;
        },
        Some(x) => x,
    };
    let i4 = match expect_lit(s, i3, ",\"class_b\":") {
        None => {
            return None;
        },
        Some(x) => x,
    };
    let (cb, i5) = match parse_counters(s, i4) {
        None => {
            return None;
        },
        Some(x) => x,
    };
    let (inb, i6) = match parse_kv(s, i5, ",\"ingress_bytes\":") {
        None => {
            return None;
        },
        Some(x) => x,
    };
    let (egb, i7) = match parse_kv(s, i6, ",\"egress_bytes\":") {
        None => {
            return None;
        },
        Some(x) => x,
    };
    let (stb, i8) = match parse_kv(s, i7, ",\"storage_bytes\":") {
        None => {
            return None;
        },
        Some(x) => x,
    };
    let (pkb, i9) = match parse_kv(s, i8, ",\"peak_storage_bytes\":") {
        None => {
            return None;
        },
        Some(x) => x,
    };
    let (dlb, i10) = match parse_kv(s, i9, ",\"deleted_storage_bytes\":") {
        None => {
            return None;
        },
        Some(x) => x,
    };
    let (rv, i11) = match parse_kv(s, i10, ",\"rev\":") {
        None => {
            return None;
        },
        Some(x) => x,
    };
    let i12 = match expect_lit(s, i11, ",\"updated_at\":") {
        None => {
            return None;
        },
        Some(x) => x,
    };
    let (ua, i13) = match parse_jstr(s, i12) {
        None => {
            return None;
        },
        Some(x) => x,
    };
    let e = match expect_lit(s, i13, "}") {
        None => {
            return None;
        },
        Some(x) => x,
    };
    if e != s.len() {
        return None;
    }
    Some(
        DailyLedger {
            date,
            class_a: ca,
            class_b: cb,
            ingress_bytes: inb,
            egress_bytes: egb,
            storage_bytes: stb,
            peak_storage_bytes: pkb,
            deleted_storage_bytes: dlb,
            rev: rv,
            updated_at: ua,
        },
    )
}

// ---------------------------------------------------------------------
// Parse-of-print.
// ---------------------------------------------------------------------
/// A key-and-number pair written at `p`, with a non-digit after it, parses
/// back exactly.
proof fn lemma_sp_kv_exact(s: Seq<u8>, p: int, key: Seq<char>, n: u64)
    requires
        0 <= p,
        p + kv_bytes(key, n).len() <= s.len(),
        s.subrange(p, p + kv_bytes(key, n).len()) == kv_bytes(key, n),
        p + kv_bytes(key, n).len() == s.len() || !is_digit_byte(s[p + kv_bytes(key, n).len()]),
    ensures
        sp_kv(s, p, key) == Some((n, p + kv_bytes(key, n).len())),
{
    lemma_concat_split(s, p, ascii_bytes(key), dec_of(n as nat));
    lemma_sp_lit_exact(s, p, ascii_bytes(key));
    lemma_sp_u64_exact(s, p + key.len(), n);
}

/// The first byte of a key literal is the byte of its first character.
proof fn lemma_first_byte(s: Seq<u8>, q: int, w: Seq<u8>)
    requires
        0 <= q,
        q + w.len() <= s.len(),
        s.subrange(q, q + w.len()) == w,
        w.len() > 0,
    ensures
        s[q] == w[0],
{
    assert(s.subrange(q, q + w.len())[0] == s[q]);
}

/// A counter object written at `p` parses back exactly.
#[verifier::rlimit(100)]
#[verifier::spinoff_prover]
proof fn lemma_sp_counters_exact(s: Seq<u8>, p: int, c: OpCounters)
    requires
        0 <= p,
        p + json_counters(c).len() <= s.len(),
        s.subrange(p, p + json_counters(c).len()) == json_counters(c),
    ensures
        sp_counters(s, p) == Some((c, p + json_counters(c).len())),
{
    reveal(json_counters);
    let k1 = kv_bytes("{\"ListObjectsV2\":"@, c.list_objects_v2);
    let k2 = kv_bytes(",\"GetBucketLocation\":"@, c.get_bucket_location);
    let k3 = kv_bytes(",\"GetObject\":"@, c.get_object);
    let k4 = kv_bytes(",\"HeadObject\":"@, c.head_object);
    let k5 = kv_bytes(",\"UploadPart\":"@, c.upload_part);
    let k6 = kv_bytes(",\"CopyObject\":"@, c.copy_object);
    let k7 = kv_bytes(",\"PutObject\":"@, c.put_object);
    let k8 = kv_bytes(",\"CreateMultipartUpload\":"@, c.create_multipart_upload);
    let k9 = kv_bytes(",\"CompleteMultipartUpload\":"@, c.complete_multipart_upload);
    let k10 = kv_bytes(",\"DeleteObjects\":"@, c.delete_objects);
    let k11 = kv_bytes(",\"AbortMultipartUpload\":"@, c.abort_multipart_upload);
    let k12 = kv_bytes(",\"DeleteObject\":"@, c.delete_object);
    let rb = ascii_bytes("}"@);
    let r13 = rb;
    let r12 = k12 + r13;
    let r11 = k11 + r12;
    let r10 = k10 + r11;
    let r9 = k9 + r10;
    let r8 = k8 + r9;
    let r7 = k7 + r8;
    let r6 = k6 + r7;
    let r5 = k5 + r6;
    let r4 = k4 + r5;
    let r3 = k3 + r4;
    let r2 = k2 + r3;
    let r1 = k1 + r2;
    assert(json_counters(c) =~= r1);
    // peel each pair off the front
    let p1 = p + k1.len();
    lemma_concat_split(s, p, k1, r2);
    let p2 = p1 + k2.len();
    lemma_concat_split(s, p1, k2, r3);
    let p3 = p2 + k3.len();
    lemma_concat_split(s, p2, k3, r4);
    let p4 = p3 + k4.len();
    lemma_concat_split(s, p3, k4, r5);
    let p5 = p4 + k5.len();
    lemma_concat_split(s, p4, k5, r6);
    let p6 = p5 + k6.len();
    lemma_concat_split(s, p5, k6, r7);
    let p7 = p6 + k7.len();
    lemma_concat_split(s, p6, k7, r8);
    let p8 = p7 + k8.len();
    lemma_concat_split(s, p7, k8, r9);
    let p9 = p8 + k9.len();
    lemma_concat_split(s, p8, k9, r10);
    let p10 = p9 + k10.len();
    lemma_concat_split(s, p9, k10, r11);
    let p11 = p10 + k11.len();
    lemma_concat_split(s, p10, k11, r12);
    let p12 = p11 + k12.len();
    lemma_concat_split(s, p11, k12, r13);
    // each number is followed by a comma or the closing brace, never a digit
    reveal_strlit("{\"ListObjectsV2\":");
    reveal_strlit(",\"GetBucketLocation\":");
    reveal_strlit(",\"GetObject\":");
    reveal_strlit(",\"HeadObject\":");
    reveal_strlit(",\"UploadPart\":");
    reveal_strlit(",\"CopyObject\":");
    reveal_strlit(",\"PutObject\":");
    reveal_strlit(",\"CreateMultipartUpload\":");
    reveal_strlit(",\"CompleteMultipartUpload\":");
    reveal_strlit(",\"DeleteObjects\":");
    reveal_strlit(",\"AbortMultipartUpload\":");
    reveal_strlit(",\"DeleteObject\":");
    reveal_strlit("}");
    assert((',' as u8) == 44);
    assert(('}' as u8) == 125);
    lemma_first_byte(s, p1, r2);
    assert(s[p1] == 44);
    lemma_sp_kv_exact(s, p, "{\"ListObjectsV2\":"@, c.list_objects_v2);
    lemma_first_byte(s, p2, r3);
    assert(s[p2] == 44);
    lemma_sp_kv_exact(s, p1, ",\"GetBucketLocation\":"@, c.get_bucket_location);
    lemma_first_byte(s, p3, r4);
    assert(s[p3] == 44);
    lemma_sp_kv_exact(s, p2, ",\"GetObject\":"@, c.get_object);
    lemma_first_byte(s, p4, r5);
    assert(s[p4] == 44);
    lemma_sp_kv_exact(s, p3, ",\"HeadObject\":"@, c.head_object);
    lemma_first_byte(s, p5, r6);
    assert(s[p5] == 44);
    lemma_sp_kv_exact(s, p4, ",\"UploadPart\":"@, c.upload_part);
    lemma_first_byte(s, p6, r7);
    assert(s[p6] == 44);
    lemma_sp_kv_exact(s, p5, ",\"CopyObject\":"@, c.copy_object);
    lemma_first_byte(s, p7, r8);
    assert(s[p7] == 44);
    lemma_sp_kv_exact(s, p6, ",\"PutObject\":"@, c.put_object);
    lemma_first_byte(s, p8, r9);
    assert(s[p8] == 44);
    lemma_sp_kv_exact(s, p7, ",\"CreateMultipartUpload\":"@, c.create_multipart_upload);
    lemma_first_byte(s, p9, r10);
    assert(s[p9] == 44);
    lemma_sp_kv_exact(s, p8, ",\"CompleteMultipartUpload\":"@, c.complete_multipart_upload);
    lemma_first_byte(s, p10, r11);
    assert(s[p10] == 44);
    lemma_sp_kv_exact(s, p9, ",\"DeleteObjects\":"@, c.delete_objects);
    lemma_first_byte(s, p11, r12);
    assert(s[p11] == 44);
    lemma_sp_kv_exact(s, p10, ",\"AbortMultipartUpload\":"@, c.abort_multipart_upload);
    lemma_first_byte(s, p12, r13);
    assert(s[p12] == 125);
    lemma_sp_kv_exact(s, p11, ",\"DeleteObject\":"@, c.delete_object);
    lemma_sp_lit_exact(s, p12, rb);
}

/// Decoding an encoded ledger returns an equal value: the canonical bytes
/// of any encodable ledger parse back to exactly its image.
#[verifier::rlimit(100)]
/// Where each token of the closing half parses, when it sits at `i` and
/// runs to the end of the input.
pub open spec fn tail_parse_ok(s: Seq<u8>, i: int, l: DailyLedger) -> bool {
    let q7 = i + kv_bytes(",\"ingress_bytes\":"@, l.ingress_bytes).len();
    let q8 = q7 + kv_bytes(",\"egress_bytes\":"@, l.egress_bytes).len();
    let q9 = q8 + kv_bytes(",\"storage_bytes\":"@, l.storage_bytes).len();
    let q10 = q9 + kv_bytes(",\"peak_storage_bytes\":"@, l.peak_storage_bytes).len();
    let q11 = q10 + kv_bytes(",\"deleted_storage_bytes\":"@, l.deleted_storage_bytes).len();
    let q12 = q11 + kv_bytes(",\"rev\":"@, l.rev).len();
    let q13 = q12 + ascii_bytes(",\"updated_at\":"@).len();
    let q14 = q13 + jstr_of(l.updated_at@).len();
    &&& sp_kv(s, i, ",\"ingress_bytes\":"@) == Some((l.ingress_bytes, q7))
    &&& sp_kv(s, q7, ",\"egress_bytes\":"@) == Some((l.egress_bytes, q8))
    &&& sp_kv(s, q8, ",\"storage_bytes\":"@) == Some((l.storage_bytes, q9))
    &&& sp_kv(s, q9, ",\"peak_storage_bytes\":"@) == Some((l.peak_storage_bytes, q10))
    &&& sp_kv(s, q10, ",\"deleted_storage_bytes\":"@) == Some((l.deleted_storage_bytes, q11))
    &&& sp_kv(s, q11, ",\"rev\":"@) == Some((l.rev, q12))
    &&& sp_lit(s, q12, ascii_bytes(",\"updated_at\":"@)) == Some(q13)
    &&& sp_jstr(s, q13) == Some((l.updated_at@, q14))
    &&& sp_lit(s, q14, ascii_bytes("}"@)) == Some(q14 + 1)
    &&& q14 + 1 == s.len()
}

/// The closing half, written at `i` up to the end of the input, parses back
/// exactly.
#[verifier::rlimit(100)]
#[verifier::spinoff_prover]
proof fn lemma_tail_parses(s: Seq<u8>, i: int, l: DailyLedger)
    requires
        ledger_encodable(l),
        0 <= i,
        i + json_ledger_tail(l).len() == s.len(),
        s.subrange(i, s.len() as int) == json_ledger_tail(l),
    ensures
        tail_parse_ok(s, i, l),
{
    reveal(json_ledger_tail);
    reveal_strlit("}");
    let t7 = kv_bytes(",\"ingress_bytes\":"@, l.ingress_bytes);
    let t8 = kv_bytes(",\"egress_bytes\":"@, l.egress_bytes);
    let t9 = kv_bytes(",\"storage_bytes\":"@, l.storage_bytes);
    let t10 = kv_bytes(",\"peak_storage_bytes\":"@, l.peak_storage_bytes);
    let t11 = kv_bytes(",\"deleted_storage_bytes\":"@, l.deleted_storage_bytes);
    let t12 = kv_bytes(",\"rev\":"@, l.rev);
    let t13 = ascii_bytes(",\"updated_at\":"@);
    let t14 = jstr_of(l.updated_at@);
    let t15 = ascii_bytes("}"@);
    let r15 = t15;
    let r14 = t14 + r15;
    let r13 = t13 + r14;
    let r12 = t12 + r13;
    let r11 = t11 + r12;
    let r10 = t10 + r11;
    let r9 = t9 + r10;
    let r8 = t8 + r9;
    let r7 = t7 + r8;
    assert(r7 == json_ledger_tail(l));
    let p7 = i + t7.len();
    lemma_concat_split(s, i, t7, r8);
    let p8 = p7 + t8.len();
    lemma_concat_split(s, p7, t8, r9);
    let p9 = p8 + t9.len();
    lemma_concat_split(s, p8, t9, r10);
    let p10 = p9 + t10.len();
    lemma_concat_split(s, p9, t10, r11);
    let p11 = p10 + t11.len();
    lemma_concat_split(s, p10, t11, r12);
    let p12 = p11 + t12.len();
    lemma_concat_split(s, p11, t12, r13);
    let p13 = p12 + t13.len();
    lemma_concat_split(s, p12, t13, r14);
    let p14 = p13 + t14.len();
    lemma_concat_split(s, p13, t14, r15);
    reveal_strlit(",\"egress_bytes\":");
    reveal_strlit(",\"storage_bytes\":");
    reveal_strlit(",\"peak_storage_bytes\":");
    reveal_strlit(",\"deleted_storage_bytes\":");
    reveal_strlit(",\"rev\":");
    reveal_strlit(",\"updated_at\":");
    assert((',' as u8) == 44);
    lemma_first_byte(s, p7, r8);
    assert(s[p7] == 44);
    lemma_sp_kv_exact(s, i, ",\"ingress_bytes\":"@, l.ingress_bytes);
    lemma_first_byte(s, p8, r9);
    assert(s[p8] == 44);
    lemma_sp_kv_exact(s, p7, ",\"egress_bytes\":"@, l.egress_bytes);
    lemma_first_byte(s, p9, r10);
    assert(s[p9] == 44);
    lemma_sp_kv_exact(s, p8, ",\"storage_bytes\":"@, l.storage_bytes);
    lemma_first_byte(s, p10, r11);
    assert(s[p10] == 44);
    lemma_sp_kv_exact(s, p9, ",\"peak_storage_bytes\":"@, l.peak_storage_bytes);
    lemma_first_byte(s, p11, r12);
    assert(s[p11] == 44);
    lemma_sp_kv_exact(s, p10, ",\"deleted_storage_bytes\":"@, l.deleted_storage_bytes);
    lemma_first_byte(s, p12, r13);
    assert(s[p12] == 44);
    lemma_sp_kv_exact(s, p11, ",\"rev\":"@, l.rev);
    lemma_sp_lit_exact(s, p12, t13);
    lemma_sp_jstr_exact(s, p13, l.updated_at@);
    lemma_sp_lit_exact(s, p14, t15);
}

/// Decoding an encoded ledger returns an equal value: the canonical bytes
/// of any encodable ledger parse back to exactly its image.
#[verifier::rlimit(100)]
#[verifier::spinoff_prover]
pub proof fn lemma_ledger_round_trip(l: DailyLedger)
    requires
        ledger_encodable(l),
    ensures
        sp_ledger(json_ledger(l)) == Some(ledger_model(l)),
{
    let s = json_ledger(l);
    let t1 = ascii_bytes("{\"date\":"@);
    let t2 = jstr_of(l.date@);
    let t3 = ascii_bytes(",\"class_a\":"@);
    let t4 = json_counters(l.class_a);
    let t5 = ascii_bytes(",\"class_b\":"@);
    let t6 = json_counters(l.class_b);
    let tail = json_ledger_tail(l);
    let r7 = tail;
    let r6 = t6 + r7;
    let r5 = t5 + r6;
    let r4 = t4 + r5;
    let r3 = t3 + r4;
    let r2 = t2 + r3;
    let r1 = t1 + r2;
    assert(s =~= r1);
    assert(s.subrange(0, s.len() as int) =~= s);
    let p1 = t1.len() as int;
    lemma_concat_split(s, 0, t1, r2);
    let p2 = p1 + t2.len();
    lemma_concat_split(s, p1, t2, r3);
    let p3 = p2 + t3.len();
    lemma_concat_split(s, p2, t3, r4);
    let p4 = p3 + t4.len();
    lemma_concat_split(s, p3, t4, r5);
    let p5 = p4 + t5.len();
    lemma_concat_split(s, p4, t5, r6);
    let p6 = p5 + t6.len();
    lemma_concat_split(s, p5, t6, r7);
    lemma_sp_lit_exact(s, 0, t1);
    lemma_sp_jstr_exact(s, p1, l.date@);
    lemma_sp_lit_exact(s, p2, t3);
    lemma_sp_counters_exact(s, p3, l.class_a);
    lemma_sp_lit_exact(s, p4, t5);
    lemma_sp_counters_exact(s, p5, l.class_b);
    assert(s.subrange(p6, s.len() as int) == tail);
    lemma_tail_parses(s, p6, l);
}

} // verus!
