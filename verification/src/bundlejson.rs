//! The credential bundle's JSON object form: canonical encoder, exact
//! decoder, and the parse-of-print proof the vault round trip rests on.

use vstd::prelude::*;

verus! {

use crate::jsontext::ascii_bytes;
use crate::jsontext::expect_lit;
use crate::jsontext::json_plain;
use crate::jsontext::jstr_of;
use crate::jsontext::lemma_concat_split;
use crate::jsontext::lemma_sp_jstr_exact;
use crate::jsontext::lemma_sp_lit_exact;
use crate::jsontext::parse_jstr;
use crate::jsontext::push_jstr;
use crate::jsontext::push_lit;
use crate::jsontext::sp_jstr;
use crate::jsontext::sp_lit;
use crate::vault::CredentialBundle;
use crate::vault::R2Config;

/// A bundle whose fields can stand in JSON strings unescaped: printable
/// ASCII without quote or backslash. The canonical codec does not escape,
/// so sealing is restricted to such bundles; endpoints, access keys,
/// secrets and bucket names are in this alphabet in practice, and the
/// caller refuses anything outside it up front.
pub open spec fn bundle_encodable(b: CredentialBundle) -> bool {
    &&& json_plain(b.r2.endpoint@)
    &&& json_plain(b.r2.access_key_id@)
    &&& json_plain(b.r2.secret_access_key@)
    &&& json_plain(b.r2.bucket@)
    &&& match b.r2.region {
        Some(r) => json_plain(r@),
        None => true,
    }
}

/// The region field: a string or `null`.
pub open spec fn json_region(r: Option<String>) -> Seq<u8> {
    match r {
        Some(v) => jstr_of(v@),
        None => ascii_bytes("null"@),
    }
}

/// The bundle object in canonical order.
pub open spec fn json_bundle(b: CredentialBundle) -> Seq<u8> {
    ascii_bytes("{\"r2\":{\"endpoint\":"@) + (jstr_of(b.r2.endpoint@) + (ascii_bytes(
        ",\"access_key_id\":"@,
    ) + (jstr_of(b.r2.access_key_id@) + (ascii_bytes(",\"secret_access_key\":"@) + (jstr_of(
        b.r2.secret_access_key@,
    ) + (ascii_bytes(",\"bucket\":"@) + (jstr_of(b.r2.bucket@) + (ascii_bytes(",\"region\":"@) + (
    json_region(b.r2.region) + ascii_bytes("}}"@))))))))))
}

/// The bundle's mathematical image.
pub struct BundleModel {
    pub endpoint: Seq<char>,
    pub access_key_id: Seq<char>,
    pub secret_access_key: Seq<char>,
    pub bucket: Seq<char>,
    pub region: Option<Seq<char>>,
}

/// The image of a bundle value.
pub open spec fn bundle_model(b: CredentialBundle) -> BundleModel {
    BundleModel {
        endpoint: b.r2.endpoint@,
        access_key_id: b.r2.access_key_id@,
        secret_access_key: b.r2.secret_access_key@,
        bucket: b.r2.bucket@,
        region: match b.r2.region {
            Some(r) => Some(r@),
            None => None,
        },
    }
}

/// Parse the region: `null` or a string.
pub open spec fn sp_region(s: Seq<u8>, i: int) -> Option<(Option<Seq<char>>, int)> {
    match sp_lit(s, i, ascii_bytes("null"@)) {
        Some(j) => Some((None, j)),
        None => match sp_jstr(s, i) {
            Some((v, j)) => Some((Some(v), j)),
            None => None,
        },
    }
}

/// Parse the canonical bundle object, which must span the whole input.
pub open spec fn sp_bundle(s: Seq<u8>) -> Option<BundleModel> {
    match sp_lit(s, 0, ascii_bytes("{\"r2\":{\"endpoint\":"@)) {
        None => None,
        Some(i0) => match sp_jstr(s, i0) {
            None => None,
            Some((ep, i1)) => match sp_lit(s, i1, ascii_bytes(",\"access_key_id\":"@)) {
                None => None,
                Some(i2) => match sp_jstr(s, i2) {
                    None => None,
                    Some((ak, i3)) => match sp_lit(s, i3, ascii_bytes(",\"secret_access_key\":"@)) {
                        None => None,
                        Some(i4) => match sp_jstr(s, i4) {
                            None => None,
                            Some((sk, i5)) => match sp_lit(s, i5, ascii_bytes(",\"bucket\":"@)) {
                                None => None,
                                Some(i6) => match sp_jstr(s, i6) {
                                    None => None,
                                    Some((bk, i7)) => match sp_lit(
                                        s,
                                        i7,
                                        ascii_bytes(",\"region\":"@),
                                    ) {
                                        None => None,
                                        Some(i8) => match sp_region(s, i8) {
                                            None => None,
                                            Some((rg, i9)) => match sp_lit(
                                                s,
                                                i9,
                                                ascii_bytes("}}"@),
                                            ) {
                                                None => None,
                                                Some(e) => if e == s.len() {
                                                    Some(
                                                        BundleModel {
                                                            endpoint: ep,
                                                            access_key_id: ak,
                                                            secret_access_key: sk,
                                                            bucket: bk,
                                                            region: rg,
                                                        },
                                                    )
                                                } else {
                                                    None
                                                },
                                            },
                                        },
                                    },
                                },
                            },
                        },
                    },
                },
            },
        },
    }
}

/// Encode a bundle to its canonical JSON bytes.
#[verifier::rlimit(100)]
#[verifier::spinoff_prover]
pub fn encode_bundle(b: &CredentialBundle) -> (r: Vec<u8>)
    requires
        bundle_encodable(*b),
    ensures
        r@ == json_bundle(*b),
{
    let mut out: Vec<u8> = Vec::new();
    push_lit(&mut out, "{\"r2\":{\"endpoint\":");
    push_jstr(&mut out, b.r2.endpoint.as_str());
    push_lit(&mut out, ",\"access_key_id\":");
    push_jstr(&mut out, b.r2.access_key_id.as_str());
    push_lit(&mut out, ",\"secret_access_key\":");
    push_jstr(&mut out, b.r2.secret_access_key.as_str());
    push_lit(&mut out, ",\"bucket\":");
    push_jstr(&mut out, b.r2.bucket.as_str());
    push_lit(&mut out, ",\"region\":");
    match &b.r2.region {
        Some(r) => push_jstr(&mut out, r.as_str()),
        None => push_lit(&mut out, "null"),
    }
    push_lit(&mut out, "}}");
    proof {
        assert(out@ =~= json_bundle(*b));
    }
    out
}

/// Parse the region field.
fn parse_region(s: &Vec<u8>, i: usize) -> (r: Option<(Option<String>, usize)>)
    ensures
        match r {
            Some((v, j)) => sp_region(s@, i as int) == Some(
                (
                    match v {
                        Some(x) => Some(x@),
                        None => None,
                    },
                    j as int,
                ),
            ),
            None => sp_region(s@, i as int) is None,
        },
{
    match expect_lit(s, i, "null") {
        Some(j) => Some((None, j)),
        None => match parse_jstr(s, i) {
            Some((v, j)) => Some((Some(v), j)),
            None => None,
        },
    }
}

/// Decode a canonical bundle object; `None` on anything else.
pub fn decode_bundle(s: &Vec<u8>) -> (r: Option<CredentialBundle>)
    ensures
        match r {
            Some(b) => sp_bundle(s@) == Some(bundle_model(b)),
            None => sp_bundle(s@) is None,
        },
{
    let i0 = match expect_lit(s, 0, "{\"r2\":{\"endpoint\":") {
        None => {
            return None;
        },
        Some(x) => x,
    };
    let (ep, i1) = match parse_jstr(s, i0) {
        None => {
            return None;
        },
        Some(x) => x,
    };
    let i2 = match expect_lit(s, i1, ",\"access_key_id\":") {
        None => {
            return None;
        },
        Some(x) => x,
    };
    let (ak, i3) = match parse_jstr(s, i2) {
        None => {
            return None;
        },
        Some(x) => x,
    };
    let i4 = match expect_lit(s, i3, ",\"secret_access_key\":") {
        None => {
            return None;
        },
        Some(x) => x,
    };
    let (sk, i5) = match parse_jstr(s, i4) {
        None => {
            return None;
        },
        Some(x) => x,
    };
    let i6 = match expect_lit(s, i5, ",\"bucket\":") {
        None => {
            return None;
        },
        Some(x) => x,
    };
    let (bk, i7) = match parse_jstr(s, i6) {
        None => {
            return None;
        },
        Some(x) => x,
    };
    let i8 = match expect_lit(s, i7, ",\"region\":") {
        None => {
            return None;
        },
        Some(x) => x,
    };
    let (rg, i9) = match parse_region(s, i8) {
        None => {
            return None;
        },
        Some(x) => x,
    };
    let e = match expect_lit(s, i9, "}}") {
        None => {
            return None;
        },
        Some(x) => x,
    };
    if e != s.len() {
        return None;
    }
    Some(
        CredentialBundle {
            r2: R2Config {
                endpoint: ep,
                access_key_id: ak,
                secret_access_key: sk,
                bucket: bk,
                region: rg,
            },
        },
    )
}

/// A `null` region parses back as `None`; a plain string region parses back
/// as itself. The quote that opens a string is not an `n`, and `null` is not
/// a quote, so the two forms never collide.
proof fn lemma_sp_region_exact(s: Seq<u8>, i: int, r: Option<String>)
    requires
        0 <= i,
        i + json_region(r).len() <= s.len(),
        s.subrange(i, i + json_region(r).len()) == json_region(r),
        match r {
            Some(v) => json_plain(v@),
            None => true,
        },
    ensures
        sp_region(s, i) == Some(
            (
                match r {
                    Some(v) => Some(v@),
                    None => None,
                },
                i + json_region(r).len(),
            ),
        ),
{
    reveal_strlit("null");
    match r {
        None => {
            lemma_sp_lit_exact(s, i, ascii_bytes("null"@));
        },
        Some(v) => {
            lemma_sp_jstr_exact(s, i, v@);
            // the first byte is a quote, so the `null` literal cannot match
            assert(s[i] == jstr_of(v@)[0]);
            assert(s[i] == 34u8);
            assert(ascii_bytes("null"@)[0] == ('n' as u8));
            if sp_lit(s, i, ascii_bytes("null"@)) is Some {
                assert(s.subrange(i, i + 4)[0] == s[i]);
            }
        },
    }
}

/// Decoding an encoded bundle returns an equal value.
#[verifier::rlimit(100)]
#[verifier::spinoff_prover]
pub proof fn lemma_bundle_round_trip(b: CredentialBundle)
    requires
        bundle_encodable(b),
    ensures
        sp_bundle(json_bundle(b)) == Some(bundle_model(b)),
{
    let s = json_bundle(b);
    let t1 = ascii_bytes("{\"r2\":{\"endpoint\":"@);
    let t2 = jstr_of(b.r2.endpoint@);
    let t3 = ascii_bytes(",\"access_key_id\":"@);
    let t4 = jstr_of(b.r2.access_key_id@);
    let t5 = ascii_bytes(",\"secret_access_key\":"@);
    let t6 = jstr_of(b.r2.secret_access_key@);
    let t7 = ascii_bytes(",\"bucket\":"@);
    let t8 = jstr_of(b.r2.bucket@);
    let t9 = ascii_bytes(",\"region\":"@);
    let t10 = json_region(b.r2.region);
    let t11 = ascii_bytes("}}"@);
    let r11 = t11;
    let r10 = t10 + r11;
    let r9 = t9 + r10;
    let r8 = t8 + r9;
    let r7 = t7 + r8;
    let r6 = t6 + r7;
    let r5 = t5 + r6;
    let r4 = t4 + r5;
    let r3 = t3 + r4;
    let r2 = t2 + r3;
    let r1 = t1 + r2;
    assert(s == r1);
    assert(s.subrange(0, s.len() as int) =~= s);
    let p1 = t1.len() as int;
    lemma_concat_split(s, 0, t1, r2);
    let p2 = p1 + t2.len();
    lemma_concat_split(s, p1, t2, r3);
    let p3 = p2 + t3.len();
    lemma_concat_split(s, p2, t3, r4);
    let p4 = p3 + t4.len();
    lemma_concat_split(s, p3, t4, r5);
    let p5 = p4 + t5.len();
    lemma_concat_split(s, p4, t5, r6);
    let p6 = p5 + t6.len();
    lemma_concat_split(s, p5, t6, r7);
    let p7 = p6 + t7.len();
    lemma_concat_split(s, p6, t7, r8);
    let p8 = p7 + t8.len();
    lemma_concat_split(s, p7, t8, r9);
    let p9 = p8 + t9.len();
    lemma_concat_split(s, p8, t9, r10);
    let p10 = p9 + t10.len();
    lemma_concat_split(s, p9, t10, r11);
    lemma_sp_lit_exact(s, 0, t1);
    lemma_sp_jstr_exact(s, p1, b.r2.endpoint@);
    lemma_sp_lit_exact(s, p2, t3);
    lemma_sp_jstr_exact(s, p3, b.r2.access_key_id@);
    lemma_sp_lit_exact(s, p4, t5);
    lemma_sp_jstr_exact(s, p5, b.r2.secret_access_key@);
    lemma_sp_lit_exact(s, p6, t7);
    lemma_sp_jstr_exact(s, p7, b.r2.bucket@);
    lemma_sp_lit_exact(s, p8, t9);
    lemma_sp_region_exact(s, p9, b.r2.region);
    lemma_sp_lit_exact(s, p10, t11);
}

} // verus!
