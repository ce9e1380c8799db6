//! Verified helpers over strings and byte sequences: prefix and substring
//! tests, character search, percent-decoding.

use vstd::prelude::*;

verus! {

use vstd::string::StrSliceExecFns;

/// `p` is a prefix of `s`.
pub open spec fn spec_starts_with(s: Seq<char>, p: Seq<char>) -> bool {
    p.len() <= s.len() && s.subrange(0, p.len() as int) == p
}

/// `p` occurs in `s` at position `i`.
pub open spec fn substr_at(s: Seq<char>, p: Seq<char>, i: int) -> bool {
    0 <= i && i + p.len() <= s.len() && s.subrange(i, i + p.len()) == p
}

/// `p` occurs somewhere in `s`.
pub open spec fn has_substr(s: Seq<char>, p: Seq<char>) -> bool {
    exists|i: int| substr_at(s, p, i)
}

/// Character-wise equality test of two string slices.
pub fn str_eq(a: &str, b: &str) -> (r: bool)
    ensures
        r == (a@ == b@),
{
    let an: usize = a.unicode_len();
    let bn: usize = b.unicode_len();
    if an != bn {
        return false;
    }
    let mut i: usize = 0;
    while i < an
        invariant
            an == a@.len(),
            an == b@.len(),
            i <= an,
            forall|j: int| 0 <= j < i ==> a@[j] == b@[j],
        decreases an - i,
    {
        if a.get_char(i) != b.get_char(i) {
            return false;
        }
        i += 1;
    }
    proof {
        assert(a@ =~= b@);
    }
    true
}

/// Does `s` start with `p`?
pub fn starts_with_str(s: &str, p: &str) -> (r: bool)
    ensures
        r == spec_starts_with(s@, p@),
{
    let sn: usize = s.unicode_len();
    let pn: usize = p.unicode_len();
    if pn > sn {
        return false;
    }
    let mut i: usize = 0;
    while i < pn
        invariant
            sn == s@.len(),
            pn == p@.len(),
            pn <= sn,
            i <= pn,
            forall|j: int| 0 <= j < i ==> s@[j] == p@[j],
        decreases pn - i,
    {
        if s.get_char(i) != p.get_char(i) {
            proof {
                let k = i as int;
                assert(s@.subrange(0, p@.len() as int)[k] == s@[k]);
            }
            return false;
        }
        i += 1;
    }
    proof {
        assert(s@.subrange(0, p@.len() as int) =~= p@);
    }
    true
}

/// Does `p` occur in `s` starting at `i`?
fn match_at(s: &str, p: &str, i: usize) -> (r: bool)
    requires
        i + p@.len() <= s@.len(),
    ensures
        r == substr_at(s@, p@, i as int),
{
    let sn: usize = s.unicode_len();
    let pn: usize = p.unicode_len();
    let mut j: usize = 0;
    while j < pn
        invariant
            sn == s@.len(),
            pn == p@.len(),
            i + pn <= sn,
            j <= pn,
            forall|k: int| 0 <= k < j ==> s@[i + k] == p@[k],
        decreases pn - j,
    {
        if s.get_char(i + j) != p.get_char(j) {
            proof {
                let k = j as int;
                assert(s@.subrange(i as int, i + p@.len())[k] == s@[i + k]);
            }
            return false;
        }
        j += 1;
    }
    proof {
        assert(s@.subrange(i as int, i + p@.len()) =~= p@);
    }
    true
}

/// Does `p` occur anywhere in `s`?
pub fn contains_str(s: &str, p: &str) -> (r: bool)
    ensures
        r == has_substr(s@, p@),
{
    let sn: usize = s.unicode_len();
    let pn: usize = p.unicode_len();
    if pn > sn {
        proof {
            assert(forall|i: int| !substr_at(s@, p@, i));
        }
        return false;
    }
    if pn == 0 {
        proof {
            assert(s@.subrange(0, 0) =~= p@);
            assert(substr_at(s@, p@, 0));
        }
        return true;
    }
    let mut i: usize = 0;
    while i <= sn - pn
        invariant
            sn == s@.len(),
            pn == p@.len(),
            0 < pn <= sn,
            i <= sn - pn + 1,
            forall|k: int| 0 <= k < i ==> !substr_at(s@, p@, k),
        decreases sn - i,
    {
        if match_at(s, p, i) {
            return true;
        }
        i += 1;
    }
    proof {
        assert forall|k: int| !substr_at(s@, p@, k) by {
            if 0 <= k <= sn - pn {
                assert(!substr_at(s@, p@, k));
            }
        }
    }
    false
}

/// First position of `c` in `s`, scanning left to right.
pub fn find_char(s: &str, c: char) -> (r: Option<usize>)
    ensures
        match r {
            Some(i) => i < s@.len() && s@[i as int] == c && forall|j: int|
                0 <= j < i ==> s@[j] != c,
            None => forall|j: int| 0 <= j < s@.len() ==> s@[j] != c,
        },
{
    let n: usize = s.unicode_len();
    let mut i: usize = 0;
    while i < n
        invariant
            n == s@.len(),
            i <= n,
            forall|j: int| 0 <= j < i ==> s@[j] != c,
        decreases n - i,
    {
        if s.get_char(i) == c {
            return Some(i);
        }
        i += 1;
    }
    None
}

/// Value of an ASCII hex digit, if `b` is one.
pub open spec fn spec_hex_val(b: u8) -> Option<u8> {
    if 48u8 <= b <= 57u8 {
        Some((b - 48u8) as u8)
    } else if 97u8 <= b <= 102u8 {
        Some((10 + b - 97u8) as u8)
    } else if 65u8 <= b <= 70u8 {
        Some((10 + b - 65u8) as u8)
    } else {
        None
    }
}

/// Decode one ASCII hex digit.
pub fn hex_val(b: u8) -> (r: Option<u8>)
    ensures
        r == spec_hex_val(b),
{
    if 48u8 <= b && b <= 57u8 {
        Some(b - 48u8)
    } else if 97u8 <= b && b <= 102u8 {
        Some(10 + (b - 97u8))
    } else if 65u8 <= b && b <= 70u8 {
        Some(10 + (b - 65u8))
    } else {
        None
    }
}

/// Percent-decoding over bytes: each valid `%hh` triple becomes one byte,
/// everything else is copied through.
pub open spec fn spec_percent_decode(s: Seq<u8>) -> Seq<u8>
    decreases s.len(),
{
    if s.len() == 0 {
        Seq::empty()
    } else if s[0] == 37u8 && s.len() >= 3 && spec_hex_val(s[1]) is Some && spec_hex_val(s[2])
        is Some {
        seq![
            ((spec_hex_val(s[1]).unwrap() as u8) * 16 + spec_hex_val(s[2]).unwrap() as u8) as u8,
        ] + spec_percent_decode(s.skip(3))
    } else {
        seq![s[0]] + spec_percent_decode(s.skip(1))
    }
}

/// Percent-decode a byte string.
pub fn percent_decode(s: &Vec<u8>) -> (r: Vec<u8>)
    ensures
        r@ == spec_percent_decode(s@),
{
    let n: usize = s.len();
    let mut out: Vec<u8> = Vec::new();
    let mut i: usize = 0;
    proof {
        assert(s@.skip(0) =~= s@);
        assert(out@ + spec_percent_decode(s@) =~= spec_percent_decode(s@));
    }
    while i < n
        invariant
            n == s@.len(),
            i <= n,
            spec_percent_decode(s@) == out@ + spec_percent_decode(s@.skip(i as int)),
        decreases n - i,
    {
        proof {
            assert(s@.skip(i as int)[0] == s@[i as int]);
        }
        if s[i] == 37u8 && n - i > 2 {
            let h = hex_val(s[i + 1]);
            let l = hex_val(s[i + 2]);
            if let (Some(hv), Some(lv)) = (h, l) {
                proof {
                    assert(s@.skip(i as int).len() >= 3);
                    assert(s@.skip(i as int)[1] == s@[i + 1]);
                    assert(s@.skip(i as int)[2] == s@[i + 2]);
                    assert(s@.skip(i as int).skip(3) =~= s@.skip(i + 3));
                }
                out.push(hv * 16 + lv);
                i += 3;
                continue;
            }
        }
        proof {
            assert(s@.skip(i as int).skip(1) =~= s@.skip(i + 1));
            let tail = s@.skip(i as int);
            assert(!(tail[0] == 37u8 && tail.len() >= 3 && spec_hex_val(tail[1]) is Some
                && spec_hex_val(tail[2]) is Some)) by {
                if tail[0] == 37u8 && tail.len() >= 3 {
                    assert(i + 2 < n);
                }
            }
        }
        out.push(s[i]);
        i += 1;
    }
    proof {
        assert(s@.skip(n as int) =~= Seq::<u8>::empty());
        assert(out@ + Seq::<u8>::empty() =~= out@);
    }
    out
}

/// Everything after the last `/` of `s`; `s` itself when it has none.
pub open spec fn spec_last_segment(s: Seq<u8>) -> Seq<u8>
    decreases s.len(),
{
    if s.len() == 0 {
        s
    } else if s[s.len() - 1] == 47u8 {
        Seq::empty()
    } else {
        if exists|j: int| 0 <= j < s.len() && s[j] == 47u8 {
            spec_last_segment(s.take(s.len() - 1)) + seq![s[s.len() - 1]]
        } else {
            s
        }
    }
}

/// The last `/`-separated segment of a byte string (the display name of a
/// `/`-terminated path is empty).
pub fn last_segment(s: &Vec<u8>) -> (r: Vec<u8>)
    ensures
        r@ == spec_last_segment(s@),
{
    let n: usize = s.len();
    // find position after the last '/'
    let mut start: usize = 0;
    let mut j: usize = 0;
    while j < n
        invariant
            n == s@.len(),
            j <= n,
            start <= j,
            start > 0 ==> s@[start - 1] == 47u8,
            forall|k: int| start <= k < j ==> s@[k] != 47u8,
            start == 0 ==> forall|k: int| 0 <= k < j ==> s@[k] != 47u8,
        decreases n - j,
    {
        if s[j] == 47u8 {
            start = j + 1;
        }
        j += 1;
    }
    let mut out: Vec<u8> = Vec::new();
    let mut i: usize = start;
    while i < n
        invariant
            n == s@.len(),
            start <= i <= n,
            out@ =~= s@.subrange(start as int, i as int),
        decreases n - i,
    {
        out.push(s[i]);
        i += 1;
    }
    proof {
        lemma_last_segment_tail(s@, start as int);
        assert(out@ =~= s@.subrange(start as int, n as int));
    }
    out
}

/// After the final `/` at `start - 1` (or from 0 when there is no `/`),
/// the last segment is exactly the remaining bytes.
proof fn lemma_last_segment_tail(s: Seq<u8>, start: int)
    requires
        0 <= start <= s.len(),
        start > 0 ==> s[start - 1] == 47u8,
        forall|k: int| start <= k < s.len() ==> s[k] != 47u8,
        start == 0 ==> forall|k: int| 0 <= k < s.len() ==> s[k] != 47u8,
    ensures
        spec_last_segment(s) == s.subrange(start, s.len() as int),
    decreases s.len(),
{
    if s.len() == 0 {
        assert(spec_last_segment(s) =~= s.subrange(start, s.len() as int));
    } else if s[s.len() - 1] == 47u8 {
        assert(start == s.len());
        assert(spec_last_segment(s) =~= s.subrange(start, s.len() as int));
    } else {
        if start == 0 {
            assert(forall|j: int| 0 <= j < s.len() ==> s[j] != 47u8);
            assert(!(exists|j: int| 0 <= j < s.len() && s[j] == 47u8));
            assert(spec_last_segment(s) == s);
            assert(s =~= s.subrange(0, s.len() as int));
        } else {
            assert(s[start - 1] == 47u8);
            assert(exists|j: int| 0 <= j < s.len() && s[j] == 47u8);
            let t = s.take(s.len() - 1);
            lemma_last_segment_tail(t, start);
            assert(spec_last_segment(t) == t.subrange(start, t.len() as int));
            assert(spec_last_segment(s) == spec_last_segment(t) + seq![s[s.len() - 1]]);
            assert(t.subrange(start, t.len() as int) + seq![s[s.len() - 1]] =~= s.subrange(
                start,
                s.len() as int,
            ));
        }
    }
}

/// Position of the first occurrence of `c` in `s`; `s.len()` when absent.
pub open spec fn first_at(s: Seq<char>, c: char) -> int
    decreases s.len(),
{
    if s.len() == 0 {
        0
    } else if s[0] == c {
        0
    } else {
        1 + first_at(s.skip(1), c)
    }
}

/// Everything the first occurrence pins down.
pub proof fn lemma_first_at(s: Seq<char>, c: char)
    ensures
        0 <= first_at(s, c) <= s.len(),
        first_at(s, c) < s.len() ==> s[first_at(s, c)] == c,
        forall|j: int| 0 <= j < first_at(s, c) ==> s[j] != c,
    decreases s.len(),
{
    if s.len() > 0 && s[0] != c {
        lemma_first_at(s.skip(1), c);
        assert forall|j: int| 0 <= j < first_at(s, c) implies s[j] != c by {
            if j > 0 {
                assert(s.skip(1)[j - 1] == s[j]);
            }
        }
        if first_at(s, c) < s.len() {
            assert(s.skip(1)[first_at(s, c) - 1] == s[first_at(s, c)]);
        }
    }
}

/// A position with `c`, before which `c` never occurs, is the first
/// occurrence; if `c` never occurs, the first occurrence is the length.
pub proof fn lemma_first_at_unique(s: Seq<char>, c: char, i: int)
    requires
        0 <= i <= s.len(),
        i < s.len() ==> s[i] == c,
        i == s.len() ==> forall|j: int| 0 <= j < s.len() ==> s[j] != c,
        forall|j: int| 0 <= j < i ==> s[j] != c,
    ensures
        first_at(s, c) == i,
    decreases s.len(),
{
    if s.len() > 0 && s[0] != c {
        assert forall|j: int| 0 <= j < i - 1 implies s.skip(1)[j] != c by {
            assert(s.skip(1)[j] == s[j + 1]);
        }
        if i == s.len() {
            assert forall|j: int| 0 <= j < s.skip(1).len() implies s.skip(1)[j] != c by {
                assert(s.skip(1)[j] == s[j + 1]);
            }
        } else {
            assert(s.skip(1)[i - 1] == s[i]);
        }
        lemma_first_at_unique(s.skip(1), c, i - 1);
    }
}

/// First position of `c` in `s`, as the specification counts it.
pub fn find_first(s: &str, c: char) -> (r: usize)
    ensures
        r as int == first_at(s@, c),
{
    let n: usize = s.unicode_len();
    let mut i: usize = 0;
    while i < n
        invariant
            n == s@.len(),
            i <= n,
            forall|j: int| 0 <= j < i ==> s@[j] != c,
        decreases n - i,
    {
        if s.get_char(i) == c {
            proof {
                lemma_first_at_unique(s@, c, i as int);
            }
            return i;
        }
        i += 1;
    }
    proof {
        lemma_first_at_unique(s@, c, n as int);
    }
    n
}

/// Position of the first occurrence of `p` in `s`; `s.len()` when absent
/// (or when `p` cannot fit).
pub open spec fn first_substr(s: Seq<char>, p: Seq<char>) -> int
    decreases s.len(),
{
    if s.len() < p.len() {
        s.len() as int
    } else if substr_at(s, p, 0) {
        0
    } else if s.len() == 0 {
        0
    } else {
        1 + first_substr(s.skip(1), p)
    }
}

/// Occurrences survive shifting into the tail.
proof fn lemma_substr_at_skip(s: Seq<char>, p: Seq<char>, i: int)
    requires
        s.len() > 0,
        1 <= i,
    ensures
        substr_at(s, p, i) == substr_at(s.skip(1), p, i - 1),
{
    if substr_at(s, p, i) {
        assert(s.skip(1).subrange(i - 1, i - 1 + p.len()) =~= s.subrange(i, i + p.len()));
    } else if substr_at(s.skip(1), p, i - 1) {
        assert(s.subrange(i, i + p.len()) =~= s.skip(1).subrange(i - 1, i - 1 + p.len()));
    }
}

/// Everything the first substring occurrence pins down.
pub proof fn lemma_first_substr(s: Seq<char>, p: Seq<char>)
    requires
        p.len() > 0,
    ensures
        0 <= first_substr(s, p) <= s.len(),
        first_substr(s, p) < s.len() ==> substr_at(s, p, first_substr(s, p)),
        forall|j: int| 0 <= j < first_substr(s, p) ==> !substr_at(s, p, j),
        first_substr(s, p) == s.len() ==> !has_substr(s, p),
    decreases s.len(),
{
    if s.len() < p.len() {
        assert forall|j: int| !substr_at(s, p, j) by {}
    } else if substr_at(s, p, 0) {
    } else {
        lemma_first_substr(s.skip(1), p);
        let f = first_substr(s, p);
        assert(f == 1 + first_substr(s.skip(1), p));
        assert forall|j: int| 0 <= j < f implies !substr_at(s, p, j) by {
            if j > 0 {
                lemma_substr_at_skip(s, p, j);
            }
        }
        if f < s.len() {
            lemma_substr_at_skip(s, p, f);
        }
        if f == s.len() {
            assert forall|j: int| !substr_at(s, p, j) by {
                if 1 <= j {
                    lemma_substr_at_skip(s, p, j);
                } else if j == 0 {
                } else {
                }
            }
        }
    }
}

/// First position where `p` occurs in `s`, as the specification counts it.
pub fn find_first_str(s: &str, p: &str) -> (r: usize)
    requires
        p@.len() > 0,
    ensures
        r as int == first_substr(s@, p@),
{
    let sn: usize = s.unicode_len();
    let pn: usize = p.unicode_len();
    if pn > sn {
        return sn;
    }
    let mut i: usize = 0;
    while i <= sn - pn
        invariant
            sn == s@.len(),
            pn == p@.len(),
            0 < pn <= sn,
            i <= sn - pn + 1,
            forall|k: int| 0 <= k < i ==> !substr_at(s@, p@, k),
        decreases sn - i,
    {
        if match_at(s, p, i) {
            proof {
                lemma_first_substr_unique(s@, p@, i as int);
            }
            return i;
        }
        i += 1;
    }
    proof {
        assert forall|k: int| !substr_at(s@, p@, k) by {
            if 0 <= k <= sn - pn {
                assert(!substr_at(s@, p@, k));
            }
        }
        lemma_first_substr_unique(s@, p@, sn as int);
    }
    sn
}

/// A maximal miss run pins the first substring occurrence down.
proof fn lemma_first_substr_unique(s: Seq<char>, p: Seq<char>, i: int)
    requires
        p.len() > 0,
        0 <= i <= s.len(),
        i < s.len() ==> substr_at(s, p, i),
        i == s.len() ==> forall|j: int| !substr_at(s, p, j),
        forall|j: int| 0 <= j < i ==> !substr_at(s, p, j),
    ensures
        first_substr(s, p) == i,
{
    lemma_first_substr(s, p);
    let f = first_substr(s, p);
    if f < i {
        assert(substr_at(s, p, f));
    } else if i < f {
        assert(!substr_at(s, p, i));
    }
}

/// `s` with every leading `c` removed.
pub open spec fn drop_leading(s: Seq<char>, c: char) -> Seq<char>
    decreases s.len(),
{
    if s.len() > 0 && s[0] == c {
        drop_leading(s.skip(1), c)
    } else {
        s
    }
}

/// The prefix-free suffix starts at the first non-`c` character.
pub proof fn lemma_drop_leading_unique(s: Seq<char>, c: char, a: int)
    requires
        0 <= a <= s.len(),
        forall|j: int| 0 <= j < a ==> s[j] == c,
        a < s.len() ==> s[a] != c,
    ensures
        drop_leading(s, c) == s.skip(a),
    decreases s.len(),
{
    if s.len() > 0 && s[0] == c {
        assert(a >= 1);
        assert forall|j: int| 0 <= j < a - 1 implies s.skip(1)[j] == c by {
            assert(s.skip(1)[j] == s[j + 1]);
        }
        if a - 1 < s.skip(1).len() {
            assert(s.skip(1)[a - 1] == s[a]);
        }
        lemma_drop_leading_unique(s.skip(1), c, a - 1);
        assert(s.skip(1).skip(a - 1) =~= s.skip(a));
    } else {
        assert(a == 0);
        assert(s.skip(0) =~= s);
    }
}

/// `s` with every trailing `c` removed.
pub open spec fn drop_trailing(s: Seq<char>, c: char) -> Seq<char>
    decreases s.len(),
{
    if s.len() > 0 && s.last() == c {
        drop_trailing(s.drop_last(), c)
    } else {
        s
    }
}

/// The suffix-free prefix is the whole string up to the last non-`c`
/// character.
pub proof fn lemma_drop_trailing_unique(s: Seq<char>, c: char, m: int)
    requires
        0 <= m <= s.len(),
        forall|j: int| m <= j < s.len() ==> s[j] == c,
        m > 0 ==> s[m - 1] != c,
    ensures
        drop_trailing(s, c) == s.take(m),
    decreases s.len(),
{
    if s.len() == 0 {
        assert(s.take(0) =~= s);
    } else if s.last() == c {
        lemma_drop_trailing_unique(s.drop_last(), c, m);
        assert(s.drop_last().take(m) =~= s.take(m));
    } else {
        assert(m == s.len());
        assert(s.take(m) =~= s);
    }
}

/// All characters of `s` are ASCII.
pub open spec fn all_ascii(s: Seq<char>) -> bool {
    forall|i: int| 0 <= i < s.len() ==> (s[i] as u32) < 128
}

/// Builds a `String` back from ASCII bytes.
///
/// Relies on `String::from_utf8`: bytes below 128 are one UTF-8 code unit
/// each, so they decode to exactly the corresponding characters.
#[verifier::external_body]
pub fn string_from_ascii(v: Vec<u8>) -> (r: String)
    requires
        forall|i: int| 0 <= i < v@.len() ==> v@[i] < 128,
    ensures
        r@ == Seq::new(v@.len(), |i: int| v@[i] as char),
        r@.len() == v@.len(),
{
    match String::from_utf8(v) {
        Ok(s) => s,
        Err(_) => String::new(),
    }
}

} // verus!
