//! Byte-level JSON text: emission of numbers, strings and fixed literals,
//! and an exact parser for the canonical form the emitters produce.
//!
//! The ledger and credential objects are stored as JSON; this module holds
//! the shared machinery and its parse-of-print lemmas.

use vstd::prelude::*;

verus! {

use vstd::string::StrSliceExecFns;

/// The bytes of a character sequence, one byte per character (truncating;
/// exact on ASCII).
pub open spec fn ascii_bytes(cs: Seq<char>) -> Seq<u8> {
    Seq::new(cs.len(), |i: int| cs[i] as u8)
}

/// Characters that may stand unescaped inside a JSON string: printable
/// ASCII except the quote and the backslash.
pub open spec fn json_plain(cs: Seq<char>) -> bool {
    forall|i: int|
        0 <= i < cs.len() ==> is_plain_byte(#[trigger] cs[i] as u8) && (cs[i] as u32) < 127
}

/// An ASCII decimal digit.
pub open spec fn is_digit_byte(b: u8) -> bool {
    48 <= b <= 57
}

/// A byte that may stand inside a JSON string without escaping.
pub open spec fn is_plain_byte(b: u8) -> bool {
    32 <= b < 127 && b != 34 && b != 92
}

/// Decimal digits of `n`, most significant first.
pub open spec fn dec_of(n: nat) -> Seq<u8>
    decreases n,
{
    if n < 10 {
        seq![(48 + n) as u8]
    } else {
        dec_of(n / 10) + seq![(48 + n % 10) as u8]
    }
}

/// Numeric value of a digit string.
pub open spec fn num_val(ds: Seq<u8>) -> int
    decreases ds.len(),
{
    if ds.len() == 0 {
        0
    } else {
        num_val(ds.drop_last()) * 10 + (ds.last() - 48)
    }
}

/// End of the run of digits starting at `i`.
pub open spec fn digit_run_end(s: Seq<u8>, i: int) -> int
    decreases s.len() - i when 0 <= i <= s.len()
{
    if i < 0 || i >= s.len() || !is_digit_byte(s[i]) {
        i
    } else {
        digit_run_end(s, i + 1)
    }
}

/// End of the run of plain string bytes starting at `i`.
pub open spec fn plain_run_end(s: Seq<u8>, i: int) -> int
    decreases s.len() - i when 0 <= i <= s.len()
{
    if i < 0 || i >= s.len() || !is_plain_byte(s[i]) {
        i
    } else {
        plain_run_end(s, i + 1)
    }
}

/// Below 128, the byte of a character carries the same code point, and
/// casting it back restores the character.
pub proof fn lemma_ascii_char_roundtrip(c: char)
    requires
        (c as u32) < 128,
    ensures
        c as u8 == c as u32,
        ((c as u8) as char) == c,
{
    let u = c as u32;
    assert(u == u as u8 as u32) by (bit_vector)
        requires
            u < 128,
    ;
    assert(c as u8 == c as u32 as u8);
    assert((c as u32) as char == c);
    assert((c as u8) as char == (c as u32) as char);
}

/// A JSON string token: quote, plain content, quote.
pub open spec fn jstr_of(cs: Seq<char>) -> Seq<u8> {
    seq![34u8] + ascii_bytes(cs) + seq![34u8]
}

// ---------------------------------------------------------------------
// The canonical parser, in specification form.
// ---------------------------------------------------------------------
/// Match the exact bytes `lit` at `i`.
pub open spec fn sp_lit(s: Seq<u8>, i: int, lit: Seq<u8>) -> Option<int> {
    if 0 <= i && i + lit.len() <= s.len() && s.subrange(i, i + lit.len()) == lit {
        Some(i + lit.len())
    } else {
        None
    }
}

/// Parse the digit run at `i` as a `u64`.
pub open spec fn sp_u64(s: Seq<u8>, i: int) -> Option<(u64, int)> {
    if i < 0 || i > s.len() {
        None
    } else {
        let e = digit_run_end(s, i);
        if e == i || num_val(s.subrange(i, e)) > u64::MAX {
            None
        } else {
            Some((num_val(s.subrange(i, e)) as u64, e))
        }
    }
}

/// Parse the JSON string token at `i`; yields its decoded characters.
pub open spec fn sp_jstr(s: Seq<u8>, i: int) -> Option<(Seq<char>, int)> {
    if 0 <= i < s.len() && s[i] == 34u8 {
        let e = plain_run_end(s, i + 1);
        if e < s.len() && s[e] == 34u8 {
            Some((s.subrange(i + 1, e).map_values(|b: u8| b as char), e + 1))
        } else {
            None
        }
    } else {
        None
    }
}

// ---------------------------------------------------------------------
// Characterizations.
// ---------------------------------------------------------------------
/// Everything the digit-run end pins down.
pub proof fn lemma_digit_run_end(s: Seq<u8>, i: int)
    requires
        0 <= i <= s.len(),
    ensures
        i <= digit_run_end(s, i) <= s.len(),
        forall|k: int| i <= k < digit_run_end(s, i) ==> is_digit_byte(#[trigger] s[k]),
        digit_run_end(s, i) == s.len() || !is_digit_byte(s[digit_run_end(s, i)]),
    decreases s.len() - i,
{
    if i < s.len() && is_digit_byte(s[i]) {
        lemma_digit_run_end(s, i + 1);
    }
}

/// A maximal digit run is the digit run.
pub proof fn lemma_digit_run_unique(s: Seq<u8>, i: int, e: int)
    requires
        0 <= i <= e <= s.len(),
        forall|k: int| i <= k < e ==> is_digit_byte(#[trigger] s[k]),
        e == s.len() || !is_digit_byte(s[e]),
    ensures
        digit_run_end(s, i) == e,
    decreases e - i,
{
    if i < e {
        lemma_digit_run_unique(s, i + 1, e);
    } else {
        lemma_digit_run_end(s, i);
        if digit_run_end(s, i) > i {
            assert(is_digit_byte(s[i]));
        }
    }
}

/// Everything the plain-run end pins down.
pub proof fn lemma_plain_run_end(s: Seq<u8>, i: int)
    requires
        0 <= i <= s.len(),
    ensures
        i <= plain_run_end(s, i) <= s.len(),
        forall|k: int| i <= k < plain_run_end(s, i) ==> is_plain_byte(#[trigger] s[k]),
        plain_run_end(s, i) == s.len() || !is_plain_byte(s[plain_run_end(s, i)]),
    decreases s.len() - i,
{
    if i < s.len() && is_plain_byte(s[i]) {
        lemma_plain_run_end(s, i + 1);
    }
}

/// A maximal plain run is the plain run.
pub proof fn lemma_plain_run_unique(s: Seq<u8>, i: int, e: int)
    requires
        0 <= i <= e <= s.len(),
        forall|k: int| i <= k < e ==> is_plain_byte(#[trigger] s[k]),
        e == s.len() || !is_plain_byte(s[e]),
    ensures
        plain_run_end(s, i) == e,
    decreases e - i,
{
    if i < e {
        lemma_plain_run_unique(s, i + 1, e);
    } else {
        lemma_plain_run_end(s, i);
        if plain_run_end(s, i) > i {
            assert(is_plain_byte(s[i]));
        }
    }
}

/// The digits of `n` are digits, and there is at least one.
pub proof fn lemma_dec_of_digits(n: nat)
    ensures
        1 <= dec_of(n).len(),
        forall|i: int| 0 <= i < dec_of(n).len() ==> is_digit_byte(#[trigger] dec_of(n)[i]),
    decreases n,
{
    if n >= 10 {
        lemma_dec_of_digits(n / 10);
    }
}

/// Reading the digits of `n` back gives `n`.
pub proof fn lemma_num_val_dec_of(n: nat)
    ensures
        num_val(dec_of(n)) == n,
    decreases n,
{
    let ds = dec_of(n);
    lemma_dec_of_digits(n);
    assert(num_val(ds) == num_val(ds.drop_last()) * 10 + (ds.last() - 48));
    if n < 10 {
        assert(ds =~= seq![(48 + n) as u8]);
        assert(ds.drop_last() =~= Seq::<u8>::empty());
        assert(num_val(ds.drop_last()) == 0);
        assert(ds.last() == (48 + n) as u8);
        assert((48 + n) as u8 == 48 + n);
    } else {
        lemma_num_val_dec_of(n / 10);
        assert(ds =~= dec_of(n / 10) + seq![(48 + n % 10) as u8]);
        assert(ds.drop_last() =~= dec_of(n / 10));
        assert(ds.last() == (48 + n % 10) as u8);
        assert((48 + n % 10) as u8 == 48 + n % 10);
        vstd::arithmetic::div_mod::lemma_fundamental_div_mod(n as int, 10);
        assert(n == 10 * (n as int / 10) + n as int % 10);
        assert(num_val(ds) == (n / 10) * 10 + n % 10);
    }
}

/// Digit strings have non-negative value.
pub proof fn lemma_num_val_nonneg(ds: Seq<u8>)
    requires
        forall|i: int| 0 <= i < ds.len() ==> is_digit_byte(#[trigger] ds[i]),
    ensures
        num_val(ds) >= 0,
    decreases ds.len(),
{
    if ds.len() > 0 {
        lemma_num_val_nonneg(ds.drop_last());
    }
}

/// Extending a digit string never lowers its value.
pub proof fn lemma_num_val_prefix(ds: Seq<u8>, m: int)
    requires
        0 <= m <= ds.len(),
        forall|i: int| 0 <= i < ds.len() ==> is_digit_byte(#[trigger] ds[i]),
    ensures
        num_val(ds.take(m)) <= num_val(ds),
    decreases ds.len() - m,
{
    if m < ds.len() {
        lemma_num_val_prefix(ds, m + 1);
        let p = ds.take(m + 1);
        assert(p.drop_last() =~= ds.take(m));
        lemma_num_val_nonneg(ds.take(m));
        assert(num_val(ds.take(m)) * 10 >= num_val(ds.take(m))) by {
            lemma_num_val_nonneg(ds.take(m));
        }
        assert(num_val(ds.take(m)) <= num_val(p));
    } else {
        assert(ds.take(m) =~= ds);
    }
}

/// Splitting an observed concatenation at its seam.
pub proof fn lemma_concat_split(s: Seq<u8>, i: int, a: Seq<u8>, b: Seq<u8>)
    requires
        0 <= i,
        i + a.len() + b.len() <= s.len(),
        s.subrange(i, i + a.len() + b.len()) == a + b,
    ensures
        s.subrange(i, i + a.len()) == a,
        s.subrange(i + a.len(), i + a.len() + b.len()) == b,
{
    let w = s.subrange(i, i + a.len() + b.len());
    assert forall|k: int| 0 <= k < a.len() implies s.subrange(i, i + a.len())[k] == a[k] by {
        assert(w[k] == (a + b)[k]);
    }
    assert(s.subrange(i, i + a.len()) =~= a);
    assert forall|k: int| 0 <= k < b.len() implies s.subrange(
        i + a.len(),
        i + a.len() + b.len(),
    )[k] == b[k] by {
        assert(w[a.len() + k] == (a + b)[a.len() + k]);
    }
    assert(s.subrange(i + a.len(), i + a.len() + b.len()) =~= b);
}

/// Exact-match literals parse to their end.
pub proof fn lemma_sp_lit_exact(s: Seq<u8>, i: int, lit: Seq<u8>)
    requires
        0 <= i,
        i + lit.len() <= s.len(),
        s.subrange(i, i + lit.len()) == lit,
    ensures
        sp_lit(s, i, lit) == Some(i + lit.len()),
{
}

/// A number whose digits sit at `i`, with a non-digit (or the end) after
/// them, parses to exactly that number.
pub proof fn lemma_sp_u64_exact(s: Seq<u8>, i: int, n: u64)
    requires
        0 <= i,
        i + dec_of(n as nat).len() <= s.len(),
        s.subrange(i, i + dec_of(n as nat).len()) == dec_of(n as nat),
        i + dec_of(n as nat).len() == s.len() || !is_digit_byte(s[i + dec_of(n as nat).len()]),
    ensures
        sp_u64(s, i) == Some((n, i + dec_of(n as nat).len())),
{
    let d = dec_of(n as nat);
    lemma_dec_of_digits(n as nat);
    assert forall|k: int| i <= k < i + d.len() implies is_digit_byte(#[trigger] s[k]) by {
        assert(s[k] == s.subrange(i, i + d.len())[k - i]);
    }
    lemma_digit_run_unique(s, i, i + d.len());
    lemma_num_val_dec_of(n as nat);
}

/// A quoted plain string at `i` parses to exactly its characters.
pub proof fn lemma_sp_jstr_exact(s: Seq<u8>, i: int, cs: Seq<char>)
    requires
        0 <= i,
        i + cs.len() + 2 <= s.len(),
        json_plain(cs),
        s.subrange(i, i + cs.len() + 2) == jstr_of(cs),
    ensures
        sp_jstr(s, i) == Some((cs, i + cs.len() + 2)),
{
    let w = jstr_of(cs);
    assert(s[i] == s.subrange(i, i + cs.len() + 2)[0]);
    assert(s[i] == 34u8);
    assert(s[i + cs.len() + 1] == s.subrange(i, i + cs.len() + 2)[cs.len() + 1 as int]);
    assert(s[i + cs.len() + 1] == 34u8);
    assert forall|k: int| i + 1 <= k < i + 1 + cs.len() implies is_plain_byte(
        #[trigger] s[k],
    ) by {
        assert(s[k] == s.subrange(i, i + cs.len() + 2)[k - i]);
        assert(s[k] == ascii_bytes(cs)[k - i - 1]);
        let c = cs[k - i - 1];
        assert(is_plain_byte(c as u8));
        assert(s[k] == c as u8);
    }
    assert(!is_plain_byte(s[i + 1 + cs.len()]));
    lemma_plain_run_unique(s, i + 1, i + 1 + cs.len());
    let got = s.subrange(i + 1, i + 1 + cs.len()).map_values(|b: u8| b as char);
    assert forall|k: int| 0 <= k < cs.len() implies got[k] == cs[k] by {
        assert(s.subrange(i + 1, i + 1 + cs.len())[k] == s[i + 1 + k]);
        assert(s[i + 1 + k] == s.subrange(i, i + cs.len() + 2)[1 + k]);
        assert(s[i + 1 + k] == ascii_bytes(cs)[k]);
        let c = cs[k];
        lemma_ascii_char_roundtrip(c);
    }
    assert(got =~= cs);
}

// ---------------------------------------------------------------------
// Executable emitters.
// ---------------------------------------------------------------------
/// Append the bytes of an ASCII literal (one byte per character).
pub fn push_lit(out: &mut Vec<u8>, lit: &str)
    ensures
        final(out)@ == old(out)@ + ascii_bytes(lit@),
{
    let n: usize = lit.unicode_len();
    let mut k: usize = 0;
    while k < n
        invariant
            n == lit@.len(),
            k <= n,
            out@ == old(out)@ + ascii_bytes(lit@).take(k as int),
        decreases n - k,
    {
        let c = lit.get_char(k);
        out.push(#[verifier::truncate] (c as u8));
        proof {
            assert(out@ =~= old(out)@ + ascii_bytes(lit@).take(k + 1));
        }
        k += 1;
    }
    proof {
        assert(ascii_bytes(lit@).take(n as int) =~= ascii_bytes(lit@));
    }
}

/// Append one raw byte.
pub fn push_byte(out: &mut Vec<u8>, b: u8)
    ensures
        final(out)@ == old(out)@ + seq![b],
{
    out.push(b);
    proof {
        assert(out@ =~= old(out)@ + seq![b]);
    }
}

/// Append the decimal digits of `n`.
pub fn push_u64(out: &mut Vec<u8>, n: u64)
    ensures
        final(out)@ == old(out)@ + dec_of(n as nat),
{
    let mut digits: Vec<u8> = Vec::new();
    let mut m: u64 = n;
    digits.push(48 + (m % 10) as u8);
    m = m / 10;
    proof {
        if m == 0 {
            assert(digits@ =~= dec_of(n as nat).reverse()) by {
                assert(dec_of(n as nat) =~= seq![(48 + n % 10) as u8]);
            }
        } else {
            assert(dec_of(n as nat) =~= dec_of(m as nat) + digits@.reverse()) by {
                assert(digits@.reverse() =~= seq![(48 + n % 10) as u8]);
            }
        }
    }
    while m > 0
        invariant
            m > 0 ==> dec_of(n as nat) == dec_of(m as nat) + digits@.reverse(),
            m == 0 ==> dec_of(n as nat) == digits@.reverse(),
            digits@.len() >= 1,
        decreases m,
    {
        let ghost mold = m as nat;
        let ghost dold = digits@;
        digits.push(48 + (m % 10) as u8);
        m = m / 10;
        proof {
            assert(digits@.reverse() =~= seq![(48 + mold % 10) as u8] + dold.reverse());
            if m == 0 {
                assert(dec_of(mold) =~= seq![(48 + mold % 10) as u8]);
                assert(dec_of(n as nat) =~= digits@.reverse());
            } else {
                assert(dec_of(mold) =~= dec_of(mold / 10) + seq![(48 + mold % 10) as u8]);
                assert(dec_of(n as nat) =~= dec_of(m as nat) + digits@.reverse());
            }
        }
    }
    // append digits in reverse order
    let dn: usize = digits.len();
    let mut k: usize = 0;
    while k < dn
        invariant
            dn == digits@.len(),
            k <= dn,
            out@ == old(out)@ + digits@.reverse().take(k as int),
        decreases dn - k,
    {
        proof {
            assert(digits@.reverse()[k as int] == digits@[dn - 1 - k]);
        }
        out.push(digits[dn - 1 - k]);
        proof {
            assert(out@ =~= old(out)@ + digits@.reverse().take(k + 1));
        }
        k += 1;
    }
    proof {
        assert(digits@.reverse().take(dn as int) =~= digits@.reverse());
        assert(dec_of(n as nat) == digits@.reverse());
    }
}

/// Append a quoted JSON string for ASCII-plain content.
pub fn push_jstr(out: &mut Vec<u8>, s: &str)
    requires
        json_plain(s@),
    ensures
        final(out)@ == old(out)@ + jstr_of(s@),
{
    push_byte(out, 34);
    push_lit(out, s);
    push_byte(out, 34);
    proof {
        assert(out@ =~= old(out)@ + jstr_of(s@));
    }
}

// ---------------------------------------------------------------------
// Executable parsers, exact to the specification parser.
// ---------------------------------------------------------------------
/// Match `lit` at `i`.
pub fn expect_lit(s: &Vec<u8>, i: usize, lit: &str) -> (r: Option<usize>)
    ensures
        match r {
            Some(j) => sp_lit(s@, i as int, ascii_bytes(lit@)) == Some(j as int),
            None => sp_lit(s@, i as int, ascii_bytes(lit@)) is None,
        },
{
    let n: usize = s.len();
    let m: usize = lit.unicode_len();
    if i > n || m > n - i {
        return None;
    }
    let mut k: usize = 0;
    while k < m
        invariant
            n == s@.len(),
            m == lit@.len(),
            i + m <= n,
            k <= m,
            forall|t: int| 0 <= t < k ==> s@[i + t] == ascii_bytes(lit@)[t],
        decreases m - k,
    {
        let c = lit.get_char(k);
        if s[i + k] != #[verifier::truncate] (c as u8) {
            proof {
                let w = s@.subrange(i as int, i + m);
                assert(w[k as int] == s@[i + k]);
            }
            return None;
        }
        k += 1;
    }
    proof {
        assert(s@.subrange(i as int, i + m) =~= ascii_bytes(lit@));
    }
    Some(i + m)
}

/// Parse the digit run at `i` as a `u64`.
pub fn parse_u64(s: &Vec<u8>, i: usize) -> (r: Option<(u64, usize)>)
    ensures
        match r {
            Some((v, j)) => sp_u64(s@, i as int) == Some((v, j as int)),
            None => sp_u64(s@, i as int) is None,
        },
{
    let n: usize = s.len();
    if i >= n || s[i] < 48 || s[i] > 57 {
        proof {
            if i as int <= s@.len() {
                assert(digit_run_end(s@, i as int) == i);
            }
        }
        return None;
    }
    let ghost e = digit_run_end(s@, i as int);
    proof {
        lemma_digit_run_end(s@, i as int);
    }
    let mut j: usize = i;
    let mut v: u64 = 0;
    proof {
        assert(s@.subrange(i as int, i as int) =~= Seq::<u8>::empty());
    }
    while j < n && s[j] >= 48 && s[j] <= 57
        invariant
            n == s@.len(),
            i <= j <= n,
            e == digit_run_end(s@, i as int),
            i <= e <= n,
            forall|k: int| i <= k < e ==> is_digit_byte(#[trigger] s@[k]),
            e == s@.len() || !is_digit_byte(s@[e as int]),
            j <= e,
            v == num_val(s@.subrange(i as int, j as int)),
        decreases n - j,
    {
        let d: u64 = (s[j] - 48) as u64;
        let ghost pre = s@.subrange(i as int, j as int);
        let ghost cur = s@.subrange(i as int, j + 1);
        proof {
            assert(cur.drop_last() =~= pre);
            assert(cur.last() == s@[j as int]);
        }
        let v10 = match v.checked_mul(10) {
            Some(x) => x,
            None => {
                proof {
                    overflow_exceeds(s@, i as int, j as int, e, v as int * 10 + d);
                }
                return None;
            },
        };
        let vd = match v10.checked_add(d) {
            Some(x) => x,
            None => {
                proof {
                    overflow_exceeds(s@, i as int, j as int, e, v as int * 10 + d);
                }
                return None;
            },
        };
        v = vd;
        j += 1;
        proof {
            if j <= e {
            } else {
                assert(j == e + 1);
                assert(is_digit_byte(s@[e as int]));
            }
        }
    }
    proof {
        if j < n && !is_digit_byte(s@[j as int]) {
            assert(j == e) by {
                if j < e {
                    assert(is_digit_byte(s@[j as int]));
                }
            }
        } else {
            assert(j == n);
            assert(j == e);
        }
        assert(num_val(s@.subrange(i as int, e)) == v);
    }
    Some((v, j))
}

/// When the accumulated value overflows `u64`, the whole run's value does.
proof fn overflow_exceeds(s: Seq<u8>, i: int, j: int, e: int, next: int)
    requires
        0 <= i <= j < e <= s.len(),
        e == digit_run_end(s, i),
        forall|k: int| i <= k < e ==> is_digit_byte(#[trigger] s[k]),
        next == num_val(s.subrange(i, j)) * 10 + (s[j] - 48),
        next > u64::MAX,
    ensures
        sp_u64(s, i) is None,
{
    let full = s.subrange(i, e);
    assert forall|k: int| 0 <= k < full.len() implies is_digit_byte(#[trigger] full[k]) by {
        assert(full[k] == s[i + k]);
    }
    let cur = s.subrange(i, j + 1);
    assert(cur.drop_last() =~= s.subrange(i, j));
    assert(cur.last() == s[j]);
    assert(num_val(cur) == next);
    assert(full.take(j + 1 - i) =~= cur);
    lemma_num_val_prefix(full, j + 1 - i);
    assert(num_val(full) >= next);
}

/// Parse the JSON string token at `i`.
pub fn parse_jstr(s: &Vec<u8>, i: usize) -> (r: Option<(String, usize)>)
    ensures
        match r {
            Some((v, j)) => sp_jstr(s@, i as int) == Some((v@, j as int)),
            None => sp_jstr(s@, i as int) is None,
        },
{
    let n: usize = s.len();
    if i >= n || s[i] != 34 {
        return None;
    }
    let ghost e = plain_run_end(s@, i + 1);
    proof {
        lemma_plain_run_end(s@, i + 1);
    }
    let mut j: usize = i + 1;
    let mut content: Vec<u8> = Vec::new();
    proof {
        assert(content@ =~= s@.subrange(i + 1, i + 1));
    }
    while j < n && s[j] >= 32 && s[j] < 127 && s[j] != 34 && s[j] != 92
        invariant
            n == s@.len(),
            i + 1 <= j <= n,
            e == plain_run_end(s@, i + 1),
            i + 1 <= e <= n,
            forall|k: int| i + 1 <= k < e ==> is_plain_byte(#[trigger] s@[k]),
            e == s@.len() || !is_plain_byte(s@[e as int]),
            j <= e,
            content@ == s@.subrange(i + 1, j as int),
            forall|k: int| 0 <= k < content@.len() ==> content@[k] < 128,
        decreases n - j,
    {
        content.push(s[j]);
        j += 1;
        proof {
            assert(content@ =~= s@.subrange(i + 1, j as int));
            if j > e {
                assert(j == e + 1);
                assert(is_plain_byte(s@[e as int]));
            }
        }
    }
    proof {
        if j < n && !is_plain_byte(s@[j as int]) {
            assert(j == e) by {
                if j < e {
                    assert(is_plain_byte(s@[j as int]));
                }
            }
        } else {
            assert(j == n);
            assert(j == e);
        }
    }
    if j >= n || s[j] != 34 {
        return None;
    }
    let v = crate::strutil::string_from_ascii(content);
    proof {
        let want = s@.subrange(i + 1, e).map_values(|b: u8| b as char);
        assert(v@ =~= want);
    }
    Some((v, j + 1))
}

} // verus!
