//! Answer normalization: correctness of a quiz answer is a whitespace-trimmed,
//! ASCII-case-insensitive exact match between the submitted and the stored
//! answer, stated and computed over the strings' UTF-8 bytes.
//!
//! Whitespace here means ASCII whitespace: padding made of non-ASCII
//! whitespace characters (an ideographic space, a no-break space) is kept,
//! and an answer padded only with such characters does not match. This is a
//! deliberate choice: the trimming rule is then a plain statement over
//! bytes, verified end to end.

use vstd::prelude::*;
use vstd::string::StringSliceAdditionalSpecFns;
use vstd::utf8::{encode_utf8, is_char_boundary, is_continuation_byte, valid_utf8};

verus! {

broadcast use vstd::utf8::encode_utf8_valid_utf8, vstd::utf8::is_char_boundary_start_end_of_seq,
    vstd::utf8::is_char_boundary_iff_not_is_continuation_byte;

/// ASCII whitespace.
pub open spec fn is_ascii_space(b: u8) -> bool {
    b == 32 || b == 9 || b == 10 || b == 11 || b == 12 || b == 13
}

/// Bytes with leading ASCII whitespace removed.
pub open spec fn trim_start_bytes(s: Seq<u8>) -> Seq<u8>
    decreases s.len(),
{
    if s.len() > 0 && is_ascii_space(s[0]) {
        trim_start_bytes(s.skip(1))
    } else {
        s
    }
}

/// Bytes with trailing ASCII whitespace removed.
pub open spec fn trim_end_bytes(s: Seq<u8>) -> Seq<u8>
    decreases s.len(),
{
    if s.len() > 0 && is_ascii_space(s[s.len() - 1]) {
        trim_end_bytes(s.take(s.len() - 1))
    } else {
        s
    }
}

/// Bytes with leading and trailing ASCII whitespace removed.
pub open spec fn trim_bytes(s: Seq<u8>) -> Seq<u8> {
    trim_end_bytes(trim_start_bytes(s))
}

/// ASCII lowercase of one byte; bytes outside `A..=Z` are unchanged.
pub open spec fn lower_byte(b: u8) -> u8 {
    if 65 <= b <= 90 {
        (b + 32) as u8
    } else {
        b
    }
}

/// Bytewise ASCII lowercase.
pub open spec fn lower_bytes(s: Seq<u8>) -> Seq<u8> {
    s.map_values(|b: u8| lower_byte(b))
}

/// The normalized form answers are compared in.
pub open spec fn normalized(s: Seq<u8>) -> Seq<u8> {
    lower_bytes(trim_bytes(s))
}

/// Whether a submitted answer counts as correct against the stored one.
pub open spec fn answers_match(submitted: Seq<u8>, correct: Seq<u8>) -> bool {
    normalized(submitted) == normalized(correct)
}

/// Lexicographic order on byte sequences from position `i` on, the order
/// `Ord` on strings and binary collation give.
pub open spec fn lex_le_from(a: Seq<u8>, b: Seq<u8>, i: int) -> bool
    decreases a.len() - i,
{
    if i < 0 || i >= a.len() {
        true
    } else if i >= b.len() {
        false
    } else if a[i] < b[i] {
        true
    } else if a[i] > b[i] {
        false
    } else {
        lex_le_from(a, b, i + 1)
    }
}

/// Lexicographic order on byte sequences.
pub open spec fn lex_le(a: Seq<u8>, b: Seq<u8>) -> bool {
    lex_le_from(a, b, 0)
}

/// The lexicographic order is total.
pub proof fn lemma_lex_total_from(a: Seq<u8>, b: Seq<u8>, i: int)
    ensures
        lex_le_from(a, b, i) || lex_le_from(b, a, i),
    decreases a.len() - i,
{
    if 0 <= i < a.len() && i < b.len() && a[i] == b[i] {
        lemma_lex_total_from(a, b, i + 1);
    }
}

/// The lexicographic order is total.
pub proof fn lemma_lex_total(a: Seq<u8>, b: Seq<u8>)
    ensures
        lex_le(a, b) || lex_le(b, a),
{
    lemma_lex_total_from(a, b, 0);
}

/// The lexicographic order is transitive.
pub proof fn lemma_lex_trans_from(a: Seq<u8>, b: Seq<u8>, c: Seq<u8>, i: int)
    requires
        lex_le_from(a, b, i),
        lex_le_from(b, c, i),
    ensures
        lex_le_from(a, c, i),
    decreases a.len() - i,
{
    if 0 <= i < a.len() {
        if i < b.len() && i < c.len() && a[i] == b[i] && b[i] == c[i] {
            lemma_lex_trans_from(a, b, c, i + 1);
        }
    }
}

/// The lexicographic order is transitive.
pub proof fn lemma_lex_trans(a: Seq<u8>, b: Seq<u8>, c: Seq<u8>)
    requires
        lex_le(a, b),
        lex_le(b, c),
    ensures
        lex_le(a, c),
{
    lemma_lex_trans_from(a, b, c, 0);
}

/// Whether `a` is lexicographically at most `b`, over the UTF-8 bytes.
pub fn str_le(a: &str, b: &str) -> (r: bool)
    ensures
        r == lex_le(a.spec_bytes(), b.spec_bytes()),
{
    let ab = a.as_bytes();
    let bb = b.as_bytes();
    let na = ab.len();
    let nb = bb.len();
    let mut i: usize = 0;
    while i < na && i < nb
        invariant
            na == ab.len(),
            nb == bb.len(),
            0 <= i <= na,
            i <= nb,
            ab@ == a.spec_bytes(),
            bb@ == b.spec_bytes(),
            lex_le(a.spec_bytes(), b.spec_bytes()) == lex_le_from(
                a.spec_bytes(),
                b.spec_bytes(),
                i as int,
            ),
        decreases na - i,
    {
        if ab[i] < bb[i] {
            return true;
        }
        if ab[i] > bb[i] {
            return false;
        }
        i += 1;
    }
    na <= nb
}

/// A prefix of ASCII whitespace up to the first non-whitespace position is
/// exactly what `trim_start_bytes` removes.
proof fn lemma_trim_start_at(s: Seq<u8>, i: int)
    requires
        0 <= i <= s.len(),
        forall|j: int| 0 <= j < i ==> is_ascii_space(s[j]),
        i < s.len() ==> !is_ascii_space(s[i]),
    ensures
        trim_start_bytes(s) == s.skip(i),
    decreases i,
{
    if i == 0 {
        assert(s.skip(0) =~= s);
    } else {
        lemma_trim_start_at(s.skip(1), i - 1);
        assert(s.skip(1).skip(i - 1) =~= s.skip(i));
    }
}

/// A suffix of ASCII whitespace from the last non-whitespace position on is
/// exactly what `trim_end_bytes` removes.
proof fn lemma_trim_end_at(s: Seq<u8>, k: int)
    requires
        0 <= k <= s.len(),
        forall|j: int| k <= j < s.len() ==> is_ascii_space(s[j]),
        k > 0 ==> !is_ascii_space(s[k - 1]),
    ensures
        trim_end_bytes(s) == s.take(k),
    decreases s.len(),
{
    if k == s.len() {
        assert(s.take(k) =~= s);
    } else {
        lemma_trim_end_at(s.take(s.len() - 1), k);
        assert(s.take(s.len() - 1).take(k) =~= s.take(k));
    }
}

/// Whether a byte is ASCII whitespace.
fn is_space(b: u8) -> (r: bool)
    ensures
        r == is_ascii_space(b),
{
    b == 32 || b == 9 || b == 10 || b == 11 || b == 12 || b == 13
}

/// Strip leading and trailing ASCII whitespace from a string.
pub fn trim_str(s: &str) -> (r: &str)
    ensures
        r.spec_bytes() == trim_bytes(s.spec_bytes()),
{
    let bytes = s.as_bytes();
    let n = bytes.len();
    let mut lo: usize = 0;
    while lo < n && is_space(bytes[lo])
        invariant
            n == bytes.len(),
            0 <= lo <= n,
            bytes@ == s.spec_bytes(),
            forall|j: int| 0 <= j < lo ==> is_ascii_space(bytes@[j]),
        decreases n - lo,
    {
        lo += 1;
    }
    let mut hi: usize = n;
    while hi > lo && is_space(bytes[hi - 1])
        invariant
            n == bytes.len(),
            0 <= lo <= hi <= n,
            bytes@ == s.spec_bytes(),
            forall|j: int| hi <= j < n ==> is_ascii_space(bytes@[j]),
        decreases hi,
    {
        hi -= 1;
    }
    proof {
        let h = s.spec_bytes();
        assert(valid_utf8(encode_utf8(s@)));
        lemma_trim_start_at(h, lo as int);
        crate::credentials::lemma_ascii_prefix_boundary(h, lo as int);
    }
    let (_, t1) = s.split_at(lo);
    proof {
        let h = s.spec_bytes();
        let t = t1.spec_bytes();
        assert(valid_utf8(encode_utf8(t1@)));
        assert(t =~= h.skip(lo as int));
        lemma_trim_end_at(t, hi - lo);
        if hi - lo < t.len() {
            assert(t[hi - lo] == h[hi as int]);
            assert(!is_continuation_byte(t[hi - lo]));
        }
        assert(is_char_boundary(t, hi - lo));
    }
    let (t2, _) = t1.split_at(hi - lo);
    proof {
        assert(t2.spec_bytes() =~= t1.spec_bytes().take(hi - lo));
    }
    t2
}

/// ASCII lowercase of one byte.
fn lower(b: u8) -> (r: u8)
    ensures
        r == lower_byte(b),
{
    if 65 <= b && b <= 90 {
        b + 32
    } else {
        b
    }
}

/// Whether two strings are equal up to ASCII case.
pub fn eq_ignore_ascii_case_str(a: &str, b: &str) -> (r: bool)
    ensures
        r == (lower_bytes(a.spec_bytes()) == lower_bytes(b.spec_bytes())),
{
    let ab = a.as_bytes();
    let bb = b.as_bytes();
    if ab.len() != bb.len() {
        proof {
            assert(lower_bytes(a.spec_bytes()).len() == a.spec_bytes().len());
            assert(lower_bytes(b.spec_bytes()).len() == b.spec_bytes().len());
        }
        return false;
    }
    let n = ab.len();
    let mut i: usize = 0;
    while i < n
        invariant
            n == ab.len() == bb.len(),
            0 <= i <= n,
            ab@ == a.spec_bytes(),
            bb@ == b.spec_bytes(),
            forall|j: int| 0 <= j < i ==> lower_byte(ab@[j]) == lower_byte(bb@[j]),
        decreases n - i,
    {
        if lower(ab[i]) != lower(bb[i]) {
            proof {
                assert(lower_bytes(a.spec_bytes())[i as int] == lower_byte(ab@[i as int]));
                assert(lower_bytes(b.spec_bytes())[i as int] == lower_byte(bb@[i as int]));
            }
            return false;
        }
        i += 1;
    }
    proof {
        assert(lower_bytes(a.spec_bytes()) =~= lower_bytes(b.spec_bytes()));
    }
    true
}

/// Whether a submitted answer matches the stored correct answer, after
/// trimming ASCII whitespace on both and ignoring ASCII case.
pub fn check_answer(submitted: &str, correct: &str) -> (r: bool)
    ensures
        r == answers_match(submitted.spec_bytes(), correct.spec_bytes()),
{
    let ts = trim_str(submitted);
    let tc = trim_str(correct);
    eq_ignore_ascii_case_str(ts, tc)
}

} // verus!
