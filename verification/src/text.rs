//! Verified text utilities: character buffers, substring search, ASCII case
//! mapping and fixed-point decimal parsing. The importers work on `Vec<char>`
//! so every step of their scanning is ordinary verified code.

use vstd::prelude::*;
use vstd::string::*;
use crate::fmt::push_char;

verus! {

/// The characters of a string slice, as a vector.
pub fn str_chars(s: &str) -> (v: Vec<char>)
    ensures
        v@ == s@,
{
    let n = s.unicode_len();
    let mut v: Vec<char> = Vec::new();
    let mut i: usize = 0;
    while i < n
        invariant
            n == s@.len(),
            0 <= i <= n,
            v@ == s@.take(i as int),
        decreases n - i,
    {
        v.push(s.get_char(i));
        proof {
            assert(v@ =~= s@.take(i as int + 1));
        }
        i = i + 1;
    }
    proof {
        assert(s@.take(n as int) =~= s@);
    }
    v
}

/// A string made of a range of the given characters.
pub fn chars_string_range(v: &[char], from: usize, to: usize) -> (s: String)
    requires
        from <= to <= v@.len(),
    ensures
        s@ == v@.subrange(from as int, to as int),
{
    let mut s = String::new();
    let mut i: usize = from;
    while i < to
        invariant
            from <= i <= to <= v@.len(),
            s@ == v@.subrange(from as int, i as int),
        decreases to - i,
    {
        push_char(&mut s, v[i]);
        proof {
            assert(s@ =~= v@.subrange(from as int, i as int + 1));
        }
        i = i + 1;
    }
    s
}

/// A copy of the characters `v[from..to)`.
pub fn vec_range(v: &[char], from: usize, to: usize) -> (r: Vec<char>)
    requires
        from <= to <= v@.len(),
    ensures
        r@ == v@.subrange(from as int, to as int),
{
    let mut r: Vec<char> = Vec::new();
    let mut i: usize = from;
    while i < to
        invariant
            from <= i <= to <= v@.len(),
            r@ == v@.subrange(from as int, i as int),
        decreases to - i,
    {
        r.push(v[i]);
        proof {
            assert(r@ =~= v@.subrange(from as int, i as int + 1));
        }
        i = i + 1;
    }
    r
}

/// The needle occurs in the haystack at position `at`.
pub open spec fn match_at(hay: Seq<char>, needle: Seq<char>, at: int) -> bool {
    &&& 0 <= at
    &&& at + needle.len() <= hay.len()
    &&& hay.subrange(at, at + needle.len() as int) == needle
}

/// Position of the first occurrence of the needle at or after `from`.
pub open spec fn spec_find(hay: Seq<char>, needle: Seq<char>, from: int) -> Option<int>
    decreases hay.len() - from + 1,
{
    if from < 0 || from + needle.len() > hay.len() {
        None
    } else if match_at(hay, needle, from) {
        Some(from)
    } else {
        spec_find(hay, needle, from + 1)
    }
}

/// What `spec_find` returns is the first match.
pub proof fn lemma_spec_find(hay: Seq<char>, needle: Seq<char>, from: int)
    requires
        0 <= from,
    ensures
        match spec_find(hay, needle, from) {
            Some(p) => match_at(hay, needle, p) && from <= p && forall|q: int|
                from <= q < p ==> !match_at(hay, needle, q),
            None => forall|q: int| from <= q ==> !match_at(hay, needle, q),
        },
    decreases hay.len() - from + 1,
{
    if from + needle.len() > hay.len() {
    } else if match_at(hay, needle, from) {
    } else {
        lemma_spec_find(hay, needle, from + 1);
    }
}

/// Whether the needle matches the haystack at `at`, by comparison.
pub fn is_match_at(hay: &[char], needle: &[char], at: usize) -> (r: bool)
    requires
        at + needle@.len() <= hay@.len(),
    ensures
        r == match_at(hay@, needle@, at as int),
{
    let hn = hay.len();
    let nn = needle.len();
    let mut k: usize = 0;
    while k < nn
        invariant
            hn == hay@.len(),
            nn == needle@.len(),
            at + nn <= hn,
            0 <= k <= nn,
            forall|m: int| 0 <= m < k ==> hay@[at + m] == needle@[m],
        decreases nn - k,
    {
        if hay[at + k] != needle[k] {
            proof {
                assert(hay@.subrange(at as int, at as int + needle@.len() as int)[k as int]
                    != needle@[k as int]);
            }
            return false;
        }
        k = k + 1;
    }
    proof {
        assert(hay@.subrange(at as int, at as int + needle@.len() as int) =~= needle@);
    }
    true
}

/// First occurrence of the needle at or after `from`, scanning left to right.
pub fn find_chars(hay: &[char], needle: &[char], from: usize) -> (r: Option<usize>)
    ensures
        match r {
            Some(p) => Some(p as int) == spec_find(hay@, needle@, from as int),
            None => spec_find(hay@, needle@, from as int) is None,
        },
{
    let hn = hay.len();
    let nn = needle.len();
    if nn == 0 {
        if from <= hn {
            proof {
                assert(hay@.subrange(from as int, from as int) =~= needle@);
            }
            return Some(from);
        } else {
            proof {
                lemma_spec_find_none_past_end(hay@, needle@, from as int);
            }
            return None;
        }
    }
    if nn > hn || from > hn - nn {
        proof {
            lemma_spec_find_none_past_end(hay@, needle@, from as int);
        }
        return None;
    }
    let mut i: usize = from;
    while i <= hn - nn
        invariant
            hn == hay@.len(),
            nn == needle@.len(),
            1 <= nn <= hn,
            from <= i <= hn - nn + 1,
            spec_find(hay@, needle@, from as int) == spec_find(hay@, needle@, i as int),
        decreases hn - i,
    {
        if is_match_at(hay, needle, i) {
            return Some(i);
        }
        i = i + 1;
    }
    proof {
        lemma_spec_find_none_past_end(hay@, needle@, i as int);
    }
    None
}

proof fn lemma_spec_find_none_past_end(hay: Seq<char>, needle: Seq<char>, from: int)
    requires
        from + needle.len() > hay.len() || from < 0,
    ensures
        spec_find(hay, needle, from) is None,
{
}

/// A lower-case ASCII letter mapped to upper case; everything else unchanged.
pub open spec fn spec_ascii_upper(c: char) -> char {
    if 'a' <= c && c <= 'z' {
        (((c as u8) - 32) as char)
    } else {
        c
    }
}

/// Upper-case mapping of a whole character sequence.
pub open spec fn spec_upper(s: Seq<char>) -> Seq<char> {
    s.map_values(|c: char| spec_ascii_upper(c))
}

/// ASCII upper case of one character.
pub fn ascii_upper(c: char) -> (r: char)
    ensures
        r == spec_ascii_upper(c),
{
    if 'a' <= c && c <= 'z' {
        ((c as u8) - 32) as char
    } else {
        c
    }
}

/// ASCII whitespace.
pub open spec fn spec_is_space(c: char) -> bool {
    c == ' ' || c == '\t' || c == '\n' || c == '\r'
}

pub fn is_space(c: char) -> (r: bool)
    ensures
        r == spec_is_space(c),
{
    c == ' ' || c == '\t' || c == '\n' || c == '\r'
}

/// First index at or after `i` holding a non-whitespace character.
pub open spec fn spec_skip_spaces(s: Seq<char>, i: int) -> int
    decreases s.len() - i,
{
    if i < 0 || i >= s.len() {
        i
    } else if spec_is_space(s[i]) {
        spec_skip_spaces(s, i + 1)
    } else {
        i
    }
}

pub fn skip_spaces(s: &[char], from: usize) -> (r: usize)
    requires
        from <= s@.len(),
    ensures
        r as int == spec_skip_spaces(s@, from as int),
        from <= r <= s@.len(),
{
    let mut i: usize = from;
    while i < s.len() && is_space(s[i])
        invariant
            from <= i <= s@.len(),
            spec_skip_spaces(s@, from as int) == spec_skip_spaces(s@, i as int),
        decreases s.len() - i,
    {
        i = i + 1;
    }
    i
}

/// A decimal digit.
pub open spec fn spec_is_digit(c: char) -> bool {
    '0' <= c && c <= '9'
}

pub fn is_digit(c: char) -> (r: bool)
    ensures
        r == spec_is_digit(c),
{
    '0' <= c && c <= '9'
}

/// Numeric value of a digit character.
pub open spec fn spec_digit_val(c: char) -> int {
    c as int - 48
}

/// First index at or after `i` holding a non-digit.
pub open spec fn spec_digits_end(s: Seq<char>, i: int) -> int
    decreases s.len() - i,
{
    if i < 0 || i >= s.len() {
        i
    } else if spec_is_digit(s[i]) {
        spec_digits_end(s, i + 1)
    } else {
        i
    }
}

pub proof fn lemma_digits_end(s: Seq<char>, i: int)
    requires
        0 <= i <= s.len(),
    ensures
        i <= spec_digits_end(s, i) <= s.len(),
        forall|k: int| i <= k < spec_digits_end(s, i) ==> spec_is_digit(#[trigger] s[k]),
    decreases s.len() - i,
{
    if i < s.len() && spec_is_digit(s[i]) {
        lemma_digits_end(s, i + 1);
    }
}

/// Value of the decimal digits `s[i..j)`, most significant first.
pub open spec fn spec_digits_val(s: Seq<char>, i: int, j: int) -> int
    decreases j - i,
{
    if j <= i {
        0
    } else {
        spec_digits_val(s, i, j - 1) * 10 + spec_digit_val(s[j - 1])
    }
}

/// Ten to the `e`.
pub open spec fn pow10(e: nat) -> int
    decreases e,
{
    if e == 0 {
        1
    } else {
        10 * pow10((e - 1) as nat)
    }
}

pub proof fn lemma_pow10_positive(e: nat)
    ensures
        pow10(e) >= 1,
    decreases e,
{
    if e > 0 {
        lemma_pow10_positive((e - 1) as nat);
    }
}

pub proof fn lemma_pow10_mono(a: nat, b: nat)
    requires
        a <= b,
    ensures
        pow10(a) <= pow10(b),
    decreases b,
{
    if a < b {
        lemma_pow10_mono(a, (b - 1) as nat);
        lemma_pow10_positive((b - 1) as nat);
    }
}

pub proof fn lemma_pow10_add(a: nat, b: nat)
    ensures
        pow10(a) * pow10(b) == pow10(a + b),
    decreases a,
{
    if a == 0 {
    } else {
        lemma_pow10_add((a - 1) as nat, b);
        assert(pow10(a) * pow10(b) == 10 * (pow10((a - 1) as nat) * pow10(b)))
            by (nonlinear_arith)
            requires
                pow10(a) == 10 * pow10((a - 1) as nat),
        ;
    }
}

/// The value of a digit run is below ten to its length.
pub proof fn lemma_digits_val_bound(s: Seq<char>, i: int, j: int)
    requires
        0 <= i <= j <= s.len(),
        forall|k: int| i <= k < j ==> spec_is_digit(#[trigger] s[k]),
    ensures
        0 <= spec_digits_val(s, i, j) < pow10((j - i) as nat),
    decreases j - i,
{
    if j > i {
        lemma_digits_val_bound(s, i, j - 1);
        lemma_pow10_positive((j - 1 - i) as nat);
        let v = spec_digits_val(s, i, j - 1);
        assert(v * 10 + spec_digit_val(s[j - 1]) < pow10((j - i) as nat)) by {
            assert(v <= pow10((j - 1 - i) as nat) - 1);
            assert(v * 10 <= (pow10((j - 1 - i) as nat) - 1) * 10) by (nonlinear_arith)
                requires
                    v <= pow10((j - 1 - i) as nat) - 1,
            ;
        }
    }
}

/// A value below ten-to-the-`a`, scaled by ten-to-the-`b`, stays below
/// ten-to-the-`a+b` by a whole ten-to-the-`b`.
pub proof fn lemma_scaled_bound(v: int, a: nat, b: nat)
    requires
        0 <= v < pow10(a),
    ensures
        0 <= v * pow10(b) <= pow10(a + b) - pow10(b),
{
    lemma_pow10_positive(b);
    lemma_pow10_add(a, b);
    assert(v * pow10(b) <= pow10(a) * pow10(b) - pow10(b) && 0 <= v * pow10(b))
        by (nonlinear_arith)
        requires
            0 <= v <= pow10(a) - 1,
            pow10(b) >= 1,
    ;
}

/// Sign applied to a magnitude.
pub open spec fn spec_signed(neg: bool, v: int) -> int {
    if neg {
        -v
    } else {
        v
    }
}

/// The value of a decimal string, scaled by ten to the `scale`: an optional
/// sign, then digits with an optional fraction part, nothing else. Fraction
/// digits beyond `scale` are truncated; numbers with more than `18 - scale`
/// integer digits are rejected, so the result always fits an `i64`.
pub open spec fn spec_parse_scaled(s: Seq<char>, scale: nat) -> Option<int> {
    let neg = s.len() > 0 && s[0] == '-';
    let i0: int = if s.len() > 0 && (s[0] == '-' || s[0] == '+') {
        1
    } else {
        0
    };
    let i1 = spec_digits_end(s, i0);
    let nint = i1 - i0;
    if nint + scale > 18 {
        None
    } else if i1 == s.len() {
        if nint > 0 {
            Some(spec_signed(neg, spec_digits_val(s, i0, i1) * pow10(scale)))
        } else {
            None
        }
    } else if s[i1] == '.' {
        let i2 = spec_digits_end(s, i1 + 1);
        let nfrac = i2 - (i1 + 1);
        if i2 != s.len() || (nint == 0 && nfrac == 0) {
            None
        } else {
            let taken: int = if nfrac <= scale {
                nfrac
            } else {
                scale as int
            };
            Some(
                spec_signed(
                    neg,
                    spec_digits_val(s, i0, i1) * pow10(scale) + spec_digits_val(
                        s,
                        i1 + 1,
                        i1 + 1 + taken,
                    ) * pow10((scale - taken) as nat),
                ),
            )
        }
    } else {
        None
    }
}

/// First non-digit index at or after `from`, by scanning.
fn digits_end(s: &[char], from: usize) -> (r: usize)
    requires
        from <= s@.len(),
    ensures
        r as int == spec_digits_end(s@, from as int),
        from <= r <= s@.len(),
{
    let mut i: usize = from;
    while i < s.len() && is_digit(s[i])
        invariant
            from <= i <= s@.len(),
            spec_digits_end(s@, from as int) == spec_digits_end(s@, i as int),
        decreases s.len() - i,
    {
        i = i + 1;
    }
    i
}

/// Value of the digits `s[i..j)` as an `i64`; at most 18 digits.
fn digits_val(s: &[char], i: usize, j: usize) -> (v: i64)
    requires
        i <= j <= s@.len(),
        j - i <= 18,
        forall|k: int| i <= k < j ==> spec_is_digit(#[trigger] s@[k]),
    ensures
        v as int == spec_digits_val(s@, i as int, j as int),
        0 <= v < pow10((j - i) as nat),
{
    proof {
        reveal_with_fuel(pow10, 20);
    }
    let mut v: i64 = 0;
    let mut k: usize = i;
    while k < j
        invariant
            i <= k <= j <= s@.len(),
            j - i <= 18,
            forall|m: int| i <= m < j ==> spec_is_digit(#[trigger] s@[m]),
            v as int == spec_digits_val(s@, i as int, k as int),
            0 <= v < pow10((k - i) as nat),
            pow10(18) == 1_000_000_000_000_000_000,
        decreases j - k,
    {
        proof {
            lemma_digits_val_bound(s@, i as int, k as int + 1);
            lemma_pow10_mono((k + 1 - i) as nat, 18);
            reveal_with_fuel(pow10, 20);
        }
        let d = (s[k] as u8) - 48;
        v = v * 10 + (d as i64);
        k = k + 1;
    }
    proof {
        lemma_digits_val_bound(s@, i as int, j as int);
    }
    v
}

/// Ten to the `e` as an `i64`; `e` at most 18.
fn pow10_i64(e: usize) -> (r: i64)
    requires
        e <= 18,
    ensures
        r as int == pow10(e as nat),
{
    proof {
        reveal_with_fuel(pow10, 20);
    }
    let mut r: i64 = 1;
    let mut k: usize = 0;
    while k < e
        invariant
            0 <= k <= e <= 18,
            r as int == pow10(k as nat),
            pow10(18) == 1_000_000_000_000_000_000,
        decreases e - k,
    {
        proof {
            lemma_pow10_mono((k + 1) as nat, 18);
            reveal_with_fuel(pow10, 20);
        }
        r = r * 10;
        k = k + 1;
    }
    r
}

/// Parse a decimal string into an `i64` scaled by ten to the `scale`,
/// truncating fraction digits beyond `scale`. Exactly [`spec_parse_scaled`].
#[verifier::rlimit(100)]
pub fn parse_scaled(s: &[char], scale: usize) -> (r: Option<i64>)
    requires
        scale <= 9,
    ensures
        match r {
            Some(v) => Some(v as int) == spec_parse_scaled(s@, scale as nat),
            None => spec_parse_scaled(s@, scale as nat) is None,
        },
{
    proof {
        reveal_with_fuel(pow10, 20);
    }
    let n = s.len();
    let neg = n > 0 && s[0] == '-';
    let i0: usize = if n > 0 && (s[0] == '-' || s[0] == '+') {
        1
    } else {
        0
    };
    let i1 = digits_end(s, i0);
    let nint = i1 - i0;
    if nint > 18 || nint + scale > 18 {
        return None;
    }
    proof {
        lemma_digits_end(s@, i0 as int);
        lemma_digits_val_bound(s@, i0 as int, i1 as int);
        lemma_pow10_mono((nint + scale) as nat, 18);
        lemma_pow10_positive(scale as nat);
    }
    let p_scale = pow10_i64(scale);
    if i1 == n {
        if nint > 0 {
            let v = digits_val(s, i0, i1);
            proof {
                lemma_scaled_bound(v as int, nint as nat, scale as nat);
            }
            let magnitude = v * p_scale;
            if neg {
                return Some(-magnitude);
            } else {
                return Some(magnitude);
            }
        } else {
            return None;
        }
    }
    if s[i1] == '.' {
        let i2 = digits_end(s, i1 + 1);
        let nfrac = i2 - (i1 + 1);
        if i2 != n || (nint == 0 && nfrac == 0) {
            return None;
        }
        let taken: usize = if nfrac <= scale {
            nfrac
        } else {
            scale
        };
        proof {
            lemma_digits_end(s@, i1 as int + 1);
        }
        let frac_digits = digits_val(s, i1 + 1, i1 + 1 + taken);
        let p_rest = pow10_i64(scale - taken);
        proof {
            lemma_scaled_bound(frac_digits as int, taken as nat, (scale - taken) as nat);
            lemma_pow10_positive((scale - taken) as nat);
            lemma_pow10_mono(scale as nat, 18);
        }
        let frac = frac_digits * p_rest;
        let v = digits_val(s, i0, i1);
        proof {
            lemma_scaled_bound(v as int, nint as nat, scale as nat);
        }
        let magnitude = v * p_scale + frac;
        if neg {
            return Some(-magnitude);
        } else {
            return Some(magnitude);
        }
    }
    None
}

} // verus!
