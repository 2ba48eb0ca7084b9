//! Verified decimal rendering of integers, used to build violation messages
//! and report rows without any unverified formatting machinery.

use vstd::prelude::*;
use vstd::string::*;

verus! {

/// The character for a single decimal digit.
pub open spec fn spec_digit_char(d: int) -> char {
    if d == 0 {
        '0'
    } else if d == 1 {
        '1'
    } else if d == 2 {
        '2'
    } else if d == 3 {
        '3'
    } else if d == 4 {
        '4'
    } else if d == 5 {
        '5'
    } else if d == 6 {
        '6'
    } else if d == 7 {
        '7'
    } else if d == 8 {
        '8'
    } else {
        '9'
    }
}

/// Decimal digits of a non-negative integer, most significant first.
pub open spec fn spec_u64_digits(n: int) -> Seq<char>
    decreases n,
{
    if n < 10 {
        seq![spec_digit_char(n)]
    } else {
        spec_u64_digits(n / 10).push(spec_digit_char(n % 10))
    }
}

/// Decimal rendering of a signed integer.
pub open spec fn spec_i64_string(v: int) -> Seq<char> {
    if v < 0 {
        seq!['-'] + spec_u64_digits(-v)
    } else {
        spec_u64_digits(v)
    }
}

/// Relies on `String::push`: appends exactly the one character.
#[verifier::external_body]
pub fn push_char(s: &mut String, c: char)
    ensures
        final(s)@ == old(s)@.push(c),
{
    s.push(c);
}

fn digit_char(d: u64) -> (c: char)
    requires
        d < 10,
    ensures
        c == spec_digit_char(d as int),
{
    match d {
        0 => '0',
        1 => '1',
        2 => '2',
        3 => '3',
        4 => '4',
        5 => '5',
        6 => '6',
        7 => '7',
        8 => '8',
        _ => '9',
    }
}

fn push_u64_digits(s: &mut String, n: u64)
    ensures
        final(s)@ == old(s)@ + spec_u64_digits(n as int),
    decreases n,
{
    if n < 10 {
        push_char(s, digit_char(n));
        assert(s@ =~= old(s)@ + spec_u64_digits(n as int));
    } else {
        push_u64_digits(s, n / 10);
        push_char(s, digit_char(n % 10));
        assert(s@ =~= old(s)@ + spec_u64_digits(n as int));
    }
}

/// Append the decimal rendering of a `usize` (always non-negative).
pub fn push_usize(s: &mut String, v: usize)
    ensures
        final(s)@ == old(s)@ + spec_i64_string(v as int),
{
    push_u64_digits(s, v as u64);
}

/// Append the decimal rendering of a signed integer.
pub fn push_i64(s: &mut String, v: i64)
    ensures
        final(s)@ == old(s)@ + spec_i64_string(v as int),
{
    if v >= 0 {
        push_u64_digits(s, v as u64);
    } else {
        push_char(s, '-');
        let m: u64 = if v == i64::MIN {
            9_223_372_036_854_775_808u64
        } else {
            (-v) as u64
        };
        assert(m as int == -(v as int));
        push_u64_digits(s, m);
        assert(s@ =~= old(s)@ + spec_i64_string(v as int));
    }
}

/// Append a string slice.
pub fn push_str_part(s: &mut String, part: &str)
    ensures
        final(s)@ == old(s)@ + part@,
{
    s.append(part);
}

/// Decimal digits of a non-negative integer, zero-padded on the left to
/// `width` digits.
pub open spec fn spec_u64_padded(n: int, width: int) -> Seq<char>
    decreases width,
{
    if width <= 1 {
        seq![spec_digit_char(n % 10)]
    } else {
        spec_u64_padded(n / 10, width - 1).push(spec_digit_char(n % 10))
    }
}

fn push_u64_padded(s: &mut String, n: u64, width: usize)
    requires
        1 <= width,
    ensures
        final(s)@ == old(s)@ + spec_u64_padded(n as int, width as int),
    decreases width,
{
    if width == 1 {
        push_char(s, digit_char(n % 10));
        assert(s@ =~= old(s)@ + spec_u64_padded(n as int, width as int));
    } else {
        push_u64_padded(s, n / 10, width - 1);
        push_char(s, digit_char(n % 10));
        assert(s@ =~= old(s)@ + spec_u64_padded(n as int, width as int));
    }
}

/// Rendering of a fixed-point integer: the value divided by ten to the
/// `scale`, with exactly `scale` fraction digits.
pub open spec fn spec_fixed_string(v: int, scale: int) -> Seq<char> {
    if scale <= 0 {
        spec_i64_string(v)
    } else if v < 0 {
        seq!['-'] + spec_u64_digits((-v) / pow10_int(scale)) + seq!['.'] + spec_u64_padded(
            (-v) % pow10_int(scale),
            scale,
        )
    } else {
        spec_u64_digits(v / pow10_int(scale)) + seq!['.'] + spec_u64_padded(
            v % pow10_int(scale),
            scale,
        )
    }
}

/// Ten to the `e`, on plain integers.
pub open spec fn pow10_int(e: int) -> int
    decreases e,
{
    if e <= 0 {
        1
    } else {
        10 * pow10_int(e - 1)
    }
}

fn pow10_exec(e: usize) -> (r: u64)
    requires
        e <= 9,
    ensures
        r as int == pow10_int(e as int),
        1 <= r <= 1_000_000_000,
{
    proof {
        reveal_with_fuel(pow10_int, 11);
    }
    let mut r: u64 = 1;
    let mut k: usize = 0;
    while k < e
        invariant
            0 <= k <= e <= 9,
            r as int == pow10_int(k as int),
            1 <= r <= 1_000_000_000,
            pow10_int(9) == 1_000_000_000,
        decreases e - k,
    {
        proof {
            reveal_with_fuel(pow10_int, 11);
            lemma_pow10_int_mono(k as int + 1, 9);
        }
        r = r * 10;
        k = k + 1;
    }
    r
}

proof fn lemma_pow10_int_mono(a: int, b: int)
    requires
        a <= b,
    ensures
        pow10_int(a) <= pow10_int(b),
        pow10_int(a) >= 1,
    decreases b,
{
    if b <= 0 {
    } else if a == b {
        lemma_pow10_int_mono(a - 1, b - 1);
    } else {
        lemma_pow10_int_mono(a, b - 1);
    }
}

/// Append the fixed-point rendering of a value with the given fraction scale.
pub fn push_fixed(s: &mut String, v: i64, scale: usize)
    requires
        scale <= 9,
    ensures
        final(s)@ == old(s)@ + spec_fixed_string(v as int, scale as int),
{
    if scale == 0 {
        push_i64(s, v);
        return ;
    }
    let p = pow10_exec(scale);
    let m: u64 = if v >= 0 {
        v as u64
    } else if v == i64::MIN {
        9_223_372_036_854_775_808u64
    } else {
        (-v) as u64
    };
    if v < 0 {
        push_char(s, '-');
    }
    push_u64_digits(s, m / p);
    push_char(s, '.');
    push_u64_padded(s, m % p, scale);
    proof {
        assert(m as int == if v >= 0 {
            v as int
        } else {
            -(v as int)
        });
        assert(s@ =~= old(s)@ + spec_fixed_string(v as int, scale as int));
    }
}

} // verus!
