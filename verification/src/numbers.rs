//! Decimal integer text: formatting (as `format!("{}")` and `format!("{:0w}")`
//! write it) and parsing (as `str::parse` reads it).
use vstd::prelude::*;
use crate::text::{chars_of, string_of};

verus! {

/// `c` is an ASCII decimal digit.
pub open spec fn is_digit_char(c: char) -> bool {
    '0' <= c && c <= '9'
}

/// The character of the digit `d` (`d < 10`).
pub open spec fn digit_char(d: int) -> char {
    (d + ('0' as int)) as char
}

/// The value of a decimal digit character.
pub open spec fn digit_value(c: char) -> int {
    (c as int) - ('0' as int)
}

/// Every character of `s` is an ASCII digit.
pub open spec fn all_digits(s: Seq<char>) -> bool {
    forall|i: int| 0 <= i < s.len() ==> is_digit_char(#[trigger] s[i])
}

/// The number that a string of digits denotes (most significant digit first).
pub open spec fn digits_value(s: Seq<char>) -> nat
    decreases s.len(),
{
    if s.len() == 0 {
        0
    } else {
        (digits_value(s.drop_last()) * 10 + digit_value(s.last())) as nat
    }
}

/// The decimal representation of `n`, without leading zeros ("0" for zero).
pub open spec fn decimal(n: nat) -> Seq<char>
    decreases n,
{
    if n < 10 {
        seq![digit_char(n as int)]
    } else {
        decimal(n / 10).push(digit_char((n % 10) as int))
    }
}

/// `n` zero characters.
pub open spec fn zeros(n: nat) -> Seq<char> {
    Seq::new(n, |i: int| '0')
}

/// `s` left-padded with zeros up to `width` characters.
pub open spec fn zero_pad(s: Seq<char>, width: nat) -> Seq<char> {
    if s.len() < width {
        zeros((width - s.len()) as nat) + s
    } else {
        s
    }
}

/// What `format!("{:0width$}", x)` writes for an integer `x`: the sign, then
/// the digits padded with zeros so that the whole text has at least `width`
/// characters.
pub open spec fn signed_padded(x: int, width: nat) -> Seq<char> {
    if x < 0 {
        seq!['-'] + zero_pad(decimal((-x) as nat), if width > 0 { (width - 1) as nat } else { 0 })
    } else {
        zero_pad(decimal(x as nat), width)
    }
}

/// What `format!("{}", x)` writes for an integer `x`.
pub open spec fn signed_decimal(x: int) -> Seq<char> {
    signed_padded(x, 0)
}

/// What `str::parse` gives for an integer type with the range `min..=max`,
/// `signed` telling whether a leading '-' is accepted: an optional sign, then
/// one or more ASCII digits and nothing else, whose value is in range.
pub open spec fn parse_int(s: Seq<char>, signed: bool, min: int, max: int) -> Option<int> {
    let neg = signed && s.len() > 0 && s[0] == '-';
    let body = if s.len() > 0 && (s[0] == '+' || neg) { s.drop_first() } else { s };
    if body.len() > 0 && all_digits(body) {
        let v: int = if neg { -(digits_value(body) as int) } else { digits_value(body) as int };
        if min <= v && v <= max {
            Some(v)
        } else {
            None
        }
    } else {
        None
    }
}

/// `str::parse::<i64>`.
pub open spec fn parse_i64_spec(s: Seq<char>) -> Option<int> {
    parse_int(s, true, i64::MIN as int, i64::MAX as int)
}

/// `str::parse::<i32>`.
pub open spec fn parse_i32_spec(s: Seq<char>) -> Option<int> {
    parse_int(s, true, i32::MIN as int, i32::MAX as int)
}

/// `str::parse::<u32>`.
pub open spec fn parse_u32_spec(s: Seq<char>) -> Option<int> {
    parse_int(s, false, 0, u32::MAX as int)
}

/// `str::parse::<u16>`.
pub open spec fn parse_u16_spec(s: Seq<char>) -> Option<int> {
    parse_int(s, false, 0, u16::MAX as int)
}

/// The decimal representation consists of digits and denotes the number.
pub proof fn lemma_decimal_digits(n: nat)
    ensures
        all_digits(decimal(n)),
        digits_value(decimal(n)) == n,
        decimal(n).len() >= 1,
    decreases n,
{
    if n < 10 {
        assert(decimal(n).drop_last() =~= Seq::<char>::empty());
        lemma_digit_char_value(n as int);
        assert(digits_value(Seq::<char>::empty()) == 0);
        assert(decimal(n).last() == digit_char(n as int));
    } else {
        lemma_decimal_digits(n / 10);
        let d = decimal(n);
        assert(d.drop_last() =~= decimal(n / 10));
        lemma_digit_char_value((n % 10) as int);
        assert(d.last() == digit_char((n % 10) as int));
        assert(digits_value(d) == digits_value(decimal(n / 10)) * 10 + digit_value(d.last()));
        assert((n / 10) * 10 + n % 10 == n) by (nonlinear_arith);
    }
}

/// A digit's character is a digit and has that value.
pub proof fn lemma_digit_char_value(d: int)
    requires
        0 <= d < 10,
    ensures
        is_digit_char(digit_char(d)),
        digit_value(digit_char(d)) == d,
{
}

/// The value of digits grows by at least a factor ten with each appended digit.
proof fn lemma_digits_value_push(s: Seq<char>, c: char)
    requires
        is_digit_char(c),
    ensures
        digits_value(s.push(c)) == digits_value(s) * 10 + digit_value(c),
{
    assert(s.push(c).drop_last() =~= s);
}

/// Appends the decimal digits of `n` to `out`.
fn push_decimal(n: u64, out: &mut Vec<char>)
    ensures
        final(out)@ == old(out)@ + decimal(n as nat),
    decreases n,
{
    if n >= 10 {
        push_decimal(n / 10, out);
    }
    let d = n % 10;
    let c = ((d as u8) + 48u8) as char;
    assert(c == digit_char(d as int));
    out.push(c);
    proof {
        if n >= 10 {
            assert(decimal(n as nat) == decimal((n / 10) as nat).push(digit_char((n % 10) as int)));
        }
    }
}

/// Appends `n` zero characters to `out`.
fn push_zeros(out: &mut Vec<char>, n: usize)
    ensures
        final(out)@ == old(out)@ + zeros(n as nat),
{
    let ghost before = out@;
    let mut k: usize = 0;
    while k < n
        invariant
            0 <= k <= n,
            out@ == before + zeros(k as nat),
        decreases n - k,
    {
        out.push('0');
        proof {
            assert(before + zeros((k + 1) as nat) =~= (before + zeros(k as nat)).push('0'));
        }
        k = k + 1;
    }
}

/// Appends all characters of `v` to `out`.
pub fn push_all(out: &mut Vec<char>, v: &Vec<char>)
    ensures
        final(out)@ == old(out)@ + v@,
{
    let ghost before = out@;
    let mut i: usize = 0;
    while i < v.len()
        invariant
            0 <= i <= v.len(),
            out@ == before + v@.subrange(0, i as int),
        decreases v.len() - i,
    {
        out.push(v[i]);
        proof {
            assert(before + v@.subrange(0, i + 1) =~= (before + v@.subrange(0, i as int)).push(
                v@[i as int],
            ));
        }
        i = i + 1;
    }
    assert(v@.subrange(0, v.len() as int) =~= v@);
}

/// Appends `digits` left-padded with zeros to `width` characters.
fn push_padded(out: &mut Vec<char>, digits: &Vec<char>, width: usize)
    ensures
        final(out)@ == old(out)@ + zero_pad(digits@, width as nat),
{
    if digits.len() < width {
        push_zeros(out, width - digits.len());
    }
    push_all(out, digits);
    proof {
        if digits.len() < width {
            assert(old(out)@ + zeros((width - digits.len()) as nat) + digits@ =~= old(out)@ + (zeros(
                (width - digits.len()) as nat,
            ) + digits@));
        }
    }
}

/// The characters of `format!("{:0width$}", x)` for a signed integer.
pub fn signed_padded_chars(x: i64, width: usize) -> (r: Vec<char>)
    ensures
        r@ == signed_padded(x as int, width as nat),
{
    let mut out: Vec<char> = Vec::new();
    let neg = x < 0;
    let mag: u64 = if neg { (-(x as i128)) as u64 } else { x as u64 };
    let mut digits: Vec<char> = Vec::new();
    push_decimal(mag, &mut digits);
    assert(digits@ =~= decimal(mag as nat));
    if neg {
        out.push('-');
        let w: usize = if width > 0 { width - 1 } else { 0 };
        push_padded(&mut out, &digits, w);
        assert((-(x as int)) as nat == mag as nat);
        assert(out@ =~= seq!['-'] + zero_pad(decimal(mag as nat), w as nat));
    } else {
        push_padded(&mut out, &digits, width);
        assert(out@ =~= zero_pad(decimal(mag as nat), width as nat));
    }
    out
}

/// Parses an integer as `str::parse` does for an integer type whose range is
/// `min..=max` (`signed` telling whether a leading '-' is accepted).
pub fn parse_int_chars(s: &Vec<char>, signed: bool, min: i64, max: i64) -> (r: Option<i64>)
    requires
        min <= 0 <= max,
    ensures
        match parse_int(s@, signed, min as int, max as int) {
            Some(v) => r == Some(v as i64),
            None => r is None,
        },
{
    let n = s.len();
    let neg = signed && n > 0 && s[0] == '-';
    let start: usize = if n > 0 && (s[0] == '+' || neg) { 1 } else { 0 };
    let ghost body = if s@.len() > 0 && (s@[0] == '+' || neg) { s@.drop_first() } else { s@ };
    assert(body =~= s@.subrange(start as int, n as int));
    if start >= n {
        return None;
    }
    // The magnitude that the range admits.
    let limit: u128 = if neg { (-(min as i128)) as u128 } else { max as u128 };
    let mut acc: u128 = 0;
    let mut over = false;
    let mut i: usize = start;
    while i < n
        invariant
            start <= i <= n,
            n == s.len(),
            body == s@.subrange(start as int, n as int),
            neg == (signed && s@.len() > 0 && s@[0] == '-'),
            body == (if s@.len() > 0 && (s@[0] == '+' || neg) { s@.drop_first() } else { s@ }),
            limit == (if neg { -(min as int) } else { max as int }),
            min <= 0 <= max,
            all_digits(s@.subrange(start as int, i as int)),
            limit <= 0x8000_0000_0000_0000u128,
            !over ==> acc == digits_value(s@.subrange(start as int, i as int)),
            !over ==> acc <= limit,
            over ==> digits_value(s@.subrange(start as int, i as int)) > limit,
        decreases n - i,
    {
        let c = s[i];
        if !('0' <= c && c <= '9') {
            proof {
                assert(body[i - start] == c);
            }
            return None;
        }
        let d = ((c as u32) - ('0' as u32)) as u128;
        proof {
            assert(s@.subrange(start as int, i + 1) =~= s@.subrange(start as int, i as int).push(c));
            lemma_digits_value_push(s@.subrange(start as int, i as int), c);
        }
        if !over {
            let next = acc * 10 + d;
            if next > limit {
                over = true;
            } else {
                acc = next;
            }
        }
        i = i + 1;
    }
    assert(s@.subrange(start as int, n as int) == body);
    if over {
        return None;
    }
    if neg {
        let v = -(acc as i128);
        Some(v as i64)
    } else {
        Some(acc as i64)
    }
}

/// `x.to_string()` for an integer.
pub fn int_to_string(x: i64) -> (r: String)
    ensures
        r@ == signed_decimal(x as int),
{
    let cs = signed_padded_chars(x, 0);
    string_of(&cs)
}

/// `format!("{:0width$}", x)` for an integer.
pub fn int_to_padded_string(x: i64, width: usize) -> (r: String)
    ensures
        r@ == signed_padded(x as int, width as nat),
{
    let cs = signed_padded_chars(x, width);
    string_of(&cs)
}

/// `s.parse::<i64>().ok()`.
pub fn parse_i64(s: &str) -> (r: Option<i64>)
    ensures
        r is Some <==> parse_i64_spec(s@) is Some,
        r is Some ==> r->0 as int == parse_i64_spec(s@)->0,
{
    let cs = chars_of(s);
    parse_int_chars(&cs, true, i64::MIN, i64::MAX)
}

/// `s.parse::<i32>().ok()`.
pub fn parse_i32(s: &str) -> (r: Option<i32>)
    ensures
        r is Some <==> parse_i32_spec(s@) is Some,
        r is Some ==> r->0 as int == parse_i32_spec(s@)->0,
{
    let cs = chars_of(s);
    match parse_int_chars(&cs, true, i32::MIN as i64, i32::MAX as i64) {
        Some(v) => Some(v as i32),
        None => None,
    }
}

/// `s.parse::<u32>().ok()`.
pub fn parse_u32(s: &str) -> (r: Option<u32>)
    ensures
        r is Some <==> parse_u32_spec(s@) is Some,
        r is Some ==> r->0 as int == parse_u32_spec(s@)->0,
{
    let cs = chars_of(s);
    match parse_int_chars(&cs, false, 0, u32::MAX as i64) {
        Some(v) => Some(v as u32),
        None => None,
    }
}

/// `s.parse::<u16>().ok()`.
pub fn parse_u16(s: &str) -> (r: Option<u16>)
    ensures
        r is Some <==> parse_u16_spec(s@) is Some,
        r is Some ==> r->0 as int == parse_u16_spec(s@)->0,
{
    let cs = chars_of(s);
    match parse_int_chars(&cs, false, 0, u16::MAX as i64) {
        Some(v) => Some(v as u16),
        None => None,
    }
}

/// Reading back what was written: parsing the decimal text of any `i64`
/// gives that number again.
pub proof fn lemma_parse_of_format(x: i64)
    ensures
        parse_i64_spec(signed_decimal(x as int)) == Some(x as int),
{
    let s = signed_decimal(x as int);
    if x < 0 {
        let m: nat = (-(x as int)) as nat;
        lemma_decimal_digits(m);
        assert(zero_pad(decimal(m), 0) == decimal(m));
        assert(s =~= seq!['-'] + decimal(m));
        assert(s[0] == '-');
        assert(s.drop_first() =~= decimal(m));
    } else {
        let m: nat = x as nat;
        lemma_decimal_digits(m);
        assert(zero_pad(decimal(m), 0) == decimal(m));
        assert(s == decimal(m));
        assert(is_digit_char(s[0]));
    }
}

/// Leading zeros change nothing: zero-padded digits are digits of the same
/// value, and no shorter than before.
pub proof fn lemma_zero_pad_value(s: Seq<char>, width: nat)
    requires
        all_digits(s),
    ensures
        all_digits(zero_pad(s, width)),
        digits_value(zero_pad(s, width)) == digits_value(s),
        zero_pad(s, width).len() >= s.len(),
{
    if s.len() < width {
        let k = (width - s.len()) as nat;
        lemma_zeros_value(k);
        lemma_prefixed_value(zeros(k), s);
    }
}

/// Zeros are digits worth nothing.
proof fn lemma_zeros_value(k: nat)
    ensures
        all_digits(zeros(k)),
        digits_value(zeros(k)) == 0,
    decreases k,
{
    if k > 0 {
        lemma_zeros_value((k - 1) as nat);
        assert(zeros(k).drop_last() =~= zeros((k - 1) as nat));
    }
}

/// Digits worth nothing in front of digits leave their value.
proof fn lemma_prefixed_value(z: Seq<char>, s: Seq<char>)
    requires
        all_digits(z),
        digits_value(z) == 0,
        all_digits(s),
    ensures
        all_digits(z + s),
        digits_value(z + s) == digits_value(s),
    decreases s.len(),
{
    if s.len() == 0 {
        assert(z + s =~= z);
    } else {
        lemma_prefixed_value(z, s.drop_last());
        assert((z + s).drop_last() =~= z + s.drop_last());
        assert((z + s).last() == s.last());
    }
    assert forall|i: int| 0 <= i < (z + s).len() implies is_digit_char(#[trigger] (z + s)[i]) by {
        if i < z.len() {
            assert((z + s)[i] == z[i]);
        } else {
            assert((z + s)[i] == s[i - z.len()]);
        }
    }
}

} // verus!
