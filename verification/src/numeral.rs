//! Decimal numerals: writing integers as text and reading them back.

use vstd::prelude::*;
use crate::text::string_from_chars;

verus! {

/// Whether `c` is one of the ten decimal digits.
pub open spec fn is_digit(c: char) -> bool {
    '0' <= c <= '9'
}

/// The value of the decimal digit `c`.
pub open spec fn digit_value(c: char) -> nat
    recommends
        is_digit(c),
{
    (c as u32 - '0' as u32) as nat
}

/// The decimal digit whose value is `d`.
pub open spec fn digit_char(d: nat) -> char
    recommends
        d < 10,
{
    ('0' as u32 + d as u32) as char
}

/// Whether every character of `s` is a decimal digit.
pub open spec fn all_digits(s: Seq<char>) -> bool {
    forall|i: int| 0 <= i < s.len() ==> is_digit(#[trigger] s[i])
}

/// The number that the digit string `s` denotes; the empty string denotes 0.
pub open spec fn digits_value(s: Seq<char>) -> nat
    decreases s.len(),
{
    if s.len() == 0 {
        0
    } else {
        digits_value(s.drop_last()) * 10 + digit_value(s.last())
    }
}

/// The decimal numeral of `n`: no sign, no leading zero except for 0 itself.
pub open spec fn decimal(n: nat) -> Seq<char>
    decreases n,
{
    if n < 10 {
        seq![digit_char(n)]
    } else {
        decimal(n / 10).push(digit_char(n % 10))
    }
}

/// The decimal numeral of an integer: a minus sign before the numeral of the
/// magnitude when `n` is negative.
pub open spec fn signed_decimal(n: int) -> Seq<char> {
    if n < 0 {
        seq!['-'] + decimal((-n) as nat)
    } else {
        decimal(n as nat)
    }
}

/// A decimal numeral consists of digits and denotes the number it was made from.
pub proof fn lemma_decimal_value(n: nat)
    ensures
        decimal(n).len() >= 1,
        all_digits(decimal(n)),
        digits_value(decimal(n)) == n,
        decimal(n)[0] != '+',
        decimal(n)[0] != '-',
    decreases n,
{
    if n < 10 {
        let s = decimal(n);
        assert(s.drop_last().len() == 0);
        assert(digits_value(s) == digits_value(s.drop_last()) * 10 + digit_value(s.last()));
    } else {
        lemma_decimal_value(n / 10);
        let s = decimal(n);
        assert(s.drop_last() == decimal(n / 10));
        assert(s.last() == digit_char(n % 10));
    }
}

/// The digit of value `d`, for `d` below ten.
fn digit_of(d: u8) -> (c: char)
    requires
        d < 10,
    ensures
        c == digit_char(d as nat),
{
    let code: u8 = 48 + d;
    code as char
}

/// Writes `n` as a decimal numeral.
pub fn u64_to_string(n: u64) -> (s: String)
    ensures
        s@ == decimal(n as nat),
{
    let v = decimal_chars(n);
    string_from_chars(&v)
}

/// The characters of the decimal numeral of `n`.
pub fn decimal_chars(n: u64) -> (v: Vec<char>)
    ensures
        v@ == decimal(n as nat),
    decreases n,
{
    if n < 10 {
        let mut v: Vec<char> = Vec::new();
        v.push(digit_of(n as u8));
        assert(v@ == seq![digit_char(n as nat)]);
        v
    } else {
        let mut v = decimal_chars(n / 10);
        v.push(digit_of((n % 10) as u8));
        v
    }
}

/// Why a text is not a numeral of the wanted integer type.
#[derive(Clone, Copy, Debug, PartialEq, Eq, Structural)]
pub enum IntErrorKind {
    /// The text is empty.
    Empty,
    /// The text holds a character that is not a digit, or a sign and nothing else.
    InvalidDigit,
    /// The number is above the type's largest value.
    PosOverflow,
    /// The number is below the type's smallest value.
    NegOverflow,
}

/// How many characters of `s` are a sign: one where `s` starts with `+`, or
/// with `-` if the type is signed, else none.
pub open spec fn sign_len(s: Seq<char>, signed: bool) -> int {
    if s.len() > 0 && (s[0] == '+' || (signed && s[0] == '-')) {
        1
    } else {
        0
    }
}

/// What follows the sign of `s`.
pub open spec fn numeral_digits(s: Seq<char>, signed: bool) -> Seq<char> {
    s.skip(sign_len(s, signed))
}

/// Whether `s` starts with a minus sign that the type takes.
pub open spec fn is_negative(s: Seq<char>, signed: bool) -> bool {
    signed && s.len() > 0 && s[0] == '-'
}

/// The integer that the numeral `s` denotes.
pub open spec fn numeral_value(s: Seq<char>, signed: bool) -> int {
    if is_negative(s, signed) {
        -(digits_value(numeral_digits(s, signed)) as int)
    } else {
        digits_value(numeral_digits(s, signed)) as int
    }
}

/// Whether digits that `d` starts with already write a number above `limit`,
/// whatever follows them.
pub open spec fn exceeds(d: Seq<char>, limit: int) -> bool {
    exists|k: int|
        0 <= k <= d.len() && all_digits(#[trigger] d.take(k)) && digits_value(d.take(k)) > limit
}

/// Strict base-10 reading of `s` as an integer between `min` and `max`: an
/// optional sign, then at least one digit and nothing else. The text is read
/// from left to right, and the first fault met decides the error: digits
/// that leave the bounds are an overflow even where a character that is no
/// digit follows them. The last two errors arise only for bounds that do not
/// enclose 0.
pub open spec fn parse_int(s: Seq<char>, signed: bool, min: int, max: int) -> Result<
    int,
    IntErrorKind,
> {
    let d = numeral_digits(s, signed);
    if s.len() == 0 {
        Err(IntErrorKind::Empty)
    } else if d.len() == 0 {
        Err(IntErrorKind::InvalidDigit)
    } else if !is_negative(s, signed) && exceeds(d, max) {
        Err(IntErrorKind::PosOverflow)
    } else if is_negative(s, signed) && exceeds(d, -min) {
        Err(IntErrorKind::NegOverflow)
    } else if !all_digits(d) {
        Err(IntErrorKind::InvalidDigit)
    } else if numeral_value(s, signed) < min {
        Err(IntErrorKind::NegOverflow)
    } else if numeral_value(s, signed) > max {
        Err(IntErrorKind::PosOverflow)
    } else {
        Ok(numeral_value(s, signed))
    }
}

/// The first digits of a number write no more than all of them.
pub proof fn lemma_prefix_value(d: Seq<char>, k: int)
    requires
        0 <= k <= d.len(),
    ensures
        digits_value(d.take(k)) <= digits_value(d),
    decreases d.len() - k,
{
    if k == d.len() {
        assert(d.take(k) == d);
    } else {
        lemma_prefix_value(d.drop_last(), k);
        assert(d.drop_last().take(k) == d.take(k));
    }
}

/// Digits that write a number within the limit do not exceed it on the way.
pub proof fn lemma_within_limit(d: Seq<char>, limit: int)
    requires
        digits_value(d) <= limit,
    ensures
        !exceeds(d, limit),
{
    assert forall|k: int| 0 <= k <= d.len() implies digits_value(#[trigger] d.take(k))
        <= limit by {
        lemma_prefix_value(d, k);
    }
}

/// Reading back what was written: the numeral of an integer within the
/// bounds parses to that integer, for signed and unsigned types alike.
pub proof fn lemma_parse_signed_decimal(n: int, signed: bool, min: int, max: int)
    requires
        min <= n <= max,
        signed || n >= 0,
    ensures
        parse_int(signed_decimal(n), signed, min, max) == Ok::<int, IntErrorKind>(n),
{
    let s = signed_decimal(n);
    if n < 0 {
        let m = (-n) as nat;
        lemma_decimal_value(m);
        assert(s.skip(1) == decimal(m));
        assert(s[0] == '-');
        lemma_within_limit(decimal(m), -min);
    } else {
        lemma_decimal_value(n as nat);
        assert(s.skip(0) == s);
        lemma_within_limit(s, max);
    }
}

/// What a run of digits amounts to.
enum Magnitude {
    /// Not a non-empty run of digits, and no overflow before the fault.
    Invalid,
    /// Digits that write a number above the limit.
    TooLarge,
    /// The number itself, within the limit.
    Value(u64),
}

/// Reads the digits of `v` from position `start` to the end, up to the first
/// fault: a character that is no digit, or a digit with which the number
/// leaves the limit.
fn scan_digits(v: &Vec<char>, start: usize, limit: u64) -> (m: Magnitude)
    requires
        start <= v.len(),
    ensures
        m is Invalid ==> !exceeds(v@.skip(start as int), limit as int) && !(v@.skip(
            start as int,
        ).len() > 0 && all_digits(v@.skip(start as int))),
        m is TooLarge ==> exceeds(v@.skip(start as int), limit as int),
        m matches Magnitude::Value(n) ==> n == digits_value(v@.skip(start as int)) && n <= limit
            && v@.skip(start as int).len() > 0 && all_digits(v@.skip(start as int)) && !exceeds(
            v@.skip(start as int),
            limit as int,
        ),
{
    let ghost tail = v@.skip(start as int);
    let mut acc: u64 = 0;
    let mut i: usize = start;
    assert(tail.take(0).len() == 0);
    while i < v.len()
        invariant
            start <= i <= v.len(),
            tail == v@.skip(start as int),
            all_digits(tail.take(i - start)),
            acc == digits_value(tail.take(i - start)),
            forall|k: int| 0 <= k <= i - start ==> digits_value(#[trigger] tail.take(k)) <= limit,
        decreases v.len() - i,
    {
        let c: char = v[i];
        if !(c >= '0' && c <= '9') {
            proof {
                assert(!is_digit(tail[i - start]));
                assert forall|k: int| 0 <= k <= tail.len() && all_digits(
                    #[trigger] tail.take(k),
                ) implies digits_value(tail.take(k)) <= limit by {
                    if k > i - start {
                        assert(tail.take(k)[i - start] == tail[i - start]);
                    }
                }
            }
            return Magnitude::Invalid;
        }
        let d: u64 = (c as u32 - 48) as u64;
        proof {
            let next = tail.take(i + 1 - start);
            assert(next.drop_last() == tail.take(i - start));
            assert(next.last() == c);
            assert(d == digit_value(c));
            assert(all_digits(next));
        }
        if d > limit || acc > (limit - d) / 10 {
            assert(digits_value(tail.take(i + 1 - start)) > limit);
            return Magnitude::TooLarge;
        }
        acc = acc * 10 + d;
        i += 1;
    }
    assert(tail.take(i - start) == tail);
    if start == v.len() {
        Magnitude::Invalid
    } else {
        Magnitude::Value(acc)
    }
}

/// Reads an unsigned numeral of at most `max`.
pub fn parse_unsigned(s: &str, max: u64) -> (r: Result<u64, IntErrorKind>)
    ensures
        match parse_int(s@, false, 0, max as int) {
            Ok(n) => r == Ok::<u64, IntErrorKind>(n as u64),
            Err(k) => r == Err::<u64, IntErrorKind>(k),
        },
{
    let v = crate::text::chars_of(s);
    if v.len() == 0 {
        return Err(IntErrorKind::Empty);
    }
    let start: usize = if v[0] == '+' { 1 } else { 0 };
    if start == v.len() {
        return Err(IntErrorKind::InvalidDigit);
    }
    match scan_digits(&v, start, max) {
        Magnitude::Invalid => Err(IntErrorKind::InvalidDigit),
        Magnitude::TooLarge => Err(IntErrorKind::PosOverflow),
        Magnitude::Value(n) => Ok(n),
    }
}

/// Reads a signed numeral between `min` and `max`.
pub fn parse_signed(s: &str, min: i64, max: i64) -> (r: Result<i64, IntErrorKind>)
    ensures
        match parse_int(s@, true, min as int, max as int) {
            Ok(n) => r == Ok::<i64, IntErrorKind>(n as i64),
            Err(k) => r == Err::<i64, IntErrorKind>(k),
        },
{
    let v = crate::text::chars_of(s);
    if v.len() == 0 {
        return Err(IntErrorKind::Empty);
    }
    let negative: bool = v[0] == '-';
    let start: usize = if v[0] == '+' || negative { 1 } else { 0 };
    if start == v.len() {
        return Err(IntErrorKind::InvalidDigit);
    }
    let ghost d = v@.skip(start as int);
    if negative {
        if min > 0 {
            assert(d.take(0).len() == 0);
            assert(exceeds(d, -min));
            return Err(IntErrorKind::NegOverflow);
        }
        let limit: u64 = if min == i64::MIN {
            0x8000_0000_0000_0000
        } else {
            (-min) as u64
        };
        match scan_digits(&v, start, limit) {
            Magnitude::Invalid => Err(IntErrorKind::InvalidDigit),
            Magnitude::TooLarge => Err(IntErrorKind::NegOverflow),
            Magnitude::Value(n) => {
                let value: i64 = if n == 0x8000_0000_0000_0000 {
                    i64::MIN
                } else {
                    -(n as i64)
                };
                if value > max {
                    Err(IntErrorKind::PosOverflow)
                } else {
                    Ok(value)
                }
            },
        }
    } else {
        if max < 0 {
            assert(d.take(0).len() == 0);
            assert(exceeds(d, max as int));
            return Err(IntErrorKind::PosOverflow);
        }
        match scan_digits(&v, start, max as u64) {
            Magnitude::Invalid => Err(IntErrorKind::InvalidDigit),
            Magnitude::TooLarge => Err(IntErrorKind::PosOverflow),
            Magnitude::Value(n) => {
                if (n as i64) < min {
                    Err(IntErrorKind::NegOverflow)
                } else {
                    Ok(n as i64)
                }
            },
        }
    }
}

/// Writes `n` as a decimal numeral, with a minus sign when it is negative.
pub fn i64_to_string(n: i64) -> (s: String)
    ensures
        s@ == signed_decimal(n as int),
{
    if n < 0 {
        let magnitude: u64 = if n == i64::MIN {
            0x8000_0000_0000_0000
        } else {
            (-n) as u64
        };
        let digits = decimal_chars(magnitude);
        let mut v: Vec<char> = Vec::new();
        v.push('-');
        let mut i: usize = 0;
        while i < digits.len()
            invariant
                i <= digits.len(),
                v@ == seq!['-'] + digits@.take(i as int),
            decreases digits.len() - i,
        {
            v.push(digits[i]);
            i += 1;
        }
        assert(digits@.take(i as int) == digits@);
        string_from_chars(&v)
    } else {
        u64_to_string(n as u64)
    }
}

} // verus!
