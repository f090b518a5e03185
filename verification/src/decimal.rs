//! Decimal numbers as ASCII bytes: reading them and writing them.

use vstd::prelude::*;

verus! {

/// `b` is one of the ASCII digits `0` to `9`.
pub open spec fn is_digit(b: u8) -> bool {
    48 <= b <= 57
}

/// Every byte of `s` is an ASCII digit.
pub open spec fn all_digits(s: Seq<u8>) -> bool {
    forall|i: int| 0 <= i < s.len() ==> is_digit(#[trigger] s[i])
}

/// The number that the digits `s` write in base ten, most significant first.
pub open spec fn decimal_value(s: Seq<u8>) -> nat
    decreases s.len(),
{
    if s.len() == 0 {
        0
    } else {
        decimal_value(s.drop_last()) * 10 + (s.last() - 48) as nat
    }
}

/// The digits of `n` in base ten, most significant first, with a single `0`
/// for zero.
pub open spec fn decimal_digits(n: nat) -> Seq<u8>
    decreases n,
{
    if n < 10 {
        seq![(48 + n) as u8]
    } else {
        decimal_digits(n / 10).push((48 + n % 10) as u8)
    }
}

/// `text` without the sign byte it starts with, if it starts with one that
/// `allow_minus` admits: `+` always, `-` only where `allow_minus`.
pub open spec fn unsigned_part(text: Seq<u8>, allow_minus: bool) -> Seq<u8> {
    if text.len() > 0 && (text[0] == 43 || (allow_minus && text[0] == 45)) {
        text.drop_first()
    } else {
        text
    }
}

/// The value of a digit string that is not empty, holds digits only and
/// writes a number of at most `limit`.
pub open spec fn digits_within(digits: Seq<u8>, limit: nat) -> Option<nat> {
    if digits.len() > 0 && all_digits(digits) && decimal_value(digits) <= limit {
        Some(decimal_value(digits))
    } else {
        None
    }
}

/// An unsigned length as the header writes it: an optional `+`, then one or
/// more digits whose value fits in `usize`.
pub open spec fn parse_length(field: Seq<u8>) -> Option<usize> {
    match digits_within(unsigned_part(field, false), usize::MAX as nat) {
        Some(n) => Some(n as usize),
        None => None,
    }
}

/// A signed integer: an optional `+` or `-`, then one or more digits, the
/// whole within the range of `i64`.
pub open spec fn parse_integer(text: Seq<u8>) -> Option<i64> {
    let digits = unsigned_part(text, true);
    if text.len() > 0 && text[0] == 45 {
        match digits_within(digits, 0x8000_0000_0000_0000) {
            Some(n) => Some((-n) as i64),
            None => None,
        }
    } else {
        match digits_within(digits, 0x7fff_ffff_ffff_ffff) {
            Some(n) => Some(n as i64),
            None => None,
        }
    }
}

/// The value of a digit string is at least the value of each of its prefixes.
pub proof fn lemma_prefix_value(s: Seq<u8>, k: int)
    requires
        all_digits(s),
        0 <= k <= s.len(),
    ensures
        decimal_value(s.subrange(0, k)) <= decimal_value(s),
    decreases s.len(),
{
    if k == s.len() {
        assert(s.subrange(0, k) =~= s);
    } else {
        assert(s.drop_last().subrange(0, k) =~= s.subrange(0, k));
        lemma_prefix_value(s.drop_last(), k);
    }
}

/// What `decimal_digits` writes is read back by `decimal_value`, holds
/// digits only, and is never empty.
pub proof fn lemma_digits_round_trip(n: nat)
    ensures
        decimal_digits(n).len() > 0,
        all_digits(decimal_digits(n)),
        decimal_value(decimal_digits(n)) == n,
    decreases n,
{
    if n < 10 {
        let s = decimal_digits(n);
        assert(s.drop_last() =~= Seq::<u8>::empty());
        assert(decimal_value(s.drop_last()) == 0);
    } else {
        lemma_digits_round_trip(n / 10);
        let s = decimal_digits(n);
        assert(s.drop_last() =~= decimal_digits(n / 10));
    }
}

/// Reads the digits of `bytes` from index `start` to the end: their value,
/// where there is at least one byte, all are digits and the value is at most
/// `limit`.
fn read_digits(bytes: &[u8], start: usize, limit: u64) -> (value: Option<u64>)
    requires
        start <= bytes@.len(),
    ensures
        match digits_within(bytes@.subrange(start as int, bytes@.len() as int), limit as nat) {
            Some(n) => value == Some(n as u64),
            None => value is None,
        },
{
    let ghost digits = bytes@.subrange(start as int, bytes@.len() as int);
    if start == bytes.len() {
        return None;
    }
    let mut acc: u64 = 0;
    let mut i: usize = start;
    assert(digits.subrange(0, 0) =~= Seq::<u8>::empty());
    while i < bytes.len()
        invariant
            start <= i <= bytes@.len(),
            digits == bytes@.subrange(start as int, bytes@.len() as int),
            all_digits(digits.subrange(0, i - start)),
            acc == decimal_value(digits.subrange(0, i - start)),
            acc <= limit,
        decreases bytes@.len() - i,
    {
        let b: u8 = bytes[i];
        let ghost before = digits.subrange(0, i - start);
        let ghost after = digits.subrange(0, i - start + 1);
        proof {
            assert(after.drop_last() =~= before);
            assert(after.last() == b);
            assert(digits[i - start] == b);
        }
        if b < 48 || b > 57 {
            assert(!is_digit(digits[i - start]));
            return None;
        }
        let d: u64 = (b - 48) as u64;
        if acc > limit / 10 || d > limit - acc * 10 {
            proof {
                if all_digits(digits) {
                    lemma_prefix_value(digits, i - start + 1);
                }
            }
            return None;
        }
        acc = acc * 10 + d;
        i = i + 1;
        proof {
            assert forall|j: int| 0 <= j < after.len() implies is_digit(#[trigger] after[j]) by {
                if j < before.len() {
                    assert(after[j] == before[j]);
                }
            }
        }
    }
    assert(digits.subrange(0, i - start) =~= digits);
    Some(acc)
}

/// Whether `text` starts with the byte `sign`.
fn starts_with_byte(text: &[u8], sign: u8) -> (yes: bool)
    ensures
        yes == (text@.len() > 0 && text@[0] == sign),
{
    text.len() > 0 && text[0] == sign
}

/// Reads an unsigned length: an optional `+`, then digits.
pub fn parse_usize(field: &[u8]) -> (length: Option<usize>)
    ensures
        length == parse_length(field@),
{
    let start: usize = if starts_with_byte(field, 43) {
        1
    } else {
        0
    };
    assert(field@.subrange(start as int, field@.len() as int) =~= unsigned_part(field@, false));
    match read_digits(field, start, usize::MAX as u64) {
        Some(n) => Some(n as usize),
        None => None,
    }
}

/// Reads a signed integer: an optional `+` or `-`, then digits.
pub fn parse_i64(text: &[u8]) -> (number: Option<i64>)
    ensures
        number == parse_integer(text@),
{
    let negative = starts_with_byte(text, 45);
    let start: usize = if negative || starts_with_byte(text, 43) {
        1
    } else {
        0
    };
    assert(text@.subrange(start as int, text@.len() as int) =~= unsigned_part(text@, true));
    if negative {
        match read_digits(text, start, 0x8000_0000_0000_0000) {
            Some(n) => if n == 0x8000_0000_0000_0000 {
                Some(i64::MIN)
            } else {
                Some(-(n as i64))
            },
            None => None,
        }
    } else {
        match read_digits(text, start, 0x7fff_ffff_ffff_ffff) {
            Some(n) => Some(n as i64),
            None => None,
        }
    }
}

/// Appends the decimal digits of `n` to `out`.
pub fn push_decimal(out: &mut Vec<u8>, n: usize)
    ensures
        final(out)@ == old(out)@ + decimal_digits(n as nat),
    decreases n,
{
    if n >= 10 {
        push_decimal(out, n / 10);
    }
    let digit: u8 = 48 + (n % 10) as u8;
    out.push(digit);
    proof {
        if n >= 10 {
            assert(old(out)@ + decimal_digits(n as nat) =~= (old(out)@ + decimal_digits(
                (n / 10) as nat,
            )).push(digit));
        } else {
            assert(old(out)@ + decimal_digits(n as nat) =~= old(out)@.push(digit));
        }
    }
}

} // verus!
