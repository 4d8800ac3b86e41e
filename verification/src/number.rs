//! Decimal integers as text: reading and writing.

use vstd::prelude::*;

use crate::text::chars_of;

verus! {

/// `c` is one of the ten decimal digits.
pub open spec fn is_digit(c: char) -> bool {
    '0' <= c && c <= '9'
}

/// The number that a decimal digit stands for.
pub open spec fn digit_value(c: char) -> nat {
    (c as int - '0' as int) as nat
}

/// The digit that stands for a number below ten.
pub open spec fn digit_char(n: nat) -> char {
    "0123456789"@[n as int]
}

/// Every character is a decimal digit.
pub open spec fn all_digits(s: Seq<char>) -> bool {
    forall|i: int| 0 <= i < s.len() ==> is_digit(#[trigger] s[i])
}

/// The number that a run of digits writes in base ten.
pub open spec fn decimal_value(s: Seq<char>) -> nat
    decreases s.len(),
{
    if s.len() == 0 {
        0
    } else {
        decimal_value(s.drop_last()) * 10 + digit_value(s.last())
    }
}

/// The digits of `n` in base ten, without leading zeros.
pub open spec fn decimal_text(n: nat) -> Seq<char>
    decreases n,
{
    if n < 10 {
        seq![digit_char(n)]
    } else {
        decimal_text(n / 10).push(digit_char(n % 10))
    }
}

/// The text of a signed integer: its digits, after a minus sign if it is negative.
pub open spec fn signed_text(n: int) -> Seq<char> {
    if n < 0 {
        seq!['-'] + decimal_text((-n) as nat)
    } else {
        decimal_text(n as nat)
    }
}

/// The number that at least one digit and nothing else writes.
pub open spec fn digits_read(s: Seq<char>) -> Option<nat> {
    if s.len() > 0 && all_digits(s) {
        Some(decimal_value(s))
    } else {
        None
    }
}

/// What an unsigned integer of at most `max` reads from `s`: digits after an
/// optional plus sign. `None` where `s` is anything else or the number is too large.
pub open spec fn unsigned_read(s: Seq<char>, max: nat) -> Option<nat> {
    let digits = if s.len() > 0 && s[0] == '+' {
        s.skip(1)
    } else {
        s
    };
    match digits_read(digits) {
        Some(n) => if n <= max {
            Some(n)
        } else {
            None
        },
        None => None,
    }
}

/// What a 64-bit signed integer reads from `s`: digits after an optional sign.
/// `None` where `s` is anything else or the number does not fit.
pub open spec fn signed_read(s: Seq<char>) -> Option<int> {
    if s.len() > 0 && s[0] == '-' {
        match digits_read(s.skip(1)) {
            Some(n) => if n <= -(i64::MIN as int) {
                Some(-(n as int))
            } else {
                None
            },
            None => None,
        }
    } else {
        match unsigned_read(s, i64::MAX as nat) {
            Some(n) => Some(n as int),
            None => None,
        }
    }
}

/// Cutting digits off the end does not make the number larger.
proof fn lemma_prefix_value(s: Seq<char>, k: int)
    requires
        0 <= k <= s.len(),
    ensures
        decimal_value(s.take(k)) <= decimal_value(s),
    decreases s.len() - k,
{
    if k < s.len() {
        lemma_prefix_value(s, k + 1);
        assert(s.take(k + 1).drop_last() =~= s.take(k));
    } else {
        assert(s.take(k) =~= s);
    }
}

/// Reads the digits from position `from` on, up to a number of at most `max`.
fn read_digits(chars: &Vec<char>, from: usize, max: u64) -> (n: Option<u64>)
    requires
        from <= chars@.len(),
    ensures
        match digits_read(chars@.skip(from as int)) {
            Some(value) => if value <= max {
                n == Some(value as u64)
            } else {
                n is None
            },
            None => n is None,
        },
{
    let ghost digits = chars@.skip(from as int);
    if from == chars.len() {
        return None;
    }
    let mut value: u64 = 0;
    let mut i: usize = from;
    assert(digits.take(0) =~= Seq::<char>::empty());
    while i < chars.len()
        invariant
            digits == chars@.skip(from as int),
            from <= i <= chars@.len(),
            forall|j: int| 0 <= j < i - from ==> is_digit(#[trigger] digits[j]),
            value == decimal_value(digits.take(i - from)),
            value <= max,
        decreases chars@.len() - i,
    {
        let c: char = chars[i];
        assert(digits[i - from] == c);
        if c < '0' || c > '9' {
            return None;
        }
        let digit: u64 = c as u64 - '0' as u64;
        proof {
            assert(digits.take(i - from + 1).drop_last() =~= digits.take(i - from));
            lemma_prefix_value(digits, i - from + 1);
        }
        let next: u128 = value as u128 * 10 + digit as u128;
        if next > max as u128 {
            return None;
        }
        value = next as u64;
        i += 1;
    }
    assert(digits.take(digits.len() as int) =~= digits);
    Some(value)
}

/// Reads an unsigned integer of at most `max`.
fn read_unsigned(text: &str, max: u64) -> (n: Option<u64>)
    ensures
        match unsigned_read(text@, max as nat) {
            Some(value) => n == Some(value as u64),
            None => n is None,
        },
{
    let chars: Vec<char> = chars_of(text);
    if chars.len() > 0 && chars[0] == '+' {
        read_digits(&chars, 1, max)
    } else {
        assert(chars@.skip(0) =~= chars@);
        read_digits(&chars, 0, max)
    }
}

/// Reads a 64-bit unsigned integer.
pub fn read_u64(text: &str) -> (n: Option<u64>)
    ensures
        match unsigned_read(text@, u64::MAX as nat) {
            Some(value) => n == Some(value as u64),
            None => n is None,
        },
{
    read_unsigned(text, u64::MAX)
}

/// Reads an unsigned integer of the machine's word size.
pub fn read_usize(text: &str) -> (n: Option<usize>)
    ensures
        match unsigned_read(text@, usize::MAX as nat) {
            Some(value) => n == Some(value as usize),
            None => n is None,
        },
{
    match read_unsigned(text, usize::MAX as u64) {
        Some(value) => Some(value as usize),
        None => None,
    }
}

/// Reads a 64-bit signed integer.
pub fn read_i64(text: &str) -> (n: Option<i64>)
    ensures
        match signed_read(text@) {
            Some(value) => n == Some(value as i64),
            None => n is None,
        },
{
    let chars: Vec<char> = chars_of(text);
    if chars.len() > 0 && chars[0] == '-' {
        match read_digits(&chars, 1, 0x8000_0000_0000_0000) {
            Some(value) => Some((-(value as i128)) as i64),
            None => None,
        }
    } else {
        match read_unsigned(text, i64::MAX as u64) {
            Some(value) => Some(value as i64),
            None => None,
        }
    }
}

/// Writes an unsigned integer in base ten.
pub fn write_u64(n: u64) -> (text: String)
    ensures
        text@ == decimal_text(n as nat),
    decreases n,
{
    proof {
        reveal_strlit("0123456789");
    }
    let digit: usize = (n % 10) as usize;
    let mut text: String = if n < 10 {
        String::new()
    } else {
        write_u64(n / 10)
    };
    text.append("0123456789".substring_char(digit, digit + 1));
    assert("0123456789"@.subrange(digit as int, digit + 1) =~= seq![digit_char(digit as nat)]);
    text
}

/// Writes a signed integer in base ten.
pub fn write_i64(n: i64) -> (text: String)
    ensures
        text@ == signed_text(n as int),
{
    if n < 0 {
        proof {
            reveal_strlit("-");
        }
        let mut text: String = "-".to_owned();
        text.append(write_u64((-(n as i128)) as u64).as_str());
        assert("-"@ =~= seq!['-']);
        text
    } else {
        write_u64(n as u64)
    }
}

/// What is written is digits only, and they write the number that they were made from.
pub proof fn lemma_written_value(n: nat)
    ensures
        decimal_text(n).len() > 0,
        all_digits(decimal_text(n)),
        decimal_value(decimal_text(n)) == n,
    decreases n,
{
    reveal_strlit("0123456789");
    let text = decimal_text(n);
    if n < 10 {
        assert(text.drop_last() =~= Seq::<char>::empty());
        assert(decimal_value(text.drop_last()) == 0);
        assert(digit_value(text.last()) == n);
    } else {
        lemma_written_value(n / 10);
        assert(digit_value(text.last()) == n % 10);
        assert(text.drop_last() =~= decimal_text(n / 10));
    }
}

/// An unsigned integer that is written is read back unchanged.
pub proof fn law_unsigned_round_trip(n: nat, max: nat)
    requires
        n <= max,
    ensures
        unsigned_read(decimal_text(n), max) == Some(n),
{
    lemma_written_value(n);
}

/// A signed integer that is written is read back unchanged.
pub proof fn law_signed_round_trip(n: i64)
    ensures
        signed_read(signed_text(n as int)) == Some(n as int),
{
    if n < 0 {
        lemma_written_value((-n) as nat);
        assert(signed_text(n as int).skip(1) =~= decimal_text((-n) as nat));
    } else {
        lemma_written_value(n as nat);
    }
}

/// Different integers are written differently.
pub proof fn law_signed_text_tells_integers_apart(a: i64, b: i64)
    requires
        signed_text(a as int) == signed_text(b as int),
    ensures
        a == b,
{
    law_signed_round_trip(a);
    law_signed_round_trip(b);
}

} // verus!
