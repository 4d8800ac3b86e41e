//! Reading and writing numbers.

use vstd::arithmetic::power::pow;
use vstd::prelude::*;

use crate::number::{
    all_digits, decimal_text, decimal_value, digit_value, is_digit, lemma_written_value, read_i64,
    read_u64, read_usize, signed_read, signed_text, unsigned_read, write_i64, write_u64,
};

verus! {

/// The digits are the ten characters that they are, with their values.
pub proof fn law_digits_have_their_values(c: char)
    ensures
        is_digit(c) <==> {
            ||| c == '0' || c == '1' || c == '2' || c == '3' || c == '4'
            ||| c == '5' || c == '6' || c == '7' || c == '8' || c == '9'
        },
        digit_value('0') == 0 && digit_value('1') == 1 && digit_value('2') == 2,
        digit_value('3') == 3 && digit_value('4') == 4 && digit_value('5') == 5,
        digit_value('6') == 6 && digit_value('7') == 7 && digit_value('8') == 8,
        digit_value('9') == 9,
{
}

/// A run of digits behind another one moves that one to the left by so many places.
pub proof fn law_places_count_in_tens(a: Seq<char>, b: Seq<char>)
    ensures
        decimal_value(a + b) == decimal_value(a) * pow(10, b.len()) + decimal_value(b),
    decreases b.len(),
{
    reveal(pow);
    if b.len() == 0 {
        assert(a + b =~= a);
        assert(decimal_value(a) * 1 == decimal_value(a)) by (nonlinear_arith);
    } else {
        law_places_count_in_tens(a, b.drop_last());
        assert((a + b).drop_last() =~= a + b.drop_last());
        let x = decimal_value(a) as int;
        let y = pow(10, (b.len() - 1) as nat);
        assert(pow(10, b.len()) == 10 * y);
        assert((x * y) * 10 == x * (10 * y)) by (nonlinear_arith);
    }
}

/// A single digit writes its value.
pub proof fn law_one_digit_writes_its_value(c: char)
    ensures
        decimal_value(seq![c]) == digit_value(c),
{
    assert(seq![c].drop_last() =~= Seq::<char>::empty());
    assert(decimal_value(Seq::<char>::empty()) == 0);
}

/// `text` writes `n` with digits alone, or with a plus sign before them.
pub open spec fn writes(text: Seq<char>, n: nat) -> bool {
    ||| text.len() > 0 && all_digits(text) && decimal_value(text) == n
    ||| text.len() > 1 && text[0] == '+' && all_digits(text.skip(1)) && decimal_value(text.skip(1))
        == n
}

/// `text` writes the negative of `n` with a minus sign before its digits.
pub open spec fn writes_negative(text: Seq<char>, n: nat) -> bool {
    text.len() > 1 && text[0] == '-' && all_digits(text.skip(1)) && decimal_value(text.skip(1)) == n
}

proof fn lemma_signs(text: Seq<char>)
    ensures
        text.len() > 0 && (text[0] == '+' || text[0] == '-') ==> !all_digits(text),
{
    if text.len() > 0 && (text[0] == '+' || text[0] == '-') {
        assert(!is_digit(text[0]));
    }
}

/// A number of at most `max` is read from exactly the texts that write it.
pub proof fn law_unsigned_texts_are_read(text: Seq<char>, max: nat, n: nat)
    ensures
        unsigned_read(text, max) == Some(n) <==> writes(text, n) && n <= max,
{
    lemma_signs(text);
}

/// An unsigned number is read from exactly the texts that write one that fits.
pub proof fn law_u64_is_read(text: &str, read: Option<u64>)
    requires
        call_ensures(read_u64, (text,), read),
    ensures
        forall|n: u64| read == Some(n) <==> #[trigger] writes(text@, n as nat),
{
    assert forall|n: u64| read == Some(n) <==> #[trigger] writes(text@, n as nat) by {
        law_unsigned_texts_are_read(text@, u64::MAX as nat, n as nat);
    }
}

/// A number of the machine's word size is read from exactly the texts that write
/// one that fits.
pub proof fn law_usize_is_read(text: &str, read: Option<usize>)
    requires
        call_ensures(read_usize, (text,), read),
    ensures
        forall|n: usize| read == Some(n) <==> #[trigger] writes(text@, n as nat),
{
    assert forall|n: usize| read == Some(n) <==> #[trigger] writes(text@, n as nat) by {
        law_unsigned_texts_are_read(text@, usize::MAX as nat, n as nat);
    }
}

/// `text` writes the signed number `n`.
pub open spec fn writes_signed(text: Seq<char>, n: i64) -> bool {
    ||| n >= 0 && writes(text, n as nat)
    ||| n <= 0 && writes_negative(text, (-n) as nat)
}

/// A signed number is read from exactly the texts that write one that fits.
pub proof fn law_signed_texts_are_read(text: Seq<char>, n: i64)
    ensures
        signed_read(text) == Some(n as int) <==> writes_signed(text, n),
        signed_read(text) matches Some(m) ==> i64::MIN <= m <= i64::MAX,
{
    lemma_signs(text);
    if n >= 0 {
        law_unsigned_texts_are_read(text, i64::MAX as nat, n as nat);
    }
}

/// A signed number is read from exactly the texts that write one that fits.
pub proof fn law_i64_is_read(text: &str, read: Option<i64>)
    requires
        call_ensures(read_i64, (text,), read),
    ensures
        forall|n: i64| read == Some(n) <==> #[trigger] writes_signed(text@, n),
{
    assert forall|n: i64| read == Some(n) <==> #[trigger] writes_signed(text@, n) by {
        law_signed_texts_are_read(text@, n);
    }
}

/// A number is written with digits alone that write it, and without a zero
/// before others.
pub proof fn law_numbers_are_written(n: nat)
    ensures
        decimal_text(n).len() > 0 && all_digits(decimal_text(n)),
        decimal_value(decimal_text(n)) == n,
        decimal_text(n).len() > 1 ==> decimal_text(n)[0] != '0',
    decreases n,
{
    lemma_written_value(n);
    reveal_strlit("0123456789");
    if n >= 10 {
        law_numbers_are_written(n / 10);
        let front = decimal_text(n / 10);
        assert(decimal_text(n)[0] == front[0]);
        if front.len() == 1 && front[0] == '0' {
            assert(front =~= seq!['0']);
            law_one_digit_writes_its_value('0');
            assert(false);
        }
    }
}

/// An unsigned number is written with the digits that write it.
pub proof fn law_u64_is_written(n: u64, text: String)
    requires
        call_ensures(write_u64, (n,), text),
    ensures
        text@.len() > 0 && all_digits(text@),
        decimal_value(text@) == n,
        text@.len() > 1 ==> text@[0] != '0',
{
    law_numbers_are_written(n as nat);
}

/// A signed number is written so that it is read back, with a sign only if it is negative.
pub proof fn law_i64_is_written(n: i64, text: String)
    requires
        call_ensures(write_i64, (n,), text),
    ensures
        writes_signed(text@, n),
        text@ == signed_text(n as int),
        n < 0 <==> text@[0] == '-',
        text@[0] != '+',
{
    lemma_signs(text@);
    if n < 0 {
        law_numbers_are_written((-n) as nat);
        assert(text@.skip(1) =~= decimal_text((-n) as nat));
    } else {
        law_numbers_are_written(n as nat);
        assert(is_digit(text@[0]));
    }
}

} // verus!
