//! Synthetic names: the names that the builder makes up, and that the
//! renaming pass hands out again. Each is a fixed prefix followed by a
//! number in lower-case hexadecimal.

use crate::text::same_text;
use vstd::prelude::*;

verus! {

/// The prefix of every synthetic name.
pub open spec fn synthetic_prefix() -> Seq<char> {
    seq!['_', 'm', 'e', 't', 'i', 'r', '_']
}

/// The sixteen hexadecimal digits, in order.
pub open spec fn hex_digits() -> Seq<char> {
    seq!['0', '1', '2', '3', '4', '5', '6', '7', '8', '9', 'a', 'b', 'c', 'd', 'e', 'f']
}

/// A number in hexadecimal, without leading zeros.
pub open spec fn hex_text(n: nat) -> Seq<char>
    decreases n,
{
    if n < 16 {
        seq![hex_digits()[n as int]]
    } else {
        hex_text(n / 16).push(hex_digits()[(n % 16) as int])
    }
}

/// The synthetic name with number `n`.
pub open spec fn synthetic_name(n: nat) -> Seq<char> {
    synthetic_prefix() + hex_text(n)
}

/// Whether a name has the shape of a synthetic name: it starts with the
/// prefix.
pub open spec fn is_synthetic(name: Seq<char>) -> bool {
    name.len() >= 7 && name.subrange(0, 7) == synthetic_prefix()
}

/// The number that a digit stands for.
pub open spec fn digit_value(digit: char) -> nat {
    if digit == '0' {
        0
    } else if digit == '1' {
        1
    } else if digit == '2' {
        2
    } else if digit == '3' {
        3
    } else if digit == '4' {
        4
    } else if digit == '5' {
        5
    } else if digit == '6' {
        6
    } else if digit == '7' {
        7
    } else if digit == '8' {
        8
    } else if digit == '9' {
        9
    } else if digit == 'a' {
        10
    } else if digit == 'b' {
        11
    } else if digit == 'c' {
        12
    } else if digit == 'd' {
        13
    } else if digit == 'e' {
        14
    } else {
        15
    }
}

/// The number that a text of hexadecimal digits stands for.
pub open spec fn hex_value(text: Seq<char>) -> nat
    decreases text.len(),
{
    if text.len() == 0 {
        0
    } else {
        hex_value(text.drop_last()) * 16 + digit_value(text.last())
    }
}

/// Reading a number back from its hexadecimal text gives the number.
pub proof fn lemma_hex_value_of_text(n: nat)
    ensures
        hex_value(hex_text(n)) == n,
    decreases n,
{
    let digits = hex_digits();
    assert(forall|d: int| 0 <= d < 16 ==> digit_value(#[trigger] digits[d]) == d);
    if n < 16 {
        let text = seq![digits[n as int]];
        assert(text.drop_last() =~= Seq::<char>::empty());
        assert(hex_value(text.drop_last()) == 0);
        assert(text.last() == digits[n as int]);
    } else {
        lemma_hex_value_of_text(n / 16);
        let text = hex_text(n / 16).push(digits[(n % 16) as int]);
        assert(text.drop_last() =~= hex_text(n / 16));
        assert(text.last() == digits[(n % 16) as int]);
    }
}

/// A synthetic name has the shape of one.
pub proof fn lemma_synthetic_name_is_synthetic(n: nat)
    ensures
        is_synthetic(synthetic_name(n)),
{
    assert(synthetic_name(n).subrange(0, 7) =~= synthetic_prefix());
}

/// Two different numbers give two different synthetic names.
pub proof fn lemma_synthetic_names_distinct(i: nat, j: nat)
    requires
        i != j,
    ensures
        synthetic_name(i) != synthetic_name(j),
{
    if synthetic_name(i) == synthetic_name(j) {
        let a = synthetic_name(i);
        let b = synthetic_name(j);
        assert(a.subrange(7, a.len() as int) =~= hex_text(i));
        assert(b.subrange(7, b.len() as int) =~= hex_text(j));
        lemma_hex_value_of_text(i);
        lemma_hex_value_of_text(j);
    }
}

/// The text of one hexadecimal digit.
fn hex_digit_text(digit: u64) -> (r: &'static str)
    requires
        digit < 16,
    ensures
        r@ == seq![hex_digits()[digit as int]],
{
    proof {
        reveal_strlit("0");
        reveal_strlit("1");
        reveal_strlit("2");
        reveal_strlit("3");
        reveal_strlit("4");
        reveal_strlit("5");
        reveal_strlit("6");
        reveal_strlit("7");
        reveal_strlit("8");
        reveal_strlit("9");
        reveal_strlit("a");
        reveal_strlit("b");
        reveal_strlit("c");
        reveal_strlit("d");
        reveal_strlit("e");
        reveal_strlit("f");
    }
    let r = if digit == 0 {
        "0"
    } else if digit == 1 {
        "1"
    } else if digit == 2 {
        "2"
    } else if digit == 3 {
        "3"
    } else if digit == 4 {
        "4"
    } else if digit == 5 {
        "5"
    } else if digit == 6 {
        "6"
    } else if digit == 7 {
        "7"
    } else if digit == 8 {
        "8"
    } else if digit == 9 {
        "9"
    } else if digit == 10 {
        "a"
    } else if digit == 11 {
        "b"
    } else if digit == 12 {
        "c"
    } else if digit == 13 {
        "d"
    } else if digit == 14 {
        "e"
    } else {
        "f"
    };
    assert(r@ =~= seq![hex_digits()[digit as int]]);
    r
}

/// Appends `n` in hexadecimal to `text`.
fn append_hex(text: &mut String, n: u64)
    ensures
        final(text)@ == old(text)@ + hex_text(n as nat),
    decreases n,
{
    if n >= 16 {
        append_hex(text, n / 16);
    }
    text.append(hex_digit_text(n % 16));
    assert(text@ =~= old(text)@ + hex_text(n as nat));
}

/// The synthetic name with number `n`.
pub fn make_synthetic_name(n: u64) -> (r: String)
    ensures
        r@ == synthetic_name(n as nat),
{
    proof {
        reveal_strlit("_metir_");
    }
    let mut r = "_metir_".to_owned();
    assert(r@ =~= synthetic_prefix());
    append_hex(&mut r, n);
    r
}

/// Whether a name has the shape of a synthetic name.
pub fn is_synthetic_name(name: &str) -> (r: bool)
    ensures
        r == is_synthetic(name@),
{
    proof {
        reveal_strlit("_metir_");
    }
    if name.unicode_len() < 7 {
        return false;
    }
    assert("_metir_"@ =~= synthetic_prefix());
    same_text(name.substring_char(0, 7), "_metir_")
}

} // verus!
