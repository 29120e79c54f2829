//! Decimal numerals: what the operator reads as the number of an entry, and
//! what the operator types to select one.

use crate::text::chars_of;
use vstd::prelude::*;
use vstd::string::*;

verus! {

/// `c` is one of the ten ASCII digits.
pub open spec fn is_digit(c: char) -> bool {
    '0' <= c && c <= '9'
}

/// The digit that stands for `d`, for `d` below ten.
pub open spec fn digit_char(d: nat) -> char {
    ((48 + d) as u8) as char
}

/// The number that the digit `c` stands for.
pub open spec fn digit_value(c: char) -> nat {
    (c as u8 - 48) as nat
}

/// The decimal numeral of `n`, without leading zeros.
pub open spec fn decimal_text(n: nat) -> Seq<char>
    decreases n,
{
    if n < 10 {
        seq![digit_char(n)]
    } else {
        decimal_text(n / 10).push(digit_char(n % 10))
    }
}

/// Every character of `s` is a digit.
pub open spec fn all_digits(s: Seq<char>) -> bool {
    forall|i: int| 0 <= i < s.len() ==> is_digit(s[i])
}

/// The number that a run of digits denotes, the last digit counting ones.
pub open spec fn digits_value(s: Seq<char>) -> nat
    decreases s.len(),
{
    if s.len() == 0 {
        0
    } else {
        10 * digits_value(s.drop_last()) + digit_value(s.last())
    }
}

/// The digits of a numeral: all of it but a plus sign in front.
pub open spec fn numeral_digits(s: Seq<char>) -> Seq<char> {
    if s.len() > 0 && s[0] == '+' {
        s.drop_first()
    } else {
        s
    }
}

/// The number that `s` denotes if `s` is a numeral: one digit or more,
/// with or without a plus sign in front, and nothing else.
pub open spec fn numeral_value(s: Seq<char>) -> Option<nat> {
    let digits = numeral_digits(s);
    if digits.len() > 0 && all_digits(digits) {
        Some(digits_value(digits))
    } else {
        None
    }
}

/// What reading a numeral came to.
pub enum Numeral {
    /// The text is a numeral for this number.
    Value(usize),
    /// The text is a numeral for a number beyond `usize::MAX`.
    TooLarge,
    /// The text is no numeral.
    NotANumber,
}

fn digit_text(d: usize) -> (text: &'static str)
    requires
        d < 10,
    ensures
        text@ == seq![digit_char(d as nat)],
{
    proof {
        reveal_strlit("0");
        reveal_strlit("1");
        reveal_strlit("2");
        reveal_strlit("3");
        reveal_strlit("4");
        reveal_strlit("5");
        reveal_strlit("6");
        reveal_strlit("7");
        reveal_strlit("8");
        reveal_strlit("9");
    }
    let text = if d == 0 {
        "0"
    } else if d == 1 {
        "1"
    } else if d == 2 {
        "2"
    } else if d == 3 {
        "3"
    } else if d == 4 {
        "4"
    } else if d == 5 {
        "5"
    } else if d == 6 {
        "6"
    } else if d == 7 {
        "7"
    } else if d == 8 {
        "8"
    } else {
        "9"
    };
    text
}

/// Writes `n` as a decimal numeral.
pub fn decimal(n: usize) -> (text: String)
    ensures
        text@ == decimal_text(n as nat),
    decreases n,
{
    if n < 10 {
        String::from_str(digit_text(n))
    } else {
        let mut text = decimal(n / 10);
        text.append(digit_text(n % 10));
        text
    }
}

/// A run of digits denotes at least what any of its beginnings denotes.
pub proof fn lemma_digits_value_grows(s: Seq<char>, k: int)
    requires
        0 <= k <= s.len(),
    ensures
        digits_value(s.take(k)) <= digits_value(s),
    decreases s.len(),
{
    if k == s.len() {
        assert(s.take(k) =~= s);
    } else {
        lemma_digits_value_grows(s.drop_last(), k);
        assert(s.drop_last().take(k) =~= s.take(k));
    }
}

/// Reads `s` as a numeral.
pub fn parse_numeral(s: &str) -> (parsed: Numeral)
    ensures
        match parsed {
            Numeral::Value(n) => numeral_value(s@) == Some(n as nat),
            Numeral::TooLarge => numeral_value(s@) is Some && numeral_value(s@).unwrap()
                > usize::MAX,
            Numeral::NotANumber => numeral_value(s@) is None,
        },
{
    let chars = chars_of(s);
    let n = chars.len();
    let start: usize = if n > 0 && chars[0] == '+' {
        1
    } else {
        0
    };
    let ghost digits = numeral_digits(s@);
    if start == n {
        return Numeral::NotANumber;
    }
    let mut i: usize = start;
    while i < n
        invariant
            start <= i <= n,
            n == chars.len(),
            chars@ == s@,
            digits == numeral_digits(s@),
            digits == s@.subrange(start as int, n as int),
            forall|k: int| 0 <= k < i - start ==> is_digit(digits[k]),
        decreases n - i,
    {
        let c = chars[i];
        if !('0' <= c && c <= '9') {
            assert(!is_digit(digits[i - start]));
            return Numeral::NotANumber;
        }
        i = i + 1;
    }
    let mut value: usize = 0;
    let mut j: usize = start;
    while j < n
        invariant
            start <= j <= n,
            n == chars.len(),
            chars@ == s@,
            digits == numeral_digits(s@),
            digits == s@.subrange(start as int, n as int),
            all_digits(digits),
            value == digits_value(digits.take(j - start)),
        decreases n - j,
    {
        assert(is_digit(digits[j - start]));
        let d = ((chars[j] as u8) - 48) as usize;
        proof {
            let before = digits.take(j - start);
            let after = digits.take(j - start + 1);
            assert(after.drop_last() =~= before);
            lemma_digits_value_grows(digits, j - start + 1);
        }
        if value > (usize::MAX - d) / 10 {
            return Numeral::TooLarge;
        }
        value = 10 * value + d;
        j = j + 1;
    }
    assert(digits.take(n - start) =~= digits);
    Numeral::Value(value)
}

/// The digits of a decimal numeral are digits, and denote the number.
pub proof fn lemma_decimal_text_digits(n: nat)
    ensures
        decimal_text(n).len() > 0,
        all_digits(decimal_text(n)),
        digits_value(decimal_text(n)) == n,
    decreases n,
{
    if n < 10 {
        let text = decimal_text(n);
        assert(digits_value(text) == 10 * digits_value(text.drop_last()) + digit_value(
            text.last(),
        ));
    } else {
        lemma_decimal_text_digits(n / 10);
        let text = decimal_text(n);
        assert(text.drop_last() =~= decimal_text(n / 10));
    }
}

/// A number that was written with `decimal` is read back by
/// `parse_numeral` as the same number: the numeral shown beside an entry
/// selects that entry.
pub proof fn lemma_decimal_round_trip(n: nat)
    ensures
        numeral_value(decimal_text(n)) == Some(n),
{
    lemma_decimal_text_digits(n);
}

} // verus!
