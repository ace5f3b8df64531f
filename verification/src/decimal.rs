//! Decimal numerals: what they denote, how they are read and how a number
//! is written as one.

use vstd::prelude::*;
use vstd::string::StringExecFns;
use vstd::string::StringSliceAdditionalSpecFns;

verus! {

/// The byte of the plus sign.
const ASCII_PLUS: u8 = 43;

/// The byte of the digit zero.
const ASCII_ZERO: u8 = 48;

/// The byte of the digit nine.
const ASCII_NINE: u8 = 57;

/// Whether `c` is one of the ten ASCII digits.
pub open spec fn is_digit(c: char) -> bool {
    '0' <= c && c <= '9'
}

/// The number that the digit `c` stands for.
pub open spec fn digit_value(c: char) -> int {
    c as int - '0' as int
}

/// The digit that stands for `d`, for `d` from 0 to 9.
pub open spec fn digit_char(d: int) -> char {
    (d + '0' as int) as char
}

/// Whether every character of `s` is a digit.
pub open spec fn all_digits(s: Seq<char>) -> bool {
    forall|i: int| 0 <= i < s.len() ==> is_digit(#[trigger] s[i])
}

/// The number that the digits `s` denote, most significant digit first.
pub open spec fn digits_value(s: Seq<char>) -> int
    decreases s.len(),
{
    if s.len() == 0 {
        0
    } else {
        digits_value(s.drop_last()) * 10 + digit_value(s.last())
    }
}

/// The digits of a numeral: the text without one leading plus sign.
pub open spec fn numeral_digits(text: Seq<char>) -> Seq<char> {
    if text.len() > 0 && text[0] == '+' {
        text.subrange(1, text.len() as int)
    } else {
        text
    }
}

/// Whether `text` is a decimal numeral: an optional plus sign followed by
/// one digit or more, and nothing else.
pub open spec fn is_numeral(text: Seq<char>) -> bool {
    numeral_digits(text).len() > 0 && all_digits(numeral_digits(text))
}

/// The unsigned 8-bit integer that `text` denotes, if it is a numeral of one.
pub open spec fn u8_of_text(text: Seq<char>) -> Option<u8> {
    if is_numeral(text) && digits_value(numeral_digits(text)) <= u8::MAX {
        Some(digits_value(numeral_digits(text)) as u8)
    } else {
        None
    }
}

/// The shortest decimal numeral of `n`.
pub open spec fn decimal(n: nat) -> Seq<char>
    decreases n,
{
    if n < 10 {
        seq![digit_char(n as int)]
    } else {
        decimal(n / 10).push(digit_char((n % 10) as int))
    }
}

/// Digits denote a number that is not negative.
pub proof fn lemma_digits_value_nonnegative(s: Seq<char>)
    requires
        all_digits(s),
    ensures
        digits_value(s) >= 0,
    decreases s.len(),
{
    if s.len() > 0 {
        lemma_digits_value_nonnegative(s.drop_last());
    }
}

/// A numeral denotes at least what any of its beginnings denotes.
pub proof fn lemma_digits_value_prefix(s: Seq<char>, k: int)
    requires
        all_digits(s),
        0 <= k <= s.len(),
    ensures
        digits_value(s.subrange(0, k)) <= digits_value(s),
    decreases s.len(),
{
    if k == s.len() {
        assert(s.subrange(0, k) =~= s);
    } else {
        let front = s.drop_last();
        lemma_digits_value_prefix(front, k);
        lemma_digits_value_nonnegative(front);
        assert(front.subrange(0, k) =~= s.subrange(0, k));
    }
}

/// A numeral holds ASCII characters only.
pub proof fn lemma_numeral_is_ascii(text: Seq<char>)
    requires
        is_numeral(text),
    ensures
        vstd::utf8::is_ascii_chars(text),
{
    let digits = numeral_digits(text);
    let skipped = text.len() - digits.len();
    assert forall|i: int| 0 <= i < text.len() implies '\0' <= #[trigger] text[i] <= '\u{7f}' by {
        if i >= skipped {
            assert(is_digit(digits[i - skipped]));
        }
    }
}

/// Reads an unsigned 8-bit integer from its decimal numeral.
///
/// The numeral may begin with one plus sign and may begin with zeros. A
/// minus sign, a blank or any other character makes the text no numeral.
pub fn parse_u8(text: &str) -> (parsed: Option<u8>)
    ensures
        parsed == u8_of_text(text@),
{
    if !text.is_ascii() {
        proof {
            if is_numeral(text@) {
                lemma_numeral_is_ascii(text@);
            }
        }
        return None;
    }
    let bytes = text.as_bytes();
    proof {
        vstd::utf8::is_ascii_chars_encode_utf8(text@);
    }
    let n: usize = bytes.len();
    let start: usize = if n > 0 && bytes[0] == ASCII_PLUS { 1 } else { 0 };
    let ghost digits = numeral_digits(text@);
    assert(digits =~= text@.subrange(start as int, n as int));
    if start == n {
        return None;
    }
    let mut value: u16 = 0;
    let mut i: usize = start;
    while i < n
        invariant
            start <= i <= n,
            start < n,
            n == text@.len(),
            n == bytes@.len(),
            forall|k: int| 0 <= k < n ==> text@[k] as u8 == #[trigger] bytes@[k],
            vstd::utf8::is_ascii_chars(text@),
            digits == numeral_digits(text@),
            digits == text@.subrange(start as int, n as int),
            all_digits(digits.subrange(0, i - start)),
            value == digits_value(digits.subrange(0, i - start)),
            value <= u8::MAX,
        decreases n - i,
    {
        let b: u8 = bytes[i];
        let ghost seen = digits.subrange(0, i - start);
        let ghost next = digits.subrange(0, i - start + 1);
        assert(next.drop_last() =~= seen);
        assert(next.last() == text@[i as int]);
        if b < ASCII_ZERO || b > ASCII_NINE {
            assert(!is_digit(digits[i - start]));
            return None;
        }
        assert(is_digit(text@[i as int]));
        value = value * 10 + (b - ASCII_ZERO) as u16;
        assert(value == digits_value(next));
        if value > 255 {
            proof {
                if all_digits(digits) {
                    lemma_digits_value_prefix(digits, i - start + 1);
                }
            }
            return None;
        }
        i += 1;
    }
    assert(digits.subrange(0, n - start) =~= digits);
    Some(value as u8)
}

/// The numeral of a single digit.
fn digit_str(d: u8) -> (s: &'static str)
    requires
        d < 10,
    ensures
        s@ == seq![digit_char(d as int)],
{
    proof {
        reveal_strlit("0");
        reveal_strlit("1");
        reveal_strlit("2");
        reveal_strlit("3");
        reveal_strlit("4");
        reveal_strlit("5");
        reveal_strlit("6");
        reveal_strlit("7");
        reveal_strlit("8");
        reveal_strlit("9");
    }
    let s = match d {
        0 => "0",
        1 => "1",
        2 => "2",
        3 => "3",
        4 => "4",
        5 => "5",
        6 => "6",
        7 => "7",
        8 => "8",
        _ => "9",
    };
    assert(s@ =~= seq![digit_char(d as int)]);
    s
}

/// Writes `n` as its shortest decimal numeral.
pub fn decimal_string(n: u8) -> (s: String)
    ensures
        s@ == decimal(n as nat),
{
    let mut s = String::new();
    if n >= 100 {
        s.append(digit_str(n / 100));
    }
    if n >= 10 {
        s.append(digit_str((n / 10) % 10));
    }
    s.append(digit_str(n % 10));
    proof {
        let m = n as nat;
        if m >= 100 {
            assert(decimal(m / 100) =~= seq![digit_char((m / 100) as int)]);
            assert(decimal(m / 10) =~= decimal(m / 100).push(digit_char(((m / 10) % 10) as int)));
            assert(decimal(m) =~= decimal(m / 10).push(digit_char((m % 10) as int)));
        } else if m >= 10 {
            assert(decimal(m / 10) =~= seq![digit_char((m / 10) as int)]);
            assert(decimal(m) =~= decimal(m / 10).push(digit_char((m % 10) as int)));
        }
        assert(s@ =~= decimal(m));
    }
    s
}

/// The numeral that `decimal` writes for a number is made of digits only
/// and denotes that number.
pub proof fn lemma_decimal_denotes(n: nat)
    ensures
        decimal(n).len() > 0,
        all_digits(decimal(n)),
        digits_value(decimal(n)) == n,
        numeral_digits(decimal(n)) == decimal(n),
    decreases n,
{
    if n < 10 {
        let s = decimal(n);
        assert(s.drop_last() =~= Seq::<char>::empty());
        assert(digits_value(s.drop_last()) == 0);
    } else {
        lemma_decimal_denotes(n / 10);
        let front = decimal(n / 10);
        let s = decimal(n);
        assert(s.drop_last() =~= front);
        assert(s[0] == front[0]);
    }
}

/// Reading the numeral that was written for `n` gives `n` back.
pub proof fn lemma_decimal_round_trip(n: u8)
    ensures
        u8_of_text(decimal(n as nat)) == Some(n),
{
    lemma_decimal_denotes(n as nat);
}

} // verus!
