//! Decimal numerals.
//!
//! Two things in a transfer are written as decimal numerals: the ordinal id
//! that tags each entry of a batch request, and the worker count given as
//! text. This module renders the first and reads the second, and proves that
//! reading undoes rendering.

use vstd::prelude::*;
use vstd::string::*;
use vstd::utf8::is_ascii_chars;

verus! {

/// The character that stands for the digit `d`.
pub open spec fn digit_char(d: nat) -> char
    recommends
        d < 10,
{
    seq!['0', '1', '2', '3', '4', '5', '6', '7', '8', '9'][d as int]
}

/// The decimal numeral of `n`: no sign, no leading zero, `"0"` for zero.
pub open spec fn decimal(n: nat) -> Seq<char>
    decreases n,
{
    if n < 10 {
        seq![digit_char(n)]
    } else {
        decimal(n / 10).push(digit_char(n % 10))
    }
}

/// Whether `c` is one of the ten ASCII digits.
pub open spec fn is_digit(c: char) -> bool {
    '0' <= c && c <= '9'
}

/// The number that the digit `c` stands for.
pub open spec fn digit_value(c: char) -> nat
    recommends
        is_digit(c),
{
    (c as nat - '0' as nat) as nat
}

/// Whether every character of `s` is a digit.
pub open spec fn all_digits(s: Seq<char>) -> bool {
    forall|i: int| 0 <= i < s.len() ==> is_digit(#[trigger] s[i])
}

/// The number that a run of digits denotes, most significant digit first.
pub open spec fn value_of(digits: Seq<char>) -> nat
    decreases digits.len(),
{
    if digits.len() == 0 {
        0
    } else {
        10 * value_of(digits.drop_last()) + digit_value(digits.last())
    }
}

/// A numeral without its optional leading plus sign.
pub open spec fn unsigned_part(text: Seq<char>) -> Seq<char> {
    if text.len() > 0 && text[0] == '+' {
        text.drop_first()
    } else {
        text
    }
}

/// The number that `text` denotes: an optional `+`, then one or more digits
/// and nothing else. Any other text denotes no number.
pub open spec fn numeral_value(text: Seq<char>) -> Option<nat> {
    let digits = unsigned_part(text);
    if digits.len() > 0 && all_digits(digits) {
        Some(value_of(digits))
    } else {
        None
    }
}

/// What `parse_count` returns for `text`: the number it denotes, if it denotes
/// one that a `usize` can hold.
pub open spec fn count_of(text: Seq<char>) -> Option<usize> {
    match numeral_value(text) {
        Some(n) => if n <= usize::MAX {
            Some(n as usize)
        } else {
            None
        },
        None => None,
    }
}

/// A decimal numeral consists of digits only, and denotes the number it was
/// rendered from.
pub proof fn lemma_decimal_value(n: nat)
    ensures
        decimal(n).len() > 0,
        all_digits(decimal(n)),
        value_of(decimal(n)) == n,
    decreases n,
{
    if n < 10 {
        assert(decimal(n).drop_last() =~= Seq::<char>::empty());
        assert(value_of(decimal(n).drop_last()) == 0);
    } else {
        lemma_decimal_value(n / 10);
        let head = decimal(n / 10);
        let d = digit_char(n % 10);
        assert(head.push(d).drop_last() =~= head);
        assert(head.push(d).last() == d);
        assert(digit_value(d) == n % 10);
    }
}

/// Reading a rendered number gives the number back.
pub proof fn lemma_numeral_round_trip(n: nat)
    ensures
        numeral_value(decimal(n)) == Some(n),
{
    lemma_decimal_value(n);
    assert(is_digit(decimal(n)[0]));
}

/// Different numbers have different numerals.
pub proof fn lemma_decimal_injective(a: nat, b: nat)
    requires
        decimal(a) == decimal(b),
    ensures
        a == b,
{
    lemma_decimal_value(a);
    lemma_decimal_value(b);
}

/// The value of a run of digits never falls when a digit is appended.
proof fn lemma_value_of_prefix(digits: Seq<char>, k: int)
    requires
        0 <= k <= digits.len(),
    ensures
        value_of(digits.take(k)) <= value_of(digits),
    decreases digits.len() - k,
{
    if k == digits.len() {
        assert(digits.take(k) =~= digits);
    } else {
        lemma_value_of_prefix(digits, k + 1);
        assert(digits.take(k + 1).drop_last() =~= digits.take(k));
    }
}

fn digit_text(d: usize) -> (text: &'static str)
    requires
        d < 10,
    ensures
        text@ == seq![digit_char(d as nat)],
{
    proof {
        reveal_strlit("0");
        reveal_strlit("1");
        reveal_strlit("2");
        reveal_strlit("3");
        reveal_strlit("4");
        reveal_strlit("5");
        reveal_strlit("6");
        reveal_strlit("7");
        reveal_strlit("8");
        reveal_strlit("9");
    }
    let text = if d == 0 {
        "0"
    } else if d == 1 {
        "1"
    } else if d == 2 {
        "2"
    } else if d == 3 {
        "3"
    } else if d == 4 {
        "4"
    } else if d == 5 {
        "5"
    } else if d == 6 {
        "6"
    } else if d == 7 {
        "7"
    } else if d == 8 {
        "8"
    } else {
        "9"
    };
    assert(text@ =~= seq![digit_char(d as nat)]);
    text
}

/// Renders `n` as a decimal numeral.
pub fn render(n: usize) -> (text: String)
    ensures
        text@ == decimal(n as nat),
    decreases n,
{
    if n < 10 {
        digit_text(n).to_owned()
    } else {
        let mut text = render(n / 10);
        let last = digit_text(n % 10);
        text.append(last);
        assert(text@ =~= decimal((n / 10) as nat).push(digit_char((n % 10) as nat)));
        text
    }
}

/// Reads a count written as a decimal numeral.
///
/// Returns the number when `text` is an optional `+` followed by one or more
/// ASCII digits whose value fits a `usize`, and `None` for every other text.
pub fn parse_count(text: &str) -> (count: Option<usize>)
    ensures
        count == count_of(text@),
{
    if !text.is_ascii() {
        proof {
            let i = choose|i: int|
                0 <= i < text@.len() && !('\0' <= #[trigger] text@[i] && text@[i] <= '\u{7f}');
            let digits = unsigned_part(text@);
            if text@[0] == '+' {
                assert(i > 0);
                assert(digits[i - 1] == text@[i]);
            } else {
                assert(digits[i] == text@[i]);
            }
        }
        return None;
    }
    proof {
        is_ascii_spec_bytes(text);
    }
    let bytes = text.as_bytes();
    let len = bytes.len();
    assert(len == text@.len());
    if len == 0 {
        return None;
    }
    let start: usize = if bytes[0] == 43u8 {
        1
    } else {
        0
    };
    let ghost digits = unsigned_part(text@);
    assert(digits =~= text@.skip(start as int));
    if start == len {
        return None;
    }
    let mut value: usize = 0;
    let mut i: usize = start;
    while i < len
        invariant
            len == text@.len(),
            bytes@ == Seq::new(text@.len(), |k: int| text@[k] as u8),
            is_ascii_chars(text@),
            start <= i <= len,
            start < len,
            digits == text@.skip(start as int),
            digits == unsigned_part(text@),
            all_digits(digits.take(i - start)),
            value == value_of(digits.take(i - start)),
        decreases len - i,
    {
        let byte = bytes[i];
        let ghost c = digits[i - start];
        assert(c == text@[i as int]);
        let ghost next = digits.take(i - start + 1);
        assert(next.drop_last() =~= digits.take(i - start));
        assert(next.last() == c);
        if byte < 48u8 || byte > 57u8 {
            assert(!is_digit(c));
            return None;
        }
        assert(is_digit(c));
        let d: usize = (byte - 48u8) as usize;
        assert(d == digit_value(c));
        proof {
            lemma_value_of_prefix(digits, i - start + 1);
        }
        let scaled = match value.checked_mul(10) {
            Some(scaled) => scaled,
            None => {
                assert(all_digits(digits) ==> value_of(digits) > usize::MAX);
                return None;
            },
        };
        value = match scaled.checked_add(d) {
            Some(sum) => sum,
            None => {
                assert(all_digits(digits) ==> value_of(digits) > usize::MAX);
                return None;
            },
        };
        i = i + 1;
    }
    assert(digits.take(i - start) =~= digits);
    Some(value)
}

} // verus!
