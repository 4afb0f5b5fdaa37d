//! Unsigned integers as decimal text, as the record format and the
//! forwarding paths write and read them.

use vstd::prelude::*;
use vstd::std_specs::iter::IteratorSpec;

verus! {

/// The character that writes the digit `d`.
pub open spec fn digit_char(d: nat) -> char {
    (48 + d) as u8 as char
}

/// `c` is one of the ten ASCII digits.
pub open spec fn is_digit(c: char) -> bool {
    '0' <= c <= '9'
}

/// The digit that the character `c` writes.
pub open spec fn digit_value(c: char) -> nat {
    (c as u32 - 48) as nat
}

/// Every character of `s` is an ASCII digit.
pub open spec fn all_digits(s: Seq<char>) -> bool {
    forall|i: int| 0 <= i < s.len() ==> is_digit(#[trigger] s[i])
}

/// The decimal text of `n`: no sign, no leading zero but for zero itself.
pub open spec fn decimal_chars(n: nat) -> Seq<char>
    decreases n,
{
    if n < 10 {
        seq![digit_char(n)]
    } else {
        decimal_chars(n / 10).push(digit_char(n % 10))
    }
}

/// The number that a run of digits writes, the last digit counting least.
pub open spec fn decimal_value(digits: Seq<char>) -> nat
    decreases digits.len(),
{
    if digits.len() == 0 {
        0
    } else {
        decimal_value(digits.drop_last()) * 10 + digit_value(digits.last())
    }
}

/// The digits of a number text: the text without its leading `+`, if any.
pub open spec fn unsigned_part(text: Seq<char>) -> Seq<char> {
    if text.len() > 0 && text[0] == '+' {
        text.subrange(1, text.len() as int)
    } else {
        text
    }
}

/// The `u64` that `text` writes: an optional `+`, then one or more ASCII
/// digits whose value fits in 64 bits. Anything else writes no number.
pub open spec fn parse_decimal(text: Seq<char>) -> Option<u64> {
    let digits = unsigned_part(text);
    if digits.len() > 0 && all_digits(digits) && decimal_value(digits) <= u64::MAX {
        Some(decimal_value(digits) as u64)
    } else {
        None
    }
}

/// The one-character text of the digit `d`.
fn digit_str(d: u8) -> (s: &'static str)
    requires
        d < 10,
    ensures
        s@ == seq![digit_char(d as nat)],
{
    proof {
        reveal_strlit("0");
        reveal_strlit("1");
        reveal_strlit("2");
        reveal_strlit("3");
        reveal_strlit("4");
        reveal_strlit("5");
        reveal_strlit("6");
        reveal_strlit("7");
        reveal_strlit("8");
        reveal_strlit("9");
    }
    let s = match d {
        0 => "0",
        1 => "1",
        2 => "2",
        3 => "3",
        4 => "4",
        5 => "5",
        6 => "6",
        7 => "7",
        8 => "8",
        _ => "9",
    };
    assert(s@ =~= seq![digit_char(d as nat)]);
    s
}

/// Writes `n` in decimal.
pub fn decimal_string(n: u64) -> (s: String)
    ensures
        s@ == decimal_chars(n as nat),
    decreases n,
{
    let digit = digit_str((n % 10) as u8);
    if n < 10 {
        String::from_str(digit)
    } else {
        let mut s = decimal_string(n / 10);
        s.append(digit);
        assert(s@ =~= decimal_chars(n as nat));
        s
    }
}

/// A run of digits writes at least what any of its prefixes writes.
proof fn decimal_value_grows(digits: Seq<char>, upto: int)
    requires
        0 <= upto <= digits.len(),
    ensures
        decimal_value(digits.subrange(0, upto)) <= decimal_value(digits),
    decreases digits.len(),
{
    if upto == digits.len() {
        assert(digits.subrange(0, upto) == digits);
    } else {
        assert(digits.drop_last().subrange(0, upto) == digits.subrange(0, upto));
        decimal_value_grows(digits.drop_last(), upto);
    }
}

/// Reads a `u64` from `text`.
pub fn parse_u64(text: &str) -> (r: Option<u64>)
    ensures
        r == parse_decimal(text@),
{
    let mut it = text.chars();
    let mut value: u64 = 0;
    let mut any: bool = false;
    let mut first: bool = true;
    let ghost mut seen: int = 0;
    let ghost mut start: int = 0;
    let ghost len = text@.len() as int;
    proof {
        assert(text@.subrange(0, len) == text@);
        assert(text@.subrange(0, 0).len() == 0);
    }
    loop
        invariant
            len == text@.len(),
            0 <= start <= seen <= len,
            start <= 1,
            it.remaining() == text@.subrange(seen, len),
            first <==> seen == 0,
            start == 1 <==> seen >= 1 && text@[0] == '+',
            any <==> seen > start,
            all_digits(text@.subrange(start, seen)),
            value == decimal_value(text@.subrange(start, seen)),
        decreases len - seen,
    {
        let ghost digits = unsigned_part(text@);
        match it.next() {
            None => {
                proof {
                    assert(seen == len);
                    assert(digits == text@.subrange(start, seen));
                }
                return if any {
                    Some(value)
                } else {
                    None
                };
            },
            Some(c) => {
                assert(c == text@[seen]);
                if first && c == '+' {
                    proof {
                        start = 1;
                        assert(text@.subrange(1, 1).len() == 0);
                    }
                } else if c >= '0' && c <= '9' {
                    let d: u64 = (c as u32 - 48) as u64;
                    let ghost run = text@.subrange(start, seen + 1);
                    proof {
                        assert(run.drop_last() == text@.subrange(start, seen));
                        assert(run.last() == c);
                        assert(decimal_value(run) == value * 10 + d);
                        assert(digits.len() == len - start);
                        assert(digits.subrange(0, seen + 1 - start) == run);
                        decimal_value_grows(digits, seen + 1 - start);
                    }
                    let scaled = match value.checked_mul(10) {
                        Some(v) => v,
                        None => {
                            return None;
                        },
                    };
                    value = match scaled.checked_add(d) {
                        Some(v) => v,
                        None => {
                            return None;
                        },
                    };
                    any = true;
                } else {
                    proof {
                        assert(digits.len() == len - start);
                        assert(digits[seen - start] == c);
                    }
                    return None;
                }
                first = false;
                proof {
                    seen = seen + 1;
                }
            },
        }
    }
}

/// The decimal text of a number is made of digits alone, and is not empty.
pub proof fn decimal_chars_are_digits(n: nat)
    ensures
        decimal_chars(n).len() > 0,
        all_digits(decimal_chars(n)),
    decreases n,
{
    if n >= 10 {
        decimal_chars_are_digits(n / 10);
    }
}

/// The decimal text of a number writes that number.
pub proof fn decimal_value_of_chars(n: nat)
    ensures
        decimal_value(decimal_chars(n)) == n,
    decreases n,
{
    let text = decimal_chars(n);
    if n < 10 {
        assert(text.drop_last().len() == 0);
        assert(decimal_value(text.drop_last()) == 0);
        assert(digit_value(text.last()) == n);
    } else {
        decimal_value_of_chars(n / 10);
        assert(text.drop_last() == decimal_chars(n / 10));
        assert(digit_value(text.last()) == n % 10);
    }
}

/// Reading back what was written gives the number that was written.
pub proof fn parse_of_decimal(n: u64)
    ensures
        parse_decimal(decimal_chars(n as nat)) == Some(n),
{
    decimal_chars_are_digits(n as nat);
    decimal_value_of_chars(n as nat);
    assert(is_digit(decimal_chars(n as nat)[0]));
}

} // verus!
