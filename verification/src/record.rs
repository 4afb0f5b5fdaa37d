//! The stored form of a record in the persistent backend: the expiry time
//! in decimal, one `:`, then the value, as UTF-8 text.

use crate::decimal::{
    decimal_chars, decimal_chars_are_digits, decimal_string, is_digit, parse_decimal,
    parse_of_decimal, parse_u64,
};
use crate::text::text_from_utf8;
use vstd::prelude::*;
use vstd::std_specs::iter::IteratorSpec;
use vstd::string::StrSliceExecFns;
use vstd::string::StringExecFns;
use vstd::utf8::{decode_utf8, encode_utf8, encode_utf8_decode_utf8, encode_utf8_valid_utf8, valid_utf8};

verus! {

/// Why stored bytes are not a record.
#[derive(Debug, Clone, Copy, PartialEq, Eq, Structural)]
pub enum RecordError {
    /// The bytes are not UTF-8 text.
    NotText,
    /// The text holds no `:`.
    MissingSeparator,
    /// What stands before the first `:` is not a `u64` in decimal.
    BadTimestamp,
}

/// The text of a record that expires at `expires_at` and holds `value`.
pub open spec fn record_text(expires_at: u64, value: Seq<char>) -> Seq<char> {
    decimal_chars(expires_at as nat) + seq![':'] + value
}

/// The stored bytes of a record.
pub open spec fn record_bytes(expires_at: u64, value: Seq<char>) -> Seq<u8> {
    encode_utf8(record_text(expires_at, value))
}

/// The position of the first `:` of `text`, or its length where it holds none.
pub open spec fn separator_position(text: Seq<char>) -> nat
    decreases text.len(),
{
    if text.len() == 0 || text[0] == ':' {
        0
    } else {
        1 + separator_position(text.drop_first())
    }
}

/// The record that `text` writes. The text is split at its first `:` only,
/// so the value may hold further ones.
pub open spec fn parse_record_text(text: Seq<char>) -> Result<(u64, Seq<char>), RecordError> {
    let at = separator_position(text) as int;
    if at >= text.len() {
        Err(RecordError::MissingSeparator)
    } else {
        match parse_decimal(text.subrange(0, at)) {
            None => Err(RecordError::BadTimestamp),
            Some(expires_at) => Ok((expires_at, text.subrange(at + 1, text.len() as int))),
        }
    }
}

/// The record that stored bytes hold.
pub open spec fn decode_record(raw: Seq<u8>) -> Result<(u64, Seq<char>), RecordError> {
    if !valid_utf8(raw) {
        Err(RecordError::NotText)
    } else {
        parse_record_text(decode_utf8(raw))
    }
}

/// Where no `:` stands before `at`, and `at` is the end of the text or holds
/// one, `at` is the separator position.
proof fn separator_position_is(text: Seq<char>, at: int)
    requires
        0 <= at <= text.len(),
        forall|j: int| 0 <= j < at ==> text[j] != ':',
        at < text.len() ==> text[at] == ':',
    ensures
        separator_position(text) == at,
    decreases text.len(),
{
    if at > 0 {
        let rest = text.drop_first();
        assert forall|j: int| 0 <= j < at - 1 implies rest[j] != ':' by {
            assert(rest[j] == text[j + 1]);
        }
        separator_position_is(rest, at - 1);
    }
}

/// The stored bytes of a record that expires at `expires_at` and holds `value`.
pub fn format_db_value(expires_at: u64, value: &str) -> (raw: Vec<u8>)
    ensures
        raw@ == record_bytes(expires_at, value@),
{
    proof {
        reveal_strlit(":");
    }
    let mut text = decimal_string(expires_at);
    text.append(":");
    text.append(value);
    assert(text@ =~= record_text(expires_at, value@));
    text.as_str().as_bytes_vec()
}

/// The position of the first `:` among the `total` characters of `text`,
/// or `total` where there is none.
fn find_separator(text: &str, total: usize) -> (at: usize)
    requires
        total == text@.len(),
    ensures
        at == separator_position(text@),
        at <= total,
{
    let mut it = text.chars();
    let mut at: usize = 0;
    proof {
        assert(text@.subrange(0, total as int) == text@);
    }
    loop
        invariant
            total == text@.len(),
            0 <= at <= total,
            it.remaining() == text@.subrange(at as int, total as int),
            forall|j: int| 0 <= j < at ==> text@[j] != ':',
        decreases total - at,
    {
        match it.next() {
            None => {
                proof {
                    separator_position_is(text@, at as int);
                }
                return at;
            },
            Some(c) => {
                assert(c == text@[at as int]);
                if c == ':' {
                    proof {
                        separator_position_is(text@, at as int);
                    }
                    return at;
                }
                at += 1;
            },
        }
    }
}

/// Reads stored bytes as a record: its expiry time and its value.
pub fn parse_db_value(db_value: &[u8]) -> (r: Result<(u64, String), RecordError>)
    ensures
        match r {
            Ok((expires_at, value)) => decode_record(db_value@) == Ok::<_, RecordError>(
                (expires_at, value@),
            ),
            Err(e) => decode_record(db_value@) == Err::<(u64, Seq<char>), _>(e),
        },
{
    let text = match text_from_utf8(db_value) {
        Some(text) => text,
        None => {
            return Err(RecordError::NotText);
        },
    };
    let total = text.as_str().unicode_len();
    let at = find_separator(text.as_str(), total);
    if at >= total {
        return Err(RecordError::MissingSeparator);
    }
    let head = text.as_str().substring_char(0, at);
    let tail = text.as_str().substring_char(at + 1, total);
    match parse_u64(head) {
        None => Err(RecordError::BadTimestamp),
        Some(expires_at) => Ok((expires_at, String::from_str(tail))),
    }
}

/// The first `:` of a record's text is the one that follows the expiry time.
proof fn separator_follows_timestamp(expires_at: u64, value: Seq<char>)
    ensures
        separator_position(record_text(expires_at, value)) == decimal_chars(
            expires_at as nat,
        ).len(),
{
    let digits = decimal_chars(expires_at as nat);
    let text = record_text(expires_at, value);
    decimal_chars_are_digits(expires_at as nat);
    assert forall|j: int| 0 <= j < digits.len() implies text[j] != ':' by {
        assert(text[j] == digits[j]);
        assert(is_digit(digits[j]));
    }
    assert(text[digits.len() as int] == ':');
    separator_position_is(text, digits.len() as int);
}

/// Reading the text of a record gives back its expiry time and its value,
/// whatever the value holds.
pub proof fn parse_of_record_text(expires_at: u64, value: Seq<char>)
    ensures
        parse_record_text(record_text(expires_at, value)) == Ok::<_, RecordError>(
            (expires_at, value),
        ),
{
    let digits = decimal_chars(expires_at as nat);
    let text = record_text(expires_at, value);
    separator_follows_timestamp(expires_at, value);
    parse_of_decimal(expires_at);
    assert(text.subrange(0, digits.len() as int) == digits);
    assert(text.subrange(digits.len() as int + 1, text.len() as int) == value);
}

/// Decoding the stored bytes of a record gives back its expiry time and its
/// value, whatever the value holds.
pub proof fn decode_of_record_bytes(expires_at: u64, value: Seq<char>)
    ensures
        decode_record(record_bytes(expires_at, value)) == Ok::<_, RecordError>(
            (expires_at, value),
        ),
{
    let text = record_text(expires_at, value);
    encode_utf8_valid_utf8(text);
    encode_utf8_decode_utf8(text);
    parse_of_record_text(expires_at, value);
}

} // verus!
