//! Numbers and separators in byte text.
//!
//! The decimal grammar is the one of the integer types' `from_str`: an
//! optional sign, then one or more ASCII digits and nothing else. Text is
//! read from the left, and the first thing that goes wrong decides the error.

use vstd::prelude::*;
use vstd::string::StringSliceAdditionalSpecFns;
use vstd::utf8::{
    decode_utf8, encode_utf8, encode_utf8_decode_utf8, encode_utf8_valid_utf8, is_ascii_chars,
    is_ascii_chars_encode_utf8, is_char_boundary, is_char_boundary_iff_not_is_continuation_byte,
    valid_utf8, valid_utf8_split,
};

verus! {

/// The sign `+`.
pub const PLUS: u8 = 0x2b;

/// The sign `-`.
pub const MINUS: u8 = 0x2d;

/// The digit `0`.
pub const ZERO: u8 = 0x30;

/// The digit `9`.
pub const NINE: u8 = 0x39;

/// Why a text is not a number of the wanted type.
#[derive(Clone, Copy, Debug, PartialEq, Eq, Structural)]
pub enum IntError {
    /// The text is empty.
    Empty,
    /// A byte that is no digit, or a sign with nothing behind it.
    InvalidDigit,
    /// The digits read so far are already above the largest value.
    PosOverflow,
    /// The digits read so far are already below the smallest value.
    NegOverflow,
}

/// Why a run of bytes is no unsigned decimal number within a limit.
#[derive(Clone, Copy, Debug, PartialEq, Eq, Structural)]
pub enum NoMagnitude {
    /// The leading digits exceed the limit.
    TooLarge,
    /// There is no byte, or one that is no digit stands before the limit is
    /// exceeded.
    NotDigits,
}

/// Whether a byte is one of the digits `0` to `9`.
pub open spec fn is_digit(byte: u8) -> bool {
    ZERO <= byte <= NINE
}

/// Whether every byte of a text is a digit.
pub open spec fn all_digits(text: Seq<u8>) -> bool {
    forall|i: int| 0 <= i < text.len() ==> is_digit(#[trigger] text[i])
}

/// The number of digits at the start of `text`.
pub open spec fn digit_run(text: Seq<u8>) -> nat
    decreases text.len(),
{
    if text.len() == 0 || !is_digit(text[0]) {
        0
    } else {
        1 + digit_run(text.drop_first())
    }
}

/// The value of `text` read as decimal digits.
pub open spec fn digits_value(text: Seq<u8>) -> nat
    decreases text.len(),
{
    if text.len() == 0 {
        0
    } else {
        digits_value(text.drop_last()) * 10 + (text.last() - ZERO) as nat
    }
}

/// `digits` as a number that may not exceed `limit`.
pub open spec fn magnitude(digits: Seq<u8>, limit: nat) -> Result<nat, NoMagnitude> {
    let run = digits.take(digit_run(digits) as int);
    if digits.len() == 0 {
        Err(NoMagnitude::NotDigits)
    } else if digits_value(run) > limit {
        Err(NoMagnitude::TooLarge)
    } else if run.len() < digits.len() {
        Err(NoMagnitude::NotDigits)
    } else {
        Ok(digits_value(digits))
    }
}

/// `text` as a `u16`: an optional `+`, then digits.
pub open spec fn decimal_u16(text: Seq<u8>) -> Option<u16> {
    let digits = if text.len() > 0 && text[0] == PLUS {
        text.drop_first()
    } else {
        text
    };
    match magnitude(digits, u16::MAX as nat) {
        Ok(v) => Some(v as u16),
        Err(_) => None,
    }
}

/// `text` as an `i64`: an optional `+` or `-`, then digits.
pub open spec fn decimal_i64(text: Seq<u8>) -> Result<i64, IntError> {
    if text.len() == 0 {
        Err(IntError::Empty)
    } else if text[0] == MINUS {
        match magnitude(text.drop_first(), 0x8000_0000_0000_0000) {
            Ok(v) => Ok((-(v as int)) as i64),
            Err(NoMagnitude::TooLarge) => Err(IntError::NegOverflow),
            Err(NoMagnitude::NotDigits) => Err(IntError::InvalidDigit),
        }
    } else {
        let digits = if text[0] == PLUS {
            text.drop_first()
        } else {
            text
        };
        match magnitude(digits, i64::MAX as nat) {
            Ok(v) => Ok(v as i64),
            Err(NoMagnitude::TooLarge) => Err(IntError::PosOverflow),
            Err(NoMagnitude::NotDigits) => Err(IntError::InvalidDigit),
        }
    }
}

/// The digits at the start of a text are digits, and the byte behind them is
/// none.
pub proof fn lemma_digit_run(text: Seq<u8>)
    ensures
        digit_run(text) <= text.len(),
        all_digits(text.take(digit_run(text) as int)),
        digit_run(text) < text.len() ==> !is_digit(text[digit_run(text) as int]),
    decreases text.len(),
{
    if text.len() > 0 && is_digit(text[0]) {
        let rest = text.drop_first();
        lemma_digit_run(rest);
        let run = digit_run(text) as int;
        assert forall|i: int| 0 <= i < run implies is_digit(#[trigger] text.take(run)[i]) by {
            if i > 0 {
                assert(text.take(run)[i] == rest.take(run - 1)[i - 1]);
            }
        }
    }
}

/// A prefix of digits that ends before a byte that is no digit, or at the
/// end of the text, is the whole run.
pub proof fn lemma_digit_run_is(text: Seq<u8>, n: int)
    requires
        0 <= n <= text.len(),
        all_digits(text.take(n)),
        n < text.len() ==> !is_digit(text[n]),
    ensures
        digit_run(text) == n,
    decreases text.len(),
{
    if n > 0 {
        assert(text.take(n)[0] == text[0]);
        let rest = text.drop_first();
        assert forall|i: int| 0 <= i < n - 1 implies is_digit(#[trigger] rest.take(n - 1)[i]) by {
            assert(rest.take(n - 1)[i] == text.take(n)[i + 1]);
        }
        lemma_digit_run_is(rest, n - 1);
    }
}

/// More digits make no smaller number.
pub proof fn lemma_digits_value_grows(text: Seq<u8>, shorter: int, longer: int)
    requires
        0 <= shorter <= longer <= text.len(),
        all_digits(text.take(longer)),
    ensures
        digits_value(text.take(shorter)) <= digits_value(text.take(longer)),
    decreases longer - shorter,
{
    if shorter < longer {
        assert(text.take(longer).drop_last() =~= text.take(longer - 1));
        assert forall|i: int| 0 <= i < longer - 1 implies is_digit(
            #[trigger] text.take(longer - 1)[i],
        ) by {
            assert(text.take(longer - 1)[i] == text.take(longer)[i]);
        }
        assert(is_digit(text.take(longer)[longer - 1]));
        lemma_digits_value_grows(text, shorter, longer - 1);
    }
}

/// Whether two byte texts are the same.
pub fn bytes_eq(a: &[u8], b: &[u8]) -> (r: bool)
    ensures
        r == (a@ == b@),
{
    if a.len() != b.len() {
        return false;
    }
    let mut at: usize = 0;
    while at < a.len()
        invariant
            at <= a.len(),
            a.len() == b.len(),
            forall|j: int| 0 <= j < at ==> a@[j] == b@[j],
        decreases a.len() - at,
    {
        if a[at] != b[at] {
            return false;
        }
        at = at + 1;
    }
    proof {
        assert(a@ =~= b@);
    }
    true
}

/// Whether two strings are the same.
pub fn str_eq(a: &str, b: &str) -> (r: bool)
    ensures
        r == (a@ == b@),
{
    proof {
        encode_utf8_decode_utf8(a@);
        encode_utf8_decode_utf8(b@);
    }
    bytes_eq(a.as_bytes(), b.as_bytes())
}

/// Whether `needle` stands in `text` at place `at`.
pub open spec fn occurs_at(text: Seq<u8>, needle: Seq<u8>, at: int) -> bool {
    0 <= at && at + needle.len() <= text.len() && text.subrange(at, at + needle.len()) == needle
}

/// Whether `needle` stands somewhere in `text`.
pub open spec fn occurs(text: Seq<u8>, needle: Seq<u8>) -> bool {
    exists|at: int| occurs_at(text, needle, at)
}

/// Whether `needle` stands in `text` at place `at`.
pub fn matches_at(text: &[u8], needle: &[u8], at: usize) -> (r: bool)
    requires
        at + needle@.len() <= text@.len(),
    ensures
        r == occurs_at(text@, needle@, at as int),
{
    let size = text.len();
    let mut i: usize = 0;
    while i < needle.len()
        invariant
            i <= needle@.len(),
            size == text@.len(),
            at + needle@.len() <= text@.len(),
            forall|j: int| 0 <= j < i ==> text@[at + j] == needle@[j],
        decreases needle@.len() - i,
    {
        if text[at + i] != needle[i] {
            proof {
                assert(text@.subrange(at as int, at + needle@.len())[i as int] == text@[at + i]);
            }
            return false;
        }
        i = i + 1;
    }
    proof {
        assert(text@.subrange(at as int, at + needle@.len()) =~= needle@);
    }
    true
}

/// Whether `needle` stands somewhere in `text`.
pub fn contains_bytes(text: &[u8], needle: &[u8]) -> (r: bool)
    ensures
        r == occurs(text@, needle@),
{
    if needle.len() > text.len() {
        return false;
    }
    let last = text.len() - needle.len();
    let mut at: usize = 0;
    while at < last
        invariant
            at <= last,
            last == text@.len() - needle@.len(),
            forall|j: int| 0 <= j < at ==> !occurs_at(text@, needle@, j),
        decreases last - at,
    {
        if matches_at(text, needle, at) {
            return true;
        }
        at = at + 1;
    }
    matches_at(text, needle, last)
}

/// Whether `needle` occurs in `text`.
pub fn contains_byte(text: &[u8], needle: u8) -> (r: bool)
    ensures
        r == text@.contains(needle),
{
    find_byte(text, needle).is_some()
}

/// The place of the first `needle` in `text`, if there is one.
pub fn find_byte(text: &[u8], needle: u8) -> (r: Option<usize>)
    ensures
        r is Some <==> text@.contains(needle),
        match r {
            Some(at) => at < text@.len() && text@[at as int] == needle && text@.index_of_first(
                needle,
            ) == Some(at as int),
            None => text@.index_of_first(needle) is None,
        },
{
    let mut at: usize = 0;
    while at < text.len()
        invariant
            at <= text.len(),
            forall|j: int| 0 <= j < at ==> text@[j] != needle,
        decreases text.len() - at,
    {
        if text[at] == needle {
            proof {
                assert(text@[at as int] == needle);
                assert(text@.contains(needle));
                text@.index_of_first_ensures(needle);
                let first = text@.index_of_first(needle)->0;
                assert(text@[first] == needle);
                assert(first == at);
            }
            return Some(at);
        }
        at = at + 1;
    }
    proof {
        text@.index_of_first_ensures(needle);
    }
    None
}

/// Reads `digits` as a number of at most `limit`.
pub fn parse_magnitude(digits: &[u8], limit: u64) -> (r: Result<u64, NoMagnitude>)
    ensures
        match magnitude(digits@, limit as nat) {
            Ok(v) => r == Ok::<u64, NoMagnitude>(v as u64) && v <= limit,
            Err(e) => r == Err::<u64, NoMagnitude>(e),
        },
{
    if digits.len() == 0 {
        return Err(NoMagnitude::NotDigits);
    }
    let mut value: u64 = 0;
    let mut at: usize = 0;
    proof {
        lemma_digit_run(digits@);
    }
    while at < digits.len()
        invariant
            at <= digits.len(),
            all_digits(digits@.take(at as int)),
            value == digits_value(digits@.take(at as int)),
            value <= limit,
            digit_run(digits@) <= digits@.len(),
            all_digits(digits@.take(digit_run(digits@) as int)),
        decreases digits.len() - at,
    {
        let byte = digits[at];
        let ghost seen = digits@.take(at as int);
        let ghost next = digits@.take(at + 1);
        if byte < ZERO || byte > NINE {
            proof {
                lemma_digit_run_is(digits@, at as int);
            }
            return Err(NoMagnitude::NotDigits);
        }
        proof {
            assert(next.drop_last() =~= seen);
            assert forall|i: int| 0 <= i < next.len() implies is_digit(#[trigger] next[i]) by {
                if i < at {
                    assert(next[i] == seen[i]);
                }
            }
        }
        let digit: u64 = (byte - ZERO) as u64;
        if limit < digit || value > (limit - digit) / 10 {
            proof {
                let run = digit_run(digits@) as int;
                if run < at + 1 {
                    lemma_digit_run(digits@);
                    assert(is_digit(next[run]));
                    assert(false);
                }
                lemma_digits_value_grows(digits@, at + 1, run);
            }
            return Err(NoMagnitude::TooLarge);
        }
        value = value * 10 + digit;
        at = at + 1;
    }
    proof {
        assert(digits@.take(at as int) =~= digits@);
        lemma_digit_run_is(digits@, at as int);
    }
    Ok(value)
}

/// Reads `text` as a `u16`.
pub fn parse_u16(text: &[u8]) -> (r: Option<u16>)
    ensures
        r == decimal_u16(text@),
{
    let digits = if text.len() > 0 && text[0] == PLUS {
        vstd::slice::slice_subrange(text, 1, text.len())
    } else {
        text
    };
    match parse_magnitude(digits, 0xffff) {
        Ok(v) => Some(v as u16),
        Err(_) => None,
    }
}

/// Reads `text` as an `i64`.
pub fn parse_i64(text: &[u8]) -> (r: Result<i64, IntError>)
    ensures
        r == decimal_i64(text@),
{
    if text.len() == 0 {
        return Err(IntError::Empty);
    }
    if text[0] == MINUS {
        let digits = vstd::slice::slice_subrange(text, 1, text.len());
        match parse_magnitude(digits, 0x8000_0000_0000_0000) {
            Ok(v) => {
                if v == 0x8000_0000_0000_0000 {
                    Ok(i64::MIN)
                } else {
                    Ok(-(v as i64))
                }
            },
            Err(NoMagnitude::TooLarge) => Err(IntError::NegOverflow),
            Err(NoMagnitude::NotDigits) => Err(IntError::InvalidDigit),
        }
    } else {
        let digits = if text[0] == PLUS {
            vstd::slice::slice_subrange(text, 1, text.len())
        } else {
            text
        };
        match parse_magnitude(digits, 0x7fff_ffff_ffff_ffff) {
            Ok(v) => Ok(v as i64),
            Err(NoMagnitude::TooLarge) => Err(IntError::PosOverflow),
            Err(NoMagnitude::NotDigits) => Err(IntError::InvalidDigit),
        }
    }
}

/// The pieces of `bytes` between separators, at most `n` of them: the last
/// piece holds whatever is left, separators included.
pub open spec fn pieces(bytes: Seq<u8>, n: nat, sep: u8) -> Seq<Seq<u8>>
    decreases n,
{
    if n == 0 {
        Seq::empty()
    } else if n == 1 {
        seq![bytes]
    } else {
        match bytes.index_of_first(sep) {
            Some(at) => seq![bytes.take(at)] + pieces(bytes.skip(at + 1), (n - 1) as nat, sep),
            None => seq![bytes],
        }
    }
}

/// Whether the texts of `parts` are the byte sequences of `wanted`.
pub open spec fn are_pieces(parts: Seq<&str>, wanted: Seq<Seq<u8>>) -> bool {
    &&& parts.len() == wanted.len()
    &&& forall|i: int| 0 <= i < parts.len() ==> (#[trigger] parts[i]).spec_bytes() == wanted[i]
}

/// A byte of ASCII in a text stands between two characters.
pub proof fn lemma_ascii_byte_is_apart(text: Seq<char>, at: int)
    requires
        0 <= at < encode_utf8(text).len(),
        encode_utf8(text)[at] < 0x80,
    ensures
        is_char_boundary(encode_utf8(text), at),
        is_char_boundary(encode_utf8(text).subrange(at, encode_utf8(text).len() as int), 1),
        valid_utf8(encode_utf8(text).subrange(at, encode_utf8(text).len() as int)),
{
    let bytes = encode_utf8(text);
    encode_utf8_valid_utf8(text);
    is_char_boundary_iff_not_is_continuation_byte(bytes, at);
    valid_utf8_split(bytes, at);
    let tail = bytes.subrange(at, bytes.len() as int);
    assert(tail[0] == bytes[at]);
    reveal_with_fuel(is_char_boundary, 2);
    reveal_with_fuel(valid_utf8, 2);
}

/// Splits `text` at its first `sep`, which is a byte of ASCII: what stands
/// before it, and what stands behind it.
pub fn split_once(text: &str, sep: u8) -> (r: Option<(&str, &str)>)
    requires
        sep < 0x80,
    ensures
        match text.spec_bytes().index_of_first(sep) {
            Some(at) => r matches Some((head, tail)) && head.spec_bytes() == text.spec_bytes().take(
                at,
            ) && tail.spec_bytes() == text.spec_bytes().skip(at + 1),
            None => r is None,
        },
{
    let bytes = text.as_bytes();
    match find_byte(bytes, sep) {
        Some(at) => {
            proof {
                lemma_ascii_byte_is_apart(text@, at as int);
            }
            let (head, rest) = text.split_at(at);
            proof {
                assert(rest.spec_bytes() =~= bytes@.subrange(at as int, bytes@.len() as int));
            }
            let (_, tail) = rest.split_at(1);
            proof {
                assert(head.spec_bytes() =~= bytes@.take(at as int));
                assert(tail.spec_bytes() =~= bytes@.skip(at + 1));
            }
            Some((head, tail))
        },
        None => None,
    }
}

/// Splits `text` at the separator `sep`, a byte of ASCII, into at most `n`
/// pieces.
pub fn split_n<'a>(text: &'a str, n: usize, sep: u8) -> (r: Vec<&'a str>)
    requires
        sep < 0x80,
    ensures
        are_pieces(r@, pieces(text.spec_bytes(), n as nat, sep)),
{
    let mut parts: Vec<&'a str> = Vec::new();
    let mut rest = text;
    let mut left = n;
    let ghost whole = pieces(text.spec_bytes(), n as nat, sep);
    while left > 1
        invariant
            sep < 0x80,
            left <= n,
            n > 0 ==> left > 0,
            whole == pieces(text.spec_bytes(), n as nat, sep),
            are_pieces(parts@, whole.take(parts@.len() as int)),
            parts@.len() <= whole.len(),
            whole.skip(parts@.len() as int) == pieces(rest.spec_bytes(), left as nat, sep),
        decreases left,
    {
        let ghost before = rest.spec_bytes();
        let ghost done = parts@.len() as int;
        match split_once(rest, sep) {
            Some((head, tail)) => {
                parts.push(head);
                proof {
                    let at = before.index_of_first(sep)->0;
                    let after = pieces(tail.spec_bytes(), (left - 1) as nat, sep);
                    assert(pieces(before, left as nat, sep) == seq![before.take(at)] + after);
                    assert(whole.skip(done)[0] == before.take(at));
                    assert(whole.skip(done + 1) =~= whole.skip(done).skip(1));
                    assert((seq![before.take(at)] + after).skip(1) =~= after);
                    assert(whole.take(done + 1) =~= whole.take(done).push(before.take(at)));
                }
                rest = tail;
                left = left - 1;
            },
            None => {
                proof {
                    assert(pieces(before, left as nat, sep) == seq![before]);
                    assert(pieces(before, 1, sep) == seq![before]);
                }
                left = 1;
            },
        }
    }
    if left == 1 {
        let ghost done = parts@.len() as int;
        parts.push(rest);
        proof {
            assert(whole.skip(done) == seq![rest.spec_bytes()]);
            assert(whole.skip(done)[0] == rest.spec_bytes());
            assert(whole.len() == done + 1);
            assert(whole.take(done + 1) =~= whole.take(done).push(rest.spec_bytes()));
            assert(whole.take(done + 1) =~= whole);
        }
    } else {
        proof {
            assert(whole =~= whole.take(0));
        }
    }
    parts
}

/// The digit for a number below ten.
pub open spec fn digit_byte(d: nat) -> u8 {
    (ZERO + d) as u8
}

/// The decimal digits of a number, without leading zeros.
pub open spec fn digits_of(n: nat) -> Seq<u8>
    decreases n,
{
    if n < 10 {
        seq![digit_byte(n)]
    } else {
        digits_of(n / 10).push(digit_byte(n % 10))
    }
}

/// A number in decimal: a `-` where it is negative, then its digits.
pub open spec fn decimal_bytes(v: int) -> Seq<u8> {
    if v < 0 {
        seq![MINUS] + digits_of((-v) as nat)
    } else {
        digits_of(v as nat)
    }
}

/// Bytes of ASCII as the characters they stand for.
pub open spec fn ascii_text(bytes: Seq<u8>) -> Seq<char> {
    bytes.map_values(|b: u8| b as char)
}

/// A number in decimal, as a text.
pub open spec fn decimal_text(v: int) -> Seq<char> {
    ascii_text(decimal_bytes(v))
}

/// The digits of a number are digits, and their value is the number.
pub proof fn lemma_digits_of(n: nat)
    ensures
        digits_of(n).len() > 0,
        all_digits(digits_of(n)),
        digits_value(digits_of(n)) == n,
    decreases n,
{
    let digits = digits_of(n);
    assert(digits.last() == digit_byte(n % 10));
    assert((digits.last() - ZERO) as nat == n % 10);
    if n >= 10 {
        lemma_digits_of(n / 10);
        assert(digits.drop_last() =~= digits_of(n / 10));
        assert(digits_value(digits) == digits_value(digits_of(n / 10)) * 10 + n % 10);
    } else {
        assert(digits.drop_last() =~= Seq::<u8>::empty());
        assert(digits_value(digits.drop_last()) == 0);
    }
}

/// A number that is written in decimal is read back as itself.
pub proof fn lemma_decimal_round_trip(v: i64)
    ensures
        decimal_i64(decimal_bytes(v as int)) == Ok::<i64, IntError>(v),
{
    let bytes = decimal_bytes(v as int);
    let size: nat = if v < 0 {
        (-v) as nat
    } else {
        v as nat
    };
    let digits = digits_of(size);
    lemma_digits_of(size);
    assert(digits.take(digits.len() as int) =~= digits);
    lemma_digit_run_is(digits, digits.len() as int);
    if v < 0 {
        assert(bytes[0] == MINUS);
        assert(bytes.drop_first() =~= digits);
    } else {
        assert(is_digit(digits[0]));
    }
}

/// Texts of ASCII have one byte for each character, the character itself.
pub proof fn lemma_ascii_text(bytes: Seq<u8>)
    requires
        forall|i: int| 0 <= i < bytes.len() ==> bytes[i] < 0x80,
    ensures
        encode_utf8(ascii_text(bytes)) == bytes,
{
    let text = ascii_text(bytes);
    assert(is_ascii_chars(text)) by {
        assert forall|i: int| 0 <= i < text.len() implies '\0' <= #[trigger] text[i]
            <= '\u{7f}' by {
            assert(text[i] == bytes[i] as char);
        }
    }
    is_ascii_chars_encode_utf8(text);
    assert(encode_utf8(text) =~= bytes) by {
        assert forall|i: int| 0 <= i < bytes.len() implies encode_utf8(text)[i] == bytes[i] by {
            assert(text[i] == bytes[i] as char);
            assert(text[i] as u8 == encode_utf8(text)[i]);
        }
    }
}

/// Numbers that are written alike are the same number.
pub proof fn lemma_decimal_text_apart(a: i64, b: i64)
    requires
        decimal_text(a as int) == decimal_text(b as int),
    ensures
        a == b,
{
    lemma_decimal_bytes_ascii(a);
    lemma_decimal_bytes_ascii(b);
    lemma_ascii_text(decimal_bytes(a as int));
    lemma_ascii_text(decimal_bytes(b as int));
    lemma_decimal_round_trip(a);
    lemma_decimal_round_trip(b);
}

/// A number in decimal is written in ASCII.
pub proof fn lemma_decimal_bytes_ascii(v: i64)
    ensures
        forall|i: int|
            0 <= i < decimal_bytes(v as int).len() ==> decimal_bytes(v as int)[i] < 0x80,
{
    let size: nat = if v < 0 {
        (-v) as nat
    } else {
        v as nat
    };
    lemma_digits_of(size);
    let bytes = decimal_bytes(v as int);
    assert forall|i: int| 0 <= i < bytes.len() implies bytes[i] < 0x80 by {
        if v < 0 && i > 0 {
            assert(bytes[i] == digits_of(size)[i - 1]);
        }
    }
}

/// `String::push`: appends one character.
#[verifier::external_body]
pub(crate) fn push_char(text: &mut String, c: char)
    ensures
        final(text)@ == old(text)@.push(c),
{
    text.push(c)
}

/// Appends the digits of `n` to `text`.
pub fn push_digits(text: &mut String, n: u64)
    ensures
        final(text)@ == old(text)@ + ascii_text(digits_of(n as nat)),
    decreases n,
{
    if n >= 10 {
        push_digits(text, n / 10);
    }
    push_char(text, (ZERO + (n % 10) as u8) as char);
    proof {
        assert(text@ =~= old(text)@ + ascii_text(digits_of(n as nat)));
    }
}

/// Writes a number in decimal.
pub fn format_i64(v: i64) -> (r: String)
    ensures
        r@ == decimal_text(v as int),
        encode_utf8(r@) == decimal_bytes(v as int),
{
    proof {
        lemma_decimal_bytes_ascii(v);
        lemma_ascii_text(decimal_bytes(v as int));
    }
    let mut text = String::new();
    if v < 0 {
        push_char(&mut text, MINUS as char);
        let size: u64 = if v == i64::MIN {
            0x8000_0000_0000_0000
        } else {
            (-v) as u64
        };
        push_digits(&mut text, size);
        proof {
            assert(text@ =~= decimal_text(v as int));
        }
    } else {
        push_digits(&mut text, v as u64);
        proof {
            assert(text@ =~= decimal_text(v as int));
        }
    }
    text
}

/// What `str::to_lowercase` makes of a text.
pub uninterp spec fn lowercase(text: Seq<char>) -> Seq<char>;

/// What `str::trim` leaves of a text.
pub uninterp spec fn trimmed(text: Seq<char>) -> Seq<char>;

/// `str::to_lowercase`: the text in lower case, by the rules of Unicode.
#[verifier::external_body]
pub(crate) fn to_lowercase(text: &str) -> (r: String)
    ensures
        r@ == lowercase(text@),
{
    text.to_lowercase()
}

/// `str::trim`: the text without the white space at its start and end.
#[verifier::external_body]
pub(crate) fn trim(text: &str) -> (r: &str)
    ensures
        r@ == trimmed(text@),
{
    text.trim()
}

/// `std::str::from_utf8`: the bytes as a text, if they are UTF-8.
#[verifier::external_body]
pub(crate) fn from_utf8(bytes: &[u8]) -> (r: Option<&str>)
    ensures
        r is Some <==> valid_utf8(bytes@),
        r matches Some(text) ==> text@ == decode_utf8(bytes@),
{
    std::str::from_utf8(bytes).ok()
}

} // verus!
