//! Small rules that several handlers share.

use crate::error::{AppErr, Reply};
use crate::text::push_char;
use rand::Rng;
use vstd::prelude::*;
use vstd::string::StringSliceAdditionalSpecFns;
use vstd::utf8::{
    decode_utf8, decode_utf8_encode_utf8, decode_utf8_split, encode_utf8,
    encode_utf8_decode_utf8, encode_utf8_valid_utf8, is_char_boundary,
    is_char_boundary_start_end_of_seq, valid_utf8_split,
};

verus! {

/// Whether a phone number has the right length and prefix: eleven bytes,
/// the first two of them `09`.
pub open spec fn phone_shape(phone: &str) -> bool {
    phone.spec_bytes().len() == 11 && phone.spec_bytes().take(2) == seq![0x30u8, 0x39u8]
}

/// Whether every character is one of the digits `0` to `9`.
pub open spec fn ascii_digits(text: Seq<char>) -> bool {
    forall|i: int| 0 <= i < text.len() ==> '0' <= #[trigger] text[i] <= '9'
}

/// What is wrong with a phone number, if anything. The shape is judged
/// before the digits.
pub open spec fn phone_fault(phone: &str) -> Option<Reply> {
    if !phone_shape(phone) {
        Some(Reply::bad_request("invalid phone number"@))
    } else if !ascii_digits(phone@) {
        Some(Reply::bad_request("phone number must be all digits"@))
    } else {
        None
    }
}

/// Whether every character of `text` is one of the digits `0` to `9`.
pub fn is_ascii_digits(text: &str) -> (r: bool)
    ensures
        r == ascii_digits(text@),
{
    for c in it: text.chars()
        invariant
            it.seq() == text@,
            forall|i: int| 0 <= i < it.index() ==> '0' <= #[trigger] text@[i] <= '9',
    {
        if c < '0' || c > '9' {
            assert(text@[it.index() as int] == c);
            return false;
        }
    }
    true
}

/// Accepts the phone numbers of eleven digits that start with `09`.
pub fn phone_validator(phone: &str) -> (r: Result<(), AppErr>)
    ensures
        match (r, phone_fault(phone)) {
            (Ok(_), None) => true,
            (Err(e), Some(fault)) => e@ == fault,
            _ => false,
        },
{
    let bytes = phone.as_bytes();
    if bytes.len() != 11 || bytes[0] != 0x30 || bytes[1] != 0x39 {
        return Err(AppErr::bad_request("invalid phone number"));
    }
    proof {
        assert(bytes@.take(2) =~= seq![0x30u8, 0x39u8]);
    }
    if !is_ascii_digits(phone) {
        return Err(AppErr::bad_request("phone number must be all digits"));
    }
    Ok(())
}

/// Shortens a text to a number of bytes, without cutting a character in
/// two.
pub trait CutOff {
    fn cut_off(&mut self, len: usize);
}

/// The place at which a text of these bytes is cut to at most `len` bytes:
/// the last character boundary that is not beyond `len`.
pub open spec fn cut_point(bytes: Seq<u8>, len: int) -> int
    decreases len,
{
    if len <= 0 {
        0
    } else if is_char_boundary(bytes, len) {
        len
    } else {
        cut_point(bytes, len - 1)
    }
}

/// What is left of `text` when it is cut to at most `len` bytes.
pub open spec fn cut(text: Seq<char>, len: int) -> Seq<char> {
    decode_utf8(encode_utf8(text).take(cut_point(encode_utf8(text), len)))
}

/// The text that `picks` spell in `charset`: one character for each pick,
/// the byte at that place taken as a character.
pub open spec fn spelled(charset: Seq<u8>, picks: Seq<usize>) -> Seq<char> {
    Seq::new(picks.len(), |i: int| charset[picks[i] as int] as char)
}

/// The cut point is a character boundary within the text and not beyond
/// `len`, and no boundary lies between it and `len`.
pub proof fn lemma_cut_point(text: Seq<char>, len: int)
    requires
        0 <= len,
    ensures
        0 <= cut_point(encode_utf8(text), len) <= len,
        cut_point(encode_utf8(text), len) <= encode_utf8(text).len(),
        is_char_boundary(encode_utf8(text), cut_point(encode_utf8(text), len)),
        forall|i: int|
            cut_point(encode_utf8(text), len) < i <= len ==> !is_char_boundary(
                encode_utf8(text),
                i,
            ),
    decreases len,
{
    let bytes = encode_utf8(text);
    encode_utf8_valid_utf8(text);
    is_char_boundary_start_end_of_seq(bytes);
    if len > 0 && !is_char_boundary(bytes, len) {
        lemma_cut_point(text, len - 1);
    }
}

/// A text that is cut is a prefix of what it was, and it takes no more than
/// `len` bytes.
pub proof fn lemma_cut_is_prefix(text: Seq<char>, len: int)
    requires
        0 <= len,
    ensures
        cut(text, len).len() <= text.len(),
        cut(text, len) == text.take(cut(text, len).len() as int),
        encode_utf8(cut(text, len)).len() <= len,
        encode_utf8(text).len() <= len ==> cut(text, len) == text,
{
    let bytes = encode_utf8(text);
    let at = cut_point(bytes, len);
    lemma_cut_point(text, len);
    encode_utf8_valid_utf8(text);
    encode_utf8_decode_utf8(text);
    decode_utf8_split(bytes, at);
    valid_utf8_split(bytes, at);
    let head = decode_utf8(bytes.subrange(0, at));
    let tail = decode_utf8(bytes.subrange(at, bytes.len() as int));
    assert(bytes.take(at) =~= bytes.subrange(0, at));
    assert(text =~= head + tail);
    assert(text.take(head.len() as int) =~= head);
    decode_utf8_encode_utf8(bytes.take(at));
    if bytes.len() <= len {
        is_char_boundary_start_end_of_seq(bytes);
        assert(at == bytes.len());
        assert(bytes.take(at) =~= bytes);
    }
}

/// `String::truncate`: keeps the first `new_len` bytes of the text, which
/// must end on a character boundary within the text.
#[verifier::external_body]
fn truncate(text: &mut String, new_len: usize)
    requires
        is_char_boundary(encode_utf8(old(text)@), new_len as int),
    ensures
        final(text)@ == decode_utf8(encode_utf8(old(text)@).take(new_len as int)),
{
    text.truncate(new_len)
}

/// `Rng::gen_range` on the generator of `rand::thread_rng`, for the range
/// from zero up to `bound`: a number below `bound`, which must not be zero.
/// Nothing else is known of the number.
#[verifier::external_body]
fn random_index(bound: usize) -> (r: usize)
    requires
        bound > 0,
    ensures
        r < bound,
{
    rand::thread_rng().gen_range(0..bound)
}

/// `chrono::Local::now` and `DateTime::timestamp`: the seconds since the
/// start of 1970 on the system's clock. Nothing is known of the value, and
/// two readings need not agree.
#[verifier::external_body]
pub fn now() -> i64 {
    chrono::Local::now().timestamp()
}

impl CutOff for String {
    /// Cuts the text to at most `len` bytes, at the last character boundary
    /// that is not beyond `len`.
    fn cut_off(&mut self, len: usize)
        ensures
            final(self)@ == cut(old(self)@, len as int),
    {
        let size = self.as_str().as_bytes().len();
        let mut idx: usize = if len < size {
            len
        } else {
            size
        };
        proof {
            encode_utf8_valid_utf8(self@);
            is_char_boundary_start_end_of_seq(encode_utf8(self@));
            lemma_cut_bounded(self@, len as int);
        }
        while !self.as_str().is_char_boundary(idx)
            invariant
                *self == *old(self),
                idx <= len,
                idx <= encode_utf8(self@).len(),
                cut_point(encode_utf8(self@), len as int) == cut_point(
                    encode_utf8(self@),
                    idx as int,
                ),
            decreases idx,
        {
            proof {
                encode_utf8_valid_utf8(self@);
                is_char_boundary_start_end_of_seq(encode_utf8(self@));
            }
            idx = idx - 1;
        }
        truncate(self, idx);
    }
}

impl CutOff for Option<String> {
    /// Cuts the text, if there is one.
    fn cut_off(&mut self, len: usize)
        ensures
            match *old(self) {
                Some(text) => *final(self) matches Some(rest) && rest@ == cut(text@, len as int),
                None => *final(self) is None,
            },
    {
        match self {
            Some(text) => text.cut_off(len),
            None => {},
        }
    }
}

/// Beyond the end of the text there is no boundary: cutting there is
/// cutting at the end.
pub proof fn lemma_cut_bounded(text: Seq<char>, len: int)
    requires
        0 <= len,
    ensures
        cut_point(encode_utf8(text), len) == cut_point(
            encode_utf8(text),
            if len < encode_utf8(text).len() {
                len
            } else {
                encode_utf8(text).len() as int
            },
        ),
    decreases len,
{
    let bytes = encode_utf8(text);
    encode_utf8_valid_utf8(text);
    if len > bytes.len() {
        assert(!is_char_boundary(bytes, len));
        lemma_cut_bounded(text, len - 1);
    }
}

/// The text that `picks` spell in `charset`.
pub fn spell(charset: &[u8], picks: &[usize]) -> (r: String)
    requires
        forall|i: int| 0 <= i < picks@.len() ==> picks@[i] < charset@.len(),
    ensures
        r@ == spelled(charset@, picks@),
{
    let mut text = String::new();
    let mut at: usize = 0;
    while at < picks.len()
        invariant
            at <= picks@.len(),
            forall|i: int| 0 <= i < picks@.len() ==> picks@[i] < charset@.len(),
            text@ == spelled(charset@, picks@.take(at as int)),
        decreases picks@.len() - at,
    {
        let c = charset[picks[at]] as char;
        push_char(&mut text, c);
        proof {
            assert(text@ =~= spelled(charset@, picks@.take(at + 1)));
        }
        at = at + 1;
    }
    proof {
        assert(picks@.take(at as int) =~= picks@);
    }
    text
}

/// A text of `len` characters, each drawn at random from `charset`.
pub fn get_random_string(charset: &[u8], len: usize) -> (r: String)
    requires
        len > 0 ==> charset@.len() > 0,
    ensures
        exists|picks: Seq<usize>|
            {
                &&& picks.len() == len
                &&& forall|i: int| 0 <= i < len ==> (#[trigger] picks[i]) < charset@.len()
                &&& r@ == spelled(charset@, picks)
            },
{
    let mut picks: Vec<usize> = Vec::new();
    let mut at: usize = 0;
    while at < len
        invariant
            at <= len,
            len > 0 ==> charset@.len() > 0,
            picks@.len() == at,
            forall|i: int| 0 <= i < at ==> (#[trigger] picks@[i]) < charset@.len(),
        decreases len - at,
    {
        let pick = random_index(charset.len());
        picks.push(pick);
        at = at + 1;
    }
    spell(charset, picks.as_slice())
}

} // verus!
