//! What the library has from outside: URL resolution, done by `reqwest::Url`, and
//! percent-encoding, done by `urlencoding`. Nothing here is proved; each contract
//! says what the outside function is taken to do.

use crate::text::string_text;
use reqwest::Url;
use vstd::prelude::*;
use vstd::utf8::encode_utf8;

verus! {

/// Whether `Url::parse` reads `text` as an absolute URL.
pub uninterp spec fn is_absolute_url(text: Seq<char>) -> bool;

/// The URL that `reference` denotes when read against `base`: the serialization of
/// what `Url::join` returns on the URL that `Url::parse` reads from `base`, and
/// `None` where either of the two refuses its input.
pub uninterp spec fn joined_url(base: Seq<char>, reference: Seq<char>) -> Option<Seq<char>>;

/// Calls `Url::parse` and tells whether it accepted `text`. Parsing depends on the
/// text alone, so the answer is the one that `is_absolute_url` names.
#[verifier::external_body]
pub(crate) fn parses_as_absolute(text: &str) -> (accepted: bool)
    ensures
        accepted == is_absolute_url(text@),
{
    Url::parse(text).is_ok()
}

/// Calls `Url::join` on the URL parsed from `base`, and hands back the serialization
/// of the joined URL. Both steps depend on the two texts alone, so the result is the
/// one that `joined_url` names.
#[verifier::external_body]
pub(crate) fn join(base: &str, reference: &str) -> (joined: Option<String>)
    ensures
        string_text(joined) == joined_url(base@, reference@),
{
    match Url::parse(base) {
        Ok(parsed) => match parsed.join(reference) {
            Ok(url) => Some(String::from(url)),
            Err(_) => None,
        },
        Err(_) => None,
    }
}

/// The bytes that percent-encoding leaves as they are: ASCII letters and digits,
/// `-`, `.`, `_` and `~`.
pub open spec fn is_unreserved(byte: u8) -> bool {
    ||| 0x30 <= byte <= 0x39
    ||| 0x41 <= byte <= 0x5A
    ||| 0x61 <= byte <= 0x7A
    ||| byte == 0x2D
    ||| byte == 0x2E
    ||| byte == 0x5F
    ||| byte == 0x7E
}

/// The upper-case hexadecimal digit for `n`, which is below 16.
pub open spec fn hex_digit(n: u8) -> char {
    if n < 10 {
        (0x30 + n) as char
    } else {
        (0x41 + n - 10) as char
    }
}

/// One byte, percent-encoded: itself where it is unreserved, else `%` and its two
/// hexadecimal digits.
pub open spec fn encoded_byte(byte: u8) -> Seq<char> {
    if is_unreserved(byte) {
        seq![byte as char]
    } else {
        seq!['%', hex_digit(byte / 16), hex_digit(byte % 16)]
    }
}

/// The bytes, each percent-encoded, in order.
pub open spec fn encoded_bytes(bytes: Seq<u8>) -> Seq<char>
    decreases bytes.len(),
{
    if bytes.len() == 0 {
        Seq::empty()
    } else {
        encoded_bytes(bytes.drop_last()) + encoded_byte(bytes.last())
    }
}

/// A text, percent-encoded: the encoding of the bytes of its UTF-8 form.
pub open spec fn percent_encoded(text: Seq<char>) -> Seq<char> {
    encoded_bytes(encode_utf8(text))
}

/// Calls `urlencoding::encode`, which walks the UTF-8 bytes of `text`, copies the
/// unreserved ones and writes every other byte as `%` and two upper-case
/// hexadecimal digits.
#[verifier::external_body]
pub(crate) fn percent_encode(text: &str) -> (encoded: String)
    ensures
        encoded@ == percent_encoded(text@),
{
    urlencoding::encode(text).into_owned()
}

} // verus!
