//! Trusted specifications of the standard and outside functions that the
//! library calls and that Verus has no specification for. Each item states
//! only what the called function's documentation or source shows.

use vstd::prelude::*;
use vstd::utf8::{decode_utf8, valid_utf8};
use base64::Engine;
use crate::query::QueryParams;

verus! {

/// `base64::DecodeError`, the error of a failed base64 decoding; opaque here.
#[verifier::external_type_specification]
#[verifier::external_body]
pub struct ExDecodeError(base64::DecodeError);

/// The text of the URL that `reqwest::Url::parse_with_params` makes of a base
/// URL and a sequence of query pairs, appended in order and
/// form-urlencoded; `None` where the base does not parse as a URL.
pub uninterp spec fn url_with_params(input: Seq<char>, params: Seq<(Seq<char>, Seq<char>)>) -> Option<Seq<char>>;

/// The bytes that the standard base64 alphabet without padding decodes a
/// text to; `None` where the text is not such base64.
pub uninterp spec fn base64_standard_no_pad(input: Seq<char>) -> Option<Seq<u8>>;

/// `String::push`: appends one character at the end of the string, as the
/// standard library documents.
#[verifier::external_body]
pub(crate) fn push_char(s: &mut String, c: char)
    ensures
        final(s)@ == old(s)@.push(c),
{
    s.push(c);
}

/// `String::from_utf8`: the string that the bytes encode when they are valid
/// UTF-8 (as `vstd::utf8` defines it), else nothing.
#[verifier::external_body]
pub(crate) fn string_from_utf8(bytes: Vec<u8>) -> (s: Option<String>)
    ensures
        s is Some <==> valid_utf8(bytes@),
        s matches Some(t) ==> t@ == decode_utf8(bytes@),
{
    String::from_utf8(bytes).ok()
}

/// `chrono::offset::Local::now()`, written as text by its `Display` impl. The
/// result depends on the clock and the machine's time zone, so only what
/// holds of every outcome is stated: `DateTime`'s `Display` writes the local
/// date and time, a space and the offset, and the time of day is written
/// with colons (`HH:MM:SS`).
#[verifier::external_body]
pub(crate) fn local_now_text() -> (now: String)
    ensures
        now@.contains(' '),
        now@.contains(':'),
{
    chrono::offset::Local::now().to_string()
}

/// `reqwest::Url::parse_with_params` (that is `url::Url::parse_with_params`)
/// on a base URL and the query parameters in their order, the resulting URL
/// turned into its text. The claim: the result is `url_with_params` of the
/// arguments, and there is one exactly when the base parses.
#[verifier::external_body]
pub(crate) fn parse_url_with_params(input: &str, params: &QueryParams) -> (url: Option<String>)
    ensures
        url is Some <==> url_with_params(input@, params@) is Some,
        url matches Some(u) ==> url_with_params(input@, params@) == Some(u@),
{
    reqwest::Url::parse_with_params(input, &params.pairs).ok().map(String::from)
}

/// `Engine::decode` of `base64::prelude::BASE64_STANDARD_NO_PAD` on the bytes
/// of a text. The claim: it succeeds exactly when `base64_standard_no_pad`
/// of the text is some bytes, and then gives those bytes.
#[verifier::external_body]
pub(crate) fn decode_base64_no_pad(input: &str) -> (r: Result<Vec<u8>, base64::DecodeError>)
    ensures
        r is Ok <==> base64_standard_no_pad(input@) is Some,
        r matches Ok(bytes) ==> base64_standard_no_pad(input@) == Some(bytes@),
{
    base64::prelude::BASE64_STANDARD_NO_PAD.decode(input)
}

} // verus!
