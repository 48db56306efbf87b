//! Turning the bytes of a response body into text, by the character set that
//! the content type names.
use vstd::prelude::*;

verus! {

/// The parameter `charset` of the content type, as the crate `mime` reads it;
/// `None` where the content type does not parse or has no such parameter.
pub uninterp spec fn charset_of(content_type: Seq<char>) -> Option<Seq<char>>;

/// Whether the crate `charset` knows a character set by the label `label`.
pub uninterp spec fn charset_known(label: Seq<char>) -> bool;

/// The text that the crate `charset` decodes `body` to by the character set
/// of the label `label`.
pub uninterp spec fn charset_decoded(label: Seq<char>, body: Seq<u8>) -> Seq<char>;

/// The text that `String::from_utf8_lossy` makes of `body`.
pub uninterp spec fn utf8_lossy(body: Seq<u8>) -> Seq<char>;

/// Parses the content type as a `Mime` and returns its parameter `charset`.
#[verifier::external_body]
fn parse_charset(content_type: &str) -> (charset: Option<String>)
    ensures
        match charset {
            Some(label) => charset_of(content_type@) == Some(label@),
            None => charset_of(content_type@) is None,
        },
{
    match content_type.parse::<mime_guess::Mime>() {
        Ok(mime) => match mime.get_param(mime_guess::mime::CHARSET) {
            Some(label) => Some(label.to_string()),
            None => None,
        },
        Err(_) => None,
    }
}

/// Looks the label up with `Charset::for_label` and decodes the body with
/// `Charset::decode`, which panics where the size of its buffer does not fit
/// in `usize`: it is at most a small multiple of the length of the body.
#[verifier::external_body]
fn decode_by_label(label: &str, body: &Vec<u8>) -> (text: Option<String>)
    requires
        body.len() <= usize::MAX / 4,
    ensures
        match text {
            Some(text) => charset_known(label@) && text@ == charset_decoded(label@, body@),
            None => !charset_known(label@),
        },
{
    match charset::Charset::for_label(label.as_bytes()) {
        Some(decoder) => Some(decoder.decode(body).0.into_owned()),
        None => None,
    }
}

/// Calls `String::from_utf8_lossy`.
#[verifier::external_body]
fn decode_lossy(body: &Vec<u8>) -> (text: String)
    ensures
        text@ == utf8_lossy(body@),
{
    String::from_utf8_lossy(body).to_string()
}

/// The label of the character set of a body: the parameter `charset` of the
/// content type, and `utf-8` without one.
pub open spec fn body_charset(content_type: Seq<char>) -> Seq<char> {
    match charset_of(content_type) {
        Some(label) => label,
        None => "utf-8"@,
    }
}

/// The text of a body: decoded by the character set of its label if that is
/// known, and else read as UTF-8, with what is malformed replaced.
pub open spec fn body_text(body: Seq<u8>, content_type: Seq<char>) -> Seq<char> {
    if charset_known(body_charset(content_type)) {
        charset_decoded(body_charset(content_type), body)
    } else {
        utf8_lossy(body)
    }
}

/// Turns the body of a response into text. The character set is the one that
/// the content type names, and UTF-8 if it names none. A character set that is
/// not known is passed over, and the body read as UTF-8.
pub fn decode_response_body(body: &Vec<u8>, content_type: &str) -> (text: String)
    requires
        body.len() <= usize::MAX / 4,
    ensures
        text@ == body_text(body@, content_type@),
{
    let body_charset = match parse_charset(content_type) {
        Some(label) => label,
        None => String::from_str("utf-8"),
    };
    match decode_by_label(body_charset.as_str(), body) {
        Some(text) => text,
        None => decode_lossy(body),
    }
}

} // verus!
