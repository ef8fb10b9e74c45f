//! What the library has from `url`, `base64` and `serde_json`, and the contracts that are taken
//! from them without proof.
//!
//! Where a result is a function of the arguments that would take pages to write down, it has a
//! name: a specification function without a body, to which the contract equates the result.
use crate::text;
use base64::engine::general_purpose::URL_SAFE_NO_PAD;
use base64::{DecodeError, Engine};
use serde_json::Value;
use url::{ParseError, Url};
use vstd::prelude::*;

verus! {

/// A parsed URL.
#[verifier::external_type_specification]
#[verifier::external_body]
pub struct ExUrl(Url);

/// The reason why a text is not a URL.
#[verifier::external_type_specification]
#[verifier::external_body]
pub struct ExParseError(ParseError);

/// The reason why a text is not base64.
#[verifier::external_type_specification]
#[verifier::external_body]
pub struct ExDecodeError(DecodeError);

/// A JSON value.
#[verifier::external_type_specification]
#[verifier::external_body]
pub struct ExValue(Value);

/// The reason why a value could not be written as JSON.
#[verifier::external_type_specification]
#[verifier::external_body]
pub struct ExJsonError(serde_json::Error);

/// The text of a parsed URL.
pub uninterp spec fn url_text(url: Url) -> Seq<char>;

/// The message of a URL parse error.
pub uninterp spec fn url_error_text(error: ParseError) -> Seq<char>;

/// What `Url::parse` makes of a text: the text of the parsed URL, or the message of the error.
pub uninterp spec fn url_parsed(text: Seq<char>) -> Result<Seq<char>, Seq<char>>;

/// The scheme of a parsed URL.
pub uninterp spec fn url_scheme(url: Url) -> Seq<char>;

/// The host of a parsed URL, where it has one.
pub uninterp spec fn url_host(url: Url) -> Option<Seq<char>>;

/// The names and values in the query of a parsed URL, in order.
pub uninterp spec fn url_query(url: Url) -> Seq<(Seq<char>, Seq<char>)>;

/// The message of a base64 error.
pub uninterp spec fn decode_error_text(error: DecodeError) -> Seq<char>;

/// What the URL-safe base64 decoder without padding makes of a text: the bytes, or the message of
/// the error.
pub uninterp spec fn base64url_decoded(text: Seq<char>) -> Result<Seq<u8>, Seq<char>>;

/// A JSON value in compact notation.
pub uninterp spec fn json_text(value: Value) -> Seq<char>;

/// Whether a text starts like a URL of the web.
pub open spec fn is_web_text(text: Seq<char>) -> bool {
    "http://"@.is_prefix_of(text) || "https://"@.is_prefix_of(text)
}

/// How a character stands in a JSON string.
pub open spec fn json_escape(c: char) -> Seq<char> {
    if c == '"' || c == '\\' {
        seq!['\\', c]
    } else if c == '\u{8}' {
        seq!['\\', 'b']
    } else if c == '\t' {
        seq!['\\', 't']
    } else if c == '\n' {
        seq!['\\', 'n']
    } else if c == '\u{c}' {
        seq!['\\', 'f']
    } else if c == '\r' {
        seq!['\\', 'r']
    } else if c <= '\u{1f}' {
        seq!['\\', 'u', '0', '0', hex_digit(c as int / 16), hex_digit(c as int % 16)]
    } else {
        seq![c]
    }
}

/// The hexadecimal digit of a number below 16.
pub open spec fn hex_digit(n: int) -> char {
    if n < 10 {
        ('0' as int + n) as char
    } else {
        ('a' as int + n - 10) as char
    }
}

/// A text written as a JSON string.
pub open spec fn json_string(text: Seq<char>) -> Seq<char> {
    seq!['"'] + text.map_values(|c: char| json_escape(c)).flatten() + seq!['"']
}

/// `Url::parse` reads an absolute URL; the outcome depends on the text alone. The scheme at the
/// front of a text of the web is kept, with the two slashes behind it, and white space is escaped
/// in the text of the URL, so that none stands at its ends. It is not claimed that the text of the
/// URL can be read again: it cannot where a part of the host is too long in ASCII.
pub assume_specification[ Url::parse ](input: &str) -> (r: Result<Url, ParseError>)
    ensures
        match r {
            Ok(url) => {
                &&& url_parsed(input@) == Ok::<Seq<char>, Seq<char>>(url_text(url))
                &&& "http://"@.is_prefix_of(input@) ==> "http://"@.is_prefix_of(url_text(url))
                &&& "https://"@.is_prefix_of(input@) ==> "https://"@.is_prefix_of(url_text(url))
                &&& is_web_text(input@) ==> text::trim(url_text(url)) == url_text(url)
            },
            Err(error) => url_parsed(input@) == Err::<Seq<char>, Seq<char>>(url_error_text(error)),
        },
;

/// `Url::scheme` gives the scheme of the URL.
pub assume_specification[ Url::scheme ](url: &Url) -> (scheme: &str)
    ensures
        scheme@ == url_scheme(*url),
;

/// `Url::host_str` gives the host of the URL, where it has one.
pub assume_specification[ Url::host_str ](url: &Url) -> (host: Option<&str>)
    ensures
        match host {
            Some(h) => url_host(*url) == Some(h@),
            None => url_host(*url) is None,
        },
;

/// `to_string` of a `Url`, which displays as its text.
#[verifier::external_body]
pub(crate) fn url_to_string(url: &Url) -> (text: String)
    ensures
        text@ == url_text(*url),
{
    url.to_string()
}

/// `to_string` of a URL parse error, its message.
#[verifier::external_body]
pub(crate) fn url_error_to_string(error: &ParseError) -> (text: String)
    ensures
        text@ == url_error_text(*error),
{
    error.to_string()
}

/// Names and values as sequences of characters.
pub open spec fn pairs_of(pairs: Seq<(String, String)>) -> Seq<(Seq<char>, Seq<char>)> {
    pairs.map_values(|pair: (String, String)| (pair.0@, pair.1@))
}

/// `Url::query_pairs` gives the names and values in the query of the URL, decoded and in order.
#[verifier::external_body]
pub(crate) fn url_query_pairs(url: &Url) -> (pairs: Vec<(String, String)>)
    ensures
        pairs_of(pairs@) == url_query(*url),
{
    url.query_pairs().into_owned().collect()
}

/// `Engine::decode` of the engine `URL_SAFE_NO_PAD`; the outcome depends on the text alone.
#[verifier::external_body]
pub(crate) fn decode_base64url(text: &str) -> (r: Result<Vec<u8>, DecodeError>)
    ensures
        match r {
            Ok(bytes) => base64url_decoded(text@) == Ok::<Seq<u8>, Seq<char>>(bytes@),
            Err(error) => base64url_decoded(text@) == Err::<Seq<u8>, Seq<char>>(
                decode_error_text(error),
            ),
        },
{
    URL_SAFE_NO_PAD.decode(text.as_bytes())
}

/// `to_string` of a base64 error, its message.
#[verifier::external_body]
pub(crate) fn decode_error_to_string(error: &DecodeError) -> (text: String)
    ensures
        text@ == decode_error_text(*error),
{
    error.to_string()
}

/// `serde_json::to_string` of a text: the text in quotes, with quotes, backslashes and control
/// characters escaped. It fails only where serializing the value fails or a map has keys other than
/// strings, so it does not fail here.
#[verifier::external_body]
pub(crate) fn json_quote(text: &str) -> (r: Result<String, serde_json::Error>)
    ensures
        r is Ok,
        r->Ok_0@ == json_string(text@),
{
    serde_json::to_string(text)
}

/// `serde_json::to_string` of a JSON value. It fails only where serializing the value fails or a
/// map has keys other than strings, so it does not fail here; the outcome depends on the value
/// alone.
#[verifier::external_body]
pub(crate) fn json_print(value: &Value) -> (r: Result<String, serde_json::Error>)
    ensures
        r is Ok,
        r->Ok_0@ == json_text(*value),
{
    serde_json::to_string(value)
}

/// A text without quotes, backslashes and control characters is put between quotes as it is.
pub proof fn law_json_string_quotes_its_text(text: Seq<char>)
    requires
        forall|i: int|
            0 <= i < text.len() ==> #[trigger] text[i] > '\u{1f}' && text[i] != '"' && text[i]
                != '\\',
    ensures
        json_string(text) == seq!['"'] + text + seq!['"'],
{
    lemma_plain_text_stays(text);
}

proof fn lemma_plain_text_stays(text: Seq<char>)
    requires
        forall|i: int|
            0 <= i < text.len() ==> #[trigger] text[i] > '\u{1f}' && text[i] != '"' && text[i]
                != '\\',
    ensures
        text.map_values(|c: char| json_escape(c)).flatten() == text,
    decreases text.len(),
{
    let escaped = text.map_values(|c: char| json_escape(c));
    if text.len() == 0 {
        assert(escaped.flatten() =~= text);
    } else {
        let rest = text.drop_first();
        assert forall|i: int| 0 <= i < rest.len() implies #[trigger] rest[i] > '\u{1f}' && rest[i]
            != '"' && rest[i] != '\\' by {
            assert(rest[i] == text[i + 1]);
        }
        lemma_plain_text_stays(rest);
        assert(escaped.drop_first() =~= rest.map_values(|c: char| json_escape(c)));
        assert(text[0] > '\u{1f}');
        assert(escaped.first() == seq![text[0]]);
        assert(seq![text[0]] + rest =~= text);
    }
}

/// What is escaped in a JSON string begins with a backslash, any other character stands for itself,
/// and no two characters are written the same.
pub proof fn law_json_escapes_differ(c: char, d: char)
    ensures
        c == '"' || c == '\\' || c <= '\u{1f}' <==> json_escape(c).len() > 1,
        json_escape(c).len() > 1 ==> json_escape(c)[0] == '\\',
        json_escape(c).len() == 1 ==> json_escape(c)[0] == c,
        json_escape(c) == json_escape(d) ==> c == d,
{
    if json_escape(c) == json_escape(d) {
        assert(json_escape(c).len() == json_escape(d).len());
        assert(json_escape(c)[0] == json_escape(d)[0]);
        if json_escape(c).len() > 1 {
            assert(json_escape(c)[1] == json_escape(d)[1]);
        }
        if json_escape(c).len() > 2 {
            assert(json_escape(c)[4] == json_escape(d)[4]);
            assert(json_escape(c)[5] == json_escape(d)[5]);
        }
    }
}

} // verus!
