//! The cookie-decoding route: strip a six-byte prefix from the `Cookie`
//! header, base64-decode the remainder, and return the decoded UTF-8 text.
//! Every malformed input is reported as a typed error rather than a crash.

use base64::Engine;
use vstd::prelude::*;

verus! {

/// What the standard-alphabet base64 decoder returns for a byte string: the
/// decoded bytes, or nothing when the input is not valid base64.
pub uninterp spec fn base64_decoded(s: Seq<u8>) -> Option<Seq<u8>>;

/// What UTF-8 decoding returns for a byte string: the decoded characters, or
/// nothing when the bytes are not valid UTF-8.
pub uninterp spec fn utf8_decoded(bytes: Seq<u8>) -> Option<Seq<char>>;

/// Relies on base64's `Engine::decode` on the standard-alphabet engine with
/// padding: the result is a pure function of the input bytes, `Ok` exactly on
/// valid base64, and the error detail is dropped here.
#[verifier::external_body]
fn b64_decode(s: &[u8]) -> (r: Option<Vec<u8>>)
    ensures
        r is Some <==> base64_decoded(s@) is Some,
        r is Some ==> r->0@ == base64_decoded(s@)->0,
{
    match base64::engine::general_purpose::STANDARD.decode(s) {
        Ok(v) => Some(v),
        Err(_) => None,
    }
}

/// Relies on `String::from_utf8`: `Ok` exactly when the bytes are valid
/// UTF-8, and then the string holds the decoded characters.
#[verifier::external_body]
fn utf8_to_string(bytes: Vec<u8>) -> (r: Option<String>)
    ensures
        r is Some <==> utf8_decoded(bytes@) is Some,
        r is Some ==> r->0@ == utf8_decoded(bytes@)->0,
{
    String::from_utf8(bytes).ok()
}

/// Why a present `Cookie` header could not be decoded.
#[derive(PartialEq, Eq, Structural, Clone, Copy, Debug)]
pub enum CookieError {
    /// The header is shorter than the six-byte prefix to strip.
    TooShort,
    /// The remainder after the prefix is not valid base64.
    BadBase64,
    /// The base64-decoded bytes are not valid UTF-8.
    BadUtf8,
}

/// What decoding a present `Cookie` header yields: the text its base64
/// payload encodes, or the first error the steps hit.
pub open spec fn decode_cookie_spec(h: Seq<u8>) -> Result<Seq<char>, CookieError> {
    if h.len() < 6 {
        Result::Err(CookieError::TooShort)
    } else {
        match base64_decoded(h.subrange(6, h.len() as int)) {
            Option::None => Result::Err(CookieError::BadBase64),
            Option::Some(bytes) => match utf8_decoded(bytes) {
                Option::None => Result::Err(CookieError::BadUtf8),
                Option::Some(text) => Result::Ok(text),
            },
        }
    }
}

/// Decode a present `Cookie` header: drop the first six bytes (the
/// `recipe=`-style prefix), base64-decode the rest, and require the result to
/// be UTF-8.
pub fn decode_cookie(header: &[u8]) -> (r: Result<String, CookieError>)
    ensures
        r is Ok <==> decode_cookie_spec(header@) is Ok,
        r is Ok ==> r->Ok_0@ == decode_cookie_spec(header@)->Ok_0,
        r is Err ==> r->Err_0 == decode_cookie_spec(header@)->Err_0,
{
    if header.len() < 6 {
        return Result::Err(CookieError::TooShort);
    }
    let payload: &[u8] = &header[6..header.len()];
    proof {
        assert(payload@ =~= header@.subrange(6, header@.len() as int));
    }
    match b64_decode(payload) {
        Option::None => Result::Err(CookieError::BadBase64),
        Option::Some(bytes) => match utf8_to_string(bytes) {
            Option::None => Result::Err(CookieError::BadUtf8),
            Option::Some(text) => Result::Ok(text),
        },
    }
}

/// The cookie route: an absent header answers with the literal text `error`;
/// a present one is decoded, and a decoding failure is reported as the error
/// it hit.
pub fn get_cookie_recipie(header: Option<&Vec<u8>>) -> (r: Result<String, CookieError>)
    ensures
        (match header {
            Option::None => r is Ok && r->Ok_0@ == "error"@,
            Option::Some(h) => {
                &&& r is Ok <==> decode_cookie_spec(h@) is Ok
                &&& r is Ok ==> r->Ok_0@ == decode_cookie_spec(h@)->Ok_0
                &&& r is Err ==> r->Err_0 == decode_cookie_spec(h@)->Err_0
            },
        }),
{
    match header {
        Option::None => Result::Ok(String::from_str("error")),
        Option::Some(h) => decode_cookie(h.as_slice()),
    }
}

} // verus!
