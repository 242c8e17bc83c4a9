//! Bytes as Base64 text in the URL-safe alphabet without padding, and back.

use vstd::prelude::*;

verus! {

/// The Base64 text of the bytes `b`, in the URL-safe alphabet and without
/// padding.
pub uninterp spec fn encoded(b: Seq<u8>) -> Seq<char>;

/// The bytes that the Base64 text `s` stands for, in the URL-safe alphabet
/// and without padding; nothing where `s` is no such text.
pub uninterp spec fn decoded(s: Seq<u8>) -> Option<Seq<u8>>;

/// Trusted: this is `Engine::encode` of the `base64` crate, on its engine
/// `URL_SAFE_NO_PAD`. The text it returns depends on the bytes alone, and
/// [`encoded`] is the name of that text.
#[verifier::external_body]
fn encode_url_safe_no_pad(b: &[u8]) -> (r: String)
    ensures
        r@ == encoded(b@),
{
    ::base64::Engine::encode(&::base64::engine::general_purpose::URL_SAFE_NO_PAD, b)
}

/// Trusted: this is `Engine::decode` of the `base64` crate, on its engine
/// `URL_SAFE_NO_PAD`. Whether it accepts the text, and the bytes it returns
/// if it does, depend on the text alone, and [`decoded`] is the name of that
/// outcome. The error of text that is refused is dropped.
#[verifier::external_body]
fn decode_url_safe_no_pad(s: &[u8]) -> (r: Option<Vec<u8>>)
    ensures
        match r {
            Some(v) => decoded(s@) == Some(v@),
            None => decoded(s@) is None,
        },
{
    match ::base64::Engine::decode(&::base64::engine::general_purpose::URL_SAFE_NO_PAD, s) {
        Ok(v) => Some(v),
        Err(_) => None,
    }
}

/// Encodes a byte slice as Base64, in the URL-safe alphabet without padding.
pub fn to_string(b: &[u8]) -> (r: String)
    ensures
        r@ == encoded(b@),
{
    encode_url_safe_no_pad(b)
}

/// Decodes Base64 text in the URL-safe alphabet without padding, if that is
/// what the bytes of `s` are.
pub fn from_string(s: &[u8]) -> (r: Option<Vec<u8>>)
    ensures
        match r {
            Some(v) => decoded(s@) == Some(v@),
            None => decoded(s@) is None,
        },
{
    decode_url_safe_no_pad(s)
}

} // verus!
