//! Base64 and UTF-8, by way of the `base64` crate and of std.

use base64::Engine;
use vstd::prelude::*;
use vstd::utf8::{decode_utf8, valid_utf8};

verus! {

/// The standard base64 text of `bytes`, with padding.
pub uninterp spec fn base64_text(bytes: Seq<u8>) -> Seq<char>;

/// The bytes that a standard base64 text stands for, `None` where it is not such a text.
pub uninterp spec fn base64_bytes(text: Seq<char>) -> Option<Seq<u8>>;

/// `Engine::encode` of `base64::engine::general_purpose::STANDARD`.
///
/// Trusted: the result is the standard base64 text of the bytes, with padding.
#[verifier::external_body]
pub(crate) fn base64_encode(bytes: &Vec<u8>) -> (r: String)
    ensures
        r@ == base64_text(bytes@),
{
    base64::engine::general_purpose::STANDARD.encode(bytes)
}

/// `Engine::decode` of `base64::engine::general_purpose::STANDARD`.
///
/// Trusted: the result is the bytes that the text stands for, and the text that
/// `encode` wrote for some bytes stands for those bytes.
#[verifier::external_body]
pub(crate) fn base64_decode(text: &str) -> (r: Option<Vec<u8>>)
    ensures
        r.is_some() == base64_bytes(text@).is_some(),
        r.is_some() ==> base64_bytes(text@) == Some(r.unwrap()@),
        forall|b: Seq<u8>| text@ == #[trigger] base64_text(b) ==> r.is_some() && r.unwrap()@ == b,
{
    match base64::engine::general_purpose::STANDARD.decode(text) {
        Ok(bytes) => Some(bytes),
        Err(_) => None,
    }
}

/// `String::from_utf8` of std.
///
/// Trusted: the result is the text that the bytes encode, and `None` exactly where the
/// bytes are not valid UTF-8.
#[verifier::external_body]
pub(crate) fn string_from_utf8(bytes: Vec<u8>) -> (r: Option<String>)
    ensures
        r.is_some() == valid_utf8(bytes@),
        r.is_some() ==> r.unwrap()@ == decode_utf8(bytes@),
{
    match String::from_utf8(bytes) {
        Ok(text) => Some(text),
        Err(_) => None,
    }
}

} // verus!
