//! SQL texts in the plain packed form: base64 of the text, without compression.

use vstd::prelude::*;
use vstd::utf8::{decode_utf8, encode_utf8, valid_utf8};
use crate::codec::{base64_bytes, base64_decode, base64_encode, base64_text, string_from_utf8};

verus! {

/// The plain packed form of an SQL text: the base64 text of its UTF-8 bytes.
pub open spec fn encoded_sql(sql: Seq<char>) -> Seq<char> {
    base64_text(encode_utf8(sql))
}

/// The SQL text that a plain packed form stands for; `None` where it is not base64, or
/// where the bytes are not UTF-8.
pub open spec fn decoded_sql(encoded: Seq<char>) -> Option<Seq<char>> {
    match base64_bytes(encoded) {
        Some(bytes) => if valid_utf8(bytes) {
            Some(decode_utf8(bytes))
        } else {
            None
        },
        None => None,
    }
}

/// Packs an SQL text plainly: base64, without compression.
pub fn encode_sql(sql: &str) -> (r: String)
    ensures
        r@ == encoded_sql(sql@),
{
    let bytes = sql.as_bytes_vec();
    base64_encode(&bytes)
}

/// Unpacks what [`encode_sql`] packed. `None` where `encoded` is not base64, or where
/// the bytes are not UTF-8; what was packed from a text unpacks to that text.
pub fn decode_sql(encoded: &str) -> (r: Option<String>)
    ensures
        r.deep_view() == decoded_sql(encoded@),
        forall|t: Seq<char>| encoded@ == #[trigger] encoded_sql(t) ==> r.deep_view() == Some(t),
{
    match base64_decode(encoded) {
        Some(bytes) => {
            assert forall|t: Seq<char>| encoded@ == #[trigger] encoded_sql(t) implies valid_utf8(
                bytes@,
            ) && decode_utf8(bytes@) == t by {
                vstd::utf8::encode_utf8_valid_utf8(t);
                vstd::utf8::encode_utf8_decode_utf8(t);
            }
            string_from_utf8(bytes)
        },
        None => {
            None
        },
    }
}

/// Whether the two SQL texts differ.
pub fn has_changes(old_sql: &str, new_sql: &str) -> (r: bool)
    ensures
        r == (old_sql@ != new_sql@),
{
    !old_sql.eq(new_sql)
}

} // verus!
