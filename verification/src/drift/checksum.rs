//! Fingerprints of what a partition was built from, and the packed form of executed SQL.

use vstd::prelude::*;
use sha2::Digest;
use std::io::Read;
use std::io::Write;
use crate::calendar::Date;
use crate::codec::{base64_bytes, base64_decode, base64_encode, base64_text};
use crate::dsl::{VersionDef, VersionDefModel};
use crate::schema::{canonical_text, FieldModel, Schema};
use crate::text::{hex, hex_prefix, lemma_hex_len};

verus! {

/// How many bytes of a digest make a fingerprint.
pub const FINGERPRINT_BYTES: usize = 8;

/// The SHA-256 digest of the UTF-8 bytes of `text`.
pub uninterp spec fn sha256(text: Seq<char>) -> Seq<u8>;

/// The gzip stream that `flate2` writes for the UTF-8 bytes of `text` at its default level.
pub uninterp spec fn gzip_bytes(text: Seq<char>) -> Seq<u8>;

/// The text that a gzip stream unpacks to, `None` where the bytes are no gzip stream or
/// what they unpack to is not UTF-8.
pub uninterp spec fn gunzip_text(bytes: Seq<u8>) -> Option<Seq<char>>;

/// `sha2::Sha256::digest` on the bytes of `text`.
///
/// Trusted: the result is the SHA-256 digest of those bytes, and it has 32 bytes.
#[verifier::external_body]
fn sha256_digest(text: &str) -> (r: Vec<u8>)
    ensures
        r@ == sha256(text@),
        r@.len() == 32,
{
    sha2::Sha256::digest(text.as_bytes()).to_vec()
}

/// `flate2::write::GzEncoder` at `Compression::default()`: `write_all`, then `finish`.
///
/// Trusted: the result is the gzip stream of the bytes of `text`, and there is one:
/// the encoder writes into memory, where no write fails.
#[verifier::external_body]
fn gzip(text: &str) -> (r: Option<Vec<u8>>)
    ensures
        r.is_some(),
        r.is_some() ==> r.unwrap()@ == gzip_bytes(text@),
{
    let mut encoder = flate2::write::GzEncoder::new(Vec::new(), flate2::Compression::default());
    match encoder.write_all(text.as_bytes()) {
        Ok(_) => (),
        Err(_) => return None,
    }
    match encoder.finish() {
        Ok(bytes) => Some(bytes),
        Err(_) => None,
    }
}

/// `flate2::read::GzDecoder`, read to its end as a string.
///
/// Trusted: the result is the text that the stream unpacks to, and a stream that
/// `GzEncoder` wrote for a text unpacks to that text.
#[verifier::external_body]
fn gunzip(bytes: &Vec<u8>) -> (r: Option<String>)
    ensures
        r.deep_view() == gunzip_text(bytes@),
        forall|t: Seq<char>| bytes@ == #[trigger] gzip_bytes(t) ==> r.deep_view() == Some(t),
{
    let mut out = String::new();
    match flate2::read::GzDecoder::new(bytes.as_slice()).read_to_string(&mut out) {
        Ok(_) => Some(out),
        Err(_) => None,
    }
}

/// The fingerprint of a text: the first eight bytes of its SHA-256 digest, as sixteen
/// lower-case hexadecimal digits.
pub open spec fn fingerprint(text: Seq<char>) -> Seq<char> {
    hex(sha256(text).take(FINGERPRINT_BYTES as int))
}

/// The packed form of a text: gzip, then standard base64.
pub open spec fn compressed(text: Seq<char>) -> Seq<char> {
    base64_text(gzip_bytes(text))
}

/// The text that a packed form unpacks to: base64 decoded, then gunzipped.
/// `None` where either step fails.
pub open spec fn decompressed(packed: Seq<char>) -> Option<Seq<char>> {
    match base64_bytes(packed) {
        Some(bytes) => gunzip_text(bytes),
        None => None,
    }
}

/// The fingerprint of `text`: sixteen hexadecimal digits.
pub fn fingerprint_of(text: &str) -> (r: String)
    ensures
        r@ == fingerprint(text@),
        r@.len() == 16,
{
    let digest = sha256_digest(text);
    proof {
        lemma_hex_len(digest@.take(FINGERPRINT_BYTES as int));
    }
    hex_prefix(&digest, FINGERPRINT_BYTES)
}

/// Packs a text for storage: gzip, then standard base64.
pub fn compress_to_base64(s: &str) -> (r: String)
    ensures
        r@ == compressed(s@),
{
    match gzip(s) {
        Some(packed) => base64_encode(&packed),
        None => unreached(),
    }
}

/// Unpacks what [`compress_to_base64`] packed. `None` where `s` is not base64, where the
/// bytes are no gzip stream, or where the text is not UTF-8. What was packed from a
/// text unpacks to that text.
pub fn decompress_from_base64(s: &str) -> (r: Option<String>)
    ensures
        r.deep_view() == decompressed(s@),
        forall|t: Seq<char>| s@ == #[trigger] compressed(t) ==> r.deep_view() == Some(t),
{
    match base64_decode(s) {
        Some(bytes) => {
            let unpacked = gunzip(&bytes);
            unpacked
        },
        None => {
            None
        },
    }
}

/// The three fingerprints by which drift is told: of the SQL in effect, of the
/// schema's canonical text, and of the declaration's text.
#[derive(Debug, PartialEq, Eq)]
pub struct Checksums {
    pub sql: String,
    pub schema: String,
    pub yaml: String,
}

/// What a [`Checksums`] holds.
pub struct ChecksumsModel {
    pub sql: Seq<char>,
    pub schema: Seq<char>,
    pub yaml: Seq<char>,
}

impl DeepView for Checksums {
    type V = ChecksumsModel;

    open spec fn deep_view(&self) -> ChecksumsModel {
        ChecksumsModel { sql: self.sql@, schema: self.schema@, yaml: self.yaml@ }
    }
}

impl Clone for Checksums {
    fn clone(&self) -> (r: Self)
        ensures
            r.deep_view() == self.deep_view(),
    {
        Checksums { sql: self.sql.clone(), schema: self.schema.clone(), yaml: self.yaml.clone() }
    }
}

impl ChecksumsModel {
    /// The fingerprints of an SQL text, a schema and a declaration text, each taken alone.
    pub open spec fn of(sql: Seq<char>, schema: Seq<FieldModel>, yaml: Seq<char>) -> Self {
        ChecksumsModel {
            sql: fingerprint(sql),
            schema: fingerprint(canonical_text(schema)),
            yaml: fingerprint(yaml),
        }
    }

    /// The fingerprints of a version as it is in effect on `day`.
    pub open spec fn of_version(version: VersionDefModel, yaml: Seq<char>, day: int) -> Self {
        Self::of(version.sql_for(day), version.schema, yaml)
    }
}

impl Checksums {
    /// The fingerprints of an SQL text, a schema and a declaration text. Each is hashed
    /// alone, so that a change of one leaves the other two fingerprints as they are.
    pub fn compute(sql: &str, schema: &Schema, yaml: &str) -> (r: Checksums)
        ensures
            r.deep_view() == ChecksumsModel::of(sql@, schema.deep_view(), yaml@),
            r.sql@.len() == 16 && r.schema@.len() == 16 && r.yaml@.len() == 16,
    {
        let canonical = schema.canonical();
        Checksums {
            sql: fingerprint_of(sql),
            schema: fingerprint_of(canonical.as_str()),
            yaml: fingerprint_of(yaml),
        }
    }

    /// The fingerprints of a version, with the SQL that is in effect on `ref_date`.
    pub fn from_version(version: &VersionDef, yaml_text: &str, ref_date: Date) -> (r: Checksums)
        ensures
            r.deep_view() == ChecksumsModel::of_version(version.deep_view(), yaml_text@, ref_date@),
    {
        let sql = version.get_sql_for_date(ref_date);
        Checksums::compute(sql, &version.schema, yaml_text)
    }
}

/// Equal inputs have equal fingerprints, whenever and wherever they are computed.
pub proof fn lemma_checksums_deterministic(
    sql_a: Seq<char>,
    schema_a: Seq<FieldModel>,
    yaml_a: Seq<char>,
    sql_b: Seq<char>,
    schema_b: Seq<FieldModel>,
    yaml_b: Seq<char>,
)
    requires
        sql_a == sql_b,
        schema_a == schema_b,
        yaml_a == yaml_b,
    ensures
        ChecksumsModel::of(sql_a, schema_a, yaml_a) == ChecksumsModel::of(sql_b, schema_b, yaml_b),
{
}

/// Each fingerprint depends on its own input alone.
pub proof fn lemma_checksums_independent(
    sql_a: Seq<char>,
    schema_a: Seq<FieldModel>,
    yaml_a: Seq<char>,
    sql_b: Seq<char>,
    schema_b: Seq<FieldModel>,
    yaml_b: Seq<char>,
)
    ensures
        sql_a == sql_b ==> ChecksumsModel::of(sql_a, schema_a, yaml_a).sql == ChecksumsModel::of(
            sql_b,
            schema_b,
            yaml_b,
        ).sql,
        schema_a == schema_b ==> ChecksumsModel::of(sql_a, schema_a, yaml_a).schema
            == ChecksumsModel::of(sql_b, schema_b, yaml_b).schema,
        yaml_a == yaml_b ==> ChecksumsModel::of(sql_a, schema_a, yaml_a).yaml == ChecksumsModel::of(
            sql_b,
            schema_b,
            yaml_b,
        ).yaml,
{
}

} // verus!
