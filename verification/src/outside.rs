//! What the node takes from other crates and from `std` without proof.
//!
//! Each wrapper makes one call and states what its documentation and source promise.
//! A result too long to state is named by a function of the arguments.
use base64::Engine;
use sha2::Digest;
use vstd::prelude::*;
use vstd::utf8::{decode_utf8, valid_utf8};

use crate::json::{read_as, Json, Tree};

verus! {

// ---------------------------------------------------------------- hashing

/// The SHA-256 digest of a message.
pub uninterp spec fn sha256_of(message: Seq<u8>) -> Seq<u8>;

/// `sha2::Sha256::digest`: the digest of `message`, which is thirty-two bytes long.
#[verifier::external_body]
pub(crate) fn sha256(message: &[u8]) -> (r: Vec<u8>)
    ensures
        r@ == sha256_of(message@),
        r@.len() == 32,
{
    sha2::Sha256::digest(message).to_vec()
}

// ---------------------------------------------------------------- hexadecimal

/// The lower-case hexadecimal digit of a value below sixteen.
pub open spec fn hex_digit(d: int) -> char {
    if d < 10 {
        (0x30 + d) as char
    } else {
        (0x57 + d) as char
    }
}

/// Two lower-case hexadecimal digits for each byte, the high half first.
pub open spec fn hex_of(bytes: Seq<u8>) -> Seq<char> {
    Seq::new(
        2 * bytes.len(),
        |i: int|
            if i % 2 == 0 {
                hex_digit((bytes[i / 2] / 16) as int)
            } else {
                hex_digit((bytes[i / 2] % 16) as int)
            },
    )
}

/// `hex::encode`: two lower-case digits for each byte of `bytes`.
#[verifier::external_body]
pub(crate) fn hex_encode(bytes: &[u8]) -> (r: String)
    requires
        bytes@.len() <= usize::MAX / 4,
    ensures
        r@ == hex_of(bytes@),
{
    hex::encode(bytes)
}

// ---------------------------------------------------------------- documents

/// A document as `serde_json` holds it.
#[verifier::external_type_specification]
#[verifier::external_body]
pub struct ExValue(serde_json::Value);

/// The bytes that a document is encoded to.
pub uninterp spec fn json_bytes(value: Tree) -> Seq<u8>;

/// The `serde_json::Value` of a document, variant for variant. A number that no `i64`
/// holds is read from its text by `serde_json::from_str`. Nothing is claimed of the value,
/// which is only handed on to be encoded.
#[verifier::external_body]
fn json_value(value: &Json) -> serde_json::Value {
    match value {
        Json::Null => serde_json::Value::Null,
        Json::Bool(b) => serde_json::Value::Bool(*b),
        Json::Whole(n) => serde_json::Value::from(*n),
        Json::Real { text, .. } => serde_json::from_str(text).unwrap_or_default(),
        Json::Text(text) => serde_json::Value::String(text.clone()),
        Json::Array(items) => serde_json::Value::Array(items.iter().map(json_value).collect()),
        Json::Object(fields) => serde_json::Value::Object(
            fields.iter().map(|row| (row.0.clone(), json_value(&row.1))).collect(),
        ),
    }
}

/// `serde_json::to_vec` on the `serde_json::Value` of a document: the named bytes. It fails
/// on no such value, whose keys are all texts; the bytes are a function of the document.
#[verifier::external_body]
pub(crate) fn json_encode(value: &Json) -> (r: Vec<u8>)
    ensures
        r@ == json_bytes(value@),
{
    serde_json::to_vec(&json_value(value)).unwrap_or_default()
}

/// The text that a document is written as.
pub uninterp spec fn json_text(value: Tree) -> Seq<char>;

/// `serde_json::Value`'s `Display` on the `serde_json::Value` of a document: the named text,
/// which is a function of the document.
#[verifier::external_body]
pub(crate) fn json_write(value: &Json) -> (r: String)
    ensures
        r@ == json_text(value@),
{
    json_value(value).to_string()
}

/// The document of a `serde_json::Value`, variant for variant. A number that no `i64` holds
/// keeps its text beside the integer that it truncates to. Nothing is claimed of the document by
/// itself: what a text is read as has a name.
#[verifier::external_body]
fn json_document(value: serde_json::Value) -> Json {
    match value {
        serde_json::Value::Null => Json::Null,
        serde_json::Value::Bool(b) => Json::Bool(b),
        serde_json::Value::Number(n) => match n.as_i64() {
            Some(whole) => Json::Whole(whole),
            None => Json::Real { near: n.as_f64().map_or(0, |f| f as i64), text: n.to_string() },
        },
        serde_json::Value::String(text) => Json::Text(text),
        serde_json::Value::Array(items) => {
            Json::Array(items.into_iter().map(json_document).collect())
        },
        serde_json::Value::Object(fields) => {
            Json::Object(fields.into_iter().map(|row| (row.0, json_document(row.1))).collect())
        },
    }
}

/// The document that a text is, or how the crate words the fault.
pub uninterp spec fn parsed_json(text: Seq<char>) -> Result<Tree, Seq<char>>;

/// `serde_json::from_str` into a `serde_json::Value`: the named document, or the text of the
/// error that it reports.
#[verifier::external_body]
pub(crate) fn json_read(text: &str) -> (r: Result<Json, String>)
    ensures
        read_as(r) == parsed_json(text@),
{
    match serde_json::from_str::<serde_json::Value>(text) {
        Ok(value) => Ok(json_document(value)),
        Err(fault) => Err(fault.to_string()),
    }
}

/// The document that bytes are, or how the crate words the fault.
pub uninterp spec fn parsed_json_bytes(bytes: Seq<u8>) -> Result<Tree, Seq<char>>;

/// `serde_json::from_slice` into a `serde_json::Value`: the named document, or the text of the
/// error that it reports.
#[verifier::external_body]
pub(crate) fn json_read_bytes(bytes: &[u8]) -> (r: Result<Json, String>)
    ensures
        read_as(r) == parsed_json_bytes(bytes@),
{
    match serde_json::from_slice::<serde_json::Value>(bytes) {
        Ok(value) => Ok(json_document(value)),
        Err(fault) => Err(fault.to_string()),
    }
}

// ---------------------------------------------------------------- base64

/// What the padded standard alphabet decodes a text to, or how the crate words the fault.
pub uninterp spec fn base64_bytes(text: Seq<char>) -> Result<Seq<u8>, Seq<char>>;

/// The text that the padded standard alphabet encodes bytes to.
pub uninterp spec fn base64_text(bytes: Seq<u8>) -> Seq<char>;

/// The text that the unpadded URL-safe alphabet encodes bytes to.
pub uninterp spec fn base64_url_text(bytes: Seq<u8>) -> Seq<char>;

/// What the unpadded URL-safe alphabet decodes a text to, where it does.
pub uninterp spec fn base64_url_bytes(text: Seq<char>) -> Option<Seq<u8>>;

/// `base64`'s `STANDARD.decode`: the named bytes, or the text of the error that it reports.
#[verifier::external_body]
pub(crate) fn base64_decode(text: &str) -> (r: Result<Vec<u8>, String>)
    ensures
        match r {
            Ok(bytes) => (base64_bytes(text@) matches Ok(named) && named == bytes@),
            Err(fault) => (base64_bytes(text@) matches Err(named) && named == fault@),
        },
{
    match base64::engine::general_purpose::STANDARD.decode(text) {
        Ok(bytes) => Ok(bytes),
        Err(fault) => Err(fault.to_string()),
    }
}

/// `base64`'s `STANDARD.encode`: the named text, which decodes to `bytes` again.
#[verifier::external_body]
pub(crate) fn base64_encode(bytes: &[u8]) -> (r: String)
    requires
        bytes@.len() <= usize::MAX / 4,
    ensures
        r@ == base64_text(bytes@),
        base64_bytes(r@) is Ok && base64_bytes(r@)->Ok_0 == bytes@,
{
    base64::engine::general_purpose::STANDARD.encode(bytes)
}

/// `base64`'s `URL_SAFE_NO_PAD.encode`: the named text, which decodes to `bytes` again.
#[verifier::external_body]
pub(crate) fn base64_url_encode(bytes: &[u8]) -> (r: String)
    requires
        bytes@.len() <= usize::MAX / 4,
    ensures
        r@ == base64_url_text(bytes@),
        base64_url_bytes(r@) == Some(bytes@),
{
    base64::engine::general_purpose::URL_SAFE_NO_PAD.encode(bytes)
}

/// `base64`'s `URL_SAFE_NO_PAD.decode`: the named bytes, or nothing where it reports an
/// error.
#[verifier::external_body]
pub(crate) fn base64_url_decode(text: &str) -> (r: Option<Vec<u8>>)
    ensures
        match r {
            Some(bytes) => base64_url_bytes(text@) == Some(bytes@),
            None => base64_url_bytes(text@) is None,
        },
{
    base64::engine::general_purpose::URL_SAFE_NO_PAD.decode(text).ok()
}

// ---------------------------------------------------------------- URLs

/// The parts of a parsed URL that the node looks at.
pub struct UrlParts {
    pub scheme: String,
    pub host: Option<String>,
    pub username: String,
    pub password: Option<String>,
    pub path: String,
    pub query: Option<String>,
    pub fragment: Option<String>,
}

/// The parts of a parsed URL, as texts.
pub struct UrlText {
    pub scheme: Seq<char>,
    pub host: Option<Seq<char>>,
    pub username: Seq<char>,
    pub password: Option<Seq<char>>,
    pub path: Seq<char>,
    pub query: Option<Seq<char>>,
    pub fragment: Option<Seq<char>>,
}

/// The text of an optional string.
pub open spec fn text_in(value: Option<String>) -> Option<Seq<char>> {
    match value {
        Some(s) => Some(s@),
        None => None,
    }
}

impl View for UrlParts {
    type V = UrlText;

    open spec fn view(&self) -> UrlText {
        UrlText {
            scheme: self.scheme@,
            host: text_in(self.host),
            username: self.username@,
            password: text_in(self.password),
            path: self.path@,
            query: text_in(self.query),
            fragment: text_in(self.fragment),
        }
    }
}

/// What `url` makes of a text: its parts, where it is an absolute URL.
pub uninterp spec fn parsed_url(text: Seq<char>) -> Option<UrlText>;

/// `url::Url::parse` and the accessors of its result: the named parts, or nothing where
/// the text does not parse.
#[verifier::external_body]
pub(crate) fn parse_url(text: &str) -> (r: Option<UrlParts>)
    ensures
        match r {
            Some(parts) => parsed_url(text@) == Some(parts@),
            None => parsed_url(text@) is None,
        },
{
    let url = url::Url::parse(text).ok()?;
    Some(UrlParts {
        scheme: url.scheme().to_owned(),
        host: url.host_str().map(str::to_owned),
        username: url.username().to_owned(),
        password: url.password().map(str::to_owned),
        path: url.path().to_owned(),
        query: url.query().map(str::to_owned),
        fragment: url.fragment().map(str::to_owned),
    })
}

// ---------------------------------------------------------------- keys and certificates

/// The private key of an RSA pair.
#[verifier::external_type_specification]
#[verifier::external_body]
pub struct ExRsaPrivateKey(rsa::RsaPrivateKey);

/// The RSA private key that a text holds in PKCS #8 and PEM, where it holds one.
pub uninterp spec fn private_key_of(pem: Seq<char>) -> Option<rsa::RsaPrivateKey>;

/// `rsa::RsaPrivateKey::from_pkcs8_pem`: the named key, and nothing where it reports an error.
#[verifier::external_body]
pub(crate) fn read_private_key(pem: &str) -> (r: Option<rsa::RsaPrivateKey>)
    ensures
        r == private_key_of(pem@),
{
    rsa::pkcs8::DecodePrivateKey::from_pkcs8_pem(pem).ok()
}

/// The certificates in PEM, in their order and in DER, or how the crate words the fault.
pub uninterp spec fn certificates_in(pem: Seq<u8>) -> Result<Seq<Seq<u8>>, Seq<char>>;

/// The first private key in PEM, in DER, or how the crate words the fault.
pub uninterp spec fn private_key_in(pem: Seq<u8>) -> Result<Option<Seq<u8>>, Seq<char>>;

/// The contents of byte vectors.
pub open spec fn byte_lists(list: Seq<Vec<u8>>) -> Seq<Seq<u8>> {
    list.map_values(|bytes: Vec<u8>| bytes@)
}

/// `rustls_pemfile::certs`, collected: the named certificates, or the text of the first
/// error that it reports.
#[verifier::external_body]
pub(crate) fn read_certificates(pem: &[u8]) -> (r: Result<Vec<Vec<u8>>, String>)
    ensures
        match r {
            Ok(list) => (certificates_in(pem@) matches Ok(named) && named == byte_lists(list@)),
            Err(fault) => (certificates_in(pem@) matches Err(named) && named == fault@),
        },
{
    let mut rest: &[u8] = pem;
    match rustls_pemfile::certs(&mut rest).collect::<Result<Vec<_>, _>>() {
        Ok(list) => Ok(list.iter().map(|certificate| certificate.to_vec()).collect()),
        Err(fault) => Err(fault.to_string()),
    }
}

/// `rustls_pemfile::private_key`: the named key, or the text of the error that it reports.
#[verifier::external_body]
pub(crate) fn read_first_key(pem: &[u8]) -> (r: Result<Option<Vec<u8>>, String>)
    ensures
        match r {
            Ok(Some(key)) => (private_key_in(pem@) matches Ok(Some(named)) && named == key@),
            Ok(None) => (private_key_in(pem@) matches Ok(None)),
            Err(fault) => (private_key_in(pem@) matches Err(named) && named == fault@),
        },
{
    let mut rest: &[u8] = pem;
    match rustls_pemfile::private_key(&mut rest) {
        Ok(key) => Ok(key.map(|key| key.secret_der().to_vec())),
        Err(fault) => Err(fault.to_string()),
    }
}

// ---------------------------------------------------------------- moments

/// The moment that a text gives in the form of RFC 3339, in milliseconds since the epoch, where
/// it gives one.
pub uninterp spec fn rfc3339_millis(text: Seq<char>) -> Option<i64>;

/// `chrono::DateTime::parse_from_rfc3339`, in milliseconds since the epoch: the named moment,
/// and nothing where it reports an error.
#[verifier::external_body]
pub(crate) fn read_rfc3339(text: &str) -> (r: Option<i64>)
    ensures
        r == rfc3339_millis(text@),
{
    chrono::DateTime::parse_from_rfc3339(text).ok().map(|moment| moment.timestamp_millis())
}

// ---------------------------------------------------------------- texts in bytes

/// The text that bytes are, with a sign in place of what is none.
pub uninterp spec fn lossy_text(bytes: Seq<u8>) -> Seq<char>;

/// `String::from_utf8_lossy`: the named text; bytes that encode a text give that text.
#[verifier::external_body]
pub(crate) fn read_lossy(bytes: &[u8]) -> (r: String)
    ensures
        r@ == lossy_text(bytes@),
        valid_utf8(bytes@) ==> r@ == decode_utf8(bytes@),
{
    String::from_utf8_lossy(bytes).into_owned()
}

/// `String::from_utf8`: the text that the bytes encode, and nothing where they encode none.
#[verifier::external_body]
pub(crate) fn read_utf8(bytes: Vec<u8>) -> (r: Option<String>)
    ensures
        match r {
            Some(text) => valid_utf8(bytes@) && text@ == decode_utf8(bytes@),
            None => !valid_utf8(bytes@),
        },
{
    String::from_utf8(bytes).ok()
}

// ---------------------------------------------------------------- letter case

/// The lower-case form of an ASCII letter; every other character as it is.
pub open spec fn ascii_lower(c: char) -> char {
    if 'A' <= c <= 'Z' {
        (c as u32 + 0x20) as char
    } else {
        c
    }
}

/// The upper-case form of an ASCII letter; every other character as it is.
pub open spec fn ascii_upper(c: char) -> char {
    if 'a' <= c <= 'z' {
        (c as u32 - 0x20) as char
    } else {
        c
    }
}

/// The Unicode lower-case form of a text.
pub uninterp spec fn lowercase_of(text: Seq<char>) -> Seq<char>;

/// The Unicode upper-case form of a text.
pub uninterp spec fn uppercase_of(text: Seq<char>) -> Seq<char>;

/// `str::to_lowercase`: the named text; an ASCII text changes letter by letter.
#[verifier::external_body]
pub(crate) fn to_lowercase(text: &str) -> (r: String)
    ensures
        r@ == lowercase_of(text@),
        vstd::utf8::is_ascii_chars(text@) ==> r@ == text@.map_values(|c: char| ascii_lower(c)),
{
    text.to_lowercase()
}

/// `str::to_uppercase`: the named text; an ASCII text changes letter by letter.
#[verifier::external_body]
pub(crate) fn to_uppercase(text: &str) -> (r: String)
    ensures
        r@ == uppercase_of(text@),
        vstd::utf8::is_ascii_chars(text@) ==> r@ == text@.map_values(|c: char| ascii_upper(c)),
{
    text.to_uppercase()
}

/// `str::to_ascii_lowercase`: ASCII letters in lower case, the rest as it is.
#[verifier::external_body]
pub(crate) fn to_ascii_lowercase(text: &str) -> (r: String)
    ensures
        r@ == text@.map_values(|c: char| ascii_lower(c)),
{
    text.to_ascii_lowercase()
}

} // verus!
