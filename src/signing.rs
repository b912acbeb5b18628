//! Request signing: HMAC-SHA256 of the query string under the API secret,
//! appended as a lowercase hex `signature` parameter.

use vstd::prelude::*;
use vstd::string::{StringExecFns, StringSliceAdditionalSpecFns};
use hmac::{Hmac, Mac};
use sha2::Sha256;

verus! {

/// The HMAC-SHA256 tag of `message` under `key`.
pub uninterp spec fn hmac_sha256_of(key: Seq<u8>, message: Seq<u8>) -> Seq<u8>;

/// Lowercase hex digit of a value below 16.
pub open spec fn hex_digit(d: int) -> char {
    if d < 10 {
        crate::text::digit_char(d)
    } else if d == 10 { 'a' }
    else if d == 11 { 'b' }
    else if d == 12 { 'c' }
    else if d == 13 { 'd' }
    else if d == 14 { 'e' }
    else { 'f' }
}

/// Lowercase hex of a byte sequence, two digits per byte, high nibble first.
pub open spec fn hex_of(bytes: Seq<u8>) -> Seq<char>
    decreases bytes.len(),
{
    if bytes.len() == 0 {
        seq![]
    } else {
        seq![hex_digit(bytes[0] as int / 16), hex_digit(bytes[0] as int % 16)] + hex_of(
            bytes.drop_first(),
        )
    }
}

/// The signed form of a query: the query followed by its `signature` parameter.
pub open spec fn signed_text(query: Seq<char>, tag: Seq<u8>) -> Seq<char> {
    query + "&signature="@ + hex_of(tag)
}

/// Relies on `hmac::Hmac<sha2::Sha256>`: `new_from_slice` accepts a key of any
/// length, and the finalized tag is the 32-byte HMAC-SHA256 of the message.
#[verifier::external_body]
fn hmac_sha256(key: &[u8], message: &[u8]) -> (r: Vec<u8>)
    ensures
        r@ == hmac_sha256_of(key@, message@),
        r@.len() == 32,
{
    let mut mac = <Hmac<Sha256> as Mac>::new_from_slice(key).expect("any key length");
    mac.update(message);
    mac.finalize().into_bytes().to_vec()
}

/// Relies on `hex::encode`: two lowercase hex digits per byte, high nibble first.
#[verifier::external_body]
fn hex_encode(bytes: &[u8]) -> (r: String)
    ensures
        r@ == hex_of(bytes@),
{
    hex::encode(bytes)
}

/// The HMAC-SHA256 tag of `query` under `secret`.
pub fn signature_tag(query: &str, secret: &str) -> (r: Vec<u8>)
    ensures
        r@ == hmac_sha256_of(secret.spec_bytes(), query.spec_bytes()),
        r@.len() == 32,
{
    hmac_sha256(secret.as_bytes(), query.as_bytes())
}

/// Appends `&signature=<hex of tag>` to `query`.
pub fn append_signature(query: &str, tag: &[u8]) -> (r: String)
    ensures
        r@ == signed_text(query@, tag@),
{
    let mut s = String::from_str(query);
    s.append("&signature=");
    let hex = hex_encode(tag);
    s.append(hex.as_str());
    s
}

/// Lowercase hex HMAC-SHA256 signature of `query` under `secret`.
pub fn generate_signature(query: &str, secret: &str) -> (r: String)
    ensures
        r@ == hex_of(hmac_sha256_of(secret.spec_bytes(), query.spec_bytes())),
{
    let tag = signature_tag(query, secret);
    hex_encode(tag.as_slice())
}

/// `query` with its signature under `secret` appended.
pub fn sign_query(query: &str, secret: &str) -> (r: String)
    ensures
        r@ == signed_text(query@, hmac_sha256_of(secret.spec_bytes(), query.spec_bytes())),
{
    let tag = signature_tag(query, secret);
    append_signature(query, tag.as_slice())
}

} // verus!
