//! Credentials and request signing.
//!
//! An `AuthContext` owns the private signing key and produces hex-encoded
//! HMAC-SHA-384 signatures; `build_signed_request` assembles the
//! authentication headers of one request from a path, a nonce and an
//! optional body. Signing is deterministic: given the nonce, the same
//! inputs always produce the same headers, and no network is touched here.

use hmac::Mac;
use vstd::prelude::*;
use vstd::string::StringExecFns;
use vstd::utf8::encode_utf8;

use crate::text::{spec_digits_of, spec_hex_char, u64_to_string};

verus! {

/// The lowercase hex encoding of a byte string: two digits per byte, high
/// nibble first, in byte order.
pub open spec fn spec_hex_of(bytes: Seq<u8>) -> Seq<char>
    decreases bytes.len(),
{
    if bytes.len() == 0 {
        Seq::<char>::empty()
    } else {
        seq![
            spec_hex_char((bytes[0] >> 4) as nat),
            spec_hex_char((bytes[0] & 0x0f) as nat),
        ] + spec_hex_of(bytes.drop_first())
    }
}

/// The HMAC-SHA-384 tag of a message under a key. The tag is a fixed
/// function of the two byte strings alone.
pub uninterp spec fn hmac_sha384_of(key: Seq<u8>, message: Seq<u8>) -> Seq<u8>;

/// Relies on hmac::Hmac over sha2::Sha384: the tag is computed from key and
/// message alone, is 48 bytes long, and a key of any length is accepted
/// (`new_from_slice` never fails for an HMAC).
#[verifier::external_body]
fn hmac_sha384(key: &[u8], message: &[u8]) -> (r: Vec<u8>)
    ensures
        r@ == hmac_sha384_of(key@, message@),
        r@.len() == 48,
{
    let mut mac = hmac::Hmac::<sha2::Sha384>::new_from_slice(key)
        .expect("HMAC accepts a key of any length");
    mac.update(message);
    mac.finalize().into_bytes().to_vec()
}

/// Relies on hex::encode: two lowercase hex digits per byte, in byte order.
#[verifier::external_body]
fn hex_encode(bytes: &[u8]) -> (r: String)
    ensures
        r@ == spec_hex_of(bytes@),
{
    hex::encode(bytes)
}

/// Long-lived credentials: the private signing key, the public key
/// identifier sent with each request, and the base service address. The
/// private key never leaves the signing operation.
pub struct AuthContext {
    private_key: String,
    pub public_key: String,
    pub base_url: String,
}

impl AuthContext {
    /// The signing key, visible to specifications only as an abstract
    /// character sequence.
    pub closed spec fn spec_private_key(self) -> Seq<char> {
        self.private_key@
    }

    /// The public key identifier, as specifications see it.
    pub closed spec fn spec_public_key(self) -> Seq<char> {
        self.public_key@
    }

    /// The base service address, as specifications see it.
    pub closed spec fn spec_base_url(self) -> Seq<char> {
        self.base_url@
    }

    /// The signature of `message` under `key`: the lowercase hex of the
    /// HMAC-SHA-384 tag, both texts read as their UTF-8 bytes.
    pub open spec fn spec_signature(key: Seq<char>, message: Seq<char>) -> Seq<char> {
        spec_hex_of(hmac_sha384_of(encode_utf8(key), encode_utf8(message)))
    }

    pub fn new(private_key: String, public_key: String, base_url: String) -> (r: AuthContext)
        ensures
            r.spec_private_key() == private_key@,
            r.spec_public_key() == public_key@,
            r.spec_base_url() == base_url@,
    {
        AuthContext { private_key, public_key, base_url }
    }

    /// Signs an arbitrary message with the private key. Signing cannot
    /// fail, whatever the message.
    pub fn sign(&self, message: &str) -> (r: String)
        ensures
            r@ == AuthContext::spec_signature(self.spec_private_key(), message@),
    {
        let tag = hmac_sha384(self.private_key.as_str().as_bytes(), message.as_bytes());
        hex_encode(tag.as_slice())
    }
}

/// Signing is deterministic: under one key, one message always yields one
/// signature. (That two different keys give different signatures holds only
/// with overwhelming probability, which no proof here can state.)
pub proof fn lemma_sign_deterministic(key: Seq<char>, m1: Seq<char>, m2: Seq<char>)
    requires
        m1 == m2,
    ensures
        AuthContext::spec_signature(key, m1) == AuthContext::spec_signature(key, m2),
{
}

/// The authentication material of one signed request: the fixed content
/// type, the nonce in decimal, the public key identifier, and the hex
/// signature of the signing message.
pub struct SignedRequest {
    pub content_type: String,
    pub nonce: String,
    pub api_key: String,
    pub signature: String,
}

/// The signing message: the request path, then the nonce in decimal, then
/// the body, which defaults to the empty JSON object when absent.
pub open spec fn spec_signing_message(path: Seq<char>, nonce: nat, body: Option<Seq<char>>) -> Seq<
    char,
> {
    path + spec_digits_of(nonce) + (match body {
        Some(b) => b,
        None => "{}"@,
    })
}

/// Builds the authentication headers of one request. Pure: the caller
/// supplies the nonce, so a fixed nonce gives a fixed result.
pub fn build_signed_request(auth: &AuthContext, path: &str, nonce: u64, body: Option<&str>) -> (r:
    SignedRequest)
    ensures
        r.content_type@ == "application/json"@,
        r.nonce@ == spec_digits_of(nonce as nat),
        r.api_key@ == auth.spec_public_key(),
        r.signature@ == AuthContext::spec_signature(
            auth.spec_private_key(),
            spec_signing_message(
                path@,
                nonce as nat,
                match body {
                    Some(b) => Some(b@),
                    None => None,
                },
            ),
        ),
{
    let nonce_text = u64_to_string(nonce);
    let mut message = String::from_str(path);
    message.append(nonce_text.as_str());
    match body {
        Some(b) => message.append(b),
        None => message.append("{}"),
    }
    let signature = auth.sign(message.as_str());
    SignedRequest {
        content_type: String::from_str("application/json"),
        nonce: nonce_text,
        api_key: auth.public_key.clone(),
        signature,
    }
}

/// Relies on chrono::Utc::now and timestamp_millis: the wall clock in
/// milliseconds since the epoch. The value depends on the clock alone, so
/// nothing is promised of it.
#[verifier::external_body]
fn now_millis() -> i64 {
    chrono::Utc::now().timestamp_millis()
}

/// A fresh request nonce: the clock reading in milliseconds, clamped below
/// at zero. The value depends on the clock, so nothing more can be claimed
/// of it; a caller that signs more than once per millisecond under one
/// credential must arrange for strictly increasing nonces itself.
pub fn fresh_nonce() -> u64 {
    let t = now_millis();
    if t < 0 {
        0
    } else {
        t as u64
    }
}

} // verus!
