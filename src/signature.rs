//! Webhook authentication: the `X-Hub-Signature-256: sha256=<hex>` header
//! is checked against HMAC-SHA256 of the body under the shared secret, with
//! the final comparison done in constant time.

use vstd::prelude::*;
use vstd::string::*;
use hmac::Mac;
use subtle::ConstantTimeEq;

verus! {

/// HMAC-SHA256 of `msg` under `key`.
pub uninterp spec fn hmac_sha256_of(key: Seq<u8>, msg: Seq<u8>) -> Seq<u8>;

/// Relies on `hmac::Mac::new_from_slice`, `update` and `finalize` over
/// `sha2::Sha256`: the tag depends on key and message alone and is 32 bytes
/// long. `new_from_slice` accepts keys of every length.
#[verifier::external_body]
fn hmac_sha256(key: &[u8], msg: &[u8]) -> (r: Vec<u8>)
    ensures
        r@ == hmac_sha256_of(key@, msg@),
        r@.len() == 32,
{
    match hmac::Hmac::<sha2::Sha256>::new_from_slice(key) {
        Ok(mut mac) => {
            mac.update(msg);
            mac.finalize().into_bytes().to_vec()
        },
        Err(_) => Vec::new(),
    }
}

/// Relies on `subtle::ConstantTimeEq::ct_eq` for byte slices: true exactly
/// when lengths and contents agree, without branching on the contents.
#[verifier::external_body]
fn constant_time_eq(a: &[u8], b: &[u8]) -> (r: bool)
    ensures
        r == (a@ == b@),
{
    a.ct_eq(b).into()
}

pub open spec fn is_hex_digit(c: char) -> bool {
    ('0' <= c && c <= '9') || ('a' <= c && c <= 'f') || ('A' <= c && c <= 'F')
}

pub open spec fn hex_value(c: char) -> int {
    if '0' <= c && c <= '9' {
        c as int - '0' as int
    } else if 'a' <= c && c <= 'f' {
        c as int - 'a' as int + 10
    } else {
        c as int - 'A' as int + 10
    }
}

/// `s` is an even run of hex digits.
pub open spec fn is_hex_text(s: Seq<char>) -> bool {
    s.len() % 2 == 0 && forall|i: int| 0 <= i < s.len() ==> is_hex_digit(#[trigger] s[i])
}

/// `b` is what the hex digits of `s` encode, two digits per byte, high first.
pub open spec fn hex_decodes(s: Seq<char>, b: Seq<u8>) -> bool {
    &&& s.len() == 2 * b.len()
    &&& forall|i: int|
        0 <= i < b.len() ==> #[trigger] b[i] == hex_value(s[2 * i]) * 16 + hex_value(s[2 * i + 1])
}

/// Relies on `hex::decode`: upper- and lower-case digits, two per byte; an
/// odd length or any other character is an error.
#[verifier::external_body]
fn hex_decode(s: &str) -> (r: Option<Vec<u8>>)
    ensures
        r is Some <==> is_hex_text(s@),
        r matches Some(b) ==> hex_decodes(s@, b@),
{
    hex::decode(s).ok()
}

/// Why a webhook delivery was refused.
#[derive(Debug)]
pub enum WebhookError {
    MissingHeader(String),
    InvalidSignature(String),
    HmacError(String),
    VerificationFailed(String),
    BodyReadError(String),
}

/// The shared secret of the webhook.
#[derive(Clone)]
pub struct WebhookSecret(String);

impl WebhookSecret {
    pub fn new(secret: String) -> (r: WebhookSecret)
        ensures
            r@ == secret@,
    {
        WebhookSecret(secret)
    }

    /// The secret text.
    pub fn expose(&self) -> (r: &str)
        ensures
            r@ == self@,
    {
        self.0.as_str()
    }
}

impl View for WebhookSecret {
    type V = Seq<char>;

    closed spec fn view(&self) -> Seq<char> {
        self.0@
    }
}

/// The signature a body must carry: HMAC-SHA256 of it under the UTF-8
/// bytes of the secret.
pub open spec fn expected_signature(secret: Seq<u8>, body: Seq<u8>) -> Seq<u8> {
    hmac_sha256_of(secret, body)
}

/// Check `signature` against `body` under `secret`; the comparison runs in
/// constant time.
pub fn verify_signature(body: &[u8], signature: &[u8], secret: &str) -> (r: Result<(), WebhookError>)
    ensures
        r is Ok <==> signature@ == expected_signature(secret.spec_bytes(), body@),
        r is Err ==> r->Err_0 is VerificationFailed,
{
    let key = secret.as_bytes();
    let expected = hmac_sha256(key, body);
    if constant_time_eq(expected.as_slice(), signature) {
        Ok(())
    } else {
        Err(WebhookError::VerificationFailed(String::from_str("Signature mismatch")))
    }
}

/// `verify_signature` accepts `sig` for `body` under `secret` (as UTF-8 bytes).
pub open spec fn signature_accepted(secret: Seq<u8>, body: Seq<u8>, sig: Seq<u8>) -> bool {
    sig == expected_signature(secret, body)
}

/// `s` with bit `bit` of byte `i` inverted.
pub open spec fn flip_bit(s: Seq<u8>, i: int, bit: u8) -> Seq<u8> {
    s.update(i, s[i] ^ (1u8 << bit))
}

/// The HMAC of a body under a secret is accepted as its signature, and the
/// same signature with any single bit flipped is refused.
pub proof fn law_signature_round_trip(secret: Seq<u8>, body: Seq<u8>, i: int, bit: u8)
    requires
        0 <= i < expected_signature(secret, body).len(),
        bit < 8,
    ensures
        signature_accepted(secret, body, expected_signature(secret, body)),
        !signature_accepted(secret, body, flip_bit(expected_signature(secret, body), i, bit)),
{
    let sig = expected_signature(secret, body);
    let x = sig[i];
    assert(x ^ (1u8 << bit) != x) by (bit_vector)
        requires
            bit < 8,
    ;
    assert(flip_bit(sig, i, bit)[i] != sig[i]);
}

pub open spec fn signature_prefix() -> Seq<char> {
    "sha256="@
}

/// The hex part of a well-formed header value.
pub open spec fn header_hex(header: Seq<char>) -> Seq<char> {
    header.subrange(7, header.len() as int)
}

pub open spec fn has_signature_prefix(header: Seq<char>) -> bool {
    header.len() >= 7 && header.subrange(0, 7) == signature_prefix()
}

/// Decode the signature header `sha256=<hex>`.
pub fn extract_signature(header: Option<&str>) -> (r: Result<Vec<u8>, WebhookError>)
    ensures
        header is None ==> r matches Err(WebhookError::MissingHeader(_)),
        header matches Some(h) ==> {
            if has_signature_prefix(h@) && is_hex_text(header_hex(h@)) {
                r matches Ok(b) && hex_decodes(header_hex(h@), b@)
            } else {
                r matches Err(WebhookError::InvalidSignature(_))
            }
        },
{
    proof {
        reveal_strlit("sha256=");
    }
    let h = match header {
        None => {
            return Err(WebhookError::MissingHeader(String::from_str("X-Hub-Signature-256 header not found")));
        },
        Some(h) => h,
    };
    let n = h.unicode_len();
    if n < 7 || !crate::text::str_eq(h.substring_char(0, 7), "sha256=") {
        return Err(WebhookError::InvalidSignature(String::from_str("Signature must start with 'sha256='")));
    }
    let hex_part = h.substring_char(7, n);
    match hex_decode(hex_part) {
        Some(b) => Ok(b),
        None => Err(WebhookError::InvalidSignature(String::from_str("Invalid hex encoding"))),
    }
}

/// A body whose signature has been checked.
#[derive(Debug)]
pub struct VerifiedWebhook(pub Vec<u8>);

impl VerifiedWebhook {
    /// Authenticate a delivery from its signature header and body. On
    /// success the same bytes are handed on, read once.
    pub fn verify(header: Option<&str>, body: Vec<u8>, secret: &WebhookSecret) -> (r: Result<
        VerifiedWebhook,
        WebhookError,
    >)
        ensures
            header is None ==> r matches Err(WebhookError::MissingHeader(_)),
            header matches Some(h) ==> {
                if !(has_signature_prefix(h@) && is_hex_text(header_hex(h@))) {
                    r matches Err(WebhookError::InvalidSignature(_))
                } else {
                    exists|sig: Seq<u8>| #[trigger] hex_decodes(header_hex(h@), sig) && {
                        if sig == expected_signature(vstd::utf8::encode_utf8(secret@), body@) {
                            r matches Ok(v) && v.0@ == body@
                        } else {
                            r matches Err(WebhookError::VerificationFailed(_))
                        }
                    }
                }
            },
    {
        let signature = match extract_signature(header) {
            Err(e) => { return Err(e); },
            Ok(s) => s,
        };
        match verify_signature(body.as_slice(), signature.as_slice(), secret.expose()) {
            Ok(()) => Ok(VerifiedWebhook(body)),
            Err(e) => Err(e),
        }
    }
}

} // verus!
