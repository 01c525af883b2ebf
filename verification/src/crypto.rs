//! SHA-256 and HMAC-SHA256 from the `sha2` and `hmac` crates, and the
//! lower-case hexadecimal rendering of byte strings.
use vstd::prelude::*;
use sha2::Digest;
use hmac::Mac;
use base64::Engine;
use rsa::pkcs8::DecodePublicKey;
use rsa::signature::Verifier;
use crate::text::{push_char, chars_of};

verus! {

/// The SHA-256 digest that `sha2::Sha256` computes for `data`.
pub uninterp spec fn sha256_of(data: Seq<u8>) -> Seq<u8>;

/// The HMAC-SHA256 tag that `hmac::Hmac<sha2::Sha256>` computes for
/// `message` under `key`.
pub uninterp spec fn hmac_sha256_of(key: Seq<u8>, message: Seq<u8>) -> Seq<u8>;

/// `sha2::Sha256::digest`. The contract ties the result to `sha256_of` and
/// states the digest length of 32 bytes that the crate documents.
#[verifier::external_body]
pub(crate) fn sha256(data: &[u8]) -> (r: Vec<u8>)
    ensures
        r@ == sha256_of(data@),
        r@.len() == 32,
{
    sha2::Sha256::digest(data).to_vec()
}

/// `Hmac::<Sha256>::new_from_slice`, `Mac::update` and `Mac::finalize`.
/// The crate's HMAC takes keys of any length (its `new_from_slice` always
/// returns `Ok`), so the result is the 32-byte tag `hmac_sha256_of`.
#[verifier::external_body]
pub(crate) fn hmac_sha256(key: &[u8], message: &[u8]) -> (r: Result<Vec<u8>, ()>)
    ensures
        r is Ok,
        r matches Ok(tag) ==> tag@ == hmac_sha256_of(key@, message@) && tag@.len() == 32,
{
    match <hmac::Hmac<sha2::Sha256> as Mac>::new_from_slice(key) {
        Ok(mut mac) => {
            mac.update(message);
            Ok(mac.finalize().into_bytes().to_vec())
        },
        Err(_) => Err(()),
    }
}

/// `Hmac::<Sha256>::new_from_slice`, `Mac::update` and `Mac::verify_slice`:
/// true exactly when the tag has the 32 bytes of the output and equals the
/// tag of the message under the key (compared in constant time).
#[verifier::external_body]
pub(crate) fn hmac_sha256_verify(key: &[u8], message: &[u8], tag: &[u8]) -> (r: bool)
    ensures
        r == (tag@.len() == 32 && tag@ == hmac_sha256_of(key@, message@)),
{
    match <hmac::Hmac<sha2::Sha256> as Mac>::new_from_slice(key) {
        Ok(mut mac) => {
            mac.update(message);
            mac.verify_slice(tag).is_ok()
        },
        Err(_) => false,
    }
}

/// The lower-case hexadecimal digit for `n < 16`.
pub open spec fn hex_digit(n: nat) -> char {
    if n < 10 {
        (('0' as u32) + n) as char
    } else {
        (('a' as u32) + n - 10) as char
    }
}

/// Lower-case hexadecimal rendering, two digits per byte.
pub open spec fn hex_lower_spec(b: Seq<u8>) -> Seq<char>
    decreases b.len(),
{
    if b.len() == 0 {
        seq![]
    } else {
        hex_lower_spec(b.drop_last()) + seq![
            hex_digit((b.last() / 16) as nat),
            hex_digit((b.last() % 16) as nat),
        ]
    }
}

pub proof fn lemma_hex_lower_len(b: Seq<u8>)
    ensures
        hex_lower_spec(b).len() == 2 * b.len(),
    decreases b.len(),
{
    if b.len() > 0 {
        lemma_hex_lower_len(b.drop_last());
    }
}

fn hex_digit_char(n: u8) -> (c: char)
    requires
        n < 16,
    ensures
        c == hex_digit(n as nat),
{
    if n < 10 {
        ((0x30u8 + n) as u8) as char
    } else {
        ((0x61u8 + n - 10) as u8) as char
    }
}

/// Renders bytes as lower-case hexadecimal.
pub fn hex_lower(bytes: &[u8]) -> (r: String)
    ensures
        r@ == hex_lower_spec(bytes@),
{
    let mut out = String::new();
    let mut i: usize = 0;
    while i < bytes.len()
        invariant
            i <= bytes@.len(),
            out@ == hex_lower_spec(bytes@.take(i as int)),
        decreases bytes.len() - i,
    {
        let b = bytes[i];
        let hi = b >> 4;
        let lo = b & 0x0f;
        assert(hi == b / 16 && lo == b % 16) by (bit_vector)
            requires
                hi == b >> 4,
                lo == b & 0x0f,
        ;
        push_char(&mut out, hex_digit_char(hi));
        push_char(&mut out, hex_digit_char(lo));
        assert(bytes@.take(i + 1).drop_last() =~= bytes@.take(i as int));
        assert(out@ =~= hex_lower_spec(bytes@.take(i + 1)));
        i = i + 1;
    }
    assert(bytes@.take(bytes@.len() as int) =~= bytes@);
    out
}

/// The lower-case hexadecimal SHA-256 digest of `bytes`.
pub fn sha256_hex(bytes: &[u8]) -> (r: String)
    ensures
        r@ == hex_lower_spec(sha256_of(bytes@)),
{
    let digest = sha256(bytes);
    hex_lower(digest.as_slice())
}

} // verus!

verus! {

/// What `base64::engine::general_purpose::STANDARD.decode` gives for the
/// bytes of a text: the decoded bytes, or nothing when it is not canonical
/// padded standard base64.
pub uninterp spec fn base64_decoded(text: Seq<char>) -> Option<Seq<u8>>;

/// `STANDARD.decode` of the text's bytes; the result is tied to the name
/// `base64_decoded`.
#[verifier::external_body]
pub(crate) fn base64_decode(text: &str) -> (r: Option<Vec<u8>>)
    ensures
        match r {
            Some(v) => base64_decoded(text@) == Some(v@),
            None => base64_decoded(text@) is None,
        },
{
    base64::engine::general_purpose::STANDARD.decode(text).ok()
}

/// An RSA public key of the `rsa` crate, carried through unopened.
#[verifier::external_type_specification]
#[verifier::external_body]
pub struct ExRsaPublicKey(rsa::RsaPublicKey);

/// Whether `DecodePublicKey::from_public_key_pem` accepts the text as a PEM
/// SubjectPublicKeyInfo RSA key.
pub uninterp spec fn rsa_pem_key_accepted(text: Seq<char>) -> bool;

/// Whether `DecodePublicKey::from_public_key_der` accepts the bytes as a DER
/// SubjectPublicKeyInfo RSA key.
pub uninterp spec fn rsa_der_key_accepted(der: Seq<u8>) -> bool;

/// `RsaPublicKey::from_public_key_pem`: a key exactly when the text is
/// accepted (`rsa_pem_key_accepted`).
#[verifier::external_body]
pub(crate) fn rsa_public_key_from_pem(text: &str) -> (r: Option<rsa::RsaPublicKey>)
    ensures
        r is Some == rsa_pem_key_accepted(text@),
{
    rsa::RsaPublicKey::from_public_key_pem(text).ok()
}

/// `RsaPublicKey::from_public_key_der`: a key exactly when the bytes are
/// accepted (`rsa_der_key_accepted`).
#[verifier::external_body]
pub(crate) fn rsa_public_key_from_der(der: &[u8]) -> (r: Option<rsa::RsaPublicKey>)
    ensures
        r is Some == rsa_der_key_accepted(der@),
{
    rsa::RsaPublicKey::from_public_key_der(der).ok()
}

/// An RSA public key together with what the `rsa` crate read it from: PEM
/// text (taken as its UTF-8 bytes) or DER bytes. The origin is set only by
/// `from_pem` and `from_der`, so it names the key: the crate reads the same
/// key from the same input every time.
pub struct RsaVerifyKey {
    key: rsa::RsaPublicKey,
    origin: Ghost<(bool, Seq<u8>)>,
}

impl RsaVerifyKey {
    /// Whether the key was read from PEM text, and the text's bytes or the
    /// DER bytes it was read from.
    pub closed spec fn origin(&self) -> (bool, Seq<u8>) {
        self.origin@
    }

    /// The key `from_public_key_pem` reads from the text, if any.
    pub fn from_pem(text: &str) -> (r: Option<Self>)
        ensures
            r is Some == rsa_pem_key_accepted(text@),
            r matches Some(k) ==> k.origin() == (true, vstd::utf8::encode_utf8(text@)),
    {
        match rsa_public_key_from_pem(text) {
            Some(key) => Some(RsaVerifyKey { key, origin: Ghost((true, vstd::utf8::encode_utf8(text@))) }),
            None => None,
        }
    }

    /// The key `from_public_key_der` reads from the bytes, if any.
    pub fn from_der(der: &[u8]) -> (r: Option<Self>)
        ensures
            r is Some == rsa_der_key_accepted(der@),
            r matches Some(k) ==> k.origin() == (false, der@),
    {
        match rsa_public_key_from_der(der) {
            Some(key) => Some(RsaVerifyKey { key, origin: Ghost((false, der@)) }),
            None => None,
        }
    }

    /// The key itself.
    pub fn into_key(self) -> rsa::RsaPublicKey {
        self.key
    }
}

/// Whether the RSA public key that `from_public_key_pem` (when `pem`) or
/// `from_public_key_der` (otherwise) reads from `key_source` accepts
/// `signature` as an RSASSA-PKCS1-v1_5 SHA-256 signature of `message`
/// (`pkcs1v15::Signature::try_from`, then `VerifyingKey::<Sha256>::verify`).
pub uninterp spec fn rsa_pkcs1v15_sha256_valid(pem: bool, key_source: Seq<u8>, message: Seq<u8>, signature: Seq<u8>) -> bool;

/// `pkcs1v15::Signature::try_from` and `pkcs1v15::VerifyingKey::<Sha256>`'s
/// `verify`: the result is tied to the name `rsa_pkcs1v15_sha256_valid` on
/// what the key was read from, the message and the signature. A signature
/// that `try_from` refuses is not valid.
#[verifier::external_body]
pub(crate) fn rsa_pkcs1v15_sha256_verify(key: &RsaVerifyKey, message: &[u8], signature: &[u8]) -> (r: bool)
    ensures
        r == rsa_pkcs1v15_sha256_valid(key.origin().0, key.origin().1, message@, signature@),
{
    let Ok(signature) = rsa::pkcs1v15::Signature::try_from(signature) else {
        return false;
    };
    rsa::pkcs1v15::VerifyingKey::<sha2::Sha256>::new(key.key.clone()).verify(message, &signature).is_ok()
}

} // verus!
