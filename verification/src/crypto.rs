//! The cryptographic primitives, the clock and the random source that the
//! library uses, each behind a small wrapper whose contract is stated over
//! plain values.  Results that are functions of their arguments alone are
//! named by uninterpreted spec functions.

use vstd::prelude::*;
use base64ct::Encoding;
use ed25519_dalek::{Signer, Verifier};
use p384::pkcs8::DecodePrivateKey;
use rand_core::RngCore;
use sha2::Digest;

verus! {

/// SHA-256 of a byte string.
pub uninterp spec fn spec_sha256(data: Seq<u8>) -> Seq<u8>;

/// SHA-512 of a byte string.
pub uninterp spec fn spec_sha512(data: Seq<u8>) -> Seq<u8>;

/// Whether an Ed25519 signature over `msg` verifies under the encoded
/// public key `pk` (false when `pk` is not a valid point).
pub uninterp spec fn spec_ed25519_verify(pk: Seq<u8>, msg: Seq<u8>, sig: Seq<u8>) -> bool;

/// The encoded Ed25519 public key of a 32-byte secret key.
pub uninterp spec fn spec_ed25519_public(secret: Seq<u8>) -> Seq<u8>;

/// The Ed25519 signature of `msg` under a 32-byte secret key.
pub uninterp spec fn spec_ed25519_sign(secret: Seq<u8>, msg: Seq<u8>) -> Seq<u8>;

/// Whether `pk` is a SEC1-encoded P-384 public key.
pub uninterp spec fn spec_p384_key_ok(pk: Seq<u8>) -> bool;

/// Whether `sig` is a fixed-size (r || s) P-384 ECDSA signature.
pub uninterp spec fn spec_p384_raw_sig_ok(sig: Seq<u8>) -> bool;

/// Whether `sig` is an ASN.1 DER P-384 ECDSA signature.
pub uninterp spec fn spec_p384_der_sig_ok(sig: Seq<u8>) -> bool;

/// Whether the fixed-size P-384 signature `sig` over `msg` verifies under `pk`.
pub uninterp spec fn spec_p384_verify_raw(pk: Seq<u8>, msg: Seq<u8>, sig: Seq<u8>) -> bool;

/// Whether the DER P-384 signature `sig` over `msg` verifies under `pk`.
pub uninterp spec fn spec_p384_verify_der(pk: Seq<u8>, msg: Seq<u8>, sig: Seq<u8>) -> bool;

/// Whether `key` is a PKCS#8 DER P-384 private key.
pub uninterp spec fn spec_p384_signing_key_ok(key: Seq<u8>) -> bool;

/// The fixed-size (RFC 6979, deterministic) P-384 signature of `msg`.
pub uninterp spec fn spec_p384_sign(key: Seq<u8>, msg: Seq<u8>) -> Seq<u8>;

/// The uncompressed SEC1 encoding of the public key of a PKCS#8 DER P-384
/// private key.
pub uninterp spec fn spec_p384_public(key: Seq<u8>) -> Seq<u8>;

/// The bytes that a padded standard Base64 text decodes to, if it is valid.
pub uninterp spec fn spec_base64_decode(text: Seq<char>) -> Option<Seq<u8>>;

/// `sha2::Sha256::digest`: the SHA-256 digest of `data`.
#[verifier::external_body]
pub(crate) fn sha256(data: &[u8]) -> (r: [u8; 32])
    ensures
        r@ == spec_sha256(data@),
{
    sha2::Sha256::digest(data).into()
}

/// `sha2::Sha512::digest`: the SHA-512 digest of `data`.
#[verifier::external_body]
pub(crate) fn sha512(data: &[u8]) -> (r: [u8; 64])
    ensures
        r@ == spec_sha512(data@),
{
    sha2::Sha512::digest(data).into()
}

/// `ed25519_dalek::VerifyingKey::from_bytes` followed by `verify`: whether
/// `sig` is a valid signature of `msg` under the encoded key `pk`.
#[verifier::external_body]
pub(crate) fn ed25519_verify(pk: &[u8; 32], msg: &[u8], sig: &[u8; 64]) -> (r: bool)
    ensures
        r == spec_ed25519_verify(pk@, msg@, sig@),
{
    match ed25519_dalek::VerifyingKey::from_bytes(pk) {
        Ok(key) => key.verify(msg, &ed25519_dalek::Signature::from_bytes(sig)).is_ok(),
        Err(_) => false,
    }
}

/// `ed25519_dalek::SigningKey::verifying_key`: the encoded public key of
/// the secret key `secret`.
#[verifier::external_body]
pub(crate) fn ed25519_public(secret: &[u8; 32]) -> (r: [u8; 32])
    ensures
        r@ == spec_ed25519_public(secret@),
{
    ed25519_dalek::SigningKey::from_bytes(secret).verifying_key().to_bytes()
}

/// `ed25519_dalek::SigningKey::sign`: the signature of `msg`.  As for every
/// signature scheme, it verifies under the signer's own public key.
#[verifier::external_body]
pub(crate) fn ed25519_sign(secret: &[u8; 32], msg: &[u8]) -> (r: [u8; 64])
    ensures
        r@ == spec_ed25519_sign(secret@, msg@),
        spec_ed25519_verify(spec_ed25519_public(secret@), msg@, r@),
{
    ed25519_dalek::SigningKey::from_bytes(secret).sign(msg).to_bytes()
}

/// `p384::ecdsa::VerifyingKey::from_sec1_bytes`: accepts a SEC1-encoded
/// public key; the error text is the crate's.
#[verifier::external_body]
pub(crate) fn p384_key_check(pk: &[u8]) -> (r: Result<(), String>)
    ensures
        r is Ok <==> spec_p384_key_ok(pk@),
{
    p384::ecdsa::VerifyingKey::from_sec1_bytes(pk).map(|_| ()).map_err(|e| e.to_string())
}

/// `p384::ecdsa::Signature::from_slice`: accepts a fixed-size signature.
#[verifier::external_body]
pub(crate) fn p384_raw_sig_check(sig: &[u8]) -> (r: Result<(), String>)
    ensures
        r is Ok <==> spec_p384_raw_sig_ok(sig@),
{
    p384::ecdsa::Signature::from_slice(sig).map(|_| ()).map_err(|e| e.to_string())
}

/// `p384::ecdsa::Signature::from_der`: accepts a DER signature.
#[verifier::external_body]
pub(crate) fn p384_der_sig_check(sig: &[u8]) -> (r: Result<(), String>)
    ensures
        r is Ok <==> spec_p384_der_sig_ok(sig@),
{
    p384::ecdsa::Signature::from_der(sig).map(|_| ()).map_err(|e| e.to_string())
}

/// `p384::ecdsa::VerifyingKey::verify` with a fixed-size signature; fails
/// also where the key or the signature does not parse.
#[verifier::external_body]
pub(crate) fn p384_verify_raw(pk: &[u8], msg: &[u8], sig: &[u8]) -> (r: Result<(), String>)
    ensures
        r is Ok <==> spec_p384_verify_raw(pk@, msg@, sig@),
{
    let key = p384::ecdsa::VerifyingKey::from_sec1_bytes(pk).map_err(|e| e.to_string())?;
    let s = p384::ecdsa::Signature::from_slice(sig).map_err(|e| e.to_string())?;
    key.verify(msg, &s).map_err(|e| e.to_string())
}

/// `p384::ecdsa::VerifyingKey::verify` with a DER signature; fails also
/// where the key or the signature does not parse.
#[verifier::external_body]
pub(crate) fn p384_verify_der(pk: &[u8], msg: &[u8], sig: &[u8]) -> (r: Result<(), String>)
    ensures
        r is Ok <==> spec_p384_verify_der(pk@, msg@, sig@),
{
    let key = p384::ecdsa::VerifyingKey::from_sec1_bytes(pk).map_err(|e| e.to_string())?;
    let s = p384::ecdsa::Signature::from_der(sig).map_err(|e| e.to_string())?;
    key.verify(msg, &s).map_err(|e| e.to_string())
}

/// `p384::ecdsa::SigningKey::from_pkcs8_der` followed by `sign`, and the
/// key's public half as uncompressed SEC1
/// (`verifying_key().to_encoded_point(false)`): the fixed-size signature
/// of `msg` and the public key, or the key's parse error.  Claimed
/// besides: the public key parses, and the signature is a well-formed
/// fixed-size signature that verifies over `msg` under it (`ecdsa`'s
/// signing and verification are the two halves of ECDSA, and for P-384
/// neither side applies a low-S rule).
#[verifier::external_body]
pub(crate) fn p384_sign(key: &[u8], msg: &[u8]) -> (r: Result<(Vec<u8>, Vec<u8>), String>)
    ensures
        r is Ok <==> spec_p384_signing_key_ok(key@),
        r matches Ok((sig, pk)) ==> {
            &&& sig@ == spec_p384_sign(key@, msg@)
            &&& pk@ == spec_p384_public(key@)
            &&& spec_p384_key_ok(pk@)
            &&& spec_p384_raw_sig_ok(sig@)
            &&& spec_p384_verify_raw(pk@, msg@, sig@)
        },
{
    let k = p384::ecdsa::SigningKey::from_pkcs8_der(key).map_err(|e| e.to_string())?;
    let s: p384::ecdsa::Signature = k.sign(msg);
    let pk = k.verifying_key().to_encoded_point(false);
    Ok((s.to_bytes().to_vec(), pk.as_bytes().to_vec()))
}

/// `base64ct::Base64::decode_vec`: the bytes of a padded standard Base64
/// text, or the crate's error text.
#[verifier::external_body]
pub(crate) fn base64_decode(text: &str) -> (r: Result<Vec<u8>, String>)
    ensures
        r is Ok <==> spec_base64_decode(text@) is Some,
        r matches Ok(b) ==> spec_base64_decode(text@) == Some(b@),
{
    base64ct::Base64::decode_vec(text).map_err(|e| e.to_string())
}

/// Lower-case hexadecimal digit of a value below 16.
pub open spec fn hex_digit(v: u8) -> char {
    if v < 10 {
        ((v + 48) as u8) as char
    } else {
        ((v + 87) as u8) as char
    }
}

/// Lower-case hexadecimal text of a byte string, two digits per byte.
pub open spec fn spec_hex(b: Seq<u8>) -> Seq<char>
    decreases b.len(),
{
    if b.len() == 0 {
        Seq::empty()
    } else {
        seq![hex_digit(b[0] / 16), hex_digit(b[0] % 16)] + spec_hex(b.drop_first())
    }
}

/// `hex::encode`: lower-case hexadecimal text, two digits per byte.
#[verifier::external_body]
pub(crate) fn hex_encode(b: &[u8]) -> (r: String)
    ensures
        r@ == spec_hex(b@),
{
    hex::encode(b)
}

/// `SystemTime::now` measured from the Unix epoch, as whole seconds and the
/// nanoseconds beyond them; `None` when the clock is before the epoch.
/// Nothing is promised of the value: it is the machine's clock.
#[verifier::external_body]
pub(crate) fn unix_time_now() -> (r: Option<(u64, u32)>)
    ensures
        r matches Some((s, n)) ==> n < 1_000_000_000,
{
    match std::time::SystemTime::now().duration_since(std::time::UNIX_EPOCH) {
        Ok(d) => Some((d.as_secs(), d.subsec_nanos())),
        Err(_) => None,
    }
}

/// `rand_core::OsRng::try_fill_bytes`: 32 bytes from the operating
/// system's random source, or `None` when it fails.  Nothing is promised of
/// the bytes.
#[verifier::external_body]
pub(crate) fn random_bytes32() -> (r: Option<[u8; 32]>) {
    let mut b = [0u8; 32];
    match rand_core::OsRng.try_fill_bytes(&mut b) {
        Ok(()) => Some(b),
        Err(_) => None,
    }
}

} // verus!

verus! {

/// The value of a hexadecimal digit (either case).
pub open spec fn hex_value(c: u8) -> Option<u8> {
    if 48 <= c <= 57 {
        Some((c - 48) as u8)
    } else if 97 <= c <= 102 {
        Some((c - 87) as u8)
    } else if 65 <= c <= 70 {
        Some((c - 55) as u8)
    } else {
        None
    }
}

/// The bytes that hexadecimal text (two digits per byte, either case)
/// spells, if it is such text.
pub open spec fn spec_hex_decode(b: Seq<u8>) -> Option<Seq<u8>>
    decreases b.len(),
{
    if b.len() == 0 {
        Some(Seq::empty())
    } else if b.len() == 1 {
        None
    } else {
        match (hex_value(b[0]), hex_value(b[1])) {
            (Some(h), Some(l)) => match spec_hex_decode(b.skip(2)) {
                Some(rest) => Some(seq![(h * 16 + l) as u8] + rest),
                None => None,
            },
            _ => None,
        }
    }
}

/// The bytes of ASCII text, one per character.
pub open spec fn ascii_bytes(s: Seq<char>) -> Seq<u8> {
    Seq::new(s.len(), |i: int| s[i] as u8)
}

proof fn lemma_hex_digit(v: u8)
    requires
        v < 16,
    ensures
        '\0' <= hex_digit(v) <= '\u{7f}',
        hex_value(hex_digit(v) as u8) == Some(v),
{
    if v < 10 {
        assert(((v + 48) as u8) as char as u8 == v + 48);
    } else {
        assert(((v + 87) as u8) as char as u8 == v + 87);
    }
}

proof fn lemma_hex_text(b: Seq<u8>)
    ensures
        spec_hex(b).len() == 2 * b.len(),
        vstd::utf8::is_ascii_chars(spec_hex(b)),
        spec_hex_decode(ascii_bytes(spec_hex(b))) == Some(b),
    decreases b.len(),
{
    if b.len() > 0 {
        let rest = b.drop_first();
        lemma_hex_text(rest);
        lemma_hex_digit(b[0] / 16);
        lemma_hex_digit(b[0] % 16);
        let t = spec_hex(b);
        let a = ascii_bytes(t);
        assert(t == seq![hex_digit(b[0] / 16), hex_digit(b[0] % 16)] + spec_hex(rest));
        assert(a.skip(2) =~= ascii_bytes(spec_hex(rest)));
        assert(a[0] == hex_digit(b[0] / 16) as u8);
        assert(a[1] == hex_digit(b[0] % 16) as u8);
        assert(((b[0] / 16) * 16 + b[0] % 16) as u8 == b[0]);
        assert(seq![b[0]] + rest =~= b);
    } else {
        assert(ascii_bytes(spec_hex(b)) =~= Seq::<u8>::empty());
    }
}

/// Hexadecimal text reads back: decoding the text that `spec_hex` writes
/// for `b` gives `b`.
pub proof fn lemma_hex_round_trip(b: Seq<u8>)
    ensures
        spec_hex_decode(vstd::utf8::encode_utf8(spec_hex(b))) == Some(b),
        spec_hex(b).len() == 2 * b.len(),
{
    lemma_hex_text(b);
    vstd::utf8::is_ascii_chars_encode_utf8(spec_hex(b));
    assert(vstd::utf8::encode_utf8(spec_hex(b)) =~= ascii_bytes(spec_hex(b)));
}

/// `hex::decode`: the bytes of hexadecimal text, or the crate's error text.
#[verifier::external_body]
pub(crate) fn hex_decode(text: &str) -> (r: Result<Vec<u8>, String>)
    ensures
        r is Ok <==> spec_hex_decode(vstd::utf8::encode_utf8(text@)) is Some,
        r matches Ok(b) ==> spec_hex_decode(vstd::utf8::encode_utf8(text@)) == Some(b@),
{
    hex::decode(text).map_err(|e| e.to_string())
}

} // verus!
