//! Trusted boundary to the cryptographic primitives: HMAC-SHA-256, SHA-256,
//! AES-128-GCM, X25519, base64 decoding, and randomness. Each wrapper's
//! contract states only what the wrapped crate documents; results that are
//! functions of the arguments alone are given uninterpreted names.

use vstd::prelude::*;

use base64::Engine;
use rand::Rng;
use rand::RngCore;

verus! {

/// The HMAC-SHA-256 tag of `msg` under `key` (32 bytes).
pub uninterp spec fn hmac_sha256(key: Seq<u8>, msg: Seq<u8>) -> Seq<u8>;

/// The SHA-256 digest of `msg` (32 bytes).
pub uninterp spec fn sha256(msg: Seq<u8>) -> Seq<u8>;

/// Ciphertext and tag of AES-128-GCM sealing: 16 bytes longer than the input.
pub uninterp spec fn aes128_gcm_seal(
    key: Seq<u8>,
    nonce: Seq<u8>,
    aad: Seq<u8>,
    plaintext: Seq<u8>,
) -> Seq<u8>;

/// Plaintext of AES-128-GCM opening, or nothing when authentication fails.
pub uninterp spec fn aes128_gcm_open(
    key: Seq<u8>,
    nonce: Seq<u8>,
    aad: Seq<u8>,
    ciphertext: Seq<u8>,
) -> Option<Seq<u8>>;

/// The X25519 public key of a 32-byte secret.
pub uninterp spec fn x25519_public(secret: Seq<u8>) -> Seq<u8>;

/// The X25519 shared secret of a 32-byte secret and a 32-byte peer public key.
pub uninterp spec fn x25519_shared(secret: Seq<u8>, peer_public: Seq<u8>) -> Seq<u8>;

/// Standard-alphabet base64 decoding with padding, or nothing when invalid.
pub uninterp spec fn base64_standard(text: Seq<char>) -> Option<Seq<u8>>;

/// URL-safe-alphabet base64 decoding without padding, or nothing when invalid.
pub uninterp spec fn base64_url_nopad(text: Seq<char>) -> Option<Seq<u8>>;

/// Relies on ring's hmac: `sign` returns the HMAC tag, 32 bytes for SHA-256,
/// a function of key and message alone.
#[verifier::external_body]
pub(crate) fn hmac_sha256_sign(key: &Vec<u8>, msg: &Vec<u8>) -> (r: Vec<u8>)
    ensures
        r@ == hmac_sha256(key@, msg@),
        r@.len() == 32,
{
    let k = ring::hmac::Key::new(ring::hmac::HMAC_SHA256, key);
    ring::hmac::sign(&k, msg).as_ref().to_vec()
}

/// Relies on ring's digest: SHA-256 yields a 32-byte digest of the input.
#[verifier::external_body]
pub(crate) fn sha256_digest(msg: &Vec<u8>) -> (r: Vec<u8>)
    ensures
        r@ == sha256(msg@),
        r@.len() == 32,
{
    ring::digest::digest(&ring::digest::SHA256, msg).as_ref().to_vec()
}

/// Relies on ring's aead with AES_128_GCM: sealing appends a 16-byte tag and
/// succeeds for a 16-byte key, a 12-byte nonce, and inputs far below the
/// algorithm's length ceiling.
#[verifier::external_body]
pub(crate) fn aead_seal(key: &Vec<u8>, nonce: &Vec<u8>, aad: &Vec<u8>, plaintext: &Vec<u8>) -> (r:
    Vec<u8>)
    requires
        key@.len() == 16,
        nonce@.len() == 12,
        plaintext@.len() <= 0x20000,
    ensures
        r@ == aes128_gcm_seal(key@, nonce@, aad@, plaintext@),
        r@.len() == plaintext@.len() + 16,
{
    let unbound = ring::aead::UnboundKey::new(&ring::aead::AES_128_GCM, key).unwrap();
    let k = ring::aead::LessSafeKey::new(unbound);
    let n = ring::aead::Nonce::try_assume_unique_for_key(nonce).unwrap();
    let mut buf = plaintext.clone();
    k.seal_in_place_append_tag(n, ring::aead::Aad::from(aad.as_slice()), &mut buf).unwrap();
    buf
}

/// Relies on ring's aead with AES_128_GCM: opening returns the plaintext,
/// 16 bytes shorter than the input, or fails on a bad tag or a short input.
#[verifier::external_body]
pub(crate) fn aead_open(key: &Vec<u8>, nonce: &Vec<u8>, aad: &Vec<u8>, ciphertext: &Vec<u8>) -> (r:
    Option<Vec<u8>>)
    requires
        key@.len() == 16,
        nonce@.len() == 12,
    ensures
        match r {
            Some(p) => aes128_gcm_open(key@, nonce@, aad@, ciphertext@) == Some(p@) && p@.len()
                + 16 == ciphertext@.len(),
            None => aes128_gcm_open(key@, nonce@, aad@, ciphertext@) is None,
        },
{
    let unbound = ring::aead::UnboundKey::new(&ring::aead::AES_128_GCM, key).unwrap();
    let k = ring::aead::LessSafeKey::new(unbound);
    let n = ring::aead::Nonce::try_assume_unique_for_key(nonce).ok()?;
    let mut buf = ciphertext.clone();
    let plain_len = k.open_in_place(n, ring::aead::Aad::from(aad.as_slice()), &mut buf).ok()?.len();
    buf.truncate(plain_len);
    Some(buf)
}

/// Relies on x25519_dalek: a fresh random 32-byte static secret.
#[verifier::external_body]
pub(crate) fn x25519_random_secret() -> (r: Vec<u8>)
    ensures
        r@.len() == 32,
{
    let s = x25519_dalek::StaticSecret::random_from_rng(rand::rngs::OsRng);
    s.to_bytes().to_vec()
}

/// Relies on x25519_dalek: the public key is a function of the secret alone.
#[verifier::external_body]
pub(crate) fn x25519_public_key(secret: &Vec<u8>) -> (r: Vec<u8>)
    requires
        secret@.len() == 32,
    ensures
        r@ == x25519_public(secret@),
        r@.len() == 32,
{
    let mut bytes = [0u8; 32];
    bytes.copy_from_slice(secret);
    let s = x25519_dalek::StaticSecret::from(bytes);
    x25519_dalek::PublicKey::from(&s).as_bytes().to_vec()
}

/// Relies on x25519_dalek: `diffie_hellman` is a function of the two keys.
#[verifier::external_body]
pub(crate) fn x25519_diffie_hellman(secret: &Vec<u8>, peer_public: &Vec<u8>) -> (r: Vec<u8>)
    requires
        secret@.len() == 32,
        peer_public@.len() == 32,
    ensures
        r@ == x25519_shared(secret@, peer_public@),
        r@.len() == 32,
{
    let mut sk = [0u8; 32];
    sk.copy_from_slice(secret);
    let mut pk = [0u8; 32];
    pk.copy_from_slice(peer_public);
    let s = x25519_dalek::StaticSecret::from(sk);
    let shared = s.diffie_hellman(&x25519_dalek::PublicKey::from(pk));
    shared.as_bytes().to_vec()
}

/// Relies on base64's STANDARD engine: decoding is a function of the text.
#[verifier::external_body]
pub(crate) fn base64_decode_standard(text: &str) -> (r: Option<Vec<u8>>)
    ensures
        match r {
            Some(b) => base64_standard(text@) == Some(b@),
            None => base64_standard(text@) is None,
        },
{
    base64::engine::general_purpose::STANDARD.decode(text).ok()
}

/// Relies on base64's URL_SAFE_NO_PAD engine: decoding is a function of the text.
#[verifier::external_body]
pub(crate) fn base64_decode_url_nopad(text: &str) -> (r: Option<Vec<u8>>)
    ensures
        match r {
            Some(b) => base64_url_nopad(text@) == Some(b@),
            None => base64_url_nopad(text@) is None,
        },
{
    base64::engine::general_purpose::URL_SAFE_NO_PAD.decode(text).ok()
}

/// Relies on str::from_utf8: it succeeds exactly on valid UTF-8.
#[verifier::external_body]
pub(crate) fn utf8_valid(b: &Vec<u8>) -> (r: bool)
    ensures
        r == vstd::utf8::valid_utf8(b@),
{
    std::str::from_utf8(b).is_ok()
}

/// Relies on rand's thread_rng: `gen_range` returns a value in the given
/// half-open range and panics only on an empty range, which is excluded.
#[verifier::external_body]
pub(crate) fn rand_range(lo: usize, hi: usize) -> (r: usize)
    requires
        lo < hi,
    ensures
        lo <= r < hi,
{
    rand::thread_rng().gen_range(lo..hi)
}

/// Relies on rand's thread_rng: `fill_bytes` fills the whole buffer.
#[verifier::external_body]
pub(crate) fn rand_bytes(n: usize) -> (r: Vec<u8>)
    ensures
        r@.len() == n,
{
    let mut v = vec![0u8; n];
    rand::thread_rng().fill_bytes(&mut v);
    v
}

/// Relies on rand's OsRng: `fill_bytes` fills the whole buffer.
#[verifier::external_body]
pub(crate) fn os_random_bytes(n: usize) -> (r: Vec<u8>)
    ensures
        r@.len() == n,
{
    let mut v = vec![0u8; n];
    rand::rngs::OsRng.fill_bytes(&mut v);
    v
}

} // verus!
