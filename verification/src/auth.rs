//! The Reality authenticator: an HMAC-SHA-256 tag derived from the pre-shared
//! private key, injected into the last 12 bytes of `ServerHello.random`, and
//! the symmetric check of a client-supplied session-id carrier.

use vstd::prelude::*;

use crate::crypto::{
    base64_decode_standard, base64_decode_url_nopad, base64_standard, base64_url_nopad,
    hmac_sha256, hmac_sha256_sign,
};
use crate::encoding::{extend_bytes, sub_vec};

verus! {

/// Why a key could not be loaded.
#[derive(Clone, Copy, PartialEq, Eq, Structural, Debug)]
pub enum KeyError {
    /// The text is valid in neither accepted base64 alphabet.
    InvalidBase64,
    /// The decoded key is not 32 bytes.
    WrongLength,
}

/// The decoded private key: the standard alphabet is tried first, then the
/// URL-safe alphabet without padding.
pub open spec fn spec_decoded_key(text: Seq<char>) -> Option<Seq<u8>> {
    if base64_standard(text) is Some {
        base64_standard(text)
    } else {
        base64_url_nopad(text)
    }
}

/// The authentication tag: HMAC over the first 20 server-random bytes
/// followed by the whole client random, keyed by the private key.
pub open spec fn spec_auth_tag(
    key: Seq<u8>,
    client_random: Seq<u8>,
    server_random_20: Seq<u8>,
) -> Seq<u8> {
    hmac_sha256(key, server_random_20 + client_random)
}

/// Derives and checks Reality authentication tags from the pre-shared key.
pub struct RealityAuth {
    private_key_bytes: Vec<u8>,
}

impl RealityAuth {
    /// The 32-byte private key.
    pub closed spec fn spec_key(&self) -> Seq<u8> {
        self.private_key_bytes@
    }

    /// The key has its full length.
    pub closed spec fn wf(&self) -> bool {
        self.private_key_bytes@.len() == 32
    }

    /// Decodes the base64 private key; it must decode to exactly 32 bytes.
    pub fn new(private_key: &str) -> (r: Result<Self, KeyError>)
        ensures
            match r {
                Ok(a) => a.wf() && a.spec_key().len() == 32 && spec_decoded_key(private_key@)
                    == Some(a.spec_key()),
                Err(KeyError::InvalidBase64) => spec_decoded_key(private_key@) is None,
                Err(KeyError::WrongLength) => spec_decoded_key(private_key@) matches Some(d)
                    && d.len() != 32,
            },
    {
        let decoded = match base64_decode_standard(private_key) {
            Some(d) => d,
            None => match base64_decode_url_nopad(private_key) {
                Some(d) => d,
                None => {
                    return Err(KeyError::InvalidBase64);
                },
            },
        };
        if decoded.len() != 32 {
            return Err(KeyError::WrongLength);
        }
        Ok(RealityAuth { private_key_bytes: decoded })
    }

    /// Builds an authenticator around an already-decoded 32-byte key.
    pub fn from_bytes(private_key_bytes: Vec<u8>) -> (r: Self)
        requires
            private_key_bytes@.len() == 32,
        ensures
            r.wf(),
            r.spec_key() == private_key_bytes@,
    {
        RealityAuth { private_key_bytes }
    }

    /// Computes the tag over the first 20 server-random bytes and the client
    /// random.
    pub fn generate_auth_tag(&self, client_random: &Vec<u8>, server_random_20: &Vec<u8>) -> (r:
        Vec<u8>)
        requires
            client_random@.len() == 32,
            server_random_20@.len() == 20,
        ensures
            r@ == spec_auth_tag(self.spec_key(), client_random@, server_random_20@),
            r@.len() == 32,
    {
        let mut msg: Vec<u8> = Vec::new();
        extend_bytes(&mut msg, server_random_20);
        extend_bytes(&mut msg, client_random);
        hmac_sha256_sign(&self.private_key_bytes, &msg)
    }

    /// Replaces the last 12 bytes of a 32-byte random with the leading 12
    /// tag bytes; the first 20 bytes pass through unchanged.
    pub fn inject_auth_into_random(&self, original_random: &Vec<u8>, client_random: &Vec<u8>) -> (r:
        Vec<u8>)
        requires
            original_random@.len() == 32,
            client_random@.len() == 32,
        ensures
            r@.len() == 32,
            r@.subrange(0, 20) == original_random@.subrange(0, 20),
            r@.subrange(20, 32) == spec_auth_tag(
                self.spec_key(),
                client_random@,
                original_random@.subrange(0, 20),
            ).subrange(0, 12),
    {
        let head = sub_vec(original_random, 0, 20);
        let tag = self.generate_auth_tag(client_random, &head);
        let mut r = head;
        let tag_head = sub_vec(&tag, 0, 12);
        extend_bytes(&mut r, &tag_head);
        proof {
            assert(r@.subrange(0, 20) =~= original_random@.subrange(0, 20));
            assert(r@.subrange(20, 32) =~= tag@.subrange(0, 12));
        }
        r
    }

    /// Checks a session-id carrier against the leading tag bytes of
    /// HMAC over the client random, comparing in constant time over at most
    /// 8 bytes.
    pub fn verify_client_auth(&self, client_random: &Vec<u8>, session_id: &Vec<u8>) -> (r: bool)
        ensures
            r == (session_id@.len() > 0 && {
                let m = if session_id@.len() < 8 {
                    session_id@.len() as int
                } else {
                    8
                };
                hmac_sha256(self.spec_key(), client_random@).subrange(0, m) == session_id@.subrange(
                    0,
                    m,
                )
            }),
    {
        if session_id.len() == 0 {
            return false;
        }
        let signature = hmac_sha256_sign(&self.private_key_bytes, client_random);
        let compare_len: usize = if session_id.len() < 8 {
            session_id.len()
        } else {
            8
        };
        let mut diff: u8 = 0;
        let mut i: usize = 0;
        while i < compare_len
            invariant
                i <= compare_len,
                compare_len <= 8,
                compare_len <= session_id@.len(),
                signature@.len() == 32,
                diff == 0 <==> forall|j: int| 0 <= j < i ==> signature@[j] == session_id@[j],
            decreases compare_len - i,
        {
            let ghost before = diff;
            diff = diff | (signature[i] ^ session_id[i]);
            proof {
                lemma_or_xor_zero(before, signature@[i as int], session_id@[i as int]);
            }
            i = i + 1;
        }
        let equal = diff == 0;
        proof {
            let m = compare_len as int;
            if equal {
                assert(signature@.subrange(0, m) =~= session_id@.subrange(0, m));
            } else {
                let j = choose|j: int| 0 <= j < m && signature@[j] != session_id@[j];
                assert(signature@.subrange(0, m)[j] != session_id@.subrange(0, m)[j]);
            }
        }
        equal
    }
}

/// Folding a byte comparison into an accumulator with OR of XOR stays zero
/// exactly when the accumulator was zero and the bytes agree.
proof fn lemma_or_xor_zero(acc: u8, a: u8, b: u8)
    ensures
        (acc | (a ^ b)) == 0 <==> acc == 0 && a == b,
{
    assert((acc | (a ^ b)) == 0 <==> acc == 0 && a == b) by (bit_vector);
}

/// Why a ServerHello could not be modified.
#[derive(Clone, Copy, PartialEq, Eq, Structural, Debug)]
pub enum HelloError {
    /// Fewer than 38 bytes: no room for the random field.
    TooShort,
    /// The first byte is not the ServerHello handshake type.
    NotServerHello,
}

/// Rewrites the random field of an encoded ServerHello in place.
pub struct ServerHelloModifier {
    auth: RealityAuth,
}

impl ServerHelloModifier {
    /// The underlying authenticator's key.
    pub closed spec fn spec_key(&self) -> Seq<u8> {
        self.auth.spec_key()
    }

    /// The authenticator is well formed.
    pub closed spec fn wf(&self) -> bool {
        self.auth.wf()
    }

    /// Builds a modifier from the base64 private key.
    pub fn new(private_key: &str) -> (r: Result<Self, KeyError>)
        ensures
            match r {
                Ok(m) => m.wf() && m.spec_key().len() == 32 && spec_decoded_key(private_key@)
                    == Some(m.spec_key()),
                Err(KeyError::InvalidBase64) => spec_decoded_key(private_key@) is None,
                Err(KeyError::WrongLength) => spec_decoded_key(private_key@) matches Some(d)
                    && d.len() != 32,
            },
    {
        Ok(ServerHelloModifier { auth: RealityAuth::new(private_key)? })
    }

    /// Overwrites bytes 26 to 38 of the handshake message — the tail of the
    /// random field at offset 6 — with the authentication tag.
    pub fn modify_server_hello(
        &self,
        server_hello_data: &mut Vec<u8>,
        client_random: &Vec<u8>,
    ) -> (r: Result<(), HelloError>)
        requires
            client_random@.len() == 32,
        ensures
            match r {
                Ok(()) => {
                    &&& old(server_hello_data)@.len() >= 38
                    &&& old(server_hello_data)@[0] == 2
                    &&& final(server_hello_data)@.len() == old(server_hello_data)@.len()
                    &&& final(server_hello_data)@.subrange(0, 26)
                        == old(server_hello_data)@.subrange(0, 26)
                    &&& final(server_hello_data)@.subrange(26, 38) == spec_auth_tag(
                        self.spec_key(),
                        client_random@,
                        old(server_hello_data)@.subrange(6, 26),
                    ).subrange(0, 12)
                    &&& final(server_hello_data)@.subrange(
                        38,
                        final(server_hello_data)@.len() as int,
                    ) == old(server_hello_data)@.subrange(38, old(server_hello_data)@.len() as int)
                },
                Err(HelloError::TooShort) => old(server_hello_data)@.len() < 38
                    && final(server_hello_data)@ == old(server_hello_data)@,
                Err(HelloError::NotServerHello) => old(server_hello_data)@.len() >= 38
                    && old(server_hello_data)@[0] != 2
                    && final(server_hello_data)@ == old(server_hello_data)@,
            },
    {
        if server_hello_data.len() < 38 {
            return Err(HelloError::TooShort);
        }
        if server_hello_data[0] != 2 {
            return Err(HelloError::NotServerHello);
        }
        let original_random = sub_vec(server_hello_data, 6, 38);
        let modified = self.auth.inject_auth_into_random(&original_random, client_random);
        let mut i: usize = 0;
        while i < 32
            invariant
                i <= 32,
                server_hello_data@.len() == old(server_hello_data)@.len() >= 38,
                modified@.len() == 32,
                forall|j: int|
                    0 <= j < server_hello_data@.len() && !(6 <= j < 6 + i)
                        ==> server_hello_data@[j] == old(server_hello_data)@[j],
                forall|j: int| 6 <= j < 6 + i ==> server_hello_data@[j] == modified@[j - 6],
            decreases 32 - i,
        {
            let b = modified[i];
            server_hello_data.set(6 + i, b);
            i = i + 1;
        }
        proof {
            let tag = spec_auth_tag(
                self.spec_key(),
                client_random@,
                original_random@.subrange(0, 20),
            );
            assert(original_random@ =~= old(server_hello_data)@.subrange(6, 38));
            assert(original_random@.subrange(0, 20) =~= old(server_hello_data)@.subrange(6, 26));
            assert forall|j: int| 0 <= j < 26 implies server_hello_data@[j]
                == old(server_hello_data)@[j] by {
                if 6 <= j {
                    assert(server_hello_data@[j] == modified@[j - 6]);
                    assert(modified@.subrange(0, 20)[j - 6] == original_random@.subrange(0, 20)[j
                        - 6]);
                    assert(original_random@[j - 6] == old(server_hello_data)@[j]);
                }
            }
            assert(server_hello_data@.subrange(0, 26) =~= old(server_hello_data)@.subrange(0, 26));
            assert forall|j: int| 26 <= j < 38 implies server_hello_data@[j] == tag.subrange(
                0,
                12,
            )[j - 26] by {
                assert(server_hello_data@[j] == modified@[j - 6]);
                assert(modified@.subrange(20, 32)[j - 26] == tag.subrange(0, 12)[j - 26]);
            }
            assert(server_hello_data@.subrange(26, 38) =~= tag.subrange(0, 12));
            assert(server_hello_data@.subrange(38, server_hello_data@.len() as int)
                =~= old(server_hello_data)@.subrange(38, old(server_hello_data)@.len() as int));
        }
        Ok(())
    }
}

} // verus!
