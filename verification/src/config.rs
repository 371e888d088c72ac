//! Server configuration for the Reality layer: the pre-shared X25519 private
//! key and the destination whose certificate camouflages this server.

use vstd::prelude::*;

use crate::auth::{spec_decoded_key, KeyError};
use crate::crypto::{base64_decode_standard, base64_decode_url_nopad};

verus! {

/// Immutable Reality settings, fixed at load time.
pub struct RealityConfig {
    /// The decoded 32-byte X25519 private key.
    pub private_key: Vec<u8>,
    /// The `host` or `host:port` whose certificate is fetched and replayed.
    pub dest: Vec<u8>,
}

impl RealityConfig {
    /// The private key has its full length.
    pub open spec fn wf(&self) -> bool {
        self.private_key@.len() == 32
    }

    /// Decodes the base64 private key and keeps the destination.
    pub fn new(private_key: &str, dest: Vec<u8>) -> (r: Result<Self, KeyError>)
        ensures
            match r {
                Ok(c) => c.wf() && spec_decoded_key(private_key@) == Some(c.private_key@) && c.dest@
                    == dest@,
                Err(KeyError::InvalidBase64) => spec_decoded_key(private_key@) is None,
                Err(KeyError::WrongLength) => spec_decoded_key(private_key@) matches Some(d)
                    && d.len() != 32,
            },
    {
        let decoded = match base64_decode_standard(private_key) {
            Some(d) => d,
            None => match base64_decode_url_nopad(private_key) {
                Some(d) => d,
                None => {
                    return Err(KeyError::InvalidBase64);
                },
            },
        };
        if decoded.len() != 32 {
            return Err(KeyError::WrongLength);
        }
        Ok(RealityConfig { private_key: decoded, dest })
    }
}

} // verus!
