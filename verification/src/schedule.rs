//! The TLS 1.3 key schedule for TLS_AES_128_GCM_SHA256: HKDF over
//! HMAC-SHA-256, the `HkdfLabel` wrapping with its `"tls13 "` prefix, and the
//! derivation of handshake and application traffic keys.

use vstd::prelude::*;

use crate::crypto::{hmac_sha256, hmac_sha256_sign, sha256, sha256_digest};
use crate::encoding::{be16_bytes, extend_bytes, put_u16};

verus! {

/// A sequence of `n` zero bytes.
pub open spec fn zeros(n: nat) -> Seq<u8> {
    Seq::new(n, |i: int| 0u8)
}

/// HKDF-Extract is HMAC of the keying material under the salt.
pub open spec fn hkdf_extract(salt: Seq<u8>, ikm: Seq<u8>) -> Seq<u8> {
    hmac_sha256(salt, ikm)
}

/// The first block of HKDF-Expand: HMAC of `info` followed by a 0x01 counter.
pub open spec fn hkdf_expand_block(prk: Seq<u8>, info: Seq<u8>) -> Seq<u8> {
    hmac_sha256(prk, info + seq![1u8])
}

/// HKDF-Expand truncated to `len` bytes, for outputs of at most one block.
pub open spec fn spec_hkdf_expand(prk: Seq<u8>, info: Seq<u8>, len: nat) -> Seq<u8> {
    hkdf_expand_block(prk, info).subrange(0, len as int)
}

/// Extracts a pseudorandom key, as ring's HKDF does with the given salt.
pub fn hkdf_extract_bytes(salt: &Vec<u8>, ikm: &Vec<u8>) -> (r: Vec<u8>)
    ensures
        r@ == hkdf_extract(salt@, ikm@),
        r@.len() == 32,
{
    hmac_sha256_sign(salt, ikm)
}

/// Expands a pseudorandom key to at most one hash block of output.
pub fn hkdf_expand(prk: &Vec<u8>, info: &Vec<u8>, len: usize) -> (r: Vec<u8>)
    requires
        len <= 32,
    ensures
        r@ == spec_hkdf_expand(prk@, info@, len as nat),
        r@.len() == len,
{
    let mut msg: Vec<u8> = Vec::new();
    extend_bytes(&mut msg, info);
    msg.push(1);
    assert(msg@ =~= info@ + seq![1u8]);
    let mut block = hmac_sha256_sign(prk, &msg);
    block.truncate(len);
    block
}

/// The labels used by this key schedule.
pub enum HkdfLabel {
    /// `"derived"`
    Derived,
    /// `"c hs traffic"`
    ClientHsTraffic,
    /// `"s hs traffic"`
    ServerHsTraffic,
    /// `"c ap traffic"`
    ClientApTraffic,
    /// `"s ap traffic"`
    ServerApTraffic,
    /// `"key"`
    Key,
    /// `"iv"`
    Iv,
    /// `"finished"`
    Finished,
}

/// The ASCII bytes of a label.
pub open spec fn label_text(l: HkdfLabel) -> Seq<u8> {
    match l {
        HkdfLabel::Derived => seq![0x64u8, 0x65, 0x72, 0x69, 0x76, 0x65, 0x64],
        HkdfLabel::ClientHsTraffic => seq![
            0x63u8,
            0x20,
            0x68,
            0x73,
            0x20,
            0x74,
            0x72,
            0x61,
            0x66,
            0x66,
            0x69,
            0x63,
        ],
        HkdfLabel::ServerHsTraffic => seq![
            0x73u8,
            0x20,
            0x68,
            0x73,
            0x20,
            0x74,
            0x72,
            0x61,
            0x66,
            0x66,
            0x69,
            0x63,
        ],
        HkdfLabel::ClientApTraffic => seq![
            0x63u8,
            0x20,
            0x61,
            0x70,
            0x20,
            0x74,
            0x72,
            0x61,
            0x66,
            0x66,
            0x69,
            0x63,
        ],
        HkdfLabel::ServerApTraffic => seq![
            0x73u8,
            0x20,
            0x61,
            0x70,
            0x20,
            0x74,
            0x72,
            0x61,
            0x66,
            0x66,
            0x69,
            0x63,
        ],
        HkdfLabel::Key => seq![0x6bu8, 0x65, 0x79],
        HkdfLabel::Iv => seq![0x69u8, 0x76],
        HkdfLabel::Finished => seq![0x66u8, 0x69, 0x6e, 0x69, 0x73, 0x68, 0x65, 0x64],
    }
}

/// The ASCII bytes of `"tls13 "`, prefixed to every label.
pub open spec fn tls13_prefix() -> Seq<u8> {
    seq![0x74u8, 0x6c, 0x73, 0x31, 0x33, 0x20]
}

/// The `HkdfLabel` structure: output length, prefixed label, context.
pub open spec fn spec_label_info(l: HkdfLabel, context: Seq<u8>, out_len: u16) -> Seq<u8> {
    be16_bytes(out_len) + seq![(6 + label_text(l).len()) as u8] + tls13_prefix() + label_text(l)
        + seq![context.len() as u8] + context
}

/// HKDF-Expand-Label of TLS 1.3.
pub open spec fn spec_expand_label(
    secret: Seq<u8>,
    l: HkdfLabel,
    context: Seq<u8>,
    out_len: u16,
) -> Seq<u8> {
    spec_hkdf_expand(secret, spec_label_info(l, context, out_len), out_len as nat)
}

/// The ASCII bytes of a label, as a vector.
fn label_vec(l: &HkdfLabel) -> (r: Vec<u8>)
    ensures
        r@ == label_text(*l),
{
    let mut v: Vec<u8> = Vec::new();
    match l {
        HkdfLabel::Derived => {
            v.push(0x64);
            v.push(0x65);
            v.push(0x72);
            v.push(0x69);
            v.push(0x76);
            v.push(0x65);
            v.push(0x64);
        },
        HkdfLabel::ClientHsTraffic => {
            v.push(0x63);
            v.push(0x20);
            v.push(0x68);
            v.push(0x73);
            v.push(0x20);
            v.push(0x74);
            v.push(0x72);
            v.push(0x61);
            v.push(0x66);
            v.push(0x66);
            v.push(0x69);
            v.push(0x63);
        },
        HkdfLabel::ServerHsTraffic => {
            v.push(0x73);
            v.push(0x20);
            v.push(0x68);
            v.push(0x73);
            v.push(0x20);
            v.push(0x74);
            v.push(0x72);
            v.push(0x61);
            v.push(0x66);
            v.push(0x66);
            v.push(0x69);
            v.push(0x63);
        },
        HkdfLabel::ClientApTraffic => {
            v.push(0x63);
            v.push(0x20);
            v.push(0x61);
            v.push(0x70);
            v.push(0x20);
            v.push(0x74);
            v.push(0x72);
            v.push(0x61);
            v.push(0x66);
            v.push(0x66);
            v.push(0x69);
            v.push(0x63);
        },
        HkdfLabel::ServerApTraffic => {
            v.push(0x73);
            v.push(0x20);
            v.push(0x61);
            v.push(0x70);
            v.push(0x20);
            v.push(0x74);
            v.push(0x72);
            v.push(0x61);
            v.push(0x66);
            v.push(0x66);
            v.push(0x69);
            v.push(0x63);
        },
        HkdfLabel::Key => {
            v.push(0x6b);
            v.push(0x65);
            v.push(0x79);
        },
        HkdfLabel::Iv => {
            v.push(0x69);
            v.push(0x76);
        },
        HkdfLabel::Finished => {
            v.push(0x66);
            v.push(0x69);
            v.push(0x6e);
            v.push(0x69);
            v.push(0x73);
            v.push(0x68);
            v.push(0x65);
            v.push(0x64);
        },
    }
    assert(v@ =~= label_text(*l));
    v
}

/// HKDF-Expand-Label: expands `secret` under a prefixed label and context.
pub fn hkdf_expand_label(secret: &Vec<u8>, l: &HkdfLabel, context: &Vec<u8>, out_len: usize) -> (r:
    Vec<u8>)
    requires
        out_len <= 32,
        context@.len() <= 255,
    ensures
        r@ == spec_expand_label(secret@, *l, context@, out_len as u16),
        r@.len() == out_len,
{
    let label = label_vec(l);
    let mut info: Vec<u8> = Vec::new();
    put_u16(&mut info, out_len as u16);
    info.push((6 + label.len()) as u8);
    info.push(0x74);
    info.push(0x6c);
    info.push(0x73);
    info.push(0x31);
    info.push(0x33);
    info.push(0x20);
    extend_bytes(&mut info, &label);
    info.push(context.len() as u8);
    extend_bytes(&mut info, context);
    assert(info@ =~= spec_label_info(*l, context@, out_len as u16));
    hkdf_expand(secret, &info, out_len)
}

/// The early secret of a handshake without a pre-shared key.
pub open spec fn spec_early_secret() -> Seq<u8> {
    hkdf_extract(seq![], zeros(32))
}

/// The `"derived"` expansion of a secret over the hash of the empty string.
pub open spec fn spec_derived_from(secret: Seq<u8>) -> Seq<u8> {
    spec_expand_label(secret, HkdfLabel::Derived, sha256(seq![]), 32)
}

/// The handshake secret extracted from the ECDH shared secret.
pub open spec fn spec_handshake_secret(shared: Seq<u8>) -> Seq<u8> {
    hkdf_extract(spec_derived_from(spec_early_secret()), shared)
}

/// The master secret extracted below the handshake secret.
pub open spec fn spec_master_secret(handshake_secret: Seq<u8>) -> Seq<u8> {
    hkdf_extract(spec_derived_from(handshake_secret), zeros(32))
}

/// The AEAD key of a traffic secret.
pub open spec fn spec_key_of(secret: Seq<u8>) -> Seq<u8> {
    spec_expand_label(secret, HkdfLabel::Key, seq![], 16)
}

/// The AEAD IV of a traffic secret.
pub open spec fn spec_iv_of(secret: Seq<u8>) -> Seq<u8> {
    spec_expand_label(secret, HkdfLabel::Iv, seq![], 12)
}

/// One direction's traffic secret with its expanded AEAD key and IV, for both
/// directions of a connection.
pub struct TlsKeys {
    /// Client-to-server traffic secret (32 bytes).
    pub client_secret: Vec<u8>,
    /// Server-to-client traffic secret (32 bytes).
    pub server_secret: Vec<u8>,
    /// Client write key (16 bytes).
    pub client_key: Vec<u8>,
    /// Server write key (16 bytes).
    pub server_key: Vec<u8>,
    /// Client write IV (12 bytes).
    pub client_iv: Vec<u8>,
    /// Server write IV (12 bytes).
    pub server_iv: Vec<u8>,
}

impl TlsKeys {
    /// Field lengths, and keys and IVs expanded from the traffic secrets.
    pub open spec fn wf(&self) -> bool {
        &&& self.client_secret@.len() == 32
        &&& self.server_secret@.len() == 32
        &&& self.client_key@ == spec_key_of(self.client_secret@)
        &&& self.server_key@ == spec_key_of(self.server_secret@)
        &&& self.client_iv@ == spec_iv_of(self.client_secret@)
        &&& self.server_iv@ == spec_iv_of(self.server_secret@)
        &&& self.client_key@.len() == 16
        &&& self.server_key@.len() == 16
        &&& self.client_iv@.len() == 12
        &&& self.server_iv@.len() == 12
    }

    /// Expands a pair of traffic secrets into their keys and IVs.
    pub fn from_secrets(client_secret: Vec<u8>, server_secret: Vec<u8>) -> (r: TlsKeys)
        requires
            client_secret@.len() == 32,
            server_secret@.len() == 32,
        ensures
            r.wf(),
            r.client_secret == client_secret,
            r.server_secret == server_secret,
    {
        let empty: Vec<u8> = Vec::new();
        let client_key = hkdf_expand_label(&client_secret, &HkdfLabel::Key, &empty, 16);
        let server_key = hkdf_expand_label(&server_secret, &HkdfLabel::Key, &empty, 16);
        let client_iv = hkdf_expand_label(&client_secret, &HkdfLabel::Iv, &empty, 12);
        let server_iv = hkdf_expand_label(&server_secret, &HkdfLabel::Iv, &empty, 12);
        TlsKeys { client_secret, server_secret, client_key, server_key, client_iv, server_iv }
    }

    /// Runs the key schedule down to the handshake traffic keys, returning
    /// them together with the handshake secret.
    pub fn derive_handshake_keys(shared_secret: &Vec<u8>, hello_hash: &Vec<u8>) -> (r: (
        TlsKeys,
        Vec<u8>,
    ))
        requires
            hello_hash@.len() == 32,
        ensures
            r.1@ == spec_handshake_secret(shared_secret@),
            r.1@.len() == 32,
            r.0.wf(),
            r.0.client_secret@ == spec_expand_label(
                r.1@,
                HkdfLabel::ClientHsTraffic,
                hello_hash@,
                32,
            ),
            r.0.server_secret@ == spec_expand_label(
                r.1@,
                HkdfLabel::ServerHsTraffic,
                hello_hash@,
                32,
            ),
    {
        let empty: Vec<u8> = Vec::new();
        let zero_ikm = zero_vec(32);
        let early = hkdf_extract_bytes(&empty, &zero_ikm);
        let empty_hash = sha256_digest(&empty);
        let derived = hkdf_expand_label(&early, &HkdfLabel::Derived, &empty_hash, 32);
        let handshake_secret = hkdf_extract_bytes(&derived, shared_secret);
        let client_secret = hkdf_expand_label(
            &handshake_secret,
            &HkdfLabel::ClientHsTraffic,
            hello_hash,
            32,
        );
        let server_secret = hkdf_expand_label(
            &handshake_secret,
            &HkdfLabel::ServerHsTraffic,
            hello_hash,
            32,
        );
        let keys = TlsKeys::from_secrets(client_secret, server_secret);
        (keys, handshake_secret)
    }

    /// Runs the key schedule from the handshake secret down to the
    /// application traffic keys over the given transcript hash.
    pub fn derive_application_keys(handshake_secret: &Vec<u8>, transcript_hash: &Vec<u8>) -> (r:
        TlsKeys)
        requires
            transcript_hash@.len() == 32,
        ensures
            r.wf(),
            r.client_secret@ == spec_expand_label(
                spec_master_secret(handshake_secret@),
                HkdfLabel::ClientApTraffic,
                transcript_hash@,
                32,
            ),
            r.server_secret@ == spec_expand_label(
                spec_master_secret(handshake_secret@),
                HkdfLabel::ServerApTraffic,
                transcript_hash@,
                32,
            ),
    {
        let empty: Vec<u8> = Vec::new();
        let empty_hash = sha256_digest(&empty);
        let derived = hkdf_expand_label(handshake_secret, &HkdfLabel::Derived, &empty_hash, 32);
        let zero_ikm = zero_vec(32);
        let master = hkdf_extract_bytes(&derived, &zero_ikm);
        let client_secret = hkdf_expand_label(
            &master,
            &HkdfLabel::ClientApTraffic,
            transcript_hash,
            32,
        );
        let server_secret = hkdf_expand_label(
            &master,
            &HkdfLabel::ServerApTraffic,
            transcript_hash,
            32,
        );
        TlsKeys::from_secrets(client_secret, server_secret)
    }
}

/// The Finished verify data: HMAC of the transcript hash under the
/// `"finished"` expansion of a traffic secret.
pub open spec fn spec_verify_data(secret: Seq<u8>, transcript_hash: Seq<u8>) -> Seq<u8> {
    hmac_sha256(spec_expand_label(secret, HkdfLabel::Finished, seq![], 32), transcript_hash)
}

/// Computes the Finished verify data of a traffic secret.
pub fn calculate_verify_data(secret: &Vec<u8>, transcript_hash: &Vec<u8>) -> (r: Vec<u8>)
    ensures
        r@ == spec_verify_data(secret@, transcript_hash@),
        r@.len() == 32,
{
    let empty: Vec<u8> = Vec::new();
    let finished_key = hkdf_expand_label(secret, &HkdfLabel::Finished, &empty, 32);
    hmac_sha256_sign(&finished_key, transcript_hash)
}

/// A vector of `n` zero bytes.
pub fn zero_vec(n: usize) -> (r: Vec<u8>)
    ensures
        r@ == zeros(n as nat),
{
    let mut v: Vec<u8> = Vec::new();
    let mut i: usize = 0;
    while i < n
        invariant
            i <= n,
            v@ == zeros(i as nat),
        decreases n - i,
    {
        v.push(0);
        assert(v@ =~= zeros((i + 1) as nat));
        i = i + 1;
    }
    v
}

/// Hashes the concatenation of the given messages with SHA-256.
pub fn hash_transcript(messages: &Vec<Vec<u8>>) -> (r: Vec<u8>)
    ensures
        r@ == sha256(concat_all(messages.deep_view())),
        r@.len() == 32,
{
    let mut acc: Vec<u8> = Vec::new();
    let mut i: usize = 0;
    while i < messages.len()
        invariant
            i <= messages@.len(),
            acc@ == concat_all(messages.deep_view().subrange(0, i as int)),
        decreases messages@.len() - i,
    {
        extend_bytes(&mut acc, &messages[i]);
        proof {
            let dv = messages.deep_view();
            assert(dv.subrange(0, i + 1).drop_last() =~= dv.subrange(0, i as int));
            assert(dv.subrange(0, i + 1).last() == dv[i as int]);
        }
        i = i + 1;
    }
    proof {
        assert(messages.deep_view().subrange(0, messages@.len() as int) =~= messages.deep_view());
    }
    sha256_digest(&acc)
}

/// Concatenation of a sequence of byte sequences, in order.
pub open spec fn concat_all(msgs: Seq<Seq<u8>>) -> Seq<u8>
    decreases msgs.len(),
{
    if msgs.len() == 0 {
        seq![]
    } else {
        concat_all(msgs.drop_last()) + msgs.last()
    }
}

} // verus!
