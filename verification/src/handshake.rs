//! The Reality handshake engine: a server-side TLS 1.3 state machine that
//! parses the ClientHello, answers with an authenticated ServerHello and an
//! encrypted flight, waits for the client Finished, and derives the
//! application traffic keys. The caller performs the socket reads and writes
//! and feeds whole records in.

use vstd::prelude::*;

use crate::auth::{spec_auth_tag, RealityAuth};
use crate::config::RealityConfig;
use crate::crypto::{
    aes128_gcm_open, os_random_bytes, sha256, sha256_digest, x25519_diffie_hellman, x25519_public,
    x25519_public_key, x25519_random_secret, x25519_shared,
};
use crate::encoding::extend_bytes;
use crate::messages::{
    build_ccs_record, build_certificate_verify, build_ee_message, build_empty_certificate,
    build_finished_message, build_server_hello, spec_ccs_record, spec_certificate_verify,
    spec_ee_message, spec_finished_message, spec_handshake_record, spec_parse_client_hello,
    spec_server_hello, wrap_handshake_record, ClientHello, ClientHelloError,
};
use crate::record::{
    spec_inner_split, spec_nonce, spec_seal_record, OpenError, CONTENT_ALERT, CONTENT_APPLICATION,
    CONTENT_CCS,
};
use crate::schedule::{
    spec_expand_label, spec_handshake_secret, spec_master_secret, spec_verify_data, HkdfLabel,
    TlsKeys,
};

verus! {

/// Why a handshake failed; the connection is closed without an alert.
#[derive(Clone, Copy, PartialEq, Eq, Structural, Debug)]
pub enum HandshakeError {
    /// A message or record did not parse.
    MalformedRecord,
    /// The ClientHello offers no X25519 key share.
    NoKeyShare,
    /// A record failed authenticated decryption.
    AeadFailure,
    /// A record of an unexpected outer or inner type.
    UnexpectedMessage,
    /// The peer sent an alert.
    PeerAlert,
}

/// The server random after injection: its first 20 bytes, then the first 12
/// bytes of the authentication tag over them and the client random.
pub open spec fn spec_injected_random(
    key: Seq<u8>,
    client_random: Seq<u8>,
    original: Seq<u8>,
) -> Seq<u8> {
    original.subrange(0, 20) + spec_auth_tag(key, client_random, original.subrange(0, 20)).subrange(
        0,
        12,
    )
}

/// What a correct server flight looks like, given the private key, the
/// ClientHello payload, and the random inputs: the wire bytes are the
/// ServerHello record, the dummy ChangeCipherSpec, and the sealed
/// EncryptedExtensions, Certificate, CertificateVerify and Finished, one
/// record each with server sequence numbers 0 to 3; the keys come from the
/// key schedule over the hello transcript; the final hash covers the
/// transcript through the server Finished.
pub open spec fn spec_flight_ok(
    key: Seq<u8>,
    chp: Seq<u8>,
    server_random: Seq<u8>,
    eph_secret: Seq<u8>,
    cv_signature: Seq<u8>,
    cert_msg: Seq<u8>,
    records: Seq<u8>,
    keys: TlsKeys,
    handshake_secret: Seq<u8>,
    transcript_hash: Seq<u8>,
) -> bool {
    match spec_parse_client_hello(chp) {
        Some((crandom, sid, ks)) => match ks {
            Some(cpk) => {
                let sh = spec_server_hello(
                    spec_injected_random(key, crandom, server_random),
                    sid,
                    x25519_public(eph_secret),
                );
                let hash1 = sha256(chp + sh);
                let ee = spec_ee_message();
                let cv = spec_certificate_verify(cv_signature);
                let hash2 = sha256(chp + sh + ee + cert_msg + cv);
                let fin = spec_finished_message(spec_verify_data(keys.server_secret@, hash2));
                &&& handshake_secret == spec_handshake_secret(x25519_shared(eph_secret, cpk))
                &&& keys.wf()
                &&& keys.client_secret@ == spec_expand_label(
                    handshake_secret,
                    HkdfLabel::ClientHsTraffic,
                    hash1,
                    32,
                )
                &&& keys.server_secret@ == spec_expand_label(
                    handshake_secret,
                    HkdfLabel::ServerHsTraffic,
                    hash1,
                    32,
                )
                &&& records == spec_handshake_record(sh) + spec_ccs_record() + spec_seal_record(
                    keys.server_key@,
                    keys.server_iv@,
                    0,
                    ee,
                    22,
                ) + spec_seal_record(keys.server_key@, keys.server_iv@, 1, cert_msg, 22)
                    + spec_seal_record(keys.server_key@, keys.server_iv@, 2, cv, 22)
                    + spec_seal_record(keys.server_key@, keys.server_iv@, 3, fin, 22)
                &&& transcript_hash == sha256(chp + sh + ee + cert_msg + cv + fin)
            },
            None => false,
        },
        None => false,
    }
}

/// The Certificate message a flight carries: the fetched message when it is
/// usable — non-empty, of Certificate type, and small enough to seal — and
/// the empty-list fallback otherwise, fetch failure included.
pub open spec fn spec_cert_choice(fetched: Option<Seq<u8>>) -> Seq<u8> {
    match fetched {
        Some(c) => if c.len() > 0 && c.len() <= 0x4000 && c[0] == 11 {
            c
        } else {
            crate::messages::spec_empty_certificate()
        },
        None => crate::messages::spec_empty_certificate(),
    }
}

/// Some choice of random inputs under which the flight, with the given
/// Certificate message, is correct: what a caller knows of a flight whose
/// randomness was drawn inside. Only the random inputs are existential; the
/// certificate is pinned.
pub open spec fn spec_flight_exists(
    key: Seq<u8>,
    chp: Seq<u8>,
    cert: Seq<u8>,
    records: Seq<u8>,
    keys: TlsKeys,
    handshake_secret: Seq<u8>,
    transcript_hash: Seq<u8>,
) -> bool {
    exists|sr: Seq<u8>, es: Seq<u8>, sig: Seq<u8>|
        #[trigger] spec_flight_ok(key, chp, sr, es, sig, cert, records, keys, handshake_secret, transcript_hash)
}

/// The server's answer to a ClientHello: the bytes to write and the secrets
/// the rest of the handshake needs.
pub struct ServerFlight {
    /// All record bytes to write, in order.
    pub records: Vec<u8>,
    /// The handshake traffic keys.
    pub keys: TlsKeys,
    /// The handshake secret, kept for the application key derivation.
    pub handshake_secret: Vec<u8>,
    /// The transcript hash through the server Finished.
    pub transcript_hash: Vec<u8>,
}

/// Builds the whole server flight from the ClientHello payload and the given
/// random inputs: deterministic, so its contract pins every byte.
pub fn build_server_flight(
    auth: &RealityAuth,
    client_hello_payload: &Vec<u8>,
    server_random: &Vec<u8>,
    eph_secret: &Vec<u8>,
    cv_signature: &Vec<u8>,
    cert_msg: &Vec<u8>,
) -> (r: Result<ServerFlight, HandshakeError>)
    requires
        auth.wf(),
        server_random@.len() == 32,
        eph_secret@.len() == 32,
        cv_signature@.len() <= 512,
        cert_msg@.len() <= 0x4000,
    ensures
        match r {
            Ok(f) => {
                &&& spec_parse_client_hello(client_hello_payload@) matches Some((_r, sid, ks))
                &&& ks is Some
                &&& sid.len() <= 32
                &&& f.keys.wf()
                &&& f.handshake_secret@.len() == 32
                &&& f.transcript_hash@.len() == 32
                &&& spec_flight_ok(
                    auth.spec_key(),
                    client_hello_payload@,
                    server_random@,
                    eph_secret@,
                    cv_signature@,
                    cert_msg@,
                    f.records@,
                    f.keys,
                    f.handshake_secret@,
                    f.transcript_hash@,
                )
            },
            Err(HandshakeError::MalformedRecord) => spec_parse_client_hello(client_hello_payload@)
                is None || (spec_parse_client_hello(client_hello_payload@) matches Some(
                (_r, sid, _k),
            ) && sid.len() > 32),
            Err(HandshakeError::NoKeyShare) => spec_parse_client_hello(client_hello_payload@)
                matches Some((_r, _s, ks)) && ks is None,
            _ => false,
        },
{
    let ch = match ClientHello::parse(client_hello_payload) {
        Ok(ch) => ch,
        Err(ClientHelloError::Malformed) => {
            return Err(HandshakeError::MalformedRecord);
        },
        Err(ClientHelloError::NoKeyShare) => {
            return Err(HandshakeError::NoKeyShare);
        },
    };
    if ch.session_id.len() > 32 {
        return Err(HandshakeError::MalformedRecord);
    }
    let public_key = x25519_public_key(eph_secret);
    let shared = x25519_diffie_hellman(eph_secret, &ch.key_share);
    let injected = auth.inject_auth_into_random(server_random, &ch.random);
    proof {
        assert(injected@ =~= injected@.subrange(0, 20) + injected@.subrange(20, 32));
        assert(injected@ =~= spec_injected_random(auth.spec_key(), ch.random@, server_random@));
    }
    let sh_msg = build_server_hello(&injected, &ch.session_id, &public_key);
    let ghost chp = client_hello_payload@;
    let ghost sh = spec_server_hello(
        spec_injected_random(auth.spec_key(), ch.random@, server_random@),
        ch.session_id@,
        x25519_public(eph_secret@),
    );

    let mut transcript: Vec<u8> = Vec::new();
    extend_bytes(&mut transcript, client_hello_payload);
    extend_bytes(&mut transcript, &sh_msg);
    proof {
        assert(transcript@ =~= chp + sh);
    }
    let hello_hash = sha256_digest(&transcript);
    let (keys, handshake_secret) = TlsKeys::derive_handshake_keys(&shared, &hello_hash);

    let ee_msg = build_ee_message();
    let cv_msg = build_certificate_verify(cv_signature);
    extend_bytes(&mut transcript, &ee_msg);
    extend_bytes(&mut transcript, cert_msg);
    extend_bytes(&mut transcript, &cv_msg);
    proof {
        assert(transcript@ =~= chp + sh + spec_ee_message() + cert_msg@ + spec_certificate_verify(
            cv_signature@,
        ));
    }
    let hash2 = sha256_digest(&transcript);
    let verify_data = crate::schedule::calculate_verify_data(&keys.server_secret, &hash2);
    let fin_msg = build_finished_message(&verify_data);
    let ghost fin = spec_finished_message(
        spec_verify_data(
            keys.server_secret@,
            sha256(chp + sh + spec_ee_message() + cert_msg@ + spec_certificate_verify(cv_signature@)),
        ),
    );
    extend_bytes(&mut transcript, &fin_msg);
    proof {
        assert(transcript@ =~= chp + sh + spec_ee_message() + cert_msg@ + spec_certificate_verify(
            cv_signature@,
        ) + fin);
    }
    let transcript_hash = sha256_digest(&transcript);

    let mut records = wrap_handshake_record(&sh_msg);
    let ccs = build_ccs_record();
    extend_bytes(&mut records, &ccs);
    let sealed_ee = keys.encrypt_server_record(0, &ee_msg, 22);
    extend_bytes(&mut records, &sealed_ee);
    let sealed_cert = keys.encrypt_server_record(1, cert_msg, 22);
    extend_bytes(&mut records, &sealed_cert);
    let sealed_cv = keys.encrypt_server_record(2, &cv_msg, 22);
    extend_bytes(&mut records, &sealed_cv);
    let sealed_fin = keys.encrypt_server_record(3, &fin_msg, 22);
    extend_bytes(&mut records, &sealed_fin);

    proof {
        assert(records@ =~= spec_handshake_record(sh) + spec_ccs_record() + spec_seal_record(
            keys.server_key@,
            keys.server_iv@,
            0,
            spec_ee_message(),
            22,
        ) + spec_seal_record(keys.server_key@, keys.server_iv@, 1, cert_msg@, 22)
            + spec_seal_record(
            keys.server_key@,
            keys.server_iv@,
            2,
            spec_certificate_verify(cv_signature@),
            22,
        ) + spec_seal_record(keys.server_key@, keys.server_iv@, 3, fin, 22));
    }
    Ok(ServerFlight { records, keys, handshake_secret, transcript_hash })
}

/// What one client record means while waiting for the client Finished.
pub enum RecordVerdict {
    /// A ChangeCipherSpec record, skipped without effect.
    Skip,
    /// The decrypted client Finished message.
    Finished(Vec<u8>),
}

/// Classifies one record from the client between the server flight and the
/// client Finished, decrypting application-data records at the given
/// client sequence number.
pub fn process_client_record(
    keys: &TlsKeys,
    n: u64,
    outer_type: u8,
    header: &Vec<u8>,
    ciphertext: &Vec<u8>,
) -> (r: Result<RecordVerdict, HandshakeError>)
    requires
        keys.wf(),
    ensures
        ({
            let opened = aes128_gcm_open(
                keys.client_key@,
                spec_nonce(keys.client_iv@, n),
                header@,
                ciphertext@,
            );
            match r {
                Ok(RecordVerdict::Skip) => outer_type == 20,
                Ok(RecordVerdict::Finished(content)) => {
                    &&& outer_type == 23
                    &&& opened matches Some(p)
                    &&& p.len() > 0
                    &&& spec_inner_split(p).0 == 22
                    &&& content@ == spec_inner_split(p).1
                    &&& content@.len() > 0
                    &&& content@[0] == 20
                },
                Err(HandshakeError::PeerAlert) => outer_type == 21 || (outer_type == 23 && (opened
                    matches Some(p) && p.len() > 0 && spec_inner_split(p).0 == 21)),
                Err(HandshakeError::AeadFailure) => outer_type == 23 && (opened is None || opened
                    == Some(Seq::<u8>::empty())),
                Err(HandshakeError::UnexpectedMessage) => outer_type != 20 && outer_type != 21
                    && (outer_type != 23 || (opened matches Some(p) && p.len() > 0 && {
                    let (t, content) = spec_inner_split(p);
                    t != 21 && (t != 22 || content.len() == 0 || content[0] != 20)
                })),
                _ => false,
            }
        }),
{
    if outer_type == CONTENT_CCS {
        return Ok(RecordVerdict::Skip);
    }
    if outer_type == CONTENT_ALERT {
        return Err(HandshakeError::PeerAlert);
    }
    if outer_type != CONTENT_APPLICATION {
        return Err(HandshakeError::UnexpectedMessage);
    }
    match keys.decrypt_client_record(n, header, ciphertext) {
        Err(OpenError::AeadFailure) => Err(HandshakeError::AeadFailure),
        Err(OpenError::EmptyPlaintext) => Err(HandshakeError::AeadFailure),
        Ok((inner_type, content)) => {
            if inner_type == 21 {
                Err(HandshakeError::PeerAlert)
            } else if inner_type == 22 && content.len() > 0 && content[0] == 20 {
                Ok(RecordVerdict::Finished(content))
            } else {
                Err(HandshakeError::UnexpectedMessage)
            }
        },
    }
}

/// The states of the server-side handshake.
#[derive(Clone, Copy, PartialEq, Eq, Structural, Debug)]
pub enum HandshakeState {
    /// Waiting for the ClientHello.
    WaitClientHello,
    /// Flight sent; waiting for the client Finished.
    RecvClientFinished,
    /// Application keys derived; the tunnel is up.
    AppReady,
    /// Failed; the socket is closed without an alert.
    Dead,
}

/// Drives the Reality handshake over whole records. The caller reads and
/// writes the socket; the engine decides and derives.
pub struct RealityHandshake {
    config: RealityConfig,
    state: HandshakeState,
    keys: Option<TlsKeys>,
    handshake_secret: Vec<u8>,
    transcript_hash: Vec<u8>,
    client_seq: u64,
}

impl RealityHandshake {
    /// The current state.
    pub closed spec fn spec_state(&self) -> HandshakeState {
        self.state
    }

    /// The configured private key.
    pub closed spec fn spec_key(&self) -> Seq<u8> {
        self.config.private_key@
    }

    /// The handshake traffic keys, once the flight is sent.
    pub closed spec fn spec_keys(&self) -> Option<TlsKeys> {
        self.keys
    }

    /// The stored handshake secret.
    pub closed spec fn spec_handshake_secret(&self) -> Seq<u8> {
        self.handshake_secret@
    }

    /// The stored transcript hash through the server Finished.
    pub closed spec fn spec_transcript_hash(&self) -> Seq<u8> {
        self.transcript_hash@
    }

    /// The configuration is sound and the stored material matches the state.
    pub closed spec fn wf(&self) -> bool {
        &&& self.config.wf()
        &&& self.state == HandshakeState::RecvClientFinished ==> {
            &&& self.keys matches Some(k) && k.wf()
            &&& self.handshake_secret@.len() == 32
            &&& self.transcript_hash@.len() == 32
            &&& self.client_seq == 0
        }
    }

    /// Starts a handshake in the waiting state.
    pub fn new(config: RealityConfig) -> (r: Self)
        requires
            config.wf(),
        ensures
            r.wf(),
            r.spec_state() == HandshakeState::WaitClientHello,
            r.spec_key() == config.private_key@,
    {
        RealityHandshake {
            config,
            state: HandshakeState::WaitClientHello,
            keys: None,
            handshake_secret: Vec::new(),
            transcript_hash: Vec::new(),
            client_seq: 0,
        }
    }

    /// Answers the ClientHello: draws the server random, an ephemeral X25519
    /// secret and a placeholder signature, picks the fetched certificate
    /// message when it is usable and the empty fallback otherwise, and
    /// returns the whole flight to write. Success depends only on the
    /// ClientHello: it must parse, carry an X25519 share, and echo a session
    /// id of at most 32 bytes.
    pub fn on_client_hello(
        &mut self,
        client_hello_payload: &Vec<u8>,
        fetched_cert: Option<&Vec<u8>>,
    ) -> (r: Result<Vec<u8>, HandshakeError>)
        requires
            old(self).wf(),
            old(self).spec_state() == HandshakeState::WaitClientHello,
        ensures
            final(self).wf(),
            final(self).spec_key() == old(self).spec_key(),
            match r {
                Ok(bytes) => {
                    &&& final(self).spec_state() == HandshakeState::RecvClientFinished
                    &&& final(self).spec_keys() matches Some(k) && spec_flight_exists(
                        old(self).spec_key(),
                        client_hello_payload@,
                        spec_cert_choice(
                            match fetched_cert {
                                Some(c) => Some(c@),
                                None => None,
                            },
                        ),
                        bytes@,
                        k,
                        final(self).spec_handshake_secret(),
                        final(self).spec_transcript_hash(),
                    )
                },
                Err(_) => final(self).spec_state() == HandshakeState::Dead,
            },
            r is Ok <==> (spec_parse_client_hello(client_hello_payload@) matches Some(
                (_r, sid, ks),
            ) && ks is Some && sid.len() <= 32),
    {
        let server_random = os_random_bytes(32);
        let eph_secret = x25519_random_secret();
        let cv_signature = os_random_bytes(64);
        let empty_cert = build_empty_certificate();
        let cert_msg: &Vec<u8> = match fetched_cert {
            Some(c) => if c.len() > 0 && c.len() <= 0x4000 {
                let b = c[0];
                if b == 11 {
                    c
                } else {
                    &empty_cert
                }
            } else {
                &empty_cert
            },
            None => &empty_cert,
        };
        let auth = RealityAuth::from_bytes(crate::encoding::sub_vec(
            &self.config.private_key,
            0,
            32,
        ));
        match build_server_flight(
            &auth,
            client_hello_payload,
            &server_random,
            &eph_secret,
            &cv_signature,
            cert_msg,
        ) {
            Ok(flight) => {
                let ServerFlight { records, keys, handshake_secret, transcript_hash } = flight;
                let ghost gk = keys;
                self.keys = Some(keys);
                self.handshake_secret = handshake_secret;
                self.transcript_hash = transcript_hash;
                self.client_seq = 0;
                self.state = HandshakeState::RecvClientFinished;
                proof {
                    assert(self.config.private_key@.subrange(0, 32) =~= self.config.private_key@);
                    assert(cert_msg@ == spec_cert_choice(
                        match fetched_cert {
                            Some(c) => Some(c@),
                            None => None,
                        },
                    ));
                    assert(spec_flight_ok(
                        old(self).spec_key(),
                        client_hello_payload@,
                        server_random@,
                        eph_secret@,
                        cv_signature@,
                        cert_msg@,
                        records@,
                        gk,
                        self.spec_handshake_secret(),
                        self.spec_transcript_hash(),
                    ));
                    assert(spec_flight_exists(
                        old(self).spec_key(),
                        client_hello_payload@,
                        cert_msg@,
                        records@,
                        gk,
                        self.spec_handshake_secret(),
                        self.spec_transcript_hash(),
                    ));
                }
                Ok(records)
            },
            Err(e) => {
                self.state = HandshakeState::Dead;
                Err(e)
            },
        }
    }

    /// Feeds one record received while waiting for the client Finished.
    /// ChangeCipherSpec is skipped; the Finished record, client sequence 0,
    /// completes the handshake and yields the application keys, derived over
    /// the transcript through the server Finished.
    pub fn on_client_record(
        &mut self,
        outer_type: u8,
        header: &Vec<u8>,
        ciphertext: &Vec<u8>,
    ) -> (r: Result<Option<TlsKeys>, HandshakeError>)
        requires
            old(self).wf(),
            old(self).spec_state() == HandshakeState::RecvClientFinished,
        ensures
            final(self).wf(),
            r matches Ok(None) <==> outer_type == CONTENT_CCS,
            r matches Ok(Some(_)) <==> (outer_type == CONTENT_APPLICATION && (old(
                self,
            ).spec_keys() matches Some(k) && (aes128_gcm_open(
                k.client_key@,
                spec_nonce(k.client_iv@, 0),
                header@,
                ciphertext@,
            ) matches Some(p) && p.len() > 0 && spec_inner_split(p).0 == 22 && spec_inner_split(
                p,
            ).1.len() > 0 && spec_inner_split(p).1[0] == 20))),
            match r {
                Ok(None) => final(self).spec_state() == HandshakeState::RecvClientFinished,
                Ok(Some(app_keys)) => {
                    &&& final(self).spec_state() == HandshakeState::AppReady
                    &&& app_keys.wf()
                    &&& app_keys.client_secret@ == spec_expand_label(
                        spec_master_secret(old(self).spec_handshake_secret()),
                        HkdfLabel::ClientApTraffic,
                        old(self).spec_transcript_hash(),
                        32,
                    )
                    &&& app_keys.server_secret@ == spec_expand_label(
                        spec_master_secret(old(self).spec_handshake_secret()),
                        HkdfLabel::ServerApTraffic,
                        old(self).spec_transcript_hash(),
                        32,
                    )
                },
                Err(_) => final(self).spec_state() == HandshakeState::Dead,
            },
    {
        let keys = match &self.keys {
            Some(k) => k,
            None => {
                self.state = HandshakeState::Dead;
                return Err(HandshakeError::UnexpectedMessage);
            },
        };
        match process_client_record(keys, self.client_seq, outer_type, header, ciphertext) {
            Ok(RecordVerdict::Skip) => Ok(None),
            Ok(RecordVerdict::Finished(_content)) => {
                let app_keys = TlsKeys::derive_application_keys(
                    &self.handshake_secret,
                    &self.transcript_hash,
                );
                self.state = HandshakeState::AppReady;
                Ok(Some(app_keys))
            },
            Err(e) => {
                self.state = HandshakeState::Dead;
                Err(e)
            },
        }
    }
}

} // verus!
