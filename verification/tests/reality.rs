use xray_lite::auth::{KeyError, RealityAuth, ServerHelloModifier};
use xray_lite::cert_fetch::{build_client_hello_with_random, extract_certificate_from_response};
use xray_lite::config::RealityConfig;
use xray_lite::handshake::{HandshakeError, RealityHandshake};
use xray_lite::record::{nonce_for, open_record, seal_record};

use xray_lite::schedule::{calculate_verify_data, hash_transcript, hkdf_extract_bytes, TlsKeys};
use xray_lite::sniffer::sniff_tls_sni;

use base64::Engine;

fn test_key_b64() -> String {
    base64::engine::general_purpose::STANDARD.encode([7u8; 32])
}

#[test]
fn auth_key_decoding() {
    let auth = RealityAuth::new(&test_key_b64());
    assert!(auth.is_ok());
    assert_eq!(RealityAuth::new("!!!not base64!!!").err(), Some(KeyError::InvalidBase64));
    let short = base64::engine::general_purpose::STANDARD.encode([1u8; 8]);
    assert_eq!(RealityAuth::new(&short).err(), Some(KeyError::WrongLength));
}

#[test]
fn inject_auth_matches_hmac() {
    let auth = RealityAuth::new(&test_key_b64()).unwrap();
    let original: Vec<u8> = (0..32).collect();
    let client_random: Vec<u8> = (100..132).collect();
    let injected = auth.inject_auth_into_random(&original, &client_random);

    assert_eq!(injected.len(), 32);
    assert_eq!(&injected[..20], &original[..20]);

    let key = ring::hmac::Key::new(ring::hmac::HMAC_SHA256, &[7u8; 32]);
    let mut msg = original[..20].to_vec();
    msg.extend_from_slice(&client_random);
    let tag = ring::hmac::sign(&key, &msg);
    assert_eq!(&injected[20..], &tag.as_ref()[..12]);
}

#[test]
fn verify_client_auth_accepts_and_rejects() {
    let auth = RealityAuth::new(&test_key_b64()).unwrap();
    let client_random: Vec<u8> = (0..32).collect();
    let key = ring::hmac::Key::new(ring::hmac::HMAC_SHA256, &[7u8; 32]);
    let tag = ring::hmac::sign(&key, &client_random);
    let good = tag.as_ref()[..8].to_vec();
    assert!(auth.verify_client_auth(&client_random, &good));
    let mut bad = good.clone();
    bad[0] ^= 1;
    assert!(!auth.verify_client_auth(&client_random, &bad));
    assert!(!auth.verify_client_auth(&client_random, &vec![]));
}

#[test]
fn modify_server_hello_rewrites_random_tail() {
    let modifier = ServerHelloModifier::new(&test_key_b64()).unwrap();
    let mut msg: Vec<u8> = vec![0u8; 60];
    msg[0] = 0x02;
    for i in 0..32 {
        msg[6 + i] = i as u8;
    }
    let before = msg.clone();
    let client_random: Vec<u8> = (50..82).collect();
    modifier.modify_server_hello(&mut msg, &client_random).unwrap();
    assert_eq!(&msg[..26], &before[..26]);
    assert_ne!(&msg[26..38], &before[26..38]);
    assert_eq!(&msg[38..], &before[38..]);

    let mut short = vec![0x02u8; 10];
    assert!(modifier.modify_server_hello(&mut short, &client_random).is_err());
}

#[test]
fn record_seal_open_round_trip() {
    let key = vec![0x11u8; 16];
    let iv = vec![0x22u8; 12];
    let payload: Vec<u8> = (0..200).map(|i| (i % 251) as u8).collect();
    let record = seal_record(&key, &iv, 5, &payload, 23);
    assert_eq!(record.len(), payload.len() + 22);
    assert_eq!(&record[..3], &[23, 3, 3]);

    let header = record[..5].to_vec();
    let ciphertext = record[5..].to_vec();
    let (inner_type, content) = open_record(&key, &iv, 5, &header, &ciphertext).unwrap();
    assert_eq!(inner_type, 23);
    assert_eq!(content, payload);

    // A different sequence number must fail authentication.
    assert!(open_record(&key, &iv, 6, &header, &ciphertext).is_err());
}

#[test]
fn nonce_is_iv_xor_counter() {
    let iv: Vec<u8> = (1..13).collect();
    let n0 = nonce_for(&iv, 0);
    assert_eq!(n0, iv);
    let n1 = nonce_for(&iv, 1);
    let mut expected = iv.clone();
    expected[11] ^= 1;
    assert_eq!(n1, expected);
    assert_ne!(nonce_for(&iv, 2), nonce_for(&iv, 3));
}

#[test]
fn verify_data_matches_manual_hkdf() {
    let secret = vec![0x42u8; 32];
    let hash = vec![0x13u8; 32];
    // HkdfLabel for "finished": length 32, label "tls13 finished", no context.
    let mut info: Vec<u8> = vec![0, 32, 14];
    info.extend_from_slice(b"tls13 finished");
    info.push(0);
    // HKDF-Expand first block: HMAC(secret, info || 0x01).
    let key = ring::hmac::Key::new(ring::hmac::HMAC_SHA256, &secret);
    let mut block_input = info.clone();
    block_input.push(1);
    let finished_key = ring::hmac::sign(&key, &block_input);
    let fk = ring::hmac::Key::new(ring::hmac::HMAC_SHA256, finished_key.as_ref());
    let expected = ring::hmac::sign(&fk, &hash);

    let got = calculate_verify_data(&secret, &hash);
    assert_eq!(got, expected.as_ref().to_vec());
}

#[test]
fn hkdf_extract_is_hmac() {
    let salt = vec![1u8, 2, 3];
    let ikm = vec![9u8; 17];
    let key = ring::hmac::Key::new(ring::hmac::HMAC_SHA256, &salt);
    let expected = ring::hmac::sign(&key, &ikm);
    assert_eq!(hkdf_extract_bytes(&salt, &ikm), expected.as_ref().to_vec());
}

#[test]
fn transcript_hash_is_sha256_of_concatenation() {
    let messages = vec![vec![1u8, 2, 3], vec![], vec![4u8, 5]];
    let got = hash_transcript(&messages);
    let expected = ring::digest::digest(&ring::digest::SHA256, &[1, 2, 3, 4, 5]);
    assert_eq!(got, expected.as_ref().to_vec());
}

#[test]
fn probe_client_hello_carries_sni() {
    let random = vec![0xA5u8; 32];
    let hello = build_client_hello_with_random(&b"example.com".to_vec(), &random);
    assert_eq!(hello[0], 0x16);
    let sniffed = sniff_tls_sni(&hello).unwrap();
    assert_eq!(sniffed, "example.com");
}

#[test]
fn sniffer_rejects_non_tls() {
    assert!(sniff_tls_sni(&vec![0x47u8; 100]).is_none());
    assert!(sniff_tls_sni(&vec![]).is_none());
}

#[test]
fn certificate_extraction() {
    // Two records: application data, then a handshake record holding a
    // Certificate message.
    let cert_msg = vec![11u8, 0, 0, 2, 0xAB, 0xCD];
    let mut stream = vec![23u8, 3, 3, 0, 1, 0x00];
    stream.extend_from_slice(&[22, 3, 3, 0, cert_msg.len() as u8]);
    stream.extend_from_slice(&cert_msg);
    assert_eq!(extract_certificate_from_response(&stream).unwrap(), cert_msg);

    let no_cert = vec![23u8, 3, 3, 0, 1, 0x00];
    assert!(extract_certificate_from_response(&no_cert).is_err());
}

fn synthetic_client_hello(session_id: &[u8], key_share: &[u8; 32]) -> Vec<u8> {
    let mut p: Vec<u8> = Vec::new();
    p.push(1); // ClientHello
    p.extend_from_slice(&[0, 0, 0]); // length, ignored by the parser
    p.extend_from_slice(&[3, 3]);
    p.extend_from_slice(&[0x5Au8; 32]); // client random
    p.push(session_id.len() as u8);
    p.extend_from_slice(session_id);
    p.extend_from_slice(&[0, 2, 0x13, 0x01]); // one cipher suite
    p.extend_from_slice(&[1, 0]); // null compression
    let mut exts: Vec<u8> = Vec::new();
    exts.extend_from_slice(&[0x00, 0x33]); // key_share
    exts.extend_from_slice(&[0, 38]);
    exts.extend_from_slice(&[0, 36]); // client shares length
    exts.extend_from_slice(&[0x00, 0x1d, 0, 32]);
    exts.extend_from_slice(key_share);
    p.extend_from_slice(&(exts.len() as u16).to_be_bytes());
    p.extend_from_slice(&exts);
    p
}

#[test]
fn handshake_flight_structure() {
    let config = RealityConfig::new(&test_key_b64(), b"example.com:443".to_vec()).unwrap();
    let mut hs = RealityHandshake::new(config);
    let client_secret = x25519_dalek::StaticSecret::random_from_rng(rand::rngs::OsRng);
    let client_public = x25519_dalek::PublicKey::from(&client_secret);
    let sid = [0x77u8; 32];
    let chp = synthetic_client_hello(&sid, client_public.as_bytes());
    let flight = hs.on_client_hello(&chp, None).unwrap();

    // First record: a plaintext handshake record holding the ServerHello.
    assert_eq!(flight[0], 22);
    let sh_len = u16::from_be_bytes([flight[3], flight[4]]) as usize;
    let sh = &flight[5..5 + sh_len];
    assert_eq!(sh[0], 2);
    // The echoed session id sits after the 32-byte random.
    assert_eq!(sh[6 + 32], 32);
    assert_eq!(&sh[6 + 33..6 + 65], &sid);
    // Then the dummy ChangeCipherSpec.
    assert_eq!(&flight[5 + sh_len..5 + sh_len + 6], &[0x14, 0x03, 0x03, 0x00, 0x01, 0x01]);
    // Four sealed records follow, each with an application-data header.
    assert_eq!(flight[5 + sh_len + 6], 23);
}

#[test]
fn handshake_rejects_missing_key_share() {
    let config = RealityConfig::new(&test_key_b64(), b"example.com".to_vec()).unwrap();
    let mut hs = RealityHandshake::new(config);
    let mut p: Vec<u8> = Vec::new();
    p.push(1);
    p.extend_from_slice(&[0, 0, 0]);
    p.extend_from_slice(&[3, 3]);
    p.extend_from_slice(&[0u8; 32]);
    p.push(0); // empty session id
    p.extend_from_slice(&[0, 2, 0x13, 0x01]);
    p.extend_from_slice(&[1, 0]);
    p.extend_from_slice(&[0, 0]); // no extensions
    assert_eq!(hs.on_client_hello(&p, None).err(), Some(HandshakeError::NoKeyShare));
}

/// Splits a flight into the ServerHello message and the four sealed records.
fn split_flight(flight: &[u8]) -> (Vec<u8>, Vec<(Vec<u8>, Vec<u8>)>) {
    assert_eq!(flight[0], 22);
    let sh_len = u16::from_be_bytes([flight[3], flight[4]]) as usize;
    let sh_msg = flight[5..5 + sh_len].to_vec();
    let mut pos = 5 + sh_len;
    assert_eq!(&flight[pos..pos + 6], &[0x14, 0x03, 0x03, 0x00, 0x01, 0x01]);
    pos += 6;
    let mut records = Vec::new();
    while pos < flight.len() {
        assert_eq!(flight[pos], 23);
        let len = u16::from_be_bytes([flight[pos + 3], flight[pos + 4]]) as usize;
        let header = flight[pos..pos + 5].to_vec();
        let body = flight[pos + 5..pos + 5 + len].to_vec();
        records.push((header, body));
        pos += 5 + len;
    }
    (sh_msg, records)
}

#[test]
fn handshake_round_trip_with_conformant_client() {
    let config = RealityConfig::new(&test_key_b64(), b"example.com".to_vec()).unwrap();
    let mut engine = RealityHandshake::new(config);

    // The client knows the pre-shared key and offers an X25519 share.
    let client_secret = x25519_dalek::StaticSecret::random_from_rng(rand::rngs::OsRng);
    let client_public = x25519_dalek::PublicKey::from(&client_secret);
    let sid = [0x31u8; 32];
    let chp = synthetic_client_hello(&sid, client_public.as_bytes());

    let flight = engine.on_client_hello(&chp, None).unwrap();
    let (sh_msg, sealed) = split_flight(&flight);
    assert_eq!(sealed.len(), 4);

    // The client finishes the ECDH with the server's key share, which our
    // ServerHello ends with.
    let mut server_pub = [0u8; 32];
    server_pub.copy_from_slice(&sh_msg[sh_msg.len() - 32..]);
    let shared = client_secret.diffie_hellman(&x25519_dalek::PublicKey::from(server_pub));

    // Both sides run the same key schedule over the hello transcript.
    let hello_hash = hash_transcript(&vec![chp.clone(), sh_msg.clone()]);
    let (client_side_keys, hs_secret) =
        TlsKeys::derive_handshake_keys(&shared.as_bytes().to_vec(), &hello_hash);

    // The client opens the four server records in sequence.
    let mut messages: Vec<Vec<u8>> = Vec::new();
    for (seq, (header, body)) in sealed.iter().enumerate() {
        let (inner, content) = open_record(
            &client_side_keys.server_key,
            &client_side_keys.server_iv,
            seq as u64,
            header,
            body,
        )
        .unwrap();
        assert_eq!(inner, 22);
        messages.push(content);
    }
    let (ee, cert, cv, fin) = (&messages[0], &messages[1], &messages[2], &messages[3]);
    assert_eq!(ee[0], 8);
    assert_eq!(cert[0], 11);
    assert_eq!(cv[0], 15);
    assert_eq!(fin[0], 20);

    // The server Finished verifies against the transcript through the
    // CertificateVerify.
    let hash2 = hash_transcript(&vec![
        chp.clone(),
        sh_msg.clone(),
        ee.clone(),
        cert.clone(),
        cv.clone(),
    ]);
    let expected_vd = calculate_verify_data(&client_side_keys.server_secret, &hash2);
    assert_eq!(&fin[4..], &expected_vd[..]);

    // The client sends its own Finished, sealed at client sequence 0.
    let hash3 = hash_transcript(&vec![
        chp.clone(),
        sh_msg.clone(),
        ee.clone(),
        cert.clone(),
        cv.clone(),
        fin.clone(),
    ]);
    let client_vd = calculate_verify_data(&client_side_keys.client_secret, &hash3);
    let mut client_fin = vec![20u8, 0, 0, 32];
    client_fin.extend_from_slice(&client_vd);
    let fin_record = seal_record(
        &client_side_keys.client_key,
        &client_side_keys.client_iv,
        0,
        &client_fin,
        22,
    );
    let header = fin_record[..5].to_vec();
    let body = fin_record[5..].to_vec();
    let server_app_keys = engine.on_client_record(23, &header, &body).unwrap().unwrap();

    // Both sides agree on the application keys, derived over the transcript
    // through the server Finished.
    let client_app_keys = TlsKeys::derive_application_keys(&hs_secret, &hash3);
    assert_eq!(client_app_keys.client_key, server_app_keys.client_key);
    assert_eq!(client_app_keys.server_key, server_app_keys.server_key);
    assert_eq!(client_app_keys.client_iv, server_app_keys.client_iv);
    assert_eq!(client_app_keys.server_iv, server_app_keys.server_iv);

    // Echo through the tunnel: client seals a request, the server opens it
    // and seals the same bytes back, and the client reads them intact.
    let payload: Vec<u8> = (0..4096u32).map(|i| (i % 253) as u8).collect();
    let up = seal_record(
        &client_app_keys.client_key,
        &client_app_keys.client_iv,
        0,
        &payload,
        23,
    );
    let (t, got) = open_record(
        &server_app_keys.client_key,
        &server_app_keys.client_iv,
        0,
        &up[..5].to_vec(),
        &up[5..].to_vec(),
    )
    .unwrap();
    assert_eq!(t, 23);
    assert_eq!(got, payload);

    let down = seal_record(&server_app_keys.server_key, &server_app_keys.server_iv, 0, &got, 23);
    let (t2, echoed) = open_record(
        &client_app_keys.server_key,
        &client_app_keys.server_iv,
        0,
        &down[..5].to_vec(),
        &down[5..].to_vec(),
    )
    .unwrap();
    assert_eq!(t2, 23);
    assert_eq!(echoed, payload);
}

#[test]
fn flight_replays_fetched_certificate() {
    let config = RealityConfig::new(&test_key_b64(), b"example.com".to_vec()).unwrap();
    let mut engine = RealityHandshake::new(config);
    let client_secret = x25519_dalek::StaticSecret::random_from_rng(rand::rngs::OsRng);
    let client_public = x25519_dalek::PublicKey::from(&client_secret);
    let chp = synthetic_client_hello(&[0u8; 0], client_public.as_bytes());

    // A whole Certificate handshake message, as the fetcher returns it.
    let fetched = vec![11u8, 0, 0, 3, 0xDE, 0xAD, 0xBF];
    let flight = engine.on_client_hello(&chp, Some(&fetched)).unwrap();
    let (sh_msg, sealed) = split_flight(&flight);

    let mut server_pub = [0u8; 32];
    server_pub.copy_from_slice(&sh_msg[sh_msg.len() - 32..]);
    let shared = client_secret.diffie_hellman(&x25519_dalek::PublicKey::from(server_pub));
    let hello_hash = hash_transcript(&vec![chp.clone(), sh_msg.clone()]);
    let (keys, _secret) = TlsKeys::derive_handshake_keys(&shared.as_bytes().to_vec(), &hello_hash);

    // The second sealed record carries exactly the fetched message.
    let (header, body) = &sealed[1];
    let (inner, content) =
        open_record(&keys.server_key, &keys.server_iv, 1, header, body).unwrap();
    assert_eq!(inner, 22);
    assert_eq!(content, fetched);
}

#[test]
fn application_keys_are_deterministic() {
    let secret = vec![0x21u8; 32];
    let hash = vec![0x43u8; 32];
    let a = TlsKeys::derive_application_keys(&secret, &hash);
    let b = TlsKeys::derive_application_keys(&secret, &hash);
    assert_eq!(a.client_key, b.client_key);
    assert_eq!(a.server_iv, b.server_iv);
    assert_eq!(a.client_key.len(), 16);
    assert_eq!(a.client_iv.len(), 12);
}
