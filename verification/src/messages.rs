//! TLS 1.3 handshake messages: parsing the ClientHello with its X25519 key
//! share, and building the ServerHello, EncryptedExtensions, Certificate,
//! CertificateVerify and Finished messages the server sends.

use vstd::prelude::*;

use crate::encoding::{be16, be16_bytes, be24_bytes, extend_bytes, put_u16, put_u24, read_u16,
    sub_vec};

verus! {

/// The fields of a parsed ClientHello.
pub struct ClientHello {
    /// The 32-byte client random.
    pub random: Vec<u8>,
    /// The legacy session id, echoed in the ServerHello.
    pub session_id: Vec<u8>,
    /// The X25519 public key from the key_share extension, when present.
    pub key_share: Vec<u8>,
}

/// The fixed-position fields of a ClientHello payload: random, session id,
/// and the bounds of the extension area.
pub open spec fn spec_ch_fixed(p: Seq<u8>) -> Option<(Seq<u8>, Seq<u8>, int, int)> {
    if p.len() < 39 || p[0] != 1 {
        None
    } else {
        let sid_len = p[38] as int;
        let cs_pos = 39 + sid_len;
        if cs_pos + 2 > p.len() {
            None
        } else {
            let cs_len = be16(p[cs_pos], p[cs_pos + 1]);
            let comp_pos = cs_pos + 2 + cs_len;
            if comp_pos + 1 > p.len() {
                None
            } else {
                let comp_len = p[comp_pos] as int;
                let ext_pos = comp_pos + 1 + comp_len;
                if ext_pos + 2 > p.len() {
                    None
                } else {
                    let ext_len = be16(p[ext_pos], p[ext_pos + 1]);
                    let ext_start = ext_pos + 2;
                    if ext_start + ext_len > p.len() {
                        None
                    } else {
                        Some(
                            (
                                p.subrange(6, 38),
                                p.subrange(39, 39 + sid_len),
                                ext_start,
                                ext_start + ext_len,
                            ),
                        )
                    }
                }
            }
        }
    }
}

/// The X25519 key in the key_share extension of the extension area, if any.
pub open spec fn spec_find_key_share(p: Seq<u8>, pos: int, end: int) -> Option<Seq<u8>>
    decreases end - pos,
{
    if pos + 4 > end {
        None
    } else {
        let et = be16(p[pos], p[pos + 1]);
        let el = be16(p[pos + 2], p[pos + 3]);
        if pos + 4 + el > end {
            None
        } else if et == 0x33 {
            if el >= 2 {
                spec_find_x25519(p, pos + 6, pos + 4 + el)
            } else {
                None
            }
        } else {
            spec_find_key_share(p, pos + 4 + el, end)
        }
    }
}

/// The first key-share entry for group X25519 with a 32-byte key.
pub open spec fn spec_find_x25519(p: Seq<u8>, pos: int, end: int) -> Option<Seq<u8>>
    decreases end - pos,
{
    if pos + 4 > end {
        None
    } else {
        let group = be16(p[pos], p[pos + 1]);
        let klen = be16(p[pos + 2], p[pos + 3]);
        if pos + 4 + klen > end {
            None
        } else if group == 0x1d && klen == 32 {
            Some(p.subrange(pos + 4, pos + 36))
        } else {
            spec_find_x25519(p, pos + 4 + klen, end)
        }
    }
}

/// A ClientHello parsed whole: its fixed fields and its X25519 key share.
pub open spec fn spec_parse_client_hello(p: Seq<u8>) -> Option<(Seq<u8>, Seq<u8>, Option<Seq<u8>>)> {
    match spec_ch_fixed(p) {
        None => None,
        Some((random, sid, ext_start, ext_end)) => Some(
            (random, sid, spec_find_key_share(p, ext_start, ext_end)),
        ),
    }
}

/// Why a ClientHello was rejected.
#[derive(Clone, Copy, PartialEq, Eq, Structural, Debug)]
pub enum ClientHelloError {
    /// The payload is not a whole ClientHello.
    Malformed,
    /// No X25519 key-share entry.
    NoKeyShare,
}

impl ClientHello {
    /// Parses a ClientHello handshake payload, requiring an X25519 key share.
    pub fn parse(payload: &Vec<u8>) -> (r: Result<ClientHello, ClientHelloError>)
        ensures
            match r {
                Ok(ch) => {
                    &&& spec_parse_client_hello(payload@) matches Some((random, sid, ks))
                    &&& ch.random@ == random
                    &&& ch.session_id@ == sid
                    &&& ks == Some(ch.key_share@)
                    &&& ch.random@.len() == 32
                    &&& ch.key_share@.len() == 32
                },
                Err(ClientHelloError::Malformed) => spec_parse_client_hello(payload@) is None,
                Err(ClientHelloError::NoKeyShare) => spec_parse_client_hello(payload@) matches Some(
                    (_r, _s, ks),
                ) && ks is None,
            },
    {
        let n: usize = payload.len();
        if n < 39 {
            return Err(ClientHelloError::Malformed);
        }
        if payload[0] != 1 {
            return Err(ClientHelloError::Malformed);
        }
        let sid_len = payload[38] as usize;
        if n - 39 < sid_len + 2 {
            return Err(ClientHelloError::Malformed);
        }
        let cs_pos = 39 + sid_len;
        let cs_len = read_u16(payload, cs_pos) as usize;
        if n - cs_pos - 2 < cs_len + 1 {
            return Err(ClientHelloError::Malformed);
        }
        let comp_pos = cs_pos + 2 + cs_len;
        let comp_len = payload[comp_pos] as usize;
        if n - comp_pos - 1 < comp_len + 2 {
            return Err(ClientHelloError::Malformed);
        }
        let ext_pos = comp_pos + 1 + comp_len;
        let ext_len = read_u16(payload, ext_pos) as usize;
        if n - ext_pos - 2 < ext_len {
            return Err(ClientHelloError::Malformed);
        }
        let ext_start = ext_pos + 2;
        let ext_end = ext_start + ext_len;
        let random = sub_vec(payload, 6, 38);
        let session_id = sub_vec(payload, 39, 39 + sid_len);
        match find_key_share(payload, ext_start, ext_end) {
            Some(key_share) => Ok(ClientHello { random, session_id, key_share }),
            None => Err(ClientHelloError::NoKeyShare),
        }
    }
}

/// Walks the extension list for the X25519 key share.
fn find_key_share(p: &Vec<u8>, ext_start: usize, ext_end: usize) -> (r: Option<Vec<u8>>)
    requires
        ext_start <= ext_end <= p@.len(),
    ensures
        match r {
            Some(k) => spec_find_key_share(p@, ext_start as int, ext_end as int) == Some(k@)
                && k@.len() == 32,
            None => spec_find_key_share(p@, ext_start as int, ext_end as int) is None,
        },
{
    let n: usize = p.len();
    let mut pos = ext_start;
    while ext_end - pos >= 4
        invariant
            ext_start <= pos <= ext_end <= p@.len(),
            n == p@.len(),
            spec_find_key_share(p@, ext_start as int, ext_end as int) == spec_find_key_share(
                p@,
                pos as int,
                ext_end as int,
            ),
        decreases ext_end - pos,
    {
        let et = read_u16(p, pos);
        let el = read_u16(p, pos + 2) as usize;
        if ext_end - pos - 4 < el {
            return None;
        }
        if et == 0x33 {
            if el < 2 {
                return None;
            }
            return find_x25519(p, pos + 6, pos + 4 + el);
        }
        pos = pos + 4 + el;
    }
    None
}

/// Walks the key-share entries for group X25519.
fn find_x25519(p: &Vec<u8>, start: usize, end: usize) -> (r: Option<Vec<u8>>)
    requires
        start <= end <= p@.len(),
    ensures
        match r {
            Some(k) => spec_find_x25519(p@, start as int, end as int) == Some(k@) && k@.len() == 32,
            None => spec_find_x25519(p@, start as int, end as int) is None,
        },
{
    let n: usize = p.len();
    let mut pos = start;
    while end - pos >= 4
        invariant
            start <= pos <= end <= p@.len(),
            n == p@.len(),
            spec_find_x25519(p@, start as int, end as int) == spec_find_x25519(
                p@,
                pos as int,
                end as int,
            ),
        decreases end - pos,
    {
        let group = read_u16(p, pos);
        let klen = read_u16(p, pos + 2) as usize;
        if end - pos - 4 < klen {
            return None;
        }
        if group == 0x1d && klen == 32 {
            return Some(sub_vec(p, pos + 4, pos + 36));
        }
        pos = pos + 4 + klen;
    }
    None
}

/// The ServerHello handshake message: TLS 1.2 version, the given random,
/// the echoed session id, suite 0x1301, no compression, and the
/// supported_versions and X25519 key_share extensions.
pub open spec fn spec_server_hello(random: Seq<u8>, session_id: Seq<u8>, public_key: Seq<u8>) -> Seq<
    u8,
> {
    seq![2u8] + be24_bytes((84 + session_id.len()) as u32) + seq![3u8, 3u8] + random + seq![
        session_id.len() as u8,
    ] + session_id + seq![0x13u8, 0x01, 0u8] + be16_bytes(46) + seq![0x00u8, 0x2b] + be16_bytes(2)
        + seq![0x03u8, 0x04] + seq![0x00u8, 0x33] + be16_bytes(40) + seq![0x00u8, 0x1d]
        + be16_bytes(32) + public_key
}

/// Builds the ServerHello handshake message.
pub fn build_server_hello(random: &Vec<u8>, session_id: &Vec<u8>, public_key: &Vec<u8>) -> (r: Vec<
    u8,
>)
    requires
        random@.len() == 32,
        session_id@.len() <= 32,
        public_key@.len() == 32,
    ensures
        r@ == spec_server_hello(random@, session_id@, public_key@),
        r@.len() == 90 + session_id@.len(),
{
    let mut m: Vec<u8> = Vec::new();
    m.push(2);
    put_u24(&mut m, (84 + session_id.len()) as u32);
    m.push(3);
    m.push(3);
    extend_bytes(&mut m, random);
    m.push(session_id.len() as u8);
    extend_bytes(&mut m, session_id);
    m.push(0x13);
    m.push(0x01);
    m.push(0);
    put_u16(&mut m, 46);
    m.push(0x00);
    m.push(0x2b);
    put_u16(&mut m, 2);
    m.push(0x03);
    m.push(0x04);
    m.push(0x00);
    m.push(0x33);
    put_u16(&mut m, 40);
    m.push(0x00);
    m.push(0x1d);
    put_u16(&mut m, 32);
    extend_bytes(&mut m, public_key);
    assert(m@ =~= spec_server_hello(random@, session_id@, public_key@));
    m
}

/// A plaintext handshake record around a message.
pub open spec fn spec_handshake_record(msg: Seq<u8>) -> Seq<u8> {
    seq![22u8, 3u8, 3u8] + be16_bytes(msg.len() as u16) + msg
}

/// Wraps a handshake message in a plaintext record.
pub fn wrap_handshake_record(msg: &Vec<u8>) -> (r: Vec<u8>)
    requires
        msg@.len() <= 0xFFFF,
    ensures
        r@ == spec_handshake_record(msg@),
        r@.len() == msg@.len() + 5,
{
    let mut r: Vec<u8> = Vec::new();
    r.push(22);
    r.push(3);
    r.push(3);
    put_u16(&mut r, msg.len() as u16);
    extend_bytes(&mut r, msg);
    assert(r@ =~= spec_handshake_record(msg@));
    r
}

/// The dummy ChangeCipherSpec record sent for middlebox compatibility.
pub open spec fn spec_ccs_record() -> Seq<u8> {
    seq![0x14u8, 0x03, 0x03, 0x00, 0x01, 0x01]
}

/// Builds the dummy ChangeCipherSpec record.
pub fn build_ccs_record() -> (r: Vec<u8>)
    ensures
        r@ == spec_ccs_record(),
{
    let mut r: Vec<u8> = Vec::new();
    r.push(0x14);
    r.push(0x03);
    r.push(0x03);
    r.push(0x00);
    r.push(0x01);
    r.push(0x01);
    assert(r@ =~= spec_ccs_record());
    r
}

/// The EncryptedExtensions message advertising `h2` and `http/1.1` by ALPN.
pub open spec fn spec_ee_message() -> Seq<u8> {
    seq![8u8] + be24_bytes(20) + be16_bytes(18) + seq![0x00u8, 0x10] + be16_bytes(14) + be16_bytes(
        12,
    ) + seq![2u8, 0x68, 0x32] + seq![8u8, 0x68, 0x74, 0x74, 0x70, 0x2f, 0x31, 0x2e, 0x31]
}

/// Builds the EncryptedExtensions message.
pub fn build_ee_message() -> (r: Vec<u8>)
    ensures
        r@ == spec_ee_message(),
{
    let mut r: Vec<u8> = Vec::new();
    r.push(8);
    put_u24(&mut r, 20);
    put_u16(&mut r, 18);
    r.push(0x00);
    r.push(0x10);
    put_u16(&mut r, 14);
    put_u16(&mut r, 12);
    r.push(2);
    r.push(0x68);
    r.push(0x32);
    r.push(8);
    r.push(0x68);
    r.push(0x74);
    r.push(0x74);
    r.push(0x70);
    r.push(0x2f);
    r.push(0x31);
    r.push(0x2e);
    r.push(0x31);
    assert(r@ =~= spec_ee_message());
    r
}

/// The Certificate message with an empty certificate list.
pub open spec fn spec_empty_certificate() -> Seq<u8> {
    seq![11u8, 0u8, 0u8, 4u8, 0u8, 0u8, 0u8, 0u8]
}

/// Builds the empty-list Certificate message.
pub fn build_empty_certificate() -> (r: Vec<u8>)
    ensures
        r@ == spec_empty_certificate(),
{
    let mut r: Vec<u8> = Vec::new();
    r.push(11);
    r.push(0);
    r.push(0);
    r.push(4);
    r.push(0);
    r.push(0);
    r.push(0);
    r.push(0);
    assert(r@ =~= spec_empty_certificate());
    r
}

/// The CertificateVerify message: algorithm rsa_pss_rsae_sha256 and the
/// given placeholder signature bytes, which are not expected to validate.
pub open spec fn spec_certificate_verify(signature: Seq<u8>) -> Seq<u8> {
    seq![15u8] + be24_bytes((4 + signature.len()) as u32) + seq![0x08u8, 0x04] + be16_bytes(
        signature.len() as u16,
    ) + signature
}

/// Builds the CertificateVerify message around a placeholder signature.
pub fn build_certificate_verify(signature: &Vec<u8>) -> (r: Vec<u8>)
    requires
        signature@.len() <= 512,
    ensures
        r@ == spec_certificate_verify(signature@),
{
    let mut r: Vec<u8> = Vec::new();
    r.push(15);
    put_u24(&mut r, (4 + signature.len()) as u32);
    r.push(0x08);
    r.push(0x04);
    put_u16(&mut r, signature.len() as u16);
    extend_bytes(&mut r, signature);
    assert(r@ =~= spec_certificate_verify(signature@));
    r
}

/// The Finished message around 32 bytes of verify data.
pub open spec fn spec_finished_message(verify_data: Seq<u8>) -> Seq<u8> {
    seq![20u8] + be24_bytes(verify_data.len() as u32) + verify_data
}

/// Builds the Finished message.
pub fn build_finished_message(verify_data: &Vec<u8>) -> (r: Vec<u8>)
    requires
        verify_data@.len() == 32,
    ensures
        r@ == spec_finished_message(verify_data@),
        r@.len() == 36,
{
    let mut r: Vec<u8> = Vec::new();
    r.push(20);
    put_u24(&mut r, verify_data.len() as u32);
    extend_bytes(&mut r, verify_data);
    assert(r@ =~= spec_finished_message(verify_data@));
    r
}

} // verus!
