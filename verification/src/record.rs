//! The TLS 1.3 record layer: record framing, per-record nonces, AEAD sealing
//! and opening with the inner-plaintext content type and padding.

use vstd::prelude::*;

use crate::crypto::{aead_open, aead_seal, aes128_gcm_open, aes128_gcm_seal};
use crate::encoding::{be16, be16_bytes, be64_bytes, extend_bytes, lemma_be64_injective, put_u16};
use crate::schedule::{zeros, TlsKeys};

verus! {

/// Outer content type of a ChangeCipherSpec record.
pub const CONTENT_CCS: u8 = 20;

/// Outer content type of an alert record.
pub const CONTENT_ALERT: u8 = 21;

/// Outer content type of a handshake record.
pub const CONTENT_HANDSHAKE: u8 = 22;

/// Outer content type of an application-data record.
pub const CONTENT_APPLICATION: u8 = 23;

/// The legacy record version 0x0303 carried by every record.
pub const LEGACY_VERSION: u16 = 0x0303;

/// Ceiling on the payload of a record this layer seals: below the 16 KiB
/// fragment bound plus the room the record format leaves for expansion.
pub const MAX_SEAL_PAYLOAD: usize = 0x4400;

/// The nonce of record `n`: the IV XOR the right-aligned big-endian counter.
pub open spec fn spec_nonce(iv: Seq<u8>, n: u64) -> Seq<u8> {
    Seq::new(12, |i: int| iv[i] ^ (zeros(4) + be64_bytes(n))[i])
}

/// Computes the per-record nonce.
pub fn nonce_for(iv: &Vec<u8>, n: u64) -> (r: Vec<u8>)
    requires
        iv@.len() == 12,
    ensures
        r@ == spec_nonce(iv@, n),
        r@.len() == 12,
{
    let mut padded: Vec<u8> = Vec::new();
    padded.push(0);
    padded.push(0);
    padded.push(0);
    padded.push(0);
    padded.push((n / 0x100000000000000) as u8);
    padded.push((n / 0x1000000000000 % 0x100) as u8);
    padded.push((n / 0x10000000000 % 0x100) as u8);
    padded.push((n / 0x100000000 % 0x100) as u8);
    padded.push((n / 0x1000000 % 0x100) as u8);
    padded.push((n / 0x10000 % 0x100) as u8);
    padded.push((n / 0x100 % 0x100) as u8);
    padded.push((n % 0x100) as u8);
    assert(padded@ =~= zeros(4) + be64_bytes(n));
    let mut r: Vec<u8> = Vec::new();
    let mut i: usize = 0;
    while i < 12
        invariant
            i <= 12,
            iv@.len() == 12,
            padded@ == zeros(4) + be64_bytes(n),
            r@.len() == i,
            forall|j: int| 0 <= j < i ==> r@[j] == (iv@[j] ^ padded@[j]),
        decreases 12 - i,
    {
        r.push(iv[i] ^ padded[i]);
        i = i + 1;
    }
    assert(r@ =~= spec_nonce(iv@, n));
    r
}

/// XOR with a fixed byte is injective.
proof fn lemma_xor_cancel(a: u8, b: u8, c: u8)
    requires
        a ^ b == a ^ c,
    ensures
        b == c,
{
    assert(a ^ b == a ^ c ==> b == c) by (bit_vector);
}

/// Distinct record numbers under one IV give distinct nonces: the nonce
/// sequence of a direction never repeats.
pub proof fn lemma_nonce_injective(iv: Seq<u8>, n1: u64, n2: u64)
    requires
        iv.len() == 12,
        spec_nonce(iv, n1) == spec_nonce(iv, n2),
    ensures
        n1 == n2,
{
    let p1 = zeros(4) + be64_bytes(n1);
    let p2 = zeros(4) + be64_bytes(n2);
    assert forall|i: int| 0 <= i < 8 implies be64_bytes(n1)[i] == be64_bytes(n2)[i] by {
        assert(spec_nonce(iv, n1)[4 + i] == spec_nonce(iv, n2)[4 + i]);
        assert(spec_nonce(iv, n1)[4 + i] == iv[4 + i] ^ p1[4 + i]);
        assert(spec_nonce(iv, n2)[4 + i] == iv[4 + i] ^ p2[4 + i]);
        assert(p1[4 + i] == be64_bytes(n1)[i]);
        assert(p2[4 + i] == be64_bytes(n2)[i]);
        lemma_xor_cancel(iv[4 + i], p1[4 + i], p2[4 + i]);
    }
    assert(be64_bytes(n1) =~= be64_bytes(n2));
    lemma_be64_injective(n1, n2);
}

/// The 5-byte record header: content type, legacy version, length.
pub open spec fn spec_record_header(content_type: u8, len: u16) -> Seq<u8> {
    seq![content_type, 3u8, 3u8] + be16_bytes(len)
}

/// A sealed record: the header, then the AEAD sealing of the payload with the
/// inner content type appended, under the header as associated data.
pub open spec fn spec_seal_record(
    key: Seq<u8>,
    iv: Seq<u8>,
    n: u64,
    payload: Seq<u8>,
    inner_type: u8,
) -> Seq<u8> {
    let header = spec_record_header(23u8, (payload.len() + 17) as u16);
    header + aes128_gcm_seal(key, spec_nonce(iv, n), header, payload + seq![inner_type])
}

/// Seals one record under the given direction's key and IV.
pub fn seal_record(key: &Vec<u8>, iv: &Vec<u8>, n: u64, payload: &Vec<u8>, inner_type: u8) -> (r:
    Vec<u8>)
    requires
        key@.len() == 16,
        iv@.len() == 12,
        payload@.len() <= MAX_SEAL_PAYLOAD,
    ensures
        r@ == spec_seal_record(key@, iv@, n, payload@, inner_type),
        r@.len() == payload@.len() + 22,
{
    let mut header: Vec<u8> = Vec::new();
    header.push(CONTENT_APPLICATION);
    header.push(3);
    header.push(3);
    put_u16(&mut header, (payload.len() + 17) as u16);
    assert(header@ =~= spec_record_header(23u8, (payload@.len() + 17) as u16));
    let mut inner: Vec<u8> = Vec::new();
    extend_bytes(&mut inner, payload);
    inner.push(inner_type);
    assert(inner@ =~= payload@ + seq![inner_type]);
    let nonce = nonce_for(iv, n);
    let sealed = aead_seal(key, &nonce, &header, &inner);
    let mut r = header;
    extend_bytes(&mut r, &sealed);
    assert(r@ =~= spec_seal_record(key@, iv@, n, payload@, inner_type));
    r
}

/// The inner plaintext without its trailing zero padding.
pub open spec fn trim_zeros(p: Seq<u8>) -> Seq<u8>
    decreases p.len(),
{
    if p.len() == 0 {
        p
    } else if p.last() == 0 {
        trim_zeros(p.drop_last())
    } else {
        p
    }
}

/// The inner content type and content of an opened plaintext: the last
/// non-zero byte is the type and what precedes it is the content; an
/// all-zero plaintext reads as type 0 with empty content.
pub open spec fn spec_inner_split(p: Seq<u8>) -> (u8, Seq<u8>) {
    let t = trim_zeros(p);
    if t.len() > 0 {
        (t.last(), t.drop_last())
    } else {
        (p[0], seq![])
    }
}

/// Why opening a record failed.
#[derive(Clone, Copy, PartialEq, Eq, Structural, Debug)]
pub enum OpenError {
    /// The AEAD tag did not verify.
    AeadFailure,
    /// Decryption yielded an empty plaintext.
    EmptyPlaintext,
}

/// Opens one record under the given direction's key and IV, returning the
/// inner content type and the content without padding.
pub fn open_record(
    key: &Vec<u8>,
    iv: &Vec<u8>,
    n: u64,
    header: &Vec<u8>,
    ciphertext: &Vec<u8>,
) -> (r: Result<(u8, Vec<u8>), OpenError>)
    requires
        key@.len() == 16,
        iv@.len() == 12,
    ensures
        match r {
            Ok((t, content)) => {
                &&& aes128_gcm_open(key@, spec_nonce(iv@, n), header@, ciphertext@) matches Some(p)
                &&& p.len() > 0
                &&& (t, content@) == spec_inner_split(p)
            },
            Err(OpenError::AeadFailure) => aes128_gcm_open(
                key@,
                spec_nonce(iv@, n),
                header@,
                ciphertext@,
            ) is None,
            Err(OpenError::EmptyPlaintext) => aes128_gcm_open(
                key@,
                spec_nonce(iv@, n),
                header@,
                ciphertext@,
            ) == Some(Seq::<u8>::empty()),
        },
{
    let nonce = nonce_for(iv, n);
    let opened = aead_open(key, &nonce, header, ciphertext);
    match opened {
        None => Err(OpenError::AeadFailure),
        Some(mut p) => {
            if p.len() == 0 {
                proof {
                    assert(p@ =~= Seq::<u8>::empty());
                }
                return Err(OpenError::EmptyPlaintext);
            }
            let ghost whole = p@;
            proof {
                assert(whole.subrange(0, whole.len() as int) =~= whole);
            }
            let mut idx: usize = p.len() - 1;
            while idx > 0 && p[idx] == 0
                invariant
                    p@ == whole,
                    0 < whole.len(),
                    idx < whole.len(),
                    trim_zeros(whole) == trim_zeros(whole.subrange(0, idx + 1)),
                decreases idx,
            {
                proof {
                    assert(whole.subrange(0, idx + 1).last() == whole[idx as int]);
                    assert(whole.subrange(0, idx + 1).drop_last() =~= whole.subrange(
                        0,
                        idx as int,
                    ));
                }
                idx = idx - 1;
            }
            let t = p[idx];
            p.truncate(idx);
            proof {
                let pre = whole.subrange(0, idx + 1);
                if whole[idx as int] != 0 {
                    assert(trim_zeros(pre) == pre);
                    assert(pre.last() == whole[idx as int]);
                    assert(pre.drop_last() =~= whole.subrange(0, idx as int));
                } else {
                    assert(idx == 0);
                    assert(pre =~= seq![whole[0]]);
                    assert(pre.last() == 0);
                    assert(pre.drop_last() =~= Seq::<u8>::empty());
                    assert(trim_zeros(pre) == trim_zeros(pre.drop_last()));
                    assert(trim_zeros(Seq::<u8>::empty()) =~= Seq::<u8>::empty());
                    assert(p@ =~= Seq::<u8>::empty());
                }
            }
            Ok((t, p))
        },
    }
}

impl TlsKeys {
    /// Seals a server-to-client record, as the handshake and stream writers do.
    pub fn encrypt_server_record(&self, n: u64, payload: &Vec<u8>, inner_type: u8) -> (r: Vec<u8>)
        requires
            self.wf(),
            payload@.len() <= MAX_SEAL_PAYLOAD,
        ensures
            r@ == spec_seal_record(self.server_key@, self.server_iv@, n, payload@, inner_type),
            r@.len() == payload@.len() + 22,
    {
        seal_record(&self.server_key, &self.server_iv, n, payload, inner_type)
    }

    /// Opens a client-to-server record.
    pub fn decrypt_client_record(&self, n: u64, header: &Vec<u8>, ciphertext: &Vec<u8>) -> (r:
        Result<(u8, Vec<u8>), OpenError>)
        requires
            self.wf(),
        ensures
            match r {
                Ok((t, content)) => {
                    &&& aes128_gcm_open(
                        self.client_key@,
                        spec_nonce(self.client_iv@, n),
                        header@,
                        ciphertext@,
                    ) matches Some(p)
                    &&& p.len() > 0
                    &&& (t, content@) == spec_inner_split(p)
                },
                Err(OpenError::AeadFailure) => aes128_gcm_open(
                    self.client_key@,
                    spec_nonce(self.client_iv@, n),
                    header@,
                    ciphertext@,
                ) is None,
                Err(OpenError::EmptyPlaintext) => aes128_gcm_open(
                    self.client_key@,
                    spec_nonce(self.client_iv@, n),
                    header@,
                    ciphertext@,
                ) == Some(Seq::<u8>::empty()),
            },
    {
        open_record(&self.client_key, &self.client_iv, n, header, ciphertext)
    }
}

/// Outcome of scanning a buffer for one whole record.
pub enum RecordParse {
    /// More bytes are needed before the record at `pos` is whole.
    NeedMore,
    /// The length field exceeds what the record layer allows.
    Malformed,
    /// Content type, legacy version, payload, and the position past the record.
    Done(u8, u16, Vec<u8>, usize),
}

/// Largest payload the record layer accepts: 2^14 plus room for expansion.
pub const MAX_RECORD_PAYLOAD: usize = 16384 + 256;

/// The record starting at `pos`, when the buffer holds all of it.
pub open spec fn spec_parse_record(data: Seq<u8>, pos: int) -> Option<(u8, u16, Seq<u8>, int)> {
    if pos + 5 > data.len() {
        None
    } else {
        let len = be16(data[pos + 3], data[pos + 4]);
        if pos + 5 + len > data.len() {
            None
        } else {
            Some(
                (
                    data[pos],
                    be16(data[pos + 1], data[pos + 2]) as u16,
                    data.subrange(pos + 5, pos + 5 + len),
                    pos + 5 + len,
                ),
            )
        }
    }
}

/// Whether the record starting at `pos` declares an oversize payload.
pub open spec fn spec_record_oversize(data: Seq<u8>, pos: int) -> bool {
    pos + 5 <= data.len() && be16(data[pos + 3], data[pos + 4]) > MAX_RECORD_PAYLOAD
}

/// Scans the buffer at `pos` for one whole record.
pub fn parse_record(buf: &Vec<u8>, pos: usize) -> (r: RecordParse)
    requires
        pos <= buf@.len(),
    ensures
        match r {
            RecordParse::NeedMore => spec_parse_record(buf@, pos as int) is None
                && !spec_record_oversize(buf@, pos as int),
            RecordParse::Malformed => spec_record_oversize(buf@, pos as int),
            RecordParse::Done(t, v, payload, end) => !spec_record_oversize(buf@, pos as int)
                && spec_parse_record(buf@, pos as int) == Some(
                (t, v, payload@, end as int),
            ) && pos + 5 <= end <= buf@.len(),
        },
{
    let n: usize = buf.len();
    if n - pos < 5 {
        return RecordParse::NeedMore;
    }
    let len = crate::encoding::read_u16(buf, pos + 3) as usize;
    if len > MAX_RECORD_PAYLOAD {
        return RecordParse::Malformed;
    }
    if n - pos - 5 < len {
        return RecordParse::NeedMore;
    }
    let version = crate::encoding::read_u16(buf, pos + 1);
    let mut payload: Vec<u8> = Vec::new();
    let mut i: usize = 0;
    while i < len
        invariant
            i <= len,
            n == buf@.len(),
            pos + 5 + len <= n,
            payload@ == buf@.subrange(pos + 5, pos + 5 + i),
        decreases len - i,
    {
        payload.push(buf[pos + 5 + i]);
        assert(payload@ =~= buf@.subrange(pos as int + 5, pos + 6 + i));
        i = i + 1;
    }
    RecordParse::Done(buf[pos], version, payload, pos + 5 + len)
}

} // verus!
