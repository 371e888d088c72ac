//! The compute half of the certificate fetcher: building the minimal
//! ClientHello sent to the camouflage destination, and extracting the
//! Certificate handshake message from the bytes it answers. The caller
//! performs the TCP connect, write and read.

use vstd::prelude::*;

use crate::crypto::os_random_bytes;
use crate::encoding::{be16, be16_bytes, be24_bytes, extend_bytes, put_u16, put_u24, read_u16,
    sub_vec};

verus! {

/// The minimal ClientHello: TLS 1.3 via supported_versions, suite 0x1301,
/// SNI for the host, no key share.
pub open spec fn spec_simple_client_hello(sni: Seq<u8>, random: Seq<u8>) -> Seq<u8> {
    seq![0x16u8, 3u8, 3u8] + be16_bytes((sni.len() + 63) as u16) + seq![1u8] + be24_bytes(
        (sni.len() + 59) as u32,
    ) + seq![3u8, 3u8] + random + seq![0u8] + be16_bytes(2) + seq![0x13u8, 0x01] + seq![1u8, 0u8]
        + be16_bytes((16 + sni.len()) as u16) + seq![0u8, 0u8] + be16_bytes((sni.len() + 5) as u16)
        + be16_bytes((sni.len() + 3) as u16) + seq![0u8] + be16_bytes(sni.len() as u16) + sni
        + seq![0x00u8, 0x2b, 0x00, 0x03, 0x02, 0x03, 0x04]
}

/// Builds the minimal ClientHello around a given 32-byte random.
#[verifier::rlimit(60)]
pub fn build_client_hello_with_random(sni: &Vec<u8>, random: &Vec<u8>) -> (r: Vec<u8>)
    requires
        sni@.len() <= 255,
        random@.len() == 32,
    ensures
        r@ == spec_simple_client_hello(sni@, random@),
{
    let mut r: Vec<u8> = Vec::new();
    r.push(0x16);
    r.push(3);
    r.push(3);
    put_u16(&mut r, (sni.len() + 63) as u16);
    r.push(1);
    put_u24(&mut r, (sni.len() + 59) as u32);
    r.push(3);
    r.push(3);
    extend_bytes(&mut r, random);
    r.push(0);
    put_u16(&mut r, 2);
    r.push(0x13);
    r.push(0x01);
    r.push(1);
    r.push(0);
    put_u16(&mut r, (16 + sni.len()) as u16);
    r.push(0x00);
    r.push(0x00);
    put_u16(&mut r, (sni.len() + 5) as u16);
    put_u16(&mut r, (sni.len() + 3) as u16);
    r.push(0);
    put_u16(&mut r, sni.len() as u16);
    extend_bytes(&mut r, sni);
    r.push(0x00);
    r.push(0x2b);
    r.push(0x00);
    r.push(0x03);
    r.push(0x02);
    r.push(0x03);
    r.push(0x04);
    assert(r@ =~= spec_simple_client_hello(sni@, random@));
    r
}

/// The host part of a `host:port` destination: everything before the first
/// colon, or the whole input when there is none.
pub fn split_host(dest: &Vec<u8>) -> (r: Vec<u8>)
    ensures
        r@.len() <= dest@.len(),
        forall|j: int| 0 <= j < r@.len() ==> r@[j] == dest@[j] && dest@[j] != 0x3a,
        r@.len() == dest@.len() || dest@[r@.len() as int] == 0x3a,
{
    let mut i: usize = 0;
    while i < dest.len()
        invariant
            i <= dest@.len(),
            forall|j: int| 0 <= j < i ==> dest@[j] != 0x3a,
        decreases dest@.len() - i,
    {
        if dest[i] == 0x3a {
            return sub_vec(dest, 0, i);
        }
        i = i + 1;
    }
    sub_vec(dest, 0, dest.len())
}

/// Builds the probe ClientHello for a destination, drawing a fresh random;
/// for every draw, the bytes are the minimal ClientHello with SNI for the
/// destination's host part.
pub fn build_simple_client_hello(dest: &Vec<u8>) -> (r: Vec<u8>)
    requires
        dest@.len() <= 255,
    ensures
        exists|rnd: Seq<u8>, sni: Seq<u8>|
            {
                &&& #[trigger] spec_simple_client_hello(sni, rnd) == r@
                &&& rnd.len() == 32
                &&& sni.len() <= dest@.len()
                &&& forall|j: int| 0 <= j < sni.len() ==> sni[j] == dest@[j] && dest@[j] != 0x3a
                &&& sni.len() == dest@.len() || dest@[sni.len() as int] == 0x3a
            },
{
    let sni = split_host(dest);
    let random = os_random_bytes(32);
    let r = build_client_hello_with_random(&sni, &random);
    proof {
        assert(spec_simple_client_hello(sni@, random@) == r@);
    }
    r
}

/// The first handshake record whose payload begins with the Certificate
/// type, starting the walk at `pos`: the whole payload, message header
/// included.
pub open spec fn spec_extract_cert(d: Seq<u8>, pos: int) -> Option<Seq<u8>>
    decreases d.len() - pos,
{
    if pos < 0 || pos + 5 >= d.len() {
        None
    } else {
        let rlen = be16(d[pos + 3], d[pos + 4]);
        if pos + 5 + rlen > d.len() {
            None
        } else if d[pos] == 0x16 && rlen > 0 && d[pos + 5] == 11 {
            Some(d.subrange(pos + 5, pos + 5 + rlen))
        } else {
            spec_extract_cert(d, pos + 5 + rlen)
        }
    }
}

/// No Certificate message was found in the fetched bytes.
#[derive(Clone, Copy, PartialEq, Eq, Structural, Debug)]
pub struct CertFetchFailed;

/// Walks the fetched record stream for the first Certificate handshake
/// message and returns it whole.
pub fn extract_certificate_from_response(data: &Vec<u8>) -> (r: Result<Vec<u8>, CertFetchFailed>)
    ensures
        match r {
            Ok(c) => spec_extract_cert(data@, 0) == Some(c@),
            Err(CertFetchFailed) => spec_extract_cert(data@, 0) is None,
        },
{
    let n: usize = data.len();
    let mut pos: usize = 0;
    while pos < n && n - pos > 5
        invariant
            pos <= n,
            n == data@.len(),
            spec_extract_cert(data@, 0) == spec_extract_cert(data@, pos as int),
        decreases n - pos,
    {
        let rlen = read_u16(data, pos + 3) as usize;
        if n - pos - 5 < rlen {
            return Err(CertFetchFailed);
        }
        if data[pos] == 0x16 && rlen > 0 && data[pos + 5] == 11 {
            return Ok(sub_vec(data, pos + 5, pos + 5 + rlen));
        }
        pos = pos + 5 + rlen;
    }
    Err(CertFetchFailed)
}

} // verus!
