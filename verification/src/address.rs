//! VLESS address encoding: a one-byte type tag, the address body, and a
//! big-endian port. Type 0 marks a multiplexed stream: a one-byte session id
//! followed by the real address.

use vstd::prelude::*;

use crate::crypto::utf8_valid;
use crate::encoding::{be16, be16_bytes, extend_bytes, put_u16, read_u16};
use vstd::utf8::valid_utf8;

verus! {

/// A destination address carried in a VLESS request.
pub enum Address {
    /// Four octets and a port.
    Ipv4(Vec<u8>, u16),
    /// Sixteen octets and a port.
    Ipv6(Vec<u8>, u16),
    /// A domain name of at most 255 valid UTF-8 bytes and a port.
    Domain(Vec<u8>, u16),
}

/// The mathematical shape of an [`Address`].
pub enum AddressView {
    Ipv4(Seq<u8>, u16),
    Ipv6(Seq<u8>, u16),
    Domain(Seq<u8>, u16),
}

impl View for Address {
    type V = AddressView;

    open spec fn view(&self) -> AddressView {
        match self {
            Address::Ipv4(o, p) => AddressView::Ipv4(o@, *p),
            Address::Ipv6(o, p) => AddressView::Ipv6(o@, *p),
            Address::Domain(d, p) => AddressView::Domain(d@, *p),
        }
    }
}

/// Well-formedness: the body has the length its type prescribes.
pub open spec fn addr_wf(a: AddressView) -> bool {
    match a {
        AddressView::Ipv4(o, _) => o.len() == 4,
        AddressView::Ipv6(o, _) => o.len() == 16,
        AddressView::Domain(d, _) => d.len() <= 255 && valid_utf8(d),
    }
}

/// The serialized form of an address.
pub open spec fn spec_encode(a: AddressView) -> Seq<u8> {
    match a {
        AddressView::Ipv4(o, p) => seq![1u8] + o + be16_bytes(p),
        AddressView::Ipv6(o, p) => seq![3u8] + o + be16_bytes(p),
        AddressView::Domain(d, p) => seq![2u8, d.len() as u8] + d + be16_bytes(p),
    }
}

/// Outcome of parsing an address at a given position.
pub enum AddrParse {
    /// The address and the position just past it.
    Parsed(AddressView, int),
    /// The buffer ends before the address does.
    Truncated,
    /// An address type outside 0 to 3.
    UnknownType(u8),
    /// A domain name that is not valid UTF-8.
    InvalidDomain,
}

/// Parses the byte sequence at `pos`, following multiplex markers.
pub open spec fn spec_decode(data: Seq<u8>, pos: int) -> AddrParse
    decreases data.len() - pos,
{
    if !(0 <= pos < data.len()) {
        AddrParse::Truncated
    } else {
        let t = data[pos];
        if t == 1 {
            if pos + 7 <= data.len() {
                AddrParse::Parsed(
                    AddressView::Ipv4(
                        data.subrange(pos + 1, pos + 5),
                        be16(data[pos + 5], data[pos + 6]) as u16,
                    ),
                    pos + 7,
                )
            } else {
                AddrParse::Truncated
            }
        } else if t == 2 {
            if pos + 2 <= data.len() {
                let n = data[pos + 1] as int;
                if pos + 4 + n <= data.len() {
                    if valid_utf8(data.subrange(pos + 2, pos + 2 + n)) {
                        AddrParse::Parsed(
                            AddressView::Domain(
                                data.subrange(pos + 2, pos + 2 + n),
                                be16(data[pos + 2 + n], data[pos + 3 + n]) as u16,
                            ),
                            pos + 4 + n,
                        )
                    } else {
                        AddrParse::InvalidDomain
                    }
                } else {
                    AddrParse::Truncated
                }
            } else {
                AddrParse::Truncated
            }
        } else if t == 3 {
            if pos + 19 <= data.len() {
                AddrParse::Parsed(
                    AddressView::Ipv6(
                        data.subrange(pos + 1, pos + 17),
                        be16(data[pos + 17], data[pos + 18]) as u16,
                    ),
                    pos + 19,
                )
            } else {
                AddrParse::Truncated
            }
        } else if t == 0 {
            if pos + 2 <= data.len() {
                spec_decode(data, pos + 2)
            } else {
                AddrParse::Truncated
            }
        } else {
            AddrParse::UnknownType(t)
        }
    }
}

/// Why a decode failed.
#[derive(Clone, Copy, PartialEq, Eq, Structural, Debug)]
pub enum AddressError {
    /// The buffer ends before the address does.
    Truncated,
    /// An address type outside 0 to 3.
    UnknownType(u8),
    /// A domain name that is not valid UTF-8.
    InvalidDomain,
}

impl Address {
    /// Parses an address at `pos`, returning it with the position just past it.
    pub fn decode(buf: &Vec<u8>, pos: usize) -> (r: Result<(Address, usize), AddressError>)
        ensures
            match r {
                Ok((a, end)) => addr_wf(a@) && spec_decode(buf@, pos as int) == AddrParse::Parsed(
                    a@,
                    end as int,
                ) && pos <= end <= buf@.len(),
                Err(AddressError::Truncated) => spec_decode(buf@, pos as int)
                    == AddrParse::Truncated,
                Err(AddressError::UnknownType(t)) => spec_decode(buf@, pos as int)
                    == AddrParse::UnknownType(t),
                Err(AddressError::InvalidDomain) => spec_decode(buf@, pos as int)
                    == AddrParse::InvalidDomain,
            },
        decreases buf@.len() - pos,
    {
        let n: usize = buf.len();
        if pos >= n {
            return Err(AddressError::Truncated);
        }
        let t = buf[pos];
        if t == 1 {
            if n - pos < 7 {
                return Err(AddressError::Truncated);
            }
            let mut octets: Vec<u8> = Vec::new();
            let mut i: usize = 0;
            while i < 4
                invariant
                    i <= 4,
                    n == buf@.len(),
                    pos + 7 <= buf@.len(),
                    octets@ == buf@.subrange(pos + 1, pos + 1 + i),
                decreases 4 - i,
            {
                octets.push(buf[pos + 1 + i]);
                assert(octets@ =~= buf@.subrange(pos as int + 1, pos + 2 + i));
                i = i + 1;
            }
            let port = read_u16(buf, pos + 5);
            Ok((Address::Ipv4(octets, port), pos + 7))
        } else if t == 2 {
            if n - pos < 2 {
                return Err(AddressError::Truncated);
            }
            let dlen = buf[pos + 1] as usize;
            if n - pos - 2 < dlen + 2 {
                return Err(AddressError::Truncated);
            }
            let mut name: Vec<u8> = Vec::new();
            let mut i: usize = 0;
            while i < dlen
                invariant
                    i <= dlen,
                    n == buf@.len(),
                    pos + 4 + dlen <= buf@.len(),
                    name@ == buf@.subrange(pos + 2, pos + 2 + i),
                decreases dlen - i,
            {
                name.push(buf[pos + 2 + i]);
                assert(name@ =~= buf@.subrange(pos as int + 2, pos + 3 + i));
                i = i + 1;
            }
            if !utf8_valid(&name) {
                return Err(AddressError::InvalidDomain);
            }
            let port = read_u16(buf, pos + 2 + dlen);
            Ok((Address::Domain(name, port), pos + 4 + dlen))
        } else if t == 3 {
            if n - pos < 19 {
                return Err(AddressError::Truncated);
            }
            let mut octets: Vec<u8> = Vec::new();
            let mut i: usize = 0;
            while i < 16
                invariant
                    i <= 16,
                    n == buf@.len(),
                    pos + 19 <= buf@.len(),
                    octets@ == buf@.subrange(pos + 1, pos + 1 + i),
                decreases 16 - i,
            {
                octets.push(buf[pos + 1 + i]);
                assert(octets@ =~= buf@.subrange(pos as int + 1, pos + 2 + i));
                i = i + 1;
            }
            let port = read_u16(buf, pos + 17);
            Ok((Address::Ipv6(octets, port), pos + 19))
        } else if t == 0 {
            if n - pos < 2 {
                return Err(AddressError::Truncated);
            }
            Self::decode(buf, pos + 2)
        } else {
            Err(AddressError::UnknownType(t))
        }
    }

    /// Appends the serialized form of the address.
    pub fn encode(&self, buf: &mut Vec<u8>)
        requires
            addr_wf(self@),
        ensures
            final(buf)@ == old(buf)@ + spec_encode(self@),
    {
        match self {
            Address::Ipv4(o, p) => {
                buf.push(1);
                extend_bytes(buf, o);
                put_u16(buf, *p);
                assert(buf@ =~= old(buf)@ + spec_encode(self@));
            },
            Address::Ipv6(o, p) => {
                buf.push(3);
                extend_bytes(buf, o);
                put_u16(buf, *p);
                assert(buf@ =~= old(buf)@ + spec_encode(self@));
            },
            Address::Domain(d, p) => {
                buf.push(2);
                buf.push(d.len() as u8);
                extend_bytes(buf, d);
                put_u16(buf, *p);
                assert(buf@ =~= old(buf)@ + spec_encode(self@));
            },
        }
    }

    /// The port of the address.
    pub fn port(&self) -> (p: u16)
        ensures
            p == spec_port(self@),
    {
        match self {
            Address::Ipv4(_, port) => *port,
            Address::Ipv6(_, port) => *port,
            Address::Domain(_, port) => *port,
        }
    }
}

/// The port field of an address view.
pub open spec fn spec_port(a: AddressView) -> u16 {
    match a {
        AddressView::Ipv4(_, p) => p,
        AddressView::Ipv6(_, p) => p,
        AddressView::Domain(_, p) => p,
    }
}

/// Whether two byte vectors hold the same bytes.
pub fn bytes_eq(a: &Vec<u8>, b: &Vec<u8>) -> (r: bool)
    ensures
        r == (a@ == b@),
{
    if a.len() != b.len() {
        assert(a@ != b@);
        return false;
    }
    let mut i: usize = 0;
    while i < a.len()
        invariant
            i <= a@.len(),
            a@.len() == b@.len(),
            forall|j: int| 0 <= j < i ==> a@[j] == b@[j],
        decreases a@.len() - i,
    {
        if a[i] != b[i] {
            assert(a@ != b@);
            return false;
        }
        i = i + 1;
    }
    proof {
        assert(a@ =~= b@);
    }
    true
}

impl PartialEq for Address {
    /// Structural equality on variant, body and port.
    fn eq(&self, other: &Self) -> (r: bool) {
        match (self, other) {
            (Address::Ipv4(a, p), Address::Ipv4(b, q)) => bytes_eq(a, b) && p == q,
            (Address::Ipv6(a, p), Address::Ipv6(b, q)) => bytes_eq(a, b) && p == q,
            (Address::Domain(a, p), Address::Domain(b, q)) => bytes_eq(a, b) && p == q,
            _ => false,
        }
    }
}

impl vstd::std_specs::cmp::PartialEqSpecImpl for Address {
    open spec fn obeys_eq_spec() -> bool {
        true
    }

    open spec fn eq_spec(&self, other: &Self) -> bool {
        self@ == other@
    }
}

/// Round trip: decoding a freshly encoded well-formed address yields the
/// address back, consuming exactly its serialization.
pub proof fn lemma_address_round_trip(a: AddressView)
    requires
        addr_wf(a),
    ensures
        spec_decode(spec_encode(a), 0) == AddrParse::Parsed(a, spec_encode(a).len() as int),
{
    let e = spec_encode(a);
    match a {
        AddressView::Ipv4(o, p) => {
            assert(e.subrange(1, 5) =~= o);
            assert(e[5] == be16_bytes(p)[0] && e[6] == be16_bytes(p)[1]);
            crate::encoding::lemma_be16_round_trip(p);
        },
        AddressView::Ipv6(o, p) => {
            assert(e.subrange(1, 17) =~= o);
            assert(e[17] == be16_bytes(p)[0] && e[18] == be16_bytes(p)[1]);
            crate::encoding::lemma_be16_round_trip(p);
        },
        AddressView::Domain(d, p) => {
            let n = d.len() as int;
            assert(e.subrange(2, 2 + n) =~= d);
            assert(e[2 + n] == be16_bytes(p)[0] && e[3 + n] == be16_bytes(p)[1]);
            crate::encoding::lemma_be16_round_trip(p);
        },
    }
}

} // verus!
