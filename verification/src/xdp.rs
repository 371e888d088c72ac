//! The packet classifier of the kernel firewall and its maps, modelled over
//! plain bytes and values: per-packet verdicts for UDP and TCP on protected
//! ports, illegal TCP flag combinations, a per-source SYN rate limit, and
//! the userspace garbage collection of stale rate-limit entries.

use vstd::prelude::*;

use crate::encoding::{be16, be32, read_u16, read_u32, sub_vec};

verus! {

/// The packet caused a processing error and is aborted.
pub const XDP_ABORTED: u32 = 0;

/// The packet is dropped before the stack sees it.
pub const XDP_DROP: u32 = 1;

/// The packet passes on to the network stack.
pub const XDP_PASS: u32 = 2;

/// SYN packets allowed per source IP per second.
pub const SYN_LIMIT_PER_SEC: u32 = 50;

/// Nanoseconds in a second.
pub const NANOS_PER_SEC: u64 = 1000000000;

/// Seconds after which a rate-limit entry is stale.
pub const GC_STALE_SECS: u64 = 180;

/// An Ethernet header: destination, source, and the EtherType.
pub struct EthHdr {
    /// Destination MAC, 6 bytes.
    pub dst: Vec<u8>,
    /// Source MAC, 6 bytes.
    pub src: Vec<u8>,
    /// EtherType, big-endian on the wire.
    pub etype: u16,
}

/// An IPv4 header, fixed fields only.
pub struct IpHdr {
    /// Version and header length in 32-bit words.
    pub version_ihl: u8,
    /// Type of service.
    pub tos: u8,
    /// Total length.
    pub tot_len: u16,
    /// Identification.
    pub id: u16,
    /// Flags and fragment offset.
    pub frag_off: u16,
    /// Time to live.
    pub ttl: u8,
    /// Transport protocol.
    pub protocol: u8,
    /// Header checksum.
    pub check: u16,
    /// Source address.
    pub saddr: u32,
    /// Destination address.
    pub daddr: u32,
}

/// A TCP header, fixed fields only.
pub struct TcpHdr {
    /// Source port.
    pub source: u16,
    /// Destination port.
    pub dest: u16,
    /// Sequence number.
    pub seq: u32,
    /// Acknowledgement number.
    pub ack_seq: u32,
    /// Data offset and reserved bits.
    pub res1: u8,
    /// The flag byte: FIN 0x01, SYN 0x02, RST 0x04, ACK 0x10.
    pub flags: u8,
    /// Receive window.
    pub window: u16,
    /// Checksum.
    pub check: u16,
    /// Urgent pointer.
    pub urg_ptr: u16,
}

/// A UDP header.
pub struct UdpHdr {
    /// Source port.
    pub source: u16,
    /// Destination port.
    pub dest: u16,
    /// Datagram length.
    pub len: u16,
    /// Checksum.
    pub check: u16,
}

/// One rate-limit slot: when the current window started and how many SYN
/// packets it has seen.
#[derive(Clone, Copy, PartialEq, Eq, Structural, Debug)]
pub struct RateLimitEntry {
    /// Start of the current one-second window, kernel nanoseconds.
    pub last_time_ns: u64,
    /// SYN packets counted in the window.
    pub count: u32,
}

impl EthHdr {
    /// Parses the Ethernet header at `pos`.
    pub fn parse(p: &Vec<u8>, pos: usize) -> (r: Option<EthHdr>)
        ensures
            match r {
                Some(h) => {
                    &&& pos + 14 <= p@.len()
                    &&& h.dst@ == p@.subrange(pos as int, pos + 6)
                    &&& h.src@ == p@.subrange(pos + 6, pos + 12)
                    &&& h.etype == be16(p@[pos + 12], p@[pos + 13])
                },
                None => pos + 14 > p@.len(),
            },
    {
        let n: usize = p.len();
        if n < 14 || pos > n - 14 {
            return None;
        }
        Some(
            EthHdr {
                dst: sub_vec(p, pos, pos + 6),
                src: sub_vec(p, pos + 6, pos + 12),
                etype: read_u16(p, pos + 12),
            },
        )
    }
}

impl IpHdr {
    /// Parses the fixed IPv4 header at `pos`.
    pub fn parse(p: &Vec<u8>, pos: usize) -> (r: Option<IpHdr>)
        ensures
            match r {
                Some(h) => {
                    &&& pos + 20 <= p@.len()
                    &&& h.version_ihl == p@[pos as int]
                    &&& h.protocol == p@[pos + 9]
                    &&& h.saddr == be32(p@[pos + 12], p@[pos + 13], p@[pos + 14], p@[pos + 15])
                    &&& h.daddr == be32(p@[pos + 16], p@[pos + 17], p@[pos + 18], p@[pos + 19])
                },
                None => pos + 20 > p@.len(),
            },
    {
        let n: usize = p.len();
        if n < 20 || pos > n - 20 {
            return None;
        }
        Some(
            IpHdr {
                version_ihl: p[pos],
                tos: p[pos + 1],
                tot_len: read_u16(p, pos + 2),
                id: read_u16(p, pos + 4),
                frag_off: read_u16(p, pos + 6),
                ttl: p[pos + 8],
                protocol: p[pos + 9],
                check: read_u16(p, pos + 10),
                saddr: read_u32(p, pos + 12),
                daddr: read_u32(p, pos + 16),
            },
        )
    }
}

impl TcpHdr {
    /// Parses the fixed TCP header at `pos`.
    pub fn parse(p: &Vec<u8>, pos: usize) -> (r: Option<TcpHdr>)
        ensures
            match r {
                Some(h) => {
                    &&& pos + 20 <= p@.len()
                    &&& h.dest == be16(p@[pos + 2], p@[pos + 3])
                    &&& h.flags == p@[pos + 13]
                },
                None => pos + 20 > p@.len(),
            },
    {
        let n: usize = p.len();
        if n < 20 || pos > n - 20 {
            return None;
        }
        Some(
            TcpHdr {
                source: read_u16(p, pos),
                dest: read_u16(p, pos + 2),
                seq: read_u32(p, pos + 4),
                ack_seq: read_u32(p, pos + 8),
                res1: p[pos + 12],
                flags: p[pos + 13],
                window: read_u16(p, pos + 14),
                check: read_u16(p, pos + 16),
                urg_ptr: read_u16(p, pos + 18),
            },
        )
    }
}

impl UdpHdr {
    /// Parses the UDP header at `pos`.
    pub fn parse(p: &Vec<u8>, pos: usize) -> (r: Option<UdpHdr>)
        ensures
            match r {
                Some(h) => {
                    &&& pos + 8 <= p@.len()
                    &&& h.dest == be16(p@[pos + 2], p@[pos + 3])
                },
                None => pos + 8 > p@.len(),
            },
    {
        let n: usize = p.len();
        if n < 8 || pos > n - 8 {
            return None;
        }
        Some(
            UdpHdr {
                source: read_u16(p, pos),
                dest: read_u16(p, pos + 2),
                len: read_u16(p, pos + 4),
                check: read_u16(p, pos + 6),
            },
        )
    }
}

/// The set of protected destination ports.
pub struct AllowedPorts {
    ports: Vec<u16>,
}

impl View for AllowedPorts {
    type V = Set<u16>;

    /// The set of ports.
    closed spec fn view(&self) -> Set<u16> {
        self.ports@.to_set()
    }
}

impl AllowedPorts {
    /// An empty set.
    pub fn new() -> (r: AllowedPorts)
        ensures
            r@ == Set::<u16>::empty(),
    {
        let r = AllowedPorts { ports: Vec::new() };
        proof {
            assert(r@ =~= Set::<u16>::empty());
        }
        r
    }

    /// Adds a port to the set.
    pub fn insert(&mut self, port: u16)
        ensures
            final(self)@ == old(self)@.insert(port),
    {
        self.ports.push(port);
        proof {
            assert forall|x: u16|
                self.ports@.to_set().contains(x) == old(self).ports@.to_set().insert(
                    port,
                ).contains(x) by {
                if self.ports@.contains(x) {
                    let i = choose|i: int| 0 <= i < self.ports@.len() && self.ports@[i] == x;
                    if i < old(self).ports@.len() {
                        assert(old(self).ports@[i] == x);
                        assert(old(self).ports@.contains(x));
                    } else {
                        assert(x == port);
                    }
                }
                if old(self).ports@.contains(x) {
                    let w = choose|i: int|
                        0 <= i < old(self).ports@.len() && old(self).ports@[i] == x;
                    assert(self.ports@[w] == x);
                    assert(self.ports@.contains(x));
                }
                if x == port {
                    assert(self.ports@[self.ports@.len() - 1] == x);
                    assert(self.ports@.contains(x));
                }
            }
            assert(self.ports@.to_set() =~= old(self).ports@.to_set().insert(port));
        }
    }

    /// Whether a port is protected.
    pub fn contains(&self, port: u16) -> (r: bool)
        ensures
            r == self@.contains(port),
    {
        let mut i: usize = 0;
        while i < self.ports.len()
            invariant
                i <= self.ports@.len(),
                forall|j: int| 0 <= j < i ==> self.ports@[j] != port,
            decreases self.ports@.len() - i,
        {
            if self.ports[i] == port {
                return true;
            }
            i = i + 1;
        }
        proof {
            assert(!self.ports@.contains(port));
        }
        false
    }
}

/// The per-source rate-limit map, keyed by the source IPv4 address.
pub struct RateLimitMap {
    entries: Vec<(u32, RateLimitEntry)>,
    model: Ghost<Map<u32, RateLimitEntry>>,
}

impl View for RateLimitMap {
    type V = Map<u32, RateLimitEntry>;

    /// The map of entries.
    closed spec fn view(&self) -> Map<u32, RateLimitEntry> {
        self.model@
    }
}

impl RateLimitMap {
    /// Keys are unique and match the map exactly.
    pub closed spec fn inv(&self) -> bool {
        &&& forall|i: int, j: int|
            0 <= i < j < self.entries@.len() ==> self.entries@[i].0 != self.entries@[j].0
        &&& forall|i: int|
            0 <= i < self.entries@.len() ==> self.model@.dom().contains(#[trigger] self.entries@[i].0)
                && self.model@[self.entries@[i].0] == self.entries@[i].1
        &&& forall|k: u32|
            self.model@.dom().contains(k) ==> exists|i: int|
                0 <= i < self.entries@.len() && (#[trigger] self.entries@[i]).0 == k
    }

    /// An empty map.
    pub fn new() -> (r: RateLimitMap)
        ensures
            r.inv(),
            r@ == Map::<u32, RateLimitEntry>::empty(),
    {
        RateLimitMap { entries: Vec::new(), model: Ghost(Map::empty()) }
    }

    /// Looks a source address up.
    pub fn get(&self, ip: u32) -> (r: Option<RateLimitEntry>)
        requires
            self.inv(),
        ensures
            match r {
                Some(e) => self@.dom().contains(ip) && self@[ip] == e,
                None => !self@.dom().contains(ip),
            },
    {
        let mut i: usize = 0;
        while i < self.entries.len()
            invariant
                self.inv(),
                i <= self.entries@.len(),
                forall|j: int| 0 <= j < i ==> (#[trigger] self.entries@[j]).0 != ip,
            decreases self.entries@.len() - i,
        {
            let (k, e) = self.entries[i];
            if k == ip {
                return Some(e);
            }
            i = i + 1;
        }
        None
    }

    /// Inserts or replaces the entry of a source address.
    pub fn insert(&mut self, ip: u32, entry: RateLimitEntry)
        requires
            old(self).inv(),
        ensures
            final(self).inv(),
            final(self)@ == old(self)@.insert(ip, entry),
    {
        proof {
            self.model@ = self.model@.insert(ip, entry);
        }
        let mut i: usize = 0;
        while i < self.entries.len()
            invariant
                old(self).inv(),
                i <= self.entries@.len(),
                self.entries@ == old(self).entries@,
                self.model@ == old(self)@.insert(ip, entry),
                forall|j: int| 0 <= j < i ==> (#[trigger] self.entries@[j]).0 != ip,
            decreases self.entries@.len() - i,
        {
            let (k, _e) = self.entries[i];
            if k == ip {
                self.entries.set(i, (ip, entry));
                proof {
                    lemma_entries_update(old(self).entries@, self.entries@, self.model@, ip, entry, i as int, old(self)@);
                }
                return ;
            }
            i = i + 1;
        }
        self.entries.push((ip, entry));
        proof {
            let es = self.entries@;
            let oes = old(self).entries@;
            assert(es =~= oes + seq![(ip, entry)]);
            assert forall|a: int, b: int| 0 <= a < b < es.len() implies es[a].0 != es[b].0 by {
                if b < oes.len() {
                } else {
                    assert(es[b] == (ip, entry));
                    assert(oes[a].0 != ip);
                }
            }
            assert forall|k: u32| self.model@.dom().contains(k) implies exists|i2: int|
                0 <= i2 < es.len() && (#[trigger] es[i2]).0 == k by {
                if k == ip {
                    assert(es[es.len() - 1].0 == k);
                } else {
                    let w = choose|i2: int| 0 <= i2 < oes.len() && (#[trigger] oes[i2]).0 == k;
                    assert(es[w].0 == k);
                }
            }
        }
    }

    /// Removes the entry of a source address; absent keys are left alone.
    pub fn remove(&mut self, ip: u32)
        requires
            old(self).inv(),
        ensures
            final(self).inv(),
            final(self)@ == old(self)@.remove(ip),
    {
        proof {
            self.model@ = self.model@.remove(ip);
        }
        let mut i: usize = 0;
        while i < self.entries.len()
            invariant
                old(self).inv(),
                i <= self.entries@.len(),
                self.entries@ == old(self).entries@,
                self.model@ == old(self)@.remove(ip),
                forall|j: int| 0 <= j < i ==> (#[trigger] self.entries@[j]).0 != ip,
            decreases self.entries@.len() - i,
        {
            let (k, _e) = self.entries[i];
            if k == ip {
                let last = self.entries.len() - 1;
                let moved = self.entries[last];
                self.entries.set(i, moved);
                let _ = self.entries.pop();
                proof {
                    lemma_entries_remove(old(self).entries@, self.entries@, self.model@, ip, i as int, old(self)@);
                }
                return ;
            }
            i = i + 1;
        }
        proof {
            assert(!old(self)@.dom().contains(ip)) by {
                if old(self)@.dom().contains(ip) {
                    let w = choose|i2: int|
                        0 <= i2 < old(self).entries@.len() && (#[trigger] old(self).entries@[i2]).0
                            == ip;
                }
            }
            assert(self.model@ =~= old(self)@.remove(ip));
        }
    }

    /// A copy of all entries, for the two-phase garbage collection.
    pub fn entries(&self) -> (r: Vec<(u32, RateLimitEntry)>)
        requires
            self.inv(),
        ensures
            forall|i: int|
                0 <= i < r@.len() ==> self@.dom().contains(#[trigger] r@[i].0) && self@[r@[i].0]
                    == r@[i].1,
            forall|k: u32|
                self@.dom().contains(k) ==> exists|i: int| 0 <= i < r@.len() && (#[trigger] r@[i]).0
                    == k,
    {
        let mut r: Vec<(u32, RateLimitEntry)> = Vec::new();
        let mut i: usize = 0;
        while i < self.entries.len()
            invariant
                self.inv(),
                i <= self.entries@.len(),
                r@ == self.entries@.subrange(0, i as int),
            decreases self.entries@.len() - i,
        {
            r.push(self.entries[i]);
            assert(r@ =~= self.entries@.subrange(0, i + 1));
            i = i + 1;
        }
        proof {
            assert(r@ =~= self.entries@);
        }
        r
    }
}

/// The SYN rate-limit step: a first SYN from a source opens a window; a SYN
/// within an open one-second window raises the count, and the packet is
/// dropped once the count passes the limit; a SYN after the window resets it.
pub open spec fn spec_rate_limit_step(rate: Map<u32, RateLimitEntry>, src: u32, now: u64) -> (
    u32,
    Map<u32, RateLimitEntry>,
) {
    if rate.dom().contains(src) {
        let e = rate[src];
        if now > e.last_time_ns + NANOS_PER_SEC {
            (XDP_PASS, rate.insert(src, RateLimitEntry { last_time_ns: now, count: 1 }))
        } else {
            let c: u32 = if e.count == u32::MAX {
                e.count
            } else {
                (e.count + 1) as u32
            };
            (
                if c > SYN_LIMIT_PER_SEC {
                    XDP_DROP
                } else {
                    XDP_PASS
                },
                rate.insert(src, RateLimitEntry { last_time_ns: e.last_time_ns, count: c }),
            )
        }
    } else {
        (XDP_PASS, rate.insert(src, RateLimitEntry { last_time_ns: now, count: 1 }))
    }
}

/// The per-packet verdict and the rate map afterwards: non-IPv4 and short
/// packets pass; UDP to a protected port is dropped; TCP to an unprotected
/// port passes; SYN+FIN and SYN+RST are dropped; a plain SYN runs the rate
/// limit; everything else passes.
pub open spec fn spec_classify(
    p: Seq<u8>,
    allowed: Set<u16>,
    rate: Map<u32, RateLimitEntry>,
    now: u64,
) -> (u32, Map<u32, RateLimitEntry>) {
    if p.len() < 14 {
        (XDP_PASS, rate)
    } else if be16(p[12], p[13]) != 0x0800 {
        (XDP_PASS, rate)
    } else if p.len() < 34 {
        (XDP_PASS, rate)
    } else {
        let trans = 14 + (p[14] & 0x0F) * 4;
        let protocol = p[23];
        if protocol == 17 {
            if trans + 8 > p.len() {
                (XDP_PASS, rate)
            } else if allowed.contains(be16(p[trans + 2], p[trans + 3]) as u16) {
                (XDP_DROP, rate)
            } else {
                (XDP_PASS, rate)
            }
        } else if protocol == 6 {
            if trans + 20 > p.len() {
                (XDP_PASS, rate)
            } else {
                let dport = be16(p[trans + 2], p[trans + 3]) as u16;
                if !allowed.contains(dport) {
                    (XDP_PASS, rate)
                } else {
                    let flags = p[trans + 13];
                    if flags & 0x03 == 0x03 {
                        (XDP_DROP, rate)
                    } else if flags & 0x06 == 0x06 {
                        (XDP_DROP, rate)
                    } else if flags & 0x02 != 0 && flags & 0x10 == 0 {
                        spec_rate_limit_step(
                            rate,
                            be32(p[26], p[27], p[28], p[29]) as u32,
                            now,
                        )
                    } else {
                        (XDP_PASS, rate)
                    }
                }
            }
        } else {
            (XDP_PASS, rate)
        }
    }
}

/// Classifies one packet against the protected ports and the rate map,
/// updating the map as the kernel program would.
pub fn classify_packet(
    p: &Vec<u8>,
    allowed: &AllowedPorts,
    rate: &mut RateLimitMap,
    now: u64,
) -> (verdict: u32)
    requires
        old(rate).inv(),
    ensures
        final(rate).inv(),
        (verdict, final(rate)@) == spec_classify(p@, allowed@, old(rate)@, now),
{
    let eth = match EthHdr::parse(p, 0) {
        Some(h) => h,
        None => {
            return XDP_PASS;
        },
    };
    if eth.etype != 0x0800 {
        return XDP_PASS;
    }
    let ip = match IpHdr::parse(p, 14) {
        Some(h) => h,
        None => {
            return XDP_PASS;
        },
    };
    let vi = ip.version_ihl;
    proof {
        assert(vi & 0x0F <= 0x0F) by (bit_vector);
    }
    let trans: usize = 14 + (vi & 0x0F) as usize * 4;
    if ip.protocol == 17 {
        let udp = match UdpHdr::parse(p, trans) {
            Some(h) => h,
            None => {
                return XDP_PASS;
            },
        };
        if allowed.contains(udp.dest) {
            return XDP_DROP;
        }
        return XDP_PASS;
    }
    if ip.protocol == 6 {
        let tcp = match TcpHdr::parse(p, trans) {
            Some(h) => h,
            None => {
                return XDP_PASS;
            },
        };
        if !allowed.contains(tcp.dest) {
            return XDP_PASS;
        }
        let flags = tcp.flags;
        if flags & 0x03 == 0x03 {
            return XDP_DROP;
        }
        if flags & 0x06 == 0x06 {
            return XDP_DROP;
        }
        if flags & 0x02 != 0 && flags & 0x10 == 0 {
            let src = ip.saddr;
            match rate.get(src) {
                Some(e) => {
                    if now >= e.last_time_ns && now - e.last_time_ns > NANOS_PER_SEC {
                        rate.insert(src, RateLimitEntry { last_time_ns: now, count: 1 });
                        return XDP_PASS;
                    }
                    let c: u32 = if e.count == u32::MAX {
                        e.count
                    } else {
                        e.count + 1
                    };
                    rate.insert(src, RateLimitEntry { last_time_ns: e.last_time_ns, count: c });
                    if c > SYN_LIMIT_PER_SEC {
                        return XDP_DROP;
                    }
                    return XDP_PASS;
                },
                None => {
                    rate.insert(src, RateLimitEntry { last_time_ns: now, count: 1 });
                    return XDP_PASS;
                },
            }
        }
        return XDP_PASS;
    }
    XDP_PASS
}

/// The destination port of a parseable IPv4 TCP or UDP packet.
pub open spec fn spec_dst_port(p: Seq<u8>) -> Option<u16> {
    if p.len() < 34 || be16(p[12], p[13]) != 0x0800 {
        None
    } else {
        let trans = 14 + (p[14] & 0x0F) * 4;
        if p[23] == 17 && trans + 8 <= p.len() {
            Some(be16(p[trans + 2], p[trans + 3]) as u16)
        } else if p[23] == 6 && trans + 20 <= p.len() {
            Some(be16(p[trans + 2], p[trans + 3]) as u16)
        } else {
            None
        }
    }
}

/// A packet whose destination port is not protected — or that does not even
/// parse as IPv4 TCP or UDP — always passes, whatever its flags or payload,
/// and leaves the rate map alone.
pub proof fn lemma_unprotected_passes(
    p: Seq<u8>,
    allowed: Set<u16>,
    rate: Map<u32, RateLimitEntry>,
    now: u64,
)
    requires
        match spec_dst_port(p) {
            Some(d) => !allowed.contains(d),
            None => true,
        },
    ensures
        spec_classify(p, allowed, rate, now) == (XDP_PASS, rate),
{
}

/// An IPv4 TCP packet from `src` to protected port `dport` that is a plain
/// SYN without ACK and carries no illegal flag combination.
pub open spec fn spec_syn_probe(p: Seq<u8>, src: u32, dport: u16) -> bool {
    &&& p.len() >= 34
    &&& be16(p[12], p[13]) == 0x0800
    &&& p[23] == 6
    &&& 14 + (p[14] & 0x0F) * 4 + 20 <= p.len()
    &&& be16(p[(14 + (p[14] & 0x0F) * 4 + 2) as int], p[(14 + (p[14] & 0x0F) * 4 + 3) as int])
        == dport
    &&& p[(14 + (p[14] & 0x0F) * 4 + 13) as int] & 0x03 != 0x03
    &&& p[(14 + (p[14] & 0x0F) * 4 + 13) as int] & 0x06 != 0x06
    &&& p[(14 + (p[14] & 0x0F) * 4 + 13) as int] & 0x02 != 0
    &&& p[(14 + (p[14] & 0x0F) * 4 + 13) as int] & 0x10 == 0
    &&& be32(p[26], p[27], p[28], p[29]) == src
}

/// The verdicts of classifying the same packet at each of the given times,
/// threading the rate map through.
pub open spec fn spec_classify_fold(
    p: Seq<u8>,
    times: Seq<u64>,
    allowed: Set<u16>,
    rate: Map<u32, RateLimitEntry>,
) -> (Seq<u32>, Map<u32, RateLimitEntry>)
    decreases times.len(),
{
    if times.len() == 0 {
        (seq![], rate)
    } else {
        let first = spec_classify(p, allowed, rate, times[0]);
        let rest = spec_classify_fold(p, times.skip(1), allowed, first.1);
        (seq![first.0] + rest.0, rest.1)
    }
}

/// SYN packets inside an already-open window: with the window counter at
/// `c`, the `i`-th further packet passes while the count stays within the
/// limit and is dropped beyond it.
proof fn lemma_syn_window(
    p: Seq<u8>,
    src: u32,
    dport: u16,
    allowed: Set<u16>,
    rate: Map<u32, RateLimitEntry>,
    times: Seq<u64>,
    t0: u64,
    c: u32,
)
    requires
        spec_syn_probe(p, src, dport),
        allowed.contains(dport),
        rate.dom().contains(src),
        rate[src] == (RateLimitEntry { last_time_ns: t0, count: c }),
        1 <= c,
        c + times.len() <= u32::MAX,
        forall|i: int| 0 <= i < times.len() ==> t0 <= #[trigger] times[i] <= t0 + NANOS_PER_SEC,
    ensures
        spec_classify_fold(p, times, allowed, rate).0.len() == times.len(),
        forall|i: int|
            0 <= i < times.len() ==> spec_classify_fold(p, times, allowed, rate).0[i] == (if c + i
                + 1 > SYN_LIMIT_PER_SEC {
                XDP_DROP
            } else {
                XDP_PASS
            }),
    decreases times.len(),
{
    if times.len() > 0 {
        let first = spec_classify(p, allowed, rate, times[0]);
        let rate1 = rate.insert(src, RateLimitEntry { last_time_ns: t0, count: (c + 1) as u32 });
        assert(first.1 == rate1);
        lemma_syn_window(p, src, dport, allowed, rate1, times.skip(1), t0, (c + 1) as u32);
        let whole = spec_classify_fold(p, times, allowed, rate);
        let rest = spec_classify_fold(p, times.skip(1), allowed, rate1);
        assert forall|i: int| 0 <= i < times.len() implies whole.0[i] == (if c + i + 1
            > SYN_LIMIT_PER_SEC {
            XDP_DROP
        } else {
            XDP_PASS
        }) by {
            if i > 0 {
                assert(whole.0[i] == rest.0[i - 1]);
            }
        }
    }
}

/// The SYN-flood guarantee: the same plain-SYN packet from one source to a
/// protected port, arriving any number of times within one second of its
/// first arrival, passes exactly `SYN_LIMIT_PER_SEC` times and every later
/// copy in the window is dropped.
pub proof fn lemma_syn_rate_limit(
    p: Seq<u8>,
    src: u32,
    dport: u16,
    allowed: Set<u16>,
    rate: Map<u32, RateLimitEntry>,
    times: Seq<u64>,
)
    requires
        spec_syn_probe(p, src, dport),
        allowed.contains(dport),
        !rate.dom().contains(src),
        times.len() >= 1,
        times.len() <= 0xFFFF,
        forall|i: int|
            0 <= i < times.len() ==> times[0] <= #[trigger] times[i] <= times[0] + NANOS_PER_SEC,
    ensures
        spec_classify_fold(p, times, allowed, rate).0.len() == times.len(),
        forall|i: int|
            0 <= i < times.len() ==> spec_classify_fold(p, times, allowed, rate).0[i] == (if i
                < SYN_LIMIT_PER_SEC {
                XDP_PASS
            } else {
                XDP_DROP
            }),
{
    let t0 = times[0];
    let first = spec_classify(p, allowed, rate, t0);
    let rate1 = rate.insert(src, RateLimitEntry { last_time_ns: t0, count: 1 });
    assert(first == (XDP_PASS, rate1));
    lemma_syn_window(p, src, dport, allowed, rate1, times.skip(1), t0, 1);
    let whole = spec_classify_fold(p, times, allowed, rate);
    let rest = spec_classify_fold(p, times.skip(1), allowed, rate1);
    assert forall|i: int| 0 <= i < times.len() implies whole.0[i] == (if i < SYN_LIMIT_PER_SEC {
        XDP_PASS
    } else {
        XDP_DROP
    }) by {
        if i > 0 {
            assert(whole.0[i] == rest.0[i - 1]);
            assert(rest.0[i - 1] == (if 1 + (i - 1) + 1 > SYN_LIMIT_PER_SEC {
                XDP_DROP
            } else {
                XDP_PASS
            }));
        }
    }
}

/// The garbage-collection threshold: entries older than the stale window.
pub open spec fn spec_gc_threshold(now_ns: u64) -> u64 {
    if now_ns >= GC_STALE_SECS * NANOS_PER_SEC {
        (now_ns - GC_STALE_SECS * NANOS_PER_SEC) as u64
    } else {
        0
    }
}

/// The keys of the entries whose window started before the threshold.
pub open spec fn spec_stale_keys(entries: Seq<(u32, RateLimitEntry)>, threshold: u64) -> Seq<u32>
    decreases entries.len(),
{
    if entries.len() == 0 {
        seq![]
    } else {
        spec_stale_keys(entries.drop_last(), threshold) + (if entries.last().1.last_time_ns
            < threshold {
            seq![entries.last().0]
        } else {
            seq![]
        })
    }
}

/// Selects the sources whose rate-limit entry went stale: the first phase of
/// the two-phase garbage collection, run every few minutes.
pub fn gc_stale_keys(entries: &Vec<(u32, RateLimitEntry)>, now_ns: u64) -> (r: Vec<u32>)
    ensures
        r@ == spec_stale_keys(entries@, spec_gc_threshold(now_ns)),
{
    let threshold: u64 = if now_ns >= GC_STALE_SECS * NANOS_PER_SEC {
        now_ns - GC_STALE_SECS * NANOS_PER_SEC
    } else {
        0
    };
    let mut r: Vec<u32> = Vec::new();
    let mut i: usize = 0;
    while i < entries.len()
        invariant
            i <= entries@.len(),
            threshold == spec_gc_threshold(now_ns),
            r@ == spec_stale_keys(entries@.subrange(0, i as int), threshold),
        decreases entries@.len() - i,
    {
        let (k, e) = entries[i];
        if e.last_time_ns < threshold {
            r.push(k);
        }
        proof {
            let pre = entries@.subrange(0, i + 1);
            assert(pre.drop_last() =~= entries@.subrange(0, i as int));
            assert(pre.last() == entries@[i as int]);
        }
        i = i + 1;
    }
    proof {
        assert(entries@.subrange(0, entries@.len() as int) =~= entries@);
    }
    r
}

/// An ASCII decimal digit.
pub open spec fn is_digit(b: u8) -> bool {
    0x30 <= b <= 0x39
}

/// The value of the first `end` bytes read as a decimal number.
pub open spec fn spec_digits_value(s: Seq<u8>, end: int) -> int
    decreases end,
{
    if end <= 0 {
        0
    } else {
        spec_digits_value(s, end - 1) * 10 + (s[end - 1] - 0x30)
    }
}

/// The length of the leading run of digits.
pub open spec fn spec_digit_prefix_len(s: Seq<u8>) -> int
    decreases s.len(),
{
    if s.len() == 0 || !is_digit(s[0]) {
        0
    } else {
        1 + spec_digit_prefix_len(s.skip(1))
    }
}

/// Ten to the `e`-th power.
pub open spec fn tenpow(e: int) -> int
    decreases e,
{
    if e <= 0 {
        1
    } else {
        10 * tenpow(e - 1)
    }
}

/// A run of `end` digits reads as a value below ten to the `end`-th power.
proof fn lemma_digits_bound(s: Seq<u8>, end: int)
    requires
        0 <= end <= s.len(),
        forall|j: int| 0 <= j < end ==> is_digit(#[trigger] s[j]),
    ensures
        0 <= spec_digits_value(s, end) < tenpow(end),
    decreases end,
{
    if end > 0 {
        lemma_digits_bound(s, end - 1);
    }
}

/// A scan that saw `i` digits and then the end or a non-digit pins the
/// digit-prefix length at `i`.
proof fn lemma_digit_prefix(s: Seq<u8>, i: int)
    requires
        0 <= i <= s.len(),
        forall|j: int| 0 <= j < i ==> is_digit(#[trigger] s[j]),
        i == s.len() || !is_digit(s[i]),
    ensures
        spec_digit_prefix_len(s) == i,
    decreases i,
{
    if i == 0 {
    } else {
        assert(is_digit(s[0]));
        let t = s.skip(1);
        assert forall|j: int| 0 <= j < i - 1 implies is_digit(#[trigger] t[j]) by {
            assert(t[j] == s[j + 1]);
        }
        if i - 1 < t.len() {
            assert(t[i - 1] == s[i]);
        }
        lemma_digit_prefix(t, i - 1);
    }
}

/// Reads the whole seconds of a `/proc/uptime` line: the leading decimal
/// digits, up to ten of them, stopping at the decimal point.
pub fn parse_uptime_seconds(s: &Vec<u8>) -> (r: Option<u64>)
    ensures
        ({
            let k = spec_digit_prefix_len(s@);
            match r {
                Some(v) => 1 <= k <= 10 && v == spec_digits_value(s@, k) && v <= 9999999999,
                None => k == 0 || k > 10,
            }
        }),
{
    let n: usize = s.len();
    let mut i: usize = 0;
    let mut val: u64 = 0;
    while i < n && s[i] >= 0x30 && s[i] <= 0x39
        invariant
            i <= n,
            n == s@.len(),
            i <= 10,
            forall|j: int| 0 <= j < i ==> is_digit(#[trigger] s@[j]),
            val == spec_digits_value(s@, i as int),
            val <= 9999999999,
        decreases n - i,
    {
        proof {
            lemma_digits_bound(s@, i as int);
            lemma_tenpow_values();
            if i < 10 {
                lemma_tenpow_monotone(i as int, 9);
            }
        }
        if i == 10 {
            proof {
                lemma_digit_prefix_at_least(s@, 11);
            }
            return None;
        }
        val = val * 10 + (s[i] - 0x30) as u64;
        i = i + 1;
    }
    proof {
        lemma_digit_prefix(s@, i as int);
    }
    if i == 0 {
        return None;
    }
    Some(val)
}

/// The digit prefix is never negative.
proof fn lemma_digit_prefix_nonneg(s: Seq<u8>)
    ensures
        spec_digit_prefix_len(s) >= 0,
    decreases s.len(),
{
    if s.len() != 0 && is_digit(s[0]) {
        lemma_digit_prefix_nonneg(s.skip(1));
    }
}

/// A scan that saw `i` digits makes the digit prefix at least `i` long.
proof fn lemma_digit_prefix_at_least(s: Seq<u8>, i: int)
    requires
        0 <= i <= s.len(),
        forall|j: int| 0 <= j < i ==> is_digit(#[trigger] s[j]),
    ensures
        spec_digit_prefix_len(s) >= i,
    decreases i,
{
    if i > 0 {
        assert(is_digit(s[0]));
        let t = s.skip(1);
        assert forall|j: int| 0 <= j < i - 1 implies is_digit(#[trigger] t[j]) by {
            assert(t[j] == s[j + 1]);
        }
        lemma_digit_prefix_at_least(t, i - 1);
    } else {
        lemma_digit_prefix_nonneg(s);
    }
}

/// Converts a whole-seconds uptime to the nanosecond reference the garbage
/// collector compares against.
pub fn parse_uptime_ns(s: &Vec<u8>) -> (r: Option<u64>)
    ensures
        ({
            let k = spec_digit_prefix_len(s@);
            match r {
                Some(v) => 1 <= k <= 10 && v == spec_digits_value(s@, k) * NANOS_PER_SEC,
                None => k == 0 || k > 10,
            }
        }),
{
    match parse_uptime_seconds(s) {
        Some(secs) => Some(secs * NANOS_PER_SEC),
        None => None,
    }
}

/// The powers of ten up to the tenth.
proof fn lemma_tenpow_values()
    ensures
        tenpow(9) == 1000000000,
        tenpow(10) == 10000000000,
{
    assert(tenpow(0) == 1);
    assert(tenpow(1) == 10);
    assert(tenpow(2) == 100);
    assert(tenpow(3) == 1000);
    assert(tenpow(4) == 10000);
    assert(tenpow(5) == 100000);
    assert(tenpow(6) == 1000000);
    assert(tenpow(7) == 10000000);
    assert(tenpow(8) == 100000000);
    assert(tenpow(9) == 1000000000);
    assert(tenpow(10) == 10000000000);
}

/// Ten to the power is monotone in the exponent.
proof fn lemma_tenpow_monotone(a: int, b: int)
    requires
        a <= b,
    ensures
        tenpow(a) <= tenpow(b),
    decreases b - a,
{
    if a < b && b > 0 {
        lemma_tenpow_monotone(a, b - 1);
        assert(tenpow(b) == 10 * tenpow(b - 1));
        assert(tenpow(b - 1) >= 1) by {
            lemma_tenpow_positive(b - 1);
        }
    }
}

/// Ten to any power is at least one.
proof fn lemma_tenpow_positive(e: int)
    ensures
        tenpow(e) >= 1,
    decreases e,
{
    if e > 0 {
        lemma_tenpow_positive(e - 1);
    }
}

/// After replacing the entry at `at` with `(ip, entry)`, the list still
/// matches the updated map.
proof fn lemma_entries_update(
    oes: Seq<(u32, RateLimitEntry)>,
    es: Seq<(u32, RateLimitEntry)>,
    m: Map<u32, RateLimitEntry>,
    ip: u32,
    entry: RateLimitEntry,
    at: int,
    om: Map<u32, RateLimitEntry>,
)
    requires
        0 <= at < oes.len(),
        oes[at].0 == ip,
        es == oes.update(at, (ip, entry)),
        m == om.insert(ip, entry),
        forall|i: int, j: int| 0 <= i < j < oes.len() ==> oes[i].0 != oes[j].0,
        forall|i: int|
            0 <= i < oes.len() ==> om.dom().contains(#[trigger] oes[i].0) && om[oes[i].0]
                == oes[i].1,
        forall|k: u32|
            om.dom().contains(k) ==> exists|i: int| 0 <= i < oes.len() && (#[trigger] oes[i]).0
                == k,
    ensures
        forall|i: int, j: int| 0 <= i < j < es.len() ==> es[i].0 != es[j].0,
        forall|i: int|
            0 <= i < es.len() ==> m.dom().contains(#[trigger] es[i].0) && m[es[i].0] == es[i].1,
        forall|k: u32|
            m.dom().contains(k) ==> exists|i: int| 0 <= i < es.len() && (#[trigger] es[i]).0 == k,
{
    assert forall|i: int|
        0 <= i < es.len() implies m.dom().contains(#[trigger] es[i].0) && m[es[i].0]
        == es[i].1 by {
        if i != at {
            assert(es[i] == oes[i]);
            assert(oes[i].0 != ip);
        }
    }
    assert forall|k: u32| m.dom().contains(k) implies exists|i: int|
        0 <= i < es.len() && (#[trigger] es[i]).0 == k by {
        if k == ip {
            assert(es[at].0 == k);
        } else {
            let w = choose|i: int| 0 <= i < oes.len() && (#[trigger] oes[i]).0 == k;
            assert(es[w].0 == k);
        }
    }
}

/// After swap-removing the entry at `at`, the list still matches the map
/// without the key.
proof fn lemma_entries_remove(
    oes: Seq<(u32, RateLimitEntry)>,
    es: Seq<(u32, RateLimitEntry)>,
    m: Map<u32, RateLimitEntry>,
    ip: u32,
    at: int,
    om: Map<u32, RateLimitEntry>,
)
    requires
        0 <= at < oes.len(),
        oes[at].0 == ip,
        es == oes.update(at, oes[oes.len() - 1]).drop_last(),
        m == om.remove(ip),
        forall|i: int, j: int| 0 <= i < j < oes.len() ==> oes[i].0 != oes[j].0,
        forall|i: int|
            0 <= i < oes.len() ==> om.dom().contains(#[trigger] oes[i].0) && om[oes[i].0]
                == oes[i].1,
        forall|k: u32|
            om.dom().contains(k) ==> exists|i: int| 0 <= i < oes.len() && (#[trigger] oes[i]).0
                == k,
    ensures
        forall|i: int, j: int| 0 <= i < j < es.len() ==> es[i].0 != es[j].0,
        forall|i: int|
            0 <= i < es.len() ==> m.dom().contains(#[trigger] es[i].0) && m[es[i].0] == es[i].1,
        forall|k: u32|
            m.dom().contains(k) ==> exists|i: int| 0 <= i < es.len() && (#[trigger] es[i]).0 == k,
{
    let last = oes.len() - 1;
    assert forall|i: int|
        0 <= i < es.len() implies m.dom().contains(#[trigger] es[i].0) && m[es[i].0]
        == es[i].1 by {
        if i == at {
            assert(es[i] == oes[last]);
            if at != last {
                assert(oes[at].0 != oes[last].0);
            }
        } else {
            assert(es[i] == oes[i]);
            assert(oes[i].0 != ip);
        }
    }
    assert forall|k: u32| m.dom().contains(k) implies exists|i: int|
        0 <= i < es.len() && (#[trigger] es[i]).0 == k by {
        let w = choose|i: int| 0 <= i < oes.len() && (#[trigger] oes[i]).0 == k;
        if w == last {
            if at != last {
                assert(es[at].0 == k);
            } else {
                assert(k == ip);
            }
        } else {
            if w == at {
                assert(k == ip);
            } else {
                assert(es[w].0 == k);
            }
        }
    }
}

} // verus!
