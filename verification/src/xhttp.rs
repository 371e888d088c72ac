//! XHTTP stream routing: each accepted HTTP/2 stream is classified once into
//! a split download, a split upload, or a standalone duplex, from its
//! method, path, pairing state, and content type.

use vstd::prelude::*;

verus! {

/// XHTTP settings: the path prefix every request must carry.
pub struct XhttpConfig {
    /// The configured path prefix, as bytes.
    pub path: Vec<u8>,
}

/// The HTTP method of a stream, as far as routing cares.
#[derive(Clone, Copy, PartialEq, Eq, Structural, Debug)]
pub enum Method {
    /// GET: the download half of a split pair.
    Get,
    /// POST: the upload half, or a standalone duplex.
    Post,
    /// Anything else is refused.
    Other,
}

/// The role a stream is given, fixed at request time.
#[derive(Clone, Copy, PartialEq, Eq, Structural, Debug)]
pub enum StreamRole {
    /// GET under the prefix: creates a session and carries the download.
    SplitDown,
    /// POST whose path matches a live session: carries the upload.
    SplitUp,
    /// Unpaired POST: a full duplex on one stream; the flag is gRPC framing.
    Standalone(bool),
    /// The path misses the prefix: answer 404.
    NotFound,
    /// Neither GET nor POST: answer 405.
    MethodNotAllowed,
}

/// Whether `p` is a prefix of `s`.
pub open spec fn spec_starts_with(s: Seq<u8>, p: Seq<u8>) -> bool {
    p.len() <= s.len() && s.subrange(0, p.len() as int) == p
}

/// Whether `needle` occurs contiguously inside `hay`.
pub open spec fn spec_contains(hay: Seq<u8>, needle: Seq<u8>) -> bool {
    exists|i: int|
        0 <= i <= hay.len() - needle.len() && #[trigger] hay.subrange(i, i + needle.len() as int)
            == needle
}

/// Tests whether `p` is a prefix of `s`.
pub fn starts_with(s: &Vec<u8>, p: &Vec<u8>) -> (r: bool)
    ensures
        r == spec_starts_with(s@, p@),
{
    if p.len() > s.len() {
        assert(!spec_starts_with(s@, p@));
        return false;
    }
    let mut i: usize = 0;
    while i < p.len()
        invariant
            i <= p@.len() <= s@.len(),
            forall|j: int| 0 <= j < i ==> s@[j] == p@[j],
        decreases p@.len() - i,
    {
        if s[i] != p[i] {
            assert(s@.subrange(0, p@.len() as int)[i as int] != p@[i as int]);
            return false;
        }
        i = i + 1;
    }
    proof {
        assert(s@.subrange(0, p@.len() as int) =~= p@);
    }
    true
}

/// Tests whether `needle` occurs contiguously inside `hay`.
pub fn contains_bytes(hay: &Vec<u8>, needle: &Vec<u8>) -> (r: bool)
    ensures
        r == spec_contains(hay@, needle@),
{
    let n: usize = hay.len();
    let m: usize = needle.len();
    if m > n {
        proof {
            assert(!spec_contains(hay@, needle@));
        }
        return false;
    }
    let mut i: usize = 0;
    while i <= n - m
        invariant
            m <= n,
            n == hay@.len(),
            m == needle@.len(),
            i <= n - m + 1,
            forall|k: int|
                0 <= k < i ==> #[trigger] hay@.subrange(k, k + needle@.len() as int) != needle@,
        decreases n - m + 1 - i,
    {
        let mut j: usize = 0;
        let mut matched = true;
        while j < m
            invariant
                i + m <= n,
                n == hay@.len(),
                m == needle@.len(),
                j <= m,
                matched <==> forall|l: int| 0 <= l < j ==> hay@[i + l] == needle@[l],
            decreases m - j,
        {
            if hay[i + j] != needle[j] {
                matched = false;
                proof {
                    assert(hay@[i + j] != needle@[j as int]);
                }
                j = m;
            } else {
                proof {
                    if forall|l: int| 0 <= l < j ==> hay@[i + l] == needle@[l] {
                        assert(forall|l: int| 0 <= l < j + 1 ==> hay@[i + l] == needle@[l]);
                    }
                }
                j = j + 1;
            }
        }
        if matched {
            proof {
                assert(hay@.subrange(i as int, i + needle@.len() as int) =~= needle@);
            }
            return true;
        }
        proof {
            if hay@.subrange(i as int, i + needle@.len() as int) == needle@ {
                let w = choose|l: int| 0 <= l < m && hay@[i + l] != needle@[l];
                assert(hay@.subrange(i as int, i + needle@.len() as int)[w] == needle@[w]);
            }
        }
        i = i + 1;
    }
    proof {
        if spec_contains(hay@, needle@) {
            let w = choose|k: int|
                0 <= k <= hay@.len() - needle@.len() && #[trigger] hay@.subrange(
                    k,
                    k + needle@.len() as int,
                ) == needle@;
        }
    }
    false
}

/// The ASCII bytes of `grpc`.
pub open spec fn spec_grpc_token() -> Seq<u8> {
    seq![0x67u8, 0x72, 0x70, 0x63]
}

/// The ASCII bytes of `Go-http-client`.
pub open spec fn spec_pc_agent_token() -> Seq<u8> {
    seq![0x47u8, 0x6f, 0x2d, 0x68, 0x74, 0x74, 0x70, 0x2d, 0x63, 0x6c, 0x69, 0x65, 0x6e, 0x74]
}

/// Polls a POST spends waiting for its GET to register, at 50 ms each.
pub const PAIRING_POLLS: u32 = 40;

/// Interval between pairing polls, in milliseconds.
pub const PAIRING_POLL_INTERVAL_MS: u64 = 50;

/// Idle timeout of the split pumps, in seconds.
pub const SPLIT_IDLE_TIMEOUT_SECS: u64 = 300;

/// Idle period after which a streamless connection is closed, in seconds.
pub const ZOMBIE_TIMEOUT_SECS: u64 = 300;

/// Deadline of the HTTP/2 handshake, in seconds.
pub const H2_HANDSHAKE_TIMEOUT_SECS: u64 = 20;

/// Initial per-stream window, 4 MiB.
pub const H2_INITIAL_WINDOW: u32 = 4194304;

/// Initial connection window, 8 MiB.
pub const H2_CONNECTION_WINDOW: u32 = 8388608;

/// Concurrent stream ceiling.
pub const H2_MAX_CONCURRENT_STREAMS: u32 = 500;

/// Largest HTTP/2 frame.
pub const H2_MAX_FRAME_SIZE: u32 = 16384;

/// Shortest pause between noise pings, in milliseconds.
pub const PING_MIN_MS: u64 = 15000;

/// Longest pause between noise pings, in milliseconds.
pub const PING_MAX_MS: u64 = 45000;

/// Routes and shapes the streams of one HTTP/2 connection.
pub struct H2Handler {
    config: XhttpConfig,
    traffic_counter: u64,
}

impl H2Handler {
    /// The configured path prefix.
    pub closed spec fn spec_prefix(&self) -> Seq<u8> {
        self.config.path@
    }

    /// The cumulative traffic counter.
    pub closed spec fn spec_traffic(&self) -> u64 {
        self.traffic_counter
    }

    /// A handler with a zeroed traffic counter.
    pub fn new(config: XhttpConfig) -> (r: H2Handler)
        ensures
            r.spec_prefix() == config.path@,
            r.spec_traffic() == 0,
    {
        H2Handler { config, traffic_counter: 0 }
    }

    /// The cumulative traffic, read for padding decisions.
    pub fn traffic(&self) -> (r: u64)
        ensures
            r == self.spec_traffic(),
    {
        self.traffic_counter
    }

    /// Counts sent bytes towards the cumulative traffic.
    pub fn note_traffic(&mut self, sent: usize)
        ensures
            final(self).spec_prefix() == old(self).spec_prefix(),
            final(self).spec_traffic() == if old(self).spec_traffic() + sent <= u64::MAX {
                (old(self).spec_traffic() + sent) as u64
            } else {
                u64::MAX
            },
    {
        crate::shaper::add_traffic(&mut self.traffic_counter, sent);
    }

    /// Classifies one request: requests off the prefix answer 404; GET opens
    /// the download half; POST joins a live session as the upload half, or
    /// runs standalone with gRPC framing when its content type says so; any
    /// other method answers 405.
    pub fn classify_request(
        &self,
        method: Method,
        path: &Vec<u8>,
        session_live: bool,
        content_type: &Vec<u8>,
    ) -> (r: StreamRole)
        ensures
            r == spec_route(self.spec_prefix(), method, path@, session_live, content_type@),
    {
        if !starts_with(path, &self.config.path) {
            return StreamRole::NotFound;
        }
        match method {
            Method::Get => StreamRole::SplitDown,
            Method::Post => {
                if session_live {
                    StreamRole::SplitUp
                } else {
                    let mut grpc_token: Vec<u8> = Vec::new();
                    grpc_token.push(0x67);
                    grpc_token.push(0x72);
                    grpc_token.push(0x70);
                    grpc_token.push(0x63);
                    proof {
                        assert(grpc_token@ =~= spec_grpc_token());
                    }
                    StreamRole::Standalone(contains_bytes(content_type, &grpc_token))
                }
            },
            Method::Other => StreamRole::MethodNotAllowed,
        }
    }

    /// Polls to spend waiting for a pairing GET: mobile clients wait the
    /// full budget, the PC client (its agent names `Go-http-client`) none.
    pub fn pairing_wait_polls(&self, user_agent: &Vec<u8>) -> (r: u32)
        ensures
            r == (if spec_contains(user_agent@, spec_pc_agent_token()) {
                0u32
            } else {
                PAIRING_POLLS
            }),
    {
        let mut token: Vec<u8> = Vec::new();
        token.push(0x47);
        token.push(0x6f);
        token.push(0x2d);
        token.push(0x68);
        token.push(0x74);
        token.push(0x74);
        token.push(0x70);
        token.push(0x2d);
        token.push(0x63);
        token.push(0x6c);
        token.push(0x69);
        token.push(0x65);
        token.push(0x6e);
        token.push(0x74);
        proof {
            assert(token@ =~= spec_pc_agent_token());
        }
        if contains_bytes(user_agent, &token) {
            0
        } else {
            PAIRING_POLLS
        }
    }
}

/// The routing table of the dispatcher.
pub open spec fn spec_route(
    prefix: Seq<u8>,
    method: Method,
    path: Seq<u8>,
    session_live: bool,
    content_type: Seq<u8>,
) -> StreamRole {
    if !spec_starts_with(path, prefix) {
        StreamRole::NotFound
    } else {
        match method {
            Method::Get => StreamRole::SplitDown,
            Method::Post => if session_live {
                StreamRole::SplitUp
            } else {
                StreamRole::Standalone(spec_contains(content_type, spec_grpc_token()))
            },
            Method::Other => StreamRole::MethodNotAllowed,
        }
    }
}

} // verus!
