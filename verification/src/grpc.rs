//! gRPC length-prefixed framing for standalone streams: a one-byte flag, a
//! big-endian 32-bit length, and the message body. The deframer strips
//! frames from an arbitrarily fragmented byte stream and falls back to raw
//! forwarding when the stream does not look like gRPC.

use vstd::prelude::*;

use crate::encoding::{be32, be32_bytes, extend_bytes, put_u32, read_u32, sub_vec};

verus! {

/// Ceiling on a gRPC message length; a longer header disables gRPC framing.
pub const GRPC_MAX_MESSAGE: usize = 16777216;

/// Greedy deframing of a byte sequence: the complete messages in order, and
/// the unconsumed tail.
pub open spec fn spec_deframe(input: Seq<u8>) -> (Seq<Seq<u8>>, Seq<u8>)
    decreases input.len(),
{
    if input.len() < 5 {
        (seq![], input)
    } else {
        let len = be32(input[1], input[2], input[3], input[4]);
        if input.len() >= 5 + len {
            let rest = spec_deframe(input.skip(5 + len));
            (seq![input.subrange(5, 5 + len)] + rest.0, rest.1)
        } else {
            (seq![], input)
        }
    }
}

/// Greedy deframing that stops at the first visible length header beyond
/// the message ceiling: the messages before it, the bytes from it on, and
/// whether such a header was seen.
pub open spec fn spec_deframe_limited(input: Seq<u8>) -> (Seq<Seq<u8>>, Seq<u8>, bool)
    decreases input.len(),
{
    if input.len() < 5 {
        (seq![], input, false)
    } else {
        let len = be32(input[1], input[2], input[3], input[4]);
        if len > GRPC_MAX_MESSAGE {
            (seq![], input, true)
        } else if input.len() >= 5 + len {
            let rest = spec_deframe_limited(input.skip(5 + len));
            (seq![input.subrange(5, 5 + len)] + rest.0, rest.1, rest.2)
        } else {
            (seq![], input, false)
        }
    }
}

/// One encoded data frame: flag 0, the length, the payload.
pub open spec fn spec_grpc_frame(payload: Seq<u8>) -> Seq<u8> {
    seq![0u8] + be32_bytes(payload.len() as u32) + payload
}

/// Encodes one gRPC data frame around a payload.
pub fn encode_grpc_frame(payload: &Vec<u8>) -> (r: Vec<u8>)
    requires
        payload@.len() <= GRPC_MAX_MESSAGE,
    ensures
        r@ == spec_grpc_frame(payload@),
        r@.len() == payload@.len() + 5,
{
    let mut r: Vec<u8> = Vec::new();
    r.push(0);
    put_u32(&mut r, payload.len() as u32);
    extend_bytes(&mut r, payload);
    assert(r@ =~= spec_grpc_frame(payload@));
    r
}

/// Deframing one whole encoded frame yields exactly its payload.
pub proof fn lemma_frame_round_trip(payload: Seq<u8>)
    requires
        payload.len() <= GRPC_MAX_MESSAGE,
    ensures
        spec_deframe(spec_grpc_frame(payload)).0 == seq![payload],
        spec_deframe(spec_grpc_frame(payload)).1 == Seq::<u8>::empty(),
{
    let f = spec_grpc_frame(payload);
    crate::encoding::lemma_be32_round_trip(payload.len() as u32);
    assert(f[1] == be32_bytes(payload.len() as u32)[0]);
    assert(f[2] == be32_bytes(payload.len() as u32)[1]);
    assert(f[3] == be32_bytes(payload.len() as u32)[2]);
    assert(f[4] == be32_bytes(payload.len() as u32)[3]);
    assert(be32(f[1], f[2], f[3], f[4]) == payload.len() as int);
    assert(f.len() == 5 + payload.len());
    assert(f.skip(5 + payload.len() as int) =~= Seq::<u8>::empty());
    assert(spec_deframe(Seq::<u8>::empty()).0 == Seq::<Seq<u8>>::empty());
    assert(f.subrange(5, 5 + payload.len() as int) =~= payload);
    assert(spec_deframe(f).0 =~~= seq![payload]);
    assert(spec_deframe(f).1 =~= Seq::<u8>::empty());
}

/// Appending input never changes messages already deframed: the deframing of
/// the whole is the deframing of the prefix followed by the deframing of its
/// leftover and the new bytes.
pub proof fn lemma_deframe_append(h: Seq<u8>, c: Seq<u8>)
    ensures
        spec_deframe(h + c).0 == spec_deframe(h).0 + spec_deframe(spec_deframe(h).1 + c).0,
        spec_deframe(h + c).1 == spec_deframe(spec_deframe(h).1 + c).1,
    decreases h.len(),
{
    if h.len() < 5 {
        assert(spec_deframe(h).1 + c =~= h + c);
        assert(spec_deframe(h + c).0 =~~= spec_deframe(h).0 + spec_deframe(spec_deframe(h).1
            + c).0);
    } else {
        let len = be32(h[1], h[2], h[3], h[4]);
        assert((h + c)[1] == h[1] && (h + c)[2] == h[2] && (h + c)[3] == h[3] && (h + c)[4]
            == h[4]);
        if h.len() >= 5 + len {
            let tail = h.skip(5 + len);
            lemma_deframe_append(tail, c);
            assert((h + c).len() >= 5 + len);
            assert((h + c).subrange(5, 5 + len) =~= h.subrange(5, 5 + len));
            assert((h + c).skip(5 + len) =~= tail + c);
            assert(spec_deframe(h + c).0 =~~= spec_deframe(h).0 + spec_deframe(spec_deframe(h).1
                + c).0);
        } else {
            assert(spec_deframe(h).1 + c =~= h + c);
            assert(spec_deframe(h + c).0 =~~= spec_deframe(h).0 + spec_deframe(spec_deframe(h).1
                + c).0);
        }
    }
}

/// Strips gRPC frames from a fragmented stream, or passes bytes through raw.
pub struct GrpcDeframer {
    grpc_mode: bool,
    started: bool,
    buf: Vec<u8>,
    history: Ghost<Seq<u8>>,
    emitted: Ghost<Seq<Seq<u8>>>,
}

impl GrpcDeframer {
    /// Whether the deframer is still stripping gRPC frames.
    pub closed spec fn is_grpc(&self) -> bool {
        self.grpc_mode
    }

    /// All bytes fed so far.
    pub closed spec fn history(&self) -> Seq<u8> {
        self.history@
    }

    /// All messages emitted so far, in order.
    pub closed spec fn emitted_msgs(&self) -> Seq<Seq<u8>> {
        self.emitted@
    }

    /// The bytes buffered towards the next frame.
    pub closed spec fn buffered(&self) -> Seq<u8> {
        self.buf@
    }

    /// In gRPC mode, the emitted messages and the buffer are exactly the
    /// greedy deframing of the history, whose first byte was a valid flag.
    pub closed spec fn inv(&self) -> bool {
        &&& (self.grpc_mode && !self.started ==> self.history@.len() == 0 && self.buf@.len() == 0
            && self.emitted@.len() == 0)
        &&& (self.grpc_mode && self.started ==> {
            &&& self.history@.len() > 0
            &&& (self.history@[0] == 0 || self.history@[0] == 1)
            &&& spec_deframe(self.history@).0 == self.emitted@
            &&& spec_deframe(self.history@).1 == self.buf@
        })
    }

    /// A fresh deframer; `is_grpc` comes from the request's content type.
    pub fn new(is_grpc: bool) -> (r: Self)
        ensures
            r.inv(),
            r.is_grpc() == is_grpc,
            r.history() == Seq::<u8>::empty(),
            r.emitted_msgs() == Seq::<Seq<u8>>::empty(),
    {
        GrpcDeframer {
            grpc_mode: is_grpc,
            started: false,
            buf: Vec::new(),
            history: Ghost(Seq::empty()),
            emitted: Ghost(Seq::empty()),
        }
    }

    /// Whether gRPC framing is still active; the downstream direction reads
    /// this after an upstream fallback.
    pub fn grpc_active(&self) -> (r: bool)
        ensures
            r == self.is_grpc(),
    {
        self.grpc_mode
    }

    /// Feeds one chunk. In gRPC mode the output is the complete messages the
    /// bytes so far determine; in raw mode the chunk passes through. A bad
    /// first flag byte or an oversize length header disables gRPC mode, and
    /// the buffer is flushed verbatim.
    pub fn feed(&mut self, chunk: &Vec<u8>) -> (out: Vec<Vec<u8>>)
        requires
            old(self).inv(),
        ensures
            final(self).inv(),
            final(self).history() == old(self).history() + chunk@,
            !old(self).is_grpc() ==> !final(self).is_grpc() && out.deep_view() == seq![chunk@],
            old(self).is_grpc() && final(self).is_grpc() ==> final(self).emitted_msgs() == old(
                self,
            ).emitted_msgs() + out.deep_view(),
            (old(self).is_grpc() && old(self).history().len() == 0 && chunk@.len() > 0 && chunk@[0]
                != 0 && chunk@[0] != 1) ==> !final(self).is_grpc() && out.deep_view() == seq![
                chunk@,
            ],
            (old(self).is_grpc() && !final(self).is_grpc() && !(old(self).history().len() == 0
                && chunk@.len() > 0 && chunk@[0] != 0 && chunk@[0] != 1)) ==> ({
                let b = old(self).buffered() + chunk@;
                &&& spec_deframe_limited(b).2
                &&& out.deep_view() == spec_deframe_limited(b).0 + seq![spec_deframe_limited(b).1]
            }),
    {
        proof {
            self.history@ = self.history@ + chunk@;
        }
        if !self.grpc_mode {
            let mut out: Vec<Vec<u8>> = Vec::new();
            out.push(sub_vec(chunk, 0, chunk.len()));
            proof {
                assert(chunk@.subrange(0, chunk@.len() as int) =~= chunk@);
                assert(out.deep_view() =~~= seq![chunk@]);
            }
            return out;
        }
        if !self.started {
            if chunk.len() == 0 {
                let out: Vec<Vec<u8>> = Vec::new();
                proof {
                    assert(self.history@ =~= Seq::<u8>::empty());
                    assert(self.emitted@ + out.deep_view() =~~= self.emitted@);
                }
                return out;
            }
            self.started = true;
            if chunk[0] != 0 && chunk[0] != 1 {
                self.grpc_mode = false;
                let mut out: Vec<Vec<u8>> = Vec::new();
                out.push(sub_vec(chunk, 0, chunk.len()));
                proof {
                    assert(chunk@.subrange(0, chunk@.len() as int) =~= chunk@);
                    assert(out.deep_view() =~~= seq![chunk@]);
                }
                return out;
            }
        }
        let ghost e0 = self.emitted@;
        extend_bytes(&mut self.buf, chunk);
        let ghost b0 = self.buf@;
        proof {
            lemma_deframe_append(old(self).history(), chunk@);
            assert(old(self).buffered() + chunk@ =~= b0);
            if !old(self).started {
                assert(e0 =~~= Seq::<Seq<u8>>::empty());
                assert(old(self).history() =~= Seq::<u8>::empty());
                assert(spec_deframe(old(self).history()).0 =~~= e0);
                assert(spec_deframe(old(self).history()).1 =~= old(self).buffered());
            }
            assert(spec_deframe(old(self).history()).1 + chunk@ =~= b0);
            assert(spec_deframe(self.history@).0 =~~= e0 + spec_deframe(b0).0);
            assert(spec_deframe(self.history@).1 == spec_deframe(b0).1);
        }
        let mut out: Vec<Vec<u8>> = Vec::new();
        proof {
            assert(out.deep_view() =~~= Seq::<Seq<u8>>::empty());
            assert(Seq::<Seq<u8>>::empty() + spec_deframe_limited(b0).0
                =~~= spec_deframe_limited(b0).0);
        }
        loop
            invariant
                old(self).is_grpc(),
                self.grpc_mode,
                self.started,
                self.history@ == old(self).history() + chunk@,
                self.emitted@ == e0,
                spec_deframe(b0).0 == out.deep_view() + spec_deframe(self.buf@).0,
                spec_deframe(b0).1 == spec_deframe(self.buf@).1,
                spec_deframe(self.history@).0 == e0 + spec_deframe(b0).0,
                spec_deframe(self.history@).1 == spec_deframe(b0).1,
                b0 == old(self).buffered() + chunk@,
                spec_deframe_limited(b0).0 == out.deep_view() + spec_deframe_limited(self.buf@).0,
                spec_deframe_limited(b0).1 == spec_deframe_limited(self.buf@).1,
                spec_deframe_limited(b0).2 == spec_deframe_limited(self.buf@).2,
                old(self).history().len() > 0 || chunk@.len() == 0 || chunk@[0] == 0 || chunk@[0]
                    == 1,
                self.history@.len() > 0,
                self.history@[0] == 0 || self.history@[0] == 1,
            ensures
                self.grpc_mode,
                self.started,
                self.history@ == old(self).history() + chunk@,
                self.emitted@ == e0,
                self.history@.len() > 0,
                self.history@[0] == 0 || self.history@[0] == 1,
                spec_deframe(self.history@).0 == e0 + out.deep_view(),
                spec_deframe(self.history@).1 == self.buf@,
            decreases self.buf@.len(),
        {
            if self.buf.len() < 5 {
                proof {
                    assert(spec_deframe(self.buf@).0 =~~= Seq::<Seq<u8>>::empty());
                    assert(out.deep_view() + spec_deframe(self.buf@).0 =~~= out.deep_view());
                    assert(spec_deframe(self.history@).0 =~~= e0 + out.deep_view());
                }
                break;
            }
            let ghost pre_buf = self.buf@;
            let len = read_u32(&self.buf, 1) as usize;
            if len > GRPC_MAX_MESSAGE {
                let flush = sub_vec(&self.buf, 0, self.buf.len());
                let ghost odv = out.deep_view();
                self.buf = Vec::new();
                self.grpc_mode = false;
                out.push(flush);
                proof {
                    assert(flush@ =~= pre_buf);
                    assert(spec_deframe_limited(pre_buf).0 =~~= Seq::<Seq<u8>>::empty());
                    assert(out.deep_view() =~~= odv + seq![pre_buf]);
                    assert(odv =~~= odv + Seq::<Seq<u8>>::empty());
                    assert(out.deep_view() =~~= spec_deframe_limited(b0).0 + seq![
                        spec_deframe_limited(b0).1,
                    ]);
                }
                return out;
            }
            if self.buf.len() - 5 < len {
                proof {
                    assert(spec_deframe(self.buf@).0 =~~= Seq::<Seq<u8>>::empty());
                    assert(out.deep_view() + spec_deframe(self.buf@).0 =~~= out.deep_view());
                    assert(spec_deframe(self.history@).0 =~~= e0 + out.deep_view());
                }
                break;
            }
            let msg = sub_vec(&self.buf, 5, 5 + len);
            let rest = sub_vec(&self.buf, 5 + len, self.buf.len());
            let ghost odv = out.deep_view();
            proof {
                assert(self.buf@.skip(5 + len as int) =~= rest@);
                assert(spec_deframe(self.buf@).0 == seq![msg@] + spec_deframe(rest@).0);
                assert(spec_deframe_limited(self.buf@).0 == seq![msg@] + spec_deframe_limited(
                    rest@,
                ).0);
            }
            self.buf = rest;
            out.push(msg);
            proof {
                assert(out.deep_view() =~~= odv + seq![msg@]);
                assert(odv + (seq![msg@] + spec_deframe(rest@).0) =~~= (odv + seq![msg@])
                    + spec_deframe(rest@).0);
                assert(odv + (seq![msg@] + spec_deframe_limited(rest@).0) =~~= (odv + seq![msg@])
                    + spec_deframe_limited(rest@).0);
            }
        }
        proof {
            self.emitted@ = e0 + out.deep_view();
        }
        out
    }
}

/// Message boundaries depend only on the concatenated input: a deframer
/// still in gRPC mode has emitted exactly the messages that greedy deframing
/// of its whole history yields, and buffered the tail — so any byte-wise
/// fragmentation of the same bytes emits the same messages.
pub proof fn lemma_deframe_fragmentation_free(d: &GrpcDeframer)
    requires
        d.inv(),
        d.is_grpc(),
        d.history().len() > 0,
    ensures
        d.emitted_msgs() == spec_deframe(d.history()).0,
        d.buffered() == spec_deframe(d.history()).1,
{
}

} // verus!
