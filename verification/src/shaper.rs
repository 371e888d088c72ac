//! Adaptive traffic shaping: outbound data is split into pieces drawn from a
//! mixed size distribution, and camouflage header values are generated with
//! adaptive padding lengths.

use vstd::prelude::*;

use crate::crypto::{rand_bytes, rand_range};
use crate::encoding::sub_vec;
use crate::schedule::concat_all;

verus! {

/// Largest shaped piece.
pub const MAX_CHUNK: usize = 16384;

/// Traffic threshold below which padding stays long.
pub const PADDING_TRAFFIC_THRESHOLD: u64 = 1048576;

/// Splits outbound data into randomly sized pieces. Whatever sizes are
/// drawn, the concatenation of the pieces is exactly the input, every piece
/// is non-empty and within the frame ceiling, and only the final piece may
/// fall below the smallest drawn size.
pub fn shape_chunks(data: &Vec<u8>) -> (chunks: Vec<Vec<u8>>)
    ensures
        concat_all(chunks.deep_view()) == data@,
        forall|i: int|
            0 <= i < chunks@.len() ==> 1 <= (#[trigger] chunks@[i])@.len() <= MAX_CHUNK,
        forall|i: int| 0 <= i < chunks@.len() - 1 ==> (#[trigger] chunks@[i])@.len() >= 128,
{
    let n: usize = data.len();
    let mut chunks: Vec<Vec<u8>> = Vec::new();
    let mut pos: usize = 0;
    proof {
        assert(concat_all(chunks.deep_view()) =~= data@.subrange(0, 0));
    }
    while pos < n
        invariant
            pos <= n,
            n == data@.len(),
            concat_all(chunks.deep_view()) == data@.subrange(0, pos as int),
            forall|i: int|
                0 <= i < chunks@.len() ==> 1 <= (#[trigger] chunks@[i])@.len() <= MAX_CHUNK,
            forall|i: int| 0 <= i < chunks@.len() - 1 ==> (#[trigger] chunks@[i])@.len() >= 128,
            pos < n && chunks@.len() > 0 ==> chunks@[chunks@.len() - 1]@.len() >= 128,
        decreases n - pos,
    {
        let roll = rand_range(0, 100);
        let size = if roll < 35 {
            rand_range(128, 512)
        } else if roll < 70 {
            rand_range(512, 2048)
        } else if roll < 90 {
            rand_range(2048, 8192)
        } else {
            rand_range(8192, 16384)
        };
        let take = if n - pos < size {
            n - pos
        } else {
            size
        };
        let piece = sub_vec(data, pos, pos + take);
        let ghost odv = chunks.deep_view();
        chunks.push(piece);
        proof {
            assert(chunks.deep_view() =~~= odv + seq![data@.subrange(pos as int, pos + take)]);
            assert(chunks.deep_view().drop_last() =~~= odv);
            assert(concat_all(chunks.deep_view()) =~= data@.subrange(0, pos + take));
        }
        pos = pos + take;
    }
    proof {
        assert(data@.subrange(0, n as int) =~= data@);
    }
    chunks
}

/// An ASCII digit, upper-case letter, or lower-case letter.
pub open spec fn is_alnum(b: u8) -> bool {
    (0x30 <= b <= 0x39) || (0x41 <= b <= 0x5a) || (0x61 <= b <= 0x7a)
}

/// Generates the `x-padding` value: random alphanumeric ASCII whose length
/// adapts to the cumulative traffic — long while traffic is low, short once
/// the tunnel is warm.
pub fn gen_adaptive_padding(traffic: u64) -> (r: Vec<u8>)
    ensures
        forall|i: int| 0 <= i < r@.len() ==> is_alnum(#[trigger] r@[i]),
        traffic < PADDING_TRAFFIC_THRESHOLD ==> 64 <= r@.len() < 512,
        traffic >= PADDING_TRAFFIC_THRESHOLD ==> 16 <= r@.len() < 32,
{
    let len = if traffic < PADDING_TRAFFIC_THRESHOLD {
        rand_range(64, 512)
    } else {
        rand_range(16, 32)
    };
    let raw = rand_bytes(len);
    let mut r: Vec<u8> = Vec::new();
    let mut i: usize = 0;
    while i < raw.len()
        invariant
            i <= raw@.len(),
            r@.len() == i,
            forall|j: int| 0 <= j < i ==> is_alnum(#[trigger] r@[j]),
        decreases raw@.len() - i,
    {
        let mut b = raw[i] % 62 + 48;
        if b > 57 {
            b = b + 7;
        }
        if b > 90 {
            b = b + 6;
        }
        r.push(b);
        i = i + 1;
    }
    r
}

/// A lower-case hex digit.
pub open spec fn is_hex_lower(b: u8) -> bool {
    (0x30 <= b <= 0x39) || (0x61 <= b <= 0x66)
}

/// Maps a nibble to its lower-case hex digit.
fn hex_digit(nibble: u8) -> (r: u8)
    requires
        nibble < 16,
    ensures
        is_hex_lower(r),
{
    if nibble < 10 {
        nibble + 0x30
    } else {
        nibble - 10 + 0x61
    }
}

/// Generates the `x-request-id` value: a uuid-shaped string of lower-case
/// hex from random bytes, with dashes at the usual positions.
pub fn gen_request_id() -> (r: Vec<u8>)
    ensures
        r@.len() == 36,
        forall|i: int|
            0 <= i < 36 ==> (if i == 8 || i == 13 || i == 18 || i == 23 {
                (#[trigger] r@[i]) == 0x2d
            } else {
                is_hex_lower(r@[i])
            }),
{
    let raw = rand_bytes(16);
    let mut r: Vec<u8> = Vec::new();
    let mut i: usize = 0;
    while i < 16
        invariant
            i <= 16,
            raw@.len() == 16,
            r@.len() == 2 * i + (if i > 10 { 4int } else if i > 8 { 3int } else if i > 6 {
                2int
            } else if i > 4 {
                1int
            } else {
                0int
            }),
            forall|j: int|
                0 <= j < r@.len() ==> (if j == 8 || j == 13 || j == 18 || j == 23 {
                    (#[trigger] r@[j]) == 0x2d
                } else {
                    is_hex_lower(r@[j])
                }),
        decreases 16 - i,
    {
        if i == 4 || i == 6 || i == 8 || i == 10 {
            r.push(0x2d);
        }
        let b = raw[i];
        r.push(hex_digit(b / 16));
        r.push(hex_digit(b % 16));
        i = i + 1;
    }
    r
}

/// The `x-cache` value: one of the four cache labels, drawn at random.
pub fn pick_cache_status() -> (r: Vec<u8>)
    ensures
        r@ == spec_cache_hit() || r@ == spec_cache_miss() || r@ == spec_cache_bypass() || r@
            == spec_cache_dynamic(),
{
    let roll = rand_range(0, 100);
    let mut r: Vec<u8> = Vec::new();
    if roll < 40 {
        r.push(0x48);
        r.push(0x49);
        r.push(0x54);
        proof {
            assert(r@ =~= spec_cache_hit());
        }
    } else if roll < 70 {
        r.push(0x4d);
        r.push(0x49);
        r.push(0x53);
        r.push(0x53);
        proof {
            assert(r@ =~= spec_cache_miss());
        }
    } else if roll < 90 {
        r.push(0x42);
        r.push(0x59);
        r.push(0x50);
        r.push(0x41);
        r.push(0x53);
        r.push(0x53);
        proof {
            assert(r@ =~= spec_cache_bypass());
        }
    } else {
        r.push(0x44);
        r.push(0x59);
        r.push(0x4e);
        r.push(0x41);
        r.push(0x4d);
        r.push(0x49);
        r.push(0x43);
        proof {
            assert(r@ =~= spec_cache_dynamic());
        }
    }
    r
}

/// The ASCII bytes of `HIT`.
pub open spec fn spec_cache_hit() -> Seq<u8> {
    seq![0x48u8, 0x49, 0x54]
}

/// The ASCII bytes of `MISS`.
pub open spec fn spec_cache_miss() -> Seq<u8> {
    seq![0x4du8, 0x49, 0x53, 0x53]
}

/// The ASCII bytes of `BYPASS`.
pub open spec fn spec_cache_bypass() -> Seq<u8> {
    seq![0x42u8, 0x59, 0x50, 0x41, 0x53, 0x53]
}

/// The ASCII bytes of `DYNAMIC`.
pub open spec fn spec_cache_dynamic() -> Seq<u8> {
    seq![0x44u8, 0x59, 0x4e, 0x41, 0x4d, 0x49, 0x43]
}

/// Adds sent bytes to the cumulative traffic counter, sticking at the
/// ceiling instead of wrapping.
pub fn add_traffic(counter: &mut u64, sent: usize)
    ensures
        *final(counter) == if old(counter) + sent <= u64::MAX {
            (old(counter) + sent) as u64
        } else {
            u64::MAX
        },
{
    if *counter > u64::MAX - sent as u64 {
        *counter = u64::MAX;
    } else {
        *counter = *counter + sent as u64;
    }
}

} // verus!
