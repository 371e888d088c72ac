use xray_lite::grpc::{encode_grpc_frame, GrpcDeframer};
use xray_lite::shaper::{gen_adaptive_padding, gen_request_id, pick_cache_status, shape_chunks};

#[test]
fn shaper_preserves_bytes() {
    let data: Vec<u8> = (0..100_000u32).map(|i| (i % 256) as u8).collect();
    let chunks = shape_chunks(&data);
    let mut joined: Vec<u8> = Vec::new();
    for c in &chunks {
        assert!(!c.is_empty());
        assert!(c.len() <= 16384);
        joined.extend_from_slice(c);
    }
    assert_eq!(joined, data);
}

#[test]
fn shaper_of_empty_input() {
    let chunks = shape_chunks(&Vec::new());
    assert!(chunks.is_empty());
}

#[test]
fn padding_is_alnum_and_adaptive() {
    let cold = gen_adaptive_padding(0);
    assert!(cold.len() >= 64 && cold.len() < 512);
    for b in &cold {
        assert!(b.is_ascii_alphanumeric());
    }
    let warm = gen_adaptive_padding(2 * 1024 * 1024);
    assert!(warm.len() >= 16 && warm.len() < 32);
    for b in &warm {
        assert!(b.is_ascii_alphanumeric());
    }
}

#[test]
fn request_id_shape() {
    let id = gen_request_id();
    assert_eq!(id.len(), 36);
    for (i, b) in id.iter().enumerate() {
        if i == 8 || i == 13 || i == 18 || i == 23 {
            assert_eq!(*b, b'-');
        } else {
            assert!(b.is_ascii_hexdigit() && !b.is_ascii_uppercase());
        }
    }
}

#[test]
fn cache_status_is_one_of_four() {
    for _ in 0..50 {
        let s = pick_cache_status();
        assert!(s == b"HIT" || s == b"MISS" || s == b"BYPASS" || s == b"DYNAMIC");
    }
}

fn frames(messages: &[&[u8]]) -> Vec<u8> {
    let mut out: Vec<u8> = Vec::new();
    for m in messages {
        out.extend_from_slice(&encode_grpc_frame(&m.to_vec()));
    }
    out
}

#[test]
fn deframer_whole_buffer() {
    let wire = frames(&[b"hello", b"", b"world!"]);
    let mut d = GrpcDeframer::new(true);
    let out = d.feed(&wire);
    assert_eq!(out, vec![b"hello".to_vec(), b"".to_vec(), b"world!".to_vec()]);
}

#[test]
fn deframer_fragmentation_independent() {
    let wire = frames(&[b"alpha", b"beta", b"a longer third message"]);
    let mut whole = GrpcDeframer::new(true);
    let expected = whole.feed(&wire);

    // Byte-by-byte.
    let mut bytewise = GrpcDeframer::new(true);
    let mut got: Vec<Vec<u8>> = Vec::new();
    for b in &wire {
        got.extend(bytewise.feed(&vec![*b]));
    }
    assert_eq!(got, expected);

    // Ragged fragments.
    let mut ragged = GrpcDeframer::new(true);
    let mut got2: Vec<Vec<u8>> = Vec::new();
    for chunk in wire.chunks(7) {
        got2.extend(ragged.feed(&chunk.to_vec()));
    }
    assert_eq!(got2, expected);
}

#[test]
fn deframer_keeps_partial_frame_buffered() {
    let wire = frames(&[b"payload"]);
    let mut d = GrpcDeframer::new(true);
    let out = d.feed(&wire[..wire.len() - 1].to_vec());
    assert!(out.is_empty());
    let out2 = d.feed(&wire[wire.len() - 1..].to_vec());
    assert_eq!(out2, vec![b"payload".to_vec()]);
}

#[test]
fn deframer_falls_back_on_bad_first_byte() {
    // First body byte 0x02 is not a valid gRPC flag: bytes pass verbatim.
    let mut d = GrpcDeframer::new(true);
    let chunk = vec![0x02u8, 1, 2, 3];
    let out = d.feed(&chunk);
    assert_eq!(out, vec![chunk.clone()]);
    // Later chunks keep passing through raw.
    let next = vec![9u8, 9];
    assert_eq!(d.feed(&next), vec![next.clone()]);
}

#[test]
fn deframer_falls_back_on_oversize_length() {
    let mut d = GrpcDeframer::new(true);
    // Flag 0 with a length far beyond the 16 MiB ceiling.
    let chunk = vec![0u8, 0xFF, 0xFF, 0xFF, 0xFF, 1, 2, 3];
    let out = d.feed(&chunk);
    assert_eq!(out, vec![chunk.clone()]);
}

#[test]
fn deframer_oversize_flush_keeps_prior_messages() {
    // One whole frame, then an oversize header in the same chunk: the frame
    // is emitted, and everything from the bad header on is flushed verbatim.
    let mut chunk = encode_grpc_frame(&b"ok".to_vec());
    let tail = vec![0u8, 0xFF, 0xFF, 0xFF, 0xFF, 7, 8];
    chunk.extend_from_slice(&tail);
    let mut d = GrpcDeframer::new(true);
    let out = d.feed(&chunk);
    assert_eq!(out, vec![b"ok".to_vec(), tail]);
}

#[test]
fn shaper_non_final_pieces_have_floor() {
    let data: Vec<u8> = vec![7u8; 50_000];
    let chunks = shape_chunks(&data);
    for (i, c) in chunks.iter().enumerate() {
        if i + 1 < chunks.len() {
            assert!(c.len() >= 128);
        }
    }
}

#[test]
fn raw_mode_passes_through() {
    let mut d = GrpcDeframer::new(false);
    let chunk = vec![0u8, 0, 0, 0, 1, 0xEE];
    assert_eq!(d.feed(&chunk), vec![chunk.clone()]);
}
