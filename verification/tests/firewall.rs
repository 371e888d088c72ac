use xray_lite::xdp::{
    classify_packet, gc_stale_keys, parse_uptime_ns, parse_uptime_seconds, AllowedPorts,
    RateLimitEntry, RateLimitMap, XDP_DROP, XDP_PASS,
};

fn syn_packet(src_ip: [u8; 4], dst_port: u16, flags: u8) -> Vec<u8> {
    let mut p: Vec<u8> = Vec::new();
    p.extend_from_slice(&[0u8; 12]); // MACs
    p.extend_from_slice(&[0x08, 0x00]); // IPv4
    p.push(0x45); // version 4, ihl 5
    p.push(0);
    p.extend_from_slice(&[0, 40]); // total length
    p.extend_from_slice(&[0, 0, 0, 0]); // id, frag
    p.push(64); // ttl
    p.push(6); // TCP
    p.extend_from_slice(&[0, 0]); // checksum
    p.extend_from_slice(&src_ip);
    p.extend_from_slice(&[10, 0, 0, 2]); // dst ip
    p.extend_from_slice(&[0xC0, 0x00]); // src port
    p.extend_from_slice(&dst_port.to_be_bytes());
    p.extend_from_slice(&[0, 0, 0, 0, 0, 0, 0, 0]); // seq, ack
    p.push(0x50); // data offset
    p.push(flags);
    p.extend_from_slice(&[0xFF, 0xFF, 0, 0, 0, 0]); // window, csum, urg
    p
}

fn udp_packet(dst_port: u16) -> Vec<u8> {
    let mut p: Vec<u8> = Vec::new();
    p.extend_from_slice(&[0u8; 12]);
    p.extend_from_slice(&[0x08, 0x00]);
    p.push(0x45);
    p.push(0);
    p.extend_from_slice(&[0, 28]);
    p.extend_from_slice(&[0, 0, 0, 0]);
    p.push(64);
    p.push(17); // UDP
    p.extend_from_slice(&[0, 0]);
    p.extend_from_slice(&[10, 0, 0, 9]);
    p.extend_from_slice(&[10, 0, 0, 2]);
    p.extend_from_slice(&[0xC0, 0x00]);
    p.extend_from_slice(&dst_port.to_be_bytes());
    p.extend_from_slice(&[0, 8, 0, 0]);
    p
}

fn protected(port: u16) -> AllowedPorts {
    let mut a = AllowedPorts::new();
    a.insert(port);
    a
}

#[test]
fn udp_on_protected_port_drops() {
    let allowed = protected(443);
    let mut rate = RateLimitMap::new();
    assert_eq!(classify_packet(&udp_packet(443), &allowed, &mut rate, 0), XDP_DROP);
    assert_eq!(classify_packet(&udp_packet(8080), &allowed, &mut rate, 0), XDP_PASS);
}

#[test]
fn unprotected_port_always_passes() {
    let allowed = protected(443);
    let mut rate = RateLimitMap::new();
    // SYN+FIN to an unprotected port still passes.
    assert_eq!(classify_packet(&syn_packet([1, 2, 3, 4], 8080, 0x03), &allowed, &mut rate, 0), XDP_PASS);
    // Short and non-IPv4 packets pass too.
    assert_eq!(classify_packet(&vec![0u8; 4], &allowed, &mut rate, 0), XDP_PASS);
    assert_eq!(classify_packet(&vec![0u8; 60], &allowed, &mut rate, 0), XDP_PASS);
}

#[test]
fn illegal_flag_combinations_drop() {
    let allowed = protected(443);
    let mut rate = RateLimitMap::new();
    assert_eq!(classify_packet(&syn_packet([1, 2, 3, 4], 443, 0x03), &allowed, &mut rate, 0), XDP_DROP);
    assert_eq!(classify_packet(&syn_packet([1, 2, 3, 4], 443, 0x06), &allowed, &mut rate, 0), XDP_DROP);
    // SYN+ACK is not a new connection attempt and passes.
    assert_eq!(classify_packet(&syn_packet([1, 2, 3, 4], 443, 0x12), &allowed, &mut rate, 0), XDP_PASS);
}

#[test]
fn syn_flood_rate_limit() {
    let allowed = protected(443);
    let mut rate = RateLimitMap::new();
    let flood = syn_packet([9, 9, 9, 9], 443, 0x02);
    let other = syn_packet([9, 9, 9, 8], 443, 0x02);

    let mut dropped = 0;
    for i in 0..200u64 {
        // All 200 packets within 100 ms of the first.
        let now = 1_000_000_000 + i * 500_000;
        if classify_packet(&flood, &allowed, &mut rate, now) == XDP_DROP {
            dropped += 1;
        }
    }
    assert_eq!(dropped, 150);

    // A concurrent SYN from a different source still passes.
    assert_eq!(classify_packet(&other, &allowed, &mut rate, 1_050_000_000), XDP_PASS);
}

#[test]
fn syn_window_resets_after_a_second() {
    let allowed = protected(443);
    let mut rate = RateLimitMap::new();
    let p = syn_packet([8, 8, 8, 8], 443, 0x02);
    for i in 0..50u64 {
        assert_eq!(classify_packet(&p, &allowed, &mut rate, 1_000_000_000 + i), XDP_PASS);
    }
    assert_eq!(classify_packet(&p, &allowed, &mut rate, 1_000_000_100), XDP_DROP);
    // More than one second after the window opened: fresh window.
    assert_eq!(classify_packet(&p, &allowed, &mut rate, 2_100_000_000), XDP_PASS);
}

#[test]
fn gc_selects_stale_entries() {
    let entries = vec![
        (1u32, RateLimitEntry { last_time_ns: 5_000_000_000, count: 3 }),
        (2u32, RateLimitEntry { last_time_ns: 400_000_000_000, count: 1 }),
        (3u32, RateLimitEntry { last_time_ns: 10_000_000_000, count: 9 }),
    ];
    // Threshold is 180 s before now.
    let stale = gc_stale_keys(&entries, 200_000_000_000);
    assert_eq!(stale, vec![1, 3]);
    let none = gc_stale_keys(&entries, 100_000_000_000);
    assert!(none.is_empty());
}

#[test]
fn rate_map_operations() {
    let mut m = RateLimitMap::new();
    assert!(m.get(7).is_none());
    m.insert(7, RateLimitEntry { last_time_ns: 1, count: 2 });
    assert_eq!(m.get(7).unwrap().count, 2);
    m.insert(7, RateLimitEntry { last_time_ns: 1, count: 3 });
    assert_eq!(m.get(7).unwrap().count, 3);
    m.insert(8, RateLimitEntry { last_time_ns: 2, count: 1 });
    m.remove(7);
    assert!(m.get(7).is_none());
    assert_eq!(m.get(8).unwrap().count, 1);
    m.remove(7); // removing again is a no-op
    assert_eq!(m.entries().len(), 1);
}

#[test]
fn uptime_parsing() {
    assert_eq!(parse_uptime_seconds(&b"12345.67 8910.11".to_vec()), Some(12345));
    assert_eq!(parse_uptime_ns(&b"180.00 1.00".to_vec()), Some(180_000_000_000));
    assert_eq!(parse_uptime_ns(&b"0.50 1.00".to_vec()), Some(0));
    assert_eq!(parse_uptime_seconds(&b".5 1".to_vec()), None);
    assert_eq!(parse_uptime_seconds(&b"".to_vec()), None);
    // An implausibly long run of digits is refused rather than truncated.
    assert_eq!(parse_uptime_seconds(&b"123456789012.0".to_vec()), None);
}
