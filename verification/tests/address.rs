use xray_lite::address::{Address, AddressError};

#[test]
fn test_ipv4_encode_decode() {
    let addr = Address::Ipv4(vec![192, 168, 1, 1], 443);
    let mut buf: Vec<u8> = Vec::new();
    addr.encode(&mut buf);

    let (decoded, _used) = Address::decode(&buf, 0).unwrap();
    assert!(addr == decoded);
}

#[test]
fn test_domain_encode_decode() {
    let addr = Address::Domain(b"example.com".to_vec(), 443);
    let mut buf: Vec<u8> = Vec::new();
    addr.encode(&mut buf);

    let (decoded, _used) = Address::decode(&buf, 0).unwrap();
    assert!(addr == decoded);
}

#[test]
fn test_ipv6_encode_decode() {
    let addr = Address::Ipv6(
        vec![0x20, 0x01, 0x0d, 0xb8, 0, 0, 0, 0, 0, 0, 0, 0, 0, 0, 0, 1],
        443,
    );
    let mut buf: Vec<u8> = Vec::new();
    addr.encode(&mut buf);

    let (decoded, _used) = Address::decode(&buf, 0).unwrap();
    assert!(addr == decoded);
}

#[test]
fn ipv4_exact_encoding() {
    let addr = Address::Ipv4(vec![1, 2, 3, 4], 80);
    let mut buf: Vec<u8> = Vec::new();
    addr.encode(&mut buf);
    assert_eq!(buf, vec![0x01, 1, 2, 3, 4, 0, 80]);
    assert_eq!(addr.port(), 80);
}

#[test]
fn domain_exact_encoding() {
    let addr = Address::Domain(b"ab".to_vec(), 0x1f90);
    let mut buf: Vec<u8> = Vec::new();
    addr.encode(&mut buf);
    assert_eq!(buf, vec![0x02, 2, b'a', b'b', 0x1f, 0x90]);
}

#[test]
fn decode_consumes_exactly_the_encoding() {
    let addr = Address::Domain(b"host".to_vec(), 8443);
    let mut buf: Vec<u8> = Vec::new();
    addr.encode(&mut buf);
    let len = buf.len();
    buf.push(0xAA);
    let (decoded, used) = Address::decode(&buf, 0).unwrap();
    assert!(decoded == addr);
    assert_eq!(used, len);
}

#[test]
fn decode_truncated_buffer() {
    assert_eq!(Address::decode(&vec![], 0).err(), Some(AddressError::Truncated));
    assert_eq!(Address::decode(&vec![0x01, 1, 2], 0).err(), Some(AddressError::Truncated));
    assert_eq!(Address::decode(&vec![0x02, 5, b'a'], 0).err(), Some(AddressError::Truncated));
}

#[test]
fn decode_rejects_invalid_utf8_domain() {
    // A well-formed domain address whose single name byte is not UTF-8.
    let buf = vec![0x02, 1, 0xFF, 0x00, 0x50];
    assert_eq!(Address::decode(&buf, 0).err(), Some(AddressError::InvalidDomain));
    // The same shape with a valid name byte decodes.
    let ok = vec![0x02, 1, b'a', 0x00, 0x50];
    let (decoded, used) = Address::decode(&ok, 0).unwrap();
    assert!(decoded == Address::Domain(b"a".to_vec(), 0x50));
    assert_eq!(used, 5);
}

#[test]
fn decode_unknown_type() {
    assert_eq!(Address::decode(&vec![0x07, 0, 0], 0).err(), Some(AddressError::UnknownType(0x07)));
}

#[test]
fn decode_mux_marker_unwraps_real_address() {
    // Type 0, a one-byte session id, then a plain IPv4 address.
    let buf = vec![0x00, 0x2a, 0x01, 10, 0, 0, 1, 0, 53];
    let (decoded, used) = Address::decode(&buf, 0).unwrap();
    assert!(decoded == Address::Ipv4(vec![10, 0, 0, 1], 53));
    assert_eq!(used, buf.len());
}
