use xray_lite::encoding::{put_u16, put_u24, put_u32, read_u16, read_u24, read_u32, sub_vec};
use xray_lite::record::{parse_record, RecordParse};

#[test]
fn integer_fields_round_trip() {
    let mut buf: Vec<u8> = Vec::new();
    put_u16(&mut buf, 0xBEEF);
    put_u24(&mut buf, 0x010203);
    put_u32(&mut buf, 0xCAFEBABE);
    assert_eq!(buf, vec![0xBE, 0xEF, 0x01, 0x02, 0x03, 0xCA, 0xFE, 0xBA, 0xBE]);
    assert_eq!(read_u16(&buf, 0), 0xBEEF);
    assert_eq!(read_u24(&buf, 2), 0x010203);
    assert_eq!(read_u32(&buf, 5), 0xCAFEBABE);
}

#[test]
fn sub_vec_copies_the_range() {
    let v: Vec<u8> = (0..10).collect();
    assert_eq!(sub_vec(&v, 2, 5), vec![2, 3, 4]);
    assert_eq!(sub_vec(&v, 0, 0), Vec::<u8>::new());
}

#[test]
fn record_parsing_states() {
    // Fewer than five bytes: the header is not whole yet.
    assert!(matches!(parse_record(&vec![22, 3], 0), RecordParse::NeedMore));

    // A whole header but a short body.
    let partial = vec![22, 3, 3, 0, 4, 0xAA];
    assert!(matches!(parse_record(&partial, 0), RecordParse::NeedMore));

    // A whole record parses with its type, version and payload.
    let whole = vec![22, 3, 3, 0, 2, 0xAA, 0xBB, 0xFF];
    match parse_record(&whole, 0) {
        RecordParse::Done(ctype, version, payload, end) => {
            assert_eq!(ctype, 22);
            assert_eq!(version, 0x0303);
            assert_eq!(payload, vec![0xAA, 0xBB]);
            assert_eq!(end, 7);
        }
        _ => panic!("expected a whole record"),
    }

    // A length beyond the record ceiling is refused outright.
    let oversize = vec![23, 3, 3, 0xFF, 0xFF];
    assert!(matches!(parse_record(&oversize, 0), RecordParse::Malformed));
}

#[test]
fn record_parsing_at_offset() {
    let mut buf = vec![0u8; 3];
    buf.extend_from_slice(&[20, 3, 3, 0, 1, 1]);
    match parse_record(&buf, 3) {
        RecordParse::Done(ctype, _version, payload, end) => {
            assert_eq!(ctype, 20);
            assert_eq!(payload, vec![1]);
            assert_eq!(end, buf.len());
        }
        _ => panic!("expected a whole record"),
    }
}
