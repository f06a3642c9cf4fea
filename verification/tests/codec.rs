use ilp_node::errorcode::ErrorCode;
use ilp_node::packet::{
    decode, FulfillBuilder, Packet, ParseError, PrepareBuilder, RejectBuilder,
};
use ilp_node::timestamp::Timestamp;

fn sample_timestamp() -> Timestamp {
    Timestamp { year: 2018, month: 6, day: 16, hour: 0, minute: 0, second: 30, millis: 123 }
}

fn sample_prepare() -> ilp_node::packet::Prepare {
    PrepareBuilder {
        amount: 107,
        expires_at: sample_timestamp(),
        execution_condition: vec![7u8; 32],
        destination: b"example.alice".to_vec(),
        data: vec![0x13, 0x37, 0x00],
    }
    .build()
    .unwrap()
}

#[test]
fn prepare_round_trip() {
    let prepare = sample_prepare();
    let bytes = prepare.encode();
    assert_eq!(bytes[0], 12);
    match decode(&bytes).unwrap() {
        Packet::Prepare(p) => {
            assert_eq!(p.amount(), 107);
            assert_eq!(p.expires_at(), sample_timestamp());
            assert_eq!(p.execution_condition().as_slice(), &[7u8; 32]);
            assert_eq!(p.destination().as_slice(), b"example.alice");
            assert_eq!(p.data().as_slice(), &[0x13, 0x37, 0x00]);
            assert_eq!(p.encode(), bytes);
        }
        _ => panic!("expected a prepare"),
    }
}

#[test]
fn prepare_wire_layout() {
    let prepare = PrepareBuilder {
        amount: 3,
        expires_at: sample_timestamp(),
        execution_condition: vec![0u8; 32],
        destination: b"g.a".to_vec(),
        data: vec![],
    }
    .build()
    .unwrap();
    let bytes = prepare.encode();
    // tag, one-byte length, 8 amount bytes, then the 17 digits of the expiry
    assert_eq!(bytes[0], 12);
    assert_eq!(bytes[1] as usize, bytes.len() - 2);
    assert_eq!(&bytes[2..10], &[0, 0, 0, 0, 0, 0, 0, 3]);
    assert_eq!(&bytes[10..27], b"20180616000030123");
    // destination: length prefix then bytes
    assert_eq!(bytes[59], 3);
    assert_eq!(&bytes[60..63], b"g.a");
    // data: empty var-octet string
    assert_eq!(bytes[63], 0);
    assert_eq!(bytes.len(), 64);
}

#[test]
fn fulfill_round_trip() {
    let fulfill =
        FulfillBuilder { fulfillment: vec![9u8; 32], data: vec![1, 2, 3] }.build().unwrap();
    let bytes = fulfill.encode();
    assert_eq!(bytes[0], 13);
    match decode(&bytes).unwrap() {
        Packet::Fulfill(f) => {
            assert_eq!(f.fulfillment().as_slice(), &[9u8; 32]);
            assert_eq!(f.data().as_slice(), &[1, 2, 3]);
            assert_eq!(f.encode(), bytes);
        }
        _ => panic!("expected a fulfill"),
    }
}

#[test]
fn reject_round_trip() {
    let reject = RejectBuilder {
        code: ErrorCode::t04_insufficient_liquidity(),
        triggered_by: b"g.bob".to_vec(),
        message: b"insufficient liquidity".to_vec(),
        data: vec![],
    }
    .build()
    .unwrap();
    let bytes = reject.encode();
    assert_eq!(bytes[0], 14);
    match decode(&bytes).unwrap() {
        Packet::Reject(j) => {
            assert_eq!(j.code().as_bytes(), *b"T04");
            assert_eq!(j.triggered_by().as_slice(), b"g.bob");
            assert_eq!(j.message().as_slice(), b"insufficient liquidity");
            assert_eq!(j.data().as_slice(), b"");
            assert_eq!(j.encode(), bytes);
        }
        _ => panic!("expected a reject"),
    }
}

#[test]
fn unknown_error_code_round_trips_verbatim() {
    let reject = RejectBuilder {
        code: ErrorCode::new(*b"X47"),
        triggered_by: vec![],
        message: vec![],
        data: vec![],
    }
    .build()
    .unwrap();
    let bytes = reject.encode();
    match decode(&bytes).unwrap() {
        Packet::Reject(j) => {
            assert_eq!(j.code().as_bytes(), *b"X47");
            assert_eq!(j.encode(), bytes);
        }
        _ => panic!("expected a reject"),
    }
}

#[test]
fn long_data_uses_two_byte_length_prefix() {
    let prepare = PrepareBuilder {
        amount: 1,
        expires_at: sample_timestamp(),
        execution_condition: vec![0u8; 32],
        destination: b"g.carl".to_vec(),
        data: vec![0xABu8; 300],
    }
    .build()
    .unwrap();
    let bytes = prepare.encode();
    match decode(&bytes).unwrap() {
        Packet::Prepare(p) => assert_eq!(p.data().len(), 300),
        _ => panic!("expected a prepare"),
    }
}

#[test]
fn boundary_length_prefix_127_and_128() {
    for n in [127usize, 128, 255, 256] {
        let prepare = PrepareBuilder {
            amount: 1,
            expires_at: sample_timestamp(),
            execution_condition: vec![0u8; 32],
            destination: b"g.d".to_vec(),
            data: vec![0x55u8; n],
        }
        .build()
        .unwrap();
        let bytes = prepare.encode();
        match decode(&bytes).unwrap() {
            Packet::Prepare(p) => assert_eq!(p.data().len(), n),
            _ => panic!("expected a prepare"),
        }
    }
}

#[test]
fn decode_rejects_bad_inputs() {
    assert!(matches!(decode(&vec![]), Err(ParseError::InvalidType)));
    assert!(matches!(decode(&vec![0x42, 0x00]), Err(ParseError::InvalidType)));
    // truncated envelope
    assert!(matches!(decode(&vec![12, 5, 1, 2]), Err(ParseError::InvalidLength)));
    // trailing garbage after the declared content
    let mut bytes = sample_prepare().encode();
    bytes.push(0);
    assert!(matches!(decode(&bytes), Err(ParseError::InvalidLength)));
    // over-long length-of-length
    assert!(matches!(decode(&vec![12, 0x83, 0, 0, 1]), Err(ParseError::InvalidLength)));
    // non-canonical length prefix: 0x81 with a value under 128
    assert!(matches!(decode(&vec![13, 0x81, 5, 0, 0, 0, 0, 0]), Err(ParseError::InvalidLength)));
}

#[test]
fn decode_rejects_bad_timestamp() {
    let mut bytes = sample_prepare().encode();
    bytes[10] = b'x'; // first digit of the expiry
    assert!(matches!(decode(&bytes), Err(ParseError::InvalidTimestamp)));
    let mut bytes2 = sample_prepare().encode();
    bytes2[14] = b'9'; // month 96
    bytes2[15] = b'6';
    assert!(matches!(decode(&bytes2), Err(ParseError::InvalidTimestamp)));
}

#[test]
fn decode_rejects_empty_destination() {
    // tag 12, content: amount, expiry, condition, empty destination, empty data
    let mut content: Vec<u8> = vec![];
    content.extend_from_slice(&[0u8; 8]);
    content.extend_from_slice(b"20180616000030123");
    content.extend_from_slice(&[0u8; 32]);
    content.push(0); // destination of zero bytes
    content.push(0); // data of zero bytes
    let mut bytes = vec![12, content.len() as u8];
    bytes.extend_from_slice(&content);
    assert!(matches!(decode(&bytes), Err(ParseError::InvalidAddress)));
}

#[test]
fn decode_rejects_non_ascii_error_code() {
    let mut content: Vec<u8> = vec![0xF0, b'0', b'0'];
    content.push(0); // triggered_by
    content.push(0); // message
    content.push(0); // data
    let mut bytes = vec![14, content.len() as u8];
    bytes.extend_from_slice(&content);
    assert!(matches!(decode(&bytes), Err(ParseError::InvalidErrorCode)));
}

#[test]
fn builders_validate_constraints() {
    assert!(PrepareBuilder {
        amount: 1,
        expires_at: sample_timestamp(),
        execution_condition: vec![0u8; 31],
        destination: b"g.a".to_vec(),
        data: vec![],
    }
    .build()
    .is_err());
    assert!(PrepareBuilder {
        amount: 1,
        expires_at: Timestamp { year: 2018, month: 13, day: 1, hour: 0, minute: 0, second: 0, millis: 0 },
        execution_condition: vec![0u8; 32],
        destination: b"g.a".to_vec(),
        data: vec![],
    }
    .build()
    .is_err());
    assert!(FulfillBuilder { fulfillment: vec![0u8; 32], data: vec![0u8; 32768] }
        .build()
        .is_err());
    assert!(RejectBuilder {
        code: ErrorCode::f00_bad_request(),
        triggered_by: vec![b'a'; 1024],
        message: vec![],
        data: vec![],
    }
    .build()
    .is_err());
}

#[test]
fn minus_one_second_borrows_through_the_calendar() {
    let t = Timestamp { year: 2018, month: 6, day: 16, hour: 0, minute: 0, second: 30, millis: 5 };
    assert_eq!(
        t.minus_one_second(),
        Timestamp { year: 2018, month: 6, day: 16, hour: 0, minute: 0, second: 29, millis: 5 }
    );
    let midnight =
        Timestamp { year: 2018, month: 6, day: 16, hour: 0, minute: 0, second: 0, millis: 0 };
    assert_eq!(
        midnight.minus_one_second(),
        Timestamp { year: 2018, month: 6, day: 15, hour: 23, minute: 59, second: 59, millis: 0 }
    );
    let new_year =
        Timestamp { year: 2019, month: 1, day: 1, hour: 0, minute: 0, second: 0, millis: 1 };
    assert_eq!(
        new_year.minus_one_second(),
        Timestamp { year: 2018, month: 12, day: 31, hour: 23, minute: 59, second: 59, millis: 1 }
    );
    // March 1st of a leap year steps back to February 29th
    let march = Timestamp { year: 2020, month: 3, day: 1, hour: 0, minute: 0, second: 0, millis: 0 };
    assert_eq!(
        march.minus_one_second(),
        Timestamp { year: 2020, month: 2, day: 29, hour: 23, minute: 59, second: 59, millis: 0 }
    );
    // ... but to February 28th in an ordinary year
    let march21 =
        Timestamp { year: 2021, month: 3, day: 1, hour: 0, minute: 0, second: 0, millis: 0 };
    assert_eq!(
        march21.minus_one_second(),
        Timestamp { year: 2021, month: 2, day: 28, hour: 23, minute: 59, second: 59, millis: 0 }
    );
}

#[test]
fn decimal_formatting_is_exact() {
    assert_eq!(ilp_node::decimal::format_decimal(0), b"0".to_vec());
    assert_eq!(ilp_node::decimal::format_decimal(10), b"10".to_vec());
    assert_eq!(ilp_node::decimal::format_decimal(40001), b"40001".to_vec());
    assert_eq!(
        ilp_node::decimal::format_decimal(u64::MAX),
        b"18446744073709551615".to_vec()
    );
}
