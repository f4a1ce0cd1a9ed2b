use coupe::codec::{decode_session, encode_session};
use coupe::session::Session;

#[test]
fn codec_round_trips_a_plain_session() {
    let s = Session {
        function_name: String::from("echo"),
        ends_at: 1_700_000_000_000_000_000,
    };
    let bytes = encode_session(&s);
    let back = decode_session(bytes.as_slice()).expect("round trip must decode");
    assert_eq!(back.function_name, "echo");
    assert_eq!(back.ends_at, 1_700_000_000_000_000_000);
}

#[test]
fn codec_round_trips_negative_and_extreme_deadlines() {
    for ends_at in [0i128, -1, i128::MIN, i128::MAX, 42] {
        let s = Session {
            function_name: String::from("f"),
            ends_at,
        };
        let bytes = encode_session(&s);
        let back = decode_session(bytes.as_slice()).expect("must decode");
        assert_eq!(back.ends_at, ends_at);
        assert_eq!(back.function_name, "f");
    }
}

#[test]
fn codec_round_trips_empty_and_unicode_names() {
    for name in ["", "a", "fonction-éclair", "日本語"] {
        let s = Session {
            function_name: String::from(name),
            ends_at: 7,
        };
        let bytes = encode_session(&s);
        let back = decode_session(bytes.as_slice()).expect("must decode");
        assert_eq!(back.function_name, name);
    }
}

#[test]
fn codec_layout_is_length_name_deadline() {
    let s = Session {
        function_name: String::from("ab"),
        ends_at: 5,
    };
    let bytes = encode_session(&s);
    assert_eq!(bytes.len(), 8 + 2 + 16);
    assert_eq!(&bytes[0..8], &[2, 0, 0, 0, 0, 0, 0, 0]);
    assert_eq!(&bytes[8..10], b"ab");
    // 5 + 2^127, little endian: low byte 5, high byte 0x80.
    assert_eq!(bytes[10], 5);
    assert_eq!(bytes[25], 0x80);
}

#[test]
fn codec_rejects_malformed_records() {
    // Too short.
    assert!(decode_session(&[]).is_none());
    assert!(decode_session(&[0u8; 23]).is_none());
    // Length field does not match: a field added or lost is detected.
    let s = Session {
        function_name: String::from("echo"),
        ends_at: 1,
    };
    let mut bytes = encode_session(&s);
    bytes.push(0);
    assert!(decode_session(bytes.as_slice()).is_none());
    let mut short = encode_session(&s);
    short.pop();
    assert!(decode_session(short.as_slice()).is_none());
    // Invalid UTF-8 in the name.
    let mut bad = encode_session(&s);
    bad[8] = 0xFF;
    assert!(decode_session(bad.as_slice()).is_none());
}
