use ldd_nat_cross_rclient::codec::{decode_body, encode_body, encode_frame, FrameAccumulator, NextFrame};
use ldd_nat_cross_rclient::message::{CmdType, TransferDataMessage, TransferMessageMetaData};

fn msg(cmd: CmdType, fields: Vec<(String, String)>, data: Vec<u8>) -> TransferDataMessage {
    TransferDataMessage {
        cmd_type: cmd,
        meta_data: TransferMessageMetaData { timestamp: 0, meta_data: fields },
        data,
    }
}

fn assert_round_trip(m: &TransferDataMessage) {
    let bytes = encode_body(m);
    let back = decode_body(bytes.as_slice()).expect("decode of encode failed");
    assert_eq!(back.cmd_type, m.cmd_type);
    assert_eq!(back.meta_data.timestamp, m.meta_data.timestamp);
    assert_eq!(back.meta_data.meta_data, m.meta_data.meta_data);
    assert_eq!(back.data, m.data);
}

#[test]
fn round_trip_every_command_empty_metadata() {
    let cmds = vec![
        CmdType::Auth,
        CmdType::AuthOk,
        CmdType::AuthErr,
        CmdType::OpenServer,
        CmdType::Connect,
        CmdType::Disconnect,
        CmdType::Transfer,
        CmdType::Unrecognized(0),
        CmdType::Unrecognized(200),
    ];
    for c in cmds {
        assert_round_trip(&msg(c, Vec::new(), Vec::new()));
    }
}

#[test]
fn round_trip_with_metadata_and_payload() {
    let fields = vec![
        ("visitor_id".to_string(), "v1".to_string()),
        ("license_key".to_string(), "k-123".to_string()),
        ("note".to_string(), "h\u{00e9}llo \u{4e16}\u{754c}".to_string()),
        ("empty".to_string(), String::new()),
    ];
    let data = vec![0u8, 1, 2, 255, 254, 7];
    assert_round_trip(&msg(CmdType::Transfer, fields, data));
}

#[test]
fn round_trip_timestamp_preserved() {
    let mut m = msg(CmdType::Auth, Vec::new(), Vec::new());
    m.meta_data.timestamp = 1_700_000_000;
    assert_round_trip(&m);
}

#[test]
fn decode_rejects_truncated_body() {
    let m = msg(CmdType::Auth, vec![("a".to_string(), "b".to_string())], Vec::new());
    let bytes = encode_body(&m);
    assert!(decode_body(&bytes.as_slice()[..bytes.len() - 1]).is_none());
    assert!(decode_body(&[]).is_none());
    assert!(decode_body(&[1, 2, 3]).is_none());
}

#[test]
fn decode_rejects_trailing_garbage() {
    let m = msg(CmdType::Auth, Vec::new(), Vec::new());
    let mut bytes = encode_body(&m);
    bytes.push(0);
    assert!(decode_body(bytes.as_slice()).is_none());
}

#[test]
fn accumulator_two_frames_in_one_read() {
    let m1 = msg(CmdType::Auth, vec![("auth_password".to_string(), "pw".to_string())], Vec::new());
    let m2 = msg(CmdType::Transfer, vec![("visitor_id".to_string(), "v1".to_string())], vec![9, 9]);
    let mut wire = encode_frame(&m1);
    wire.extend(encode_frame(&m2));
    let mut acc = FrameAccumulator::new();
    acc.feed(wire.as_slice());
    match acc.next_frame() {
        NextFrame::Frame(f) => assert_eq!(f.cmd_type, CmdType::Auth),
        _ => panic!("expected first frame"),
    }
    match acc.next_frame() {
        NextFrame::Frame(f) => {
            assert_eq!(f.cmd_type, CmdType::Transfer);
            assert_eq!(f.data, vec![9, 9]);
        },
        _ => panic!("expected second frame"),
    }
    assert!(matches!(acc.next_frame(), NextFrame::Pending));
}

#[test]
fn accumulator_reassembles_partial_reads() {
    let m = msg(CmdType::Connect, vec![("visitor_id".to_string(), "v7".to_string())], Vec::new());
    let wire = encode_frame(&m);
    let mut acc = FrameAccumulator::new();
    let (head, tail) = wire.split_at(wire.len() / 2);
    acc.feed(head);
    assert!(matches!(acc.next_frame(), NextFrame::Pending));
    acc.feed(tail);
    match acc.next_frame() {
        NextFrame::Frame(f) => assert_eq!(f.cmd_type, CmdType::Connect),
        _ => panic!("expected reassembled frame"),
    }
}

#[test]
fn accumulator_reports_corrupt_body() {
    let mut acc = FrameAccumulator::new();
    // length prefix of 3, then a 3-byte body that is no frame body
    let wire = vec![3u8, 0, 0, 0, 0, 0, 0, 0, 1, 2, 3];
    acc.feed(wire.as_slice());
    assert!(matches!(acc.next_frame(), NextFrame::Corrupt));
}
