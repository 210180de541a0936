//! Wire protocol: encoding, decoding, framing errors.

use magman::codec::{decode, decode_message, encode, encode_message, read_u32_be, ServerOp, Signal};
use magman::error::Error;

#[test]
fn test_async_codec() {
    let op = ServerOp::Control(Signal::Quit);
    let d = op.encode();
    let (decoded_op, _) = ServerOp::decode(d.as_slice()).unwrap();
    assert_eq!(decoded_op, op);

    let cmdline = "echo hello".to_string();
    let wrk_dir = "/tmp/test".to_string();
    let op = ServerOp::Command((cmdline, wrk_dir));
    let d = op.encode();
    let (decoded_op, _) = ServerOp::decode(d.as_slice()).unwrap();
    assert_eq!(decoded_op, op);
}

#[test]
fn round_trip_all_variants() {
    let ops = vec![
        ServerOp::Control(Signal::Quit),
        ServerOp::Control(Signal::Resume),
        ServerOp::Control(Signal::Pause),
        ServerOp::Control(Signal::AddNode("node9".to_string())),
        ServerOp::Command(("sleep 1; echo done".to_string(), ".".to_string())),
        ServerOp::Command((String::new(), String::new())),
    ];
    for op in ops {
        let d = op.encode();
        let (decoded, used) = ServerOp::decode(d.as_slice()).unwrap();
        assert_eq!(decoded, op);
        assert_eq!(used, d.len());
    }
}

#[test]
fn decode_leaves_trailing_bytes() {
    let op = ServerOp::Command(("pwd".to_string(), "/tmp".to_string()));
    let mut d = op.encode();
    let frame_len = d.len();
    d.extend_from_slice(&[1, 2, 3, 4]);
    let (decoded, used) = ServerOp::decode(d.as_slice()).unwrap();
    assert_eq!(decoded, op);
    assert_eq!(used, frame_len);
}

#[test]
fn command_frame_exact_bytes() {
    let op = ServerOp::Command(("ab".to_string(), "c".to_string()));
    let d = op.encode();
    assert_eq!(
        d,
        vec![b'0', 0, 0, 0, 2, b'a', b'b', 0, 0, 0, 1, b'c']
    );
}

#[test]
fn control_frame_exact_bytes() {
    let d = ServerOp::Control(Signal::Quit).encode();
    let mut expected = vec![b'X', 0, 0, 0, 7];
    expected.extend_from_slice(b"SIGTERM");
    assert_eq!(d, expected);

    let d = ServerOp::Control(Signal::AddNode("n3".to_string())).encode();
    let mut expected = vec![b'X', 0, 0, 0, 6];
    expected.extend_from_slice(b"SIGADD");
    expected.extend_from_slice(&[0, 0, 0, 2, b'n', b'3']);
    assert_eq!(d, expected);
}

#[test]
fn decode_rejects_empty_input() {
    assert_eq!(ServerOp::decode(&[]), Err(Error::Framing));
}

#[test]
fn decode_rejects_unknown_tag() {
    assert_eq!(ServerOp::decode(&[b'Z', 0, 0, 0, 0]), Err(Error::Framing));
}

#[test]
fn decode_rejects_truncated_frame() {
    // A command frame cut off in the middle of its first string.
    let d = vec![b'0', 0, 0, 0, 10, b'a', b'b'];
    assert_eq!(ServerOp::decode(d.as_slice()), Err(Error::Framing));
    // A length prefix cut off after two bytes.
    assert_eq!(ServerOp::decode(&[b'0', 0, 0]), Err(Error::Framing));
}

#[test]
fn decode_rejects_unknown_signal_name() {
    let mut d = vec![b'X', 0, 0, 0, 7];
    d.extend_from_slice(b"SIGHUPX");
    assert_eq!(ServerOp::decode(d.as_slice()), Err(Error::Framing));
}

#[test]
fn decode_rejects_invalid_utf8() {
    let d = vec![b'0', 0, 0, 0, 1, 0xff, 0, 0, 0, 0];
    assert_eq!(ServerOp::decode(d.as_slice()), Err(Error::Framing));
}

#[test]
fn message_round_trip() {
    let buf = encode_message("captured output\n");
    let (msg, used) = decode_message(buf.as_slice()).unwrap();
    assert_eq!(msg, "captured output\n");
    assert_eq!(used, buf.len());
}

#[test]
fn message_truncated_fails() {
    let mut buf = encode_message("hello");
    buf.pop();
    assert_eq!(decode_message(buf.as_slice()), Err(Error::Framing));
}

#[test]
fn length_prefix_helpers() {
    assert_eq!(read_u32_be(&[0x12, 0x34, 0x56, 0x78], 0), 0x12345678);
    let mut buf = Vec::new();
    encode(&mut buf, "hi");
    assert_eq!(buf, vec![0, 0, 0, 2, b'h', b'i']);
    let (payload, end) = decode(buf.as_slice(), 0).unwrap();
    assert_eq!(payload, b"hi".to_vec());
    assert_eq!(end, 6);
}
