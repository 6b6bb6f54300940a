//! Framing for the Discord IPC channel, and the reason text a refusal is
//! reported with.

use ceyrad::discord::client::{describe_reason, frame_reason};
use ceyrad::discord::protocol::{
    encode_frame, Frame, FrameDecoder, Opcode, ProtocolError, HEADER_LEN, MAX_PAYLOAD_LEN,
};

fn object(pairs: Vec<(&str, serde_json::Value)>) -> serde_json::Value {
    let mut map = serde_json::Map::new();
    for (key, value) in pairs {
        map.insert(key.to_string(), value);
    }
    serde_json::Value::Object(map)
}

fn body(value: &serde_json::Value) -> Vec<u8> {
    serde_json::to_vec(value).expect("serialize")
}

fn parsed(frame: &Frame) -> Option<serde_json::Value> {
    serde_json::from_slice(&frame.payload).ok()
}

fn frame_with(value: serde_json::Value) -> Frame {
    Frame { opcode: Opcode::Frame, payload: body(&value) }
}

#[test]
fn frame_round_trips() {
    let payload = object(vec![
        ("v", serde_json::Value::from(1)),
        ("client_id", serde_json::Value::from("1525381518258606130")),
    ]);
    let bytes = encode_frame(Opcode::Handshake, &body(&payload)).expect("encodes");

    let mut decoder = FrameDecoder::new();
    decoder.push(&bytes);
    let frame = decoder.next_frame().unwrap().expect("a whole frame");

    assert_eq!(frame.opcode, Opcode::Handshake);
    assert_eq!(parsed(&frame).unwrap(), payload);
    assert!(decoder.next_frame().unwrap().is_none());
}

#[test]
fn header_is_little_endian_opcode_then_length() {
    let bytes = encode_frame(Opcode::Frame, b"{}").expect("encodes");
    assert_eq!(&bytes[0..4], &1u32.to_le_bytes());
    assert_eq!(&bytes[4..8], &2u32.to_le_bytes());
    assert_eq!(&bytes[HEADER_LEN..], b"{}");
}

#[test]
fn partial_frame_yields_nothing_until_complete() {
    let ready = object(vec![("evt", serde_json::Value::from("READY"))]);
    let bytes = encode_frame(Opcode::Frame, &body(&ready)).expect("encodes");
    let mut decoder = FrameDecoder::new();

    decoder.push(&bytes[..4]);
    assert!(decoder.next_frame().unwrap().is_none());

    decoder.push(&bytes[4..HEADER_LEN + 2]);
    assert!(decoder.next_frame().unwrap().is_none());

    decoder.push(&bytes[HEADER_LEN + 2..]);
    let frame = decoder.next_frame().unwrap().expect("a whole frame");
    assert_eq!(frame.event().as_deref(), Some("READY"));
}

#[test]
fn multiple_frames_drain_from_one_buffer() {
    let mut bytes = encode_frame(Opcode::Ping, br#"{"n":1}"#).expect("encodes");
    bytes.extend(encode_frame(Opcode::Frame, br#"{"evt":"READY"}"#).expect("encodes"));

    let mut decoder = FrameDecoder::new();
    decoder.push(&bytes);

    let first = decoder.next_frame().unwrap().unwrap();
    assert_eq!(first.opcode, Opcode::Ping);
    let second = decoder.next_frame().unwrap().unwrap();
    assert_eq!(second.opcode, Opcode::Frame);
    assert!(decoder.next_frame().unwrap().is_none());
}

#[test]
fn oversized_length_is_a_protocol_violation() {
    let mut bytes = Vec::new();
    bytes.extend_from_slice(&Opcode::Frame.raw_value().to_le_bytes());
    bytes.extend_from_slice(&MAX_PAYLOAD_LEN.to_le_bytes());

    let mut decoder = FrameDecoder::new();
    decoder.push(&bytes);
    assert_eq!(
        decoder.next_frame(),
        Err(ProtocolError::PayloadTooLarge(MAX_PAYLOAD_LEN))
    );
}

#[test]
fn unknown_opcode_is_rejected() {
    let mut bytes = Vec::new();
    bytes.extend_from_slice(&99u32.to_le_bytes());
    bytes.extend_from_slice(&2u32.to_le_bytes());
    bytes.extend_from_slice(b"{}");

    let mut decoder = FrameDecoder::new();
    decoder.push(&bytes);
    assert_eq!(decoder.next_frame(), Err(ProtocolError::UnknownOpcode(99)));
}

#[test]
fn an_error_frame_reports_message_and_code() {
    let data = object(vec![
        ("code", serde_json::Value::from(4000)),
        ("message", serde_json::Value::from("Invalid Client ID")),
    ]);
    let frame = frame_with(object(vec![
        ("evt", serde_json::Value::from("ERROR")),
        ("data", data),
    ]));
    assert_eq!(frame.event().as_deref(), Some("ERROR"));
    assert_eq!(frame.error_message(), "Invalid Client ID (code 4000)");
}

#[test]
fn a_close_reports_its_top_level_reason() {
    let frame = Frame {
        opcode: Opcode::Close,
        payload: body(&object(vec![
            ("code", serde_json::Value::from(4001)),
            ("message", serde_json::Value::from("Invalid Origin")),
        ])),
    };
    assert_eq!(frame.error_message(), "Invalid Origin (code 4001)");
}

#[test]
fn a_reason_with_only_one_half_still_reads() {
    let only_message = object(vec![("message", serde_json::Value::from("Rate limited"))]);
    assert_eq!(
        frame_with(object(vec![("data", only_message)])).error_message(),
        "Rate limited"
    );
    let only_code = object(vec![("code", serde_json::Value::from(4000))]);
    assert_eq!(
        frame_with(object(vec![("data", only_code)])).error_message(),
        "code 4000"
    );
}

#[test]
fn an_unhelpful_body_falls_back_to_what_arrived() {
    let frame = Frame { opcode: Opcode::Close, payload: b"not json at all".to_vec() };
    assert_eq!(frame.error_message(), "not json at all");

    let frame = frame_with(object(vec![("evt", serde_json::Value::from("ERROR"))]));
    assert!(frame.error_message().contains("ERROR"));
}

#[test]
fn a_zero_length_payload_is_a_valid_frame() {
    let mut bytes = Vec::new();
    bytes.extend_from_slice(&Opcode::Pong.raw_value().to_le_bytes());
    bytes.extend_from_slice(&0u32.to_le_bytes());

    let mut decoder = FrameDecoder::new();
    decoder.push(&bytes);
    let frame = decoder.next_frame().unwrap().expect("a frame");
    assert_eq!(frame.opcode, Opcode::Pong);
    assert!(frame.payload.is_empty());
    assert!(decoder.next_frame().unwrap().is_none());
}

#[test]
fn a_header_split_at_any_offset_still_reassembles() {
    let bytes = encode_frame(Opcode::Frame, br#"{"evt":"READY"}"#).expect("encodes");
    for split in 1..HEADER_LEN {
        let mut decoder = FrameDecoder::new();
        decoder.push(&bytes[..split]);
        assert!(decoder.next_frame().unwrap().is_none(), "split at {split}");
        decoder.push(&bytes[split..]);
        let frame = decoder.next_frame().unwrap().expect("a frame");
        assert_eq!(frame.opcode, Opcode::Frame, "split at {split}");
    }
}

#[test]
fn the_size_limit_is_exclusive_and_does_not_preallocate() {
    let mut bytes = Vec::new();
    bytes.extend_from_slice(&Opcode::Frame.raw_value().to_le_bytes());
    bytes.extend_from_slice(&(MAX_PAYLOAD_LEN - 1).to_le_bytes());

    let mut decoder = FrameDecoder::new();
    decoder.push(&bytes);
    assert_eq!(decoder.next_frame(), Ok(None));
}

#[test]
fn a_stream_of_frames_does_not_grow_the_buffer_without_bound() {
    let one = encode_frame(Opcode::Ping, br#"{"n":1}"#).expect("encodes");
    let mut stream = Vec::new();
    for _ in 0..200 {
        stream.extend_from_slice(&one);
    }

    let mut decoder = FrameDecoder::new();
    let mut drained = 0;
    for chunk in stream.chunks(7) {
        decoder.push(chunk);
        while decoder.next_frame().unwrap().is_some() {
            drained += 1;
        }
    }
    assert_eq!(drained, 200);
}

#[test]
fn a_data_field_that_is_not_an_object_falls_back_rather_than_failing() {
    let frame = Frame { opcode: Opcode::Close, payload: br#"{"data": 5}"#.to_vec() };
    assert!(frame.error_message().contains('5'));
}

#[test]
fn a_payload_at_the_limit_is_refused_by_the_encoder() {
    let payload = vec![b' '; MAX_PAYLOAD_LEN as usize];
    assert_eq!(
        encode_frame(Opcode::Frame, &payload),
        Err(ProtocolError::PayloadTooLarge(MAX_PAYLOAD_LEN))
    );
    let payload = vec![b' '; MAX_PAYLOAD_LEN as usize - 1];
    assert_eq!(encode_frame(Opcode::Frame, &payload).unwrap().len(), HEADER_LEN + payload.len());
}

#[test]
fn opcodes_read_back_from_their_numbers() {
    for op in [Opcode::Handshake, Opcode::Frame, Opcode::Close, Opcode::Ping, Opcode::Pong] {
        assert_eq!(Opcode::from_raw(op.raw_value()), Some(op));
    }
    assert_eq!(Opcode::from_raw(5), None);
}

#[test]
fn a_negative_code_is_written_with_its_sign() {
    assert_eq!(describe_reason(Some("x"), Some(-7), "raw"), "x (code -7)");
    assert_eq!(describe_reason(None, None, "raw"), "raw");
}

#[test]
fn a_data_object_is_read_before_the_top_level() {
    assert_eq!(
        frame_reason(Some("top"), Some(1), Some((Some("inner"), None)), "raw"),
        "inner"
    );
    assert_eq!(frame_reason(Some("top"), Some(1), None, "raw"), "top (code 1)");
    assert_eq!(frame_reason(Some("top"), None, Some((None, None)), "raw"), "raw");
}

#[test]
fn a_body_that_is_not_json_carries_no_event() {
    let frame = Frame { opcode: Opcode::Frame, payload: b"not json".to_vec() };
    assert_eq!(frame.event(), None);
    let frame = frame_with(object(vec![("evt", serde_json::Value::from(7))]));
    assert_eq!(frame.event(), None);
}

#[test]
fn a_ping_is_answered_with_its_body_or_null() {
    let payload = object(vec![("nonce", serde_json::Value::from("abc"))]);
    let ping = Frame { opcode: Opcode::Ping, payload: body(&payload) };
    let pong: serde_json::Value = serde_json::from_slice(&ping.pong_payload()).unwrap();
    assert_eq!(pong, payload);

    let garbled = Frame { opcode: Opcode::Ping, payload: b"{oops".to_vec() };
    assert_eq!(garbled.pong_payload(), b"null".to_vec());
}

#[test]
fn a_stream_cut_into_uneven_chunks_comes_back_whole() {
    let mut stream = Vec::new();
    let bodies: Vec<Vec<u8>> = vec![b"{}".to_vec(), Vec::new(), b"{\"evt\":\"READY\"}".to_vec()];
    let ops = [Opcode::Frame, Opcode::Ping, Opcode::Frame];
    for (op, b) in ops.iter().zip(bodies.iter()) {
        stream.extend(encode_frame(*op, b).unwrap());
    }
    let cuts = [1usize, 9, 3, 0, 15, 2, 100];
    let mut decoder = FrameDecoder::new();
    let mut got = Vec::new();
    let mut at = 0;
    for cut in cuts {
        let end = (at + cut).min(stream.len());
        decoder.push(&stream[at..end]);
        at = end;
        while let Some(frame) = decoder.next_frame().unwrap() {
            got.push(frame);
        }
    }
    assert_eq!(got.len(), 3);
    for (i, frame) in got.iter().enumerate() {
        assert_eq!(frame.opcode, ops[i]);
        assert_eq!(frame.payload, bodies[i]);
    }
    assert_eq!(got[2].event().as_deref(), Some("READY"));
}
