use presenced::activity::{normalize_timestamp, number_to_u64, parse_command, parse_handshake, ActivityRecord};
use presenced::connection::{ready_frame, Connection, ConnectionError, Phase, Step, READY_PAYLOAD};
use presenced::frame::{
    encode_frame, frame_header, frame_payload, socket_decode, socket_encode, FrameError, FrameHeader,
    Message,
};
use presenced::publish::{build_update, client_id_to_name, ClientNames, PresenceState, StateUpdate};
use presenced::sink::SinkState;
use presenced::store::ActivityStore;

fn json(text: &str) -> serde_json::Value {
    serde_json::from_str(text).unwrap()
}

fn message(opcode: u32, text: &str) -> Message {
    Message { opcode, payload: json(text) }
}

fn record(state: &str) -> ActivityRecord {
    ActivityRecord {
        large_text: String::new(),
        small_text: String::new(),
        state: state.to_string(),
        details: String::new(),
        start_time: None,
        end_time: None,
    }
}

fn header_bytes(opcode: u32, length: u32) -> Vec<u8> {
    let mut b = opcode.to_le_bytes().to_vec();
    b.extend_from_slice(&length.to_le_bytes());
    b
}

#[test]
fn encode_frame_layout() {
    let bytes = encode_frame(1, "{}").unwrap();
    assert_eq!(bytes, vec![1, 0, 0, 0, 2, 0, 0, 0, b'{', b'}']);
    let bytes = encode_frame(0x01020304, "é").unwrap();
    assert_eq!(bytes, vec![4, 3, 2, 1, 2, 0, 0, 0, 0xc3, 0xa9]);
}

#[test]
fn socket_encode_layout() {
    assert_eq!(
        socket_encode(&message(1, "{}")).unwrap(),
        vec![1, 0, 0, 0, 2, 0, 0, 0, b'{', b'}']
    );
    let big = format!("\"{}\"", "a".repeat(1_000_000));
    assert_eq!(socket_encode(&message(1, &big)).unwrap_err(), FrameError::PayloadTooLarge);
}

#[test]
fn round_trip_keeps_opcode_and_payload() {
    let cases = [
        (0u32, r#"{"client_id":"abc"}"#),
        (1, r#"{"cmd":"SET_ACTIVITY","args":{"activity":{"state":"S","timestamps":{"start":1700000000}}}}"#),
        (7, r#"[1,2.5,-3,null,true,"xé"]"#),
        (u32::MAX, r#""""#),
    ];
    for (opcode, text) in cases {
        let m = message(opcode, text);
        let mut bytes = socket_encode(&m).unwrap();
        let frame_len = bytes.len();
        bytes.extend_from_slice(&[9, 9, 9]);
        let (back, used) = socket_decode(&bytes).unwrap();
        assert_eq!(back.opcode, opcode);
        assert_eq!(back.payload, m.payload);
        assert_eq!(used, frame_len);
    }
}

#[test]
fn oversized_payload_rejected_for_every_opcode() {
    for opcode in [0u32, 1, 2, 1000, u32::MAX] {
        let header = header_bytes(opcode, 1_000_001);
        assert_eq!(frame_header(&header), Err(FrameError::PayloadTooLarge));
        assert_eq!(socket_decode(&header).unwrap_err(), FrameError::PayloadTooLarge);
    }
    assert_eq!(
        frame_header(&header_bytes(5, 1_000_000)),
        Ok(FrameHeader { opcode: 5, length: 1_000_000 })
    );
}

#[test]
fn encode_refuses_oversized_payload() {
    let text = "a".repeat(1_000_001);
    assert_eq!(encode_frame(1, &text), Err(FrameError::PayloadTooLarge));
    let text = "a".repeat(1_000_000);
    assert_eq!(encode_frame(1, &text).unwrap().len(), 1_000_008);
}

#[test]
fn decode_errors() {
    assert_eq!(socket_decode(&[1, 0, 0]).unwrap_err(), FrameError::Truncated);
    let mut short = header_bytes(1, 4);
    short.extend_from_slice(b"{}");
    assert_eq!(socket_decode(&short).unwrap_err(), FrameError::Truncated);
    let mut bad_utf8 = header_bytes(1, 2);
    bad_utf8.extend_from_slice(&[0xff, 0xfe]);
    assert_eq!(socket_decode(&bad_utf8).unwrap_err(), FrameError::InvalidUtf8);
    let mut bad_json = header_bytes(1, 3);
    bad_json.extend_from_slice(b"{x}");
    assert_eq!(socket_decode(&bad_json).unwrap_err(), FrameError::InvalidJson);
    assert_eq!(frame_payload(b"[1,").unwrap_err(), FrameError::InvalidJson);
    assert_eq!(frame_payload(b"{\"a\":1}").unwrap(), json(r#"{"a":1}"#));
}

#[test]
fn timestamp_normalization() {
    assert_eq!(normalize_timestamp(1_700_000_000), 1_700_000_000_000);
    assert_eq!(normalize_timestamp(1_700_000_000_000), 1_700_000_000_000);
    assert_eq!(normalize_timestamp(9_999_999_999), 9_999_999_999_000);
    assert_eq!(normalize_timestamp(10_000_000_000), 10_000_000_000);
    assert_eq!(normalize_timestamp(0), 0);
}

#[test]
fn numbers_as_timestamps() {
    assert_eq!(number_to_u64(&json("1700000000")), Some(1_700_000_000));
    assert_eq!(number_to_u64(&json("18446744073709551615")), Some(u64::MAX));
    assert_eq!(number_to_u64(&json("1500000000.7")), Some(1_500_000_000));
    assert_eq!(number_to_u64(&json("-5")), Some(0));
    assert_eq!(number_to_u64(&json("-2.5")), Some(0));
    assert_eq!(number_to_u64(&json("0.999")), Some(0));
    assert_eq!(number_to_u64(&json("1e30")), Some(u64::MAX));
    assert_eq!(number_to_u64(&json("4503599627370497.0")), Some(4_503_599_627_370_497));
    assert_eq!(number_to_u64(&json("\"12\"")), None);
    assert_eq!(number_to_u64(&json("null")), None);
}

#[test]
fn command_defaults_and_shapes() {
    let c = parse_command(&json(r#"{"cmd":"PING"}"#)).unwrap();
    assert_eq!(c.cmd, "PING");
    assert_eq!(c.activity.state, "");
    assert_eq!(c.activity.start_time, None);

    let c = parse_command(&json(
        r#"{"cmd":"SET_ACTIVITY","args":{"activity":{"state":"S","details":"D",
            "assets":{"large_text":"L","small_text":"s"},
            "timestamps":{"start":1700000000,"end":1700000000123,"x":1}}}}"#,
    ))
    .unwrap();
    assert_eq!(c.activity.large_text, "L");
    assert_eq!(c.activity.small_text, "s");
    assert_eq!(c.activity.state, "S");
    assert_eq!(c.activity.details, "D");
    assert_eq!(c.activity.start_time, Some(1_700_000_000_000));
    assert_eq!(c.activity.end_time, Some(1_700_000_000_123));

    let c = parse_command(&json(r#"{"cmd":"SET_ACTIVITY","args":{"activity":{"timestamps":{"start":null}}}}"#)).unwrap();
    assert_eq!(c.activity.start_time, None);
    assert!(parse_command(&json(r#"{"cmd":"SET_ACTIVITY","args":{"activity":{"timestamps":{"start":"soon"}}}}"#)).is_none());
    assert!(parse_command(&json(r#"{"cmd":"SET_ACTIVITY","args":{"activity":{"timestamps":{"end":[1]}}}}"#)).is_none());
    assert!(parse_command(&json(r#"{"cmd":"SET_ACTIVITY","args":{"activity":{"timestamps":{"end":true}}}}"#)).is_none());

    assert!(parse_command(&json(r#"{"args":{}}"#)).is_none());
    assert!(parse_command(&json(r#"{"cmd":5}"#)).is_none());
    assert!(parse_command(&json(r#"{"cmd":"SET_ACTIVITY","args":{"activity":{"state":3}}}"#)).is_none());
    assert!(parse_command(&json(r#"{"cmd":"SET_ACTIVITY","args":{"activity":{"assets":"x"}}}"#)).is_none());
    assert!(parse_command(&json(r#"{"cmd":"SET_ACTIVITY","args":[]}"#)).is_none());
    assert!(parse_command(&json(r#"["SET_ACTIVITY"]"#)).is_none());
}

#[test]
fn handshake_identity() {
    assert_eq!(parse_handshake(&json(r#"{"client_id":"abc"}"#)), "abc");
    assert_eq!(parse_handshake(&json(r#"{"client_id":12}"#)), "");
    assert_eq!(parse_handshake(&json(r#"{}"#)), "");
    assert_eq!(parse_handshake(&json(r#""abc""#)), "");
}

#[test]
fn handshake_must_come_first() {
    for opcode in [1u32, 2, 99] {
        let mut store = ActivityStore::new();
        let mut conn = Connection::new();
        let step = conn.on_frame(&mut store, &message(opcode, r#"{"client_id":"abc"}"#));
        assert!(matches!(step, Step::Close(ConnectionError::HandshakeNotReceived)));
        assert_eq!(conn.phase(), Phase::Terminated);
        assert_eq!(store.len(), 0);
    }
}

#[test]
fn ready_frame_bytes() {
    let bytes = ready_frame();
    let (m, used) = socket_decode(&bytes).unwrap();
    assert_eq!(used, bytes.len());
    assert_eq!(m.opcode, 1);
    assert_eq!(m.payload, json(r#"{"cmd":"DISPATCH","evt":"READY","data":{"user":{"id":"1"}}}"#));
    assert_eq!(&bytes[8..], READY_PAYLOAD.as_bytes());
}

#[test]
fn store_holds_distinct_identities() {
    let mut store = ActivityStore::new();
    for i in 0..20 {
        store.upsert(format!("id{}", i), record("first"));
    }
    for i in 0..20 {
        store.upsert(format!("id{}", i), record(&format!("v{}", i)));
    }
    let snap = store.snapshot();
    assert_eq!(snap.len(), 20);
    for i in 0..20 {
        let id = format!("id{}", i);
        let found: Vec<_> = snap.iter().filter(|(k, _)| *k == id).collect();
        assert_eq!(found.len(), 1);
        assert_eq!(found[0].1.state, format!("v{}", i));
    }
    store.remove(&"id3".to_string());
    store.remove(&"missing".to_string());
    assert_eq!(store.len(), 19);
    assert!(store.get(&"id3".to_string()).is_none());
    assert_eq!(store.get(&"id4".to_string()).unwrap().state, "v4");
}

#[test]
fn record_removed_when_connection_ends() {
    let mut store = ActivityStore::new();
    store.upsert("other".to_string(), record("o"));
    let mut conn = Connection::new();
    assert!(matches!(conn.on_frame(&mut store, &message(0, r#"{"client_id":"X"}"#)), Step::Reply(_)));
    let set = r#"{"cmd":"SET_ACTIVITY","args":{"activity":{"state":"S"}}}"#;
    assert!(matches!(conn.on_frame(&mut store, &message(1, set)), Step::Stored));
    assert_eq!(store.len(), 2);
    conn.close(&mut store);
    assert_eq!(conn.phase(), Phase::Terminated);
    assert!(store.get(&"X".to_string()).is_none());
    assert_eq!(store.len(), 1);

    let mut conn = Connection::new();
    conn.on_frame(&mut store, &message(0, r#"{"client_id":"Y"}"#));
    conn.on_frame(&mut store, &message(1, set));
    let step = conn.on_frame(&mut store, &message(1, r#"{"cmd":"SET_ACTIVITY","args":{"activity":{"details":[]}}}"#));
    assert!(matches!(step, Step::Close(ConnectionError::MalformedCommand)));
    assert!(store.get(&"Y".to_string()).is_none());
    assert_eq!(store.snapshot().len(), 1);
}

#[test]
fn unknown_command_and_opcode_tolerated() {
    let mut store = ActivityStore::new();
    let mut conn = Connection::new();
    conn.on_frame(&mut store, &message(0, r#"{"client_id":"abc"}"#));
    assert!(matches!(conn.on_frame(&mut store, &message(1, r#"{"cmd":"PING"}"#)), Step::Ignored));
    assert!(matches!(conn.on_frame(&mut store, &message(3, r#"{"anything":1}"#)), Step::Ignored));
    assert_eq!(conn.phase(), Phase::Active);
    assert_eq!(store.len(), 0);
    let set = r#"{"cmd":"SET_ACTIVITY","args":{"activity":{"state":"after"}}}"#;
    assert!(matches!(conn.on_frame(&mut store, &message(1, set)), Step::Stored));
    assert_eq!(store.get(&"abc".to_string()).unwrap().state, "after");
}

#[test]
fn end_to_end_session() {
    let mut store = ActivityStore::new();
    let mut conn = Connection::new();
    let hello = encode_frame(0, r#"{"client_id":"abc"}"#).unwrap();
    let (m, _) = socket_decode(&hello).unwrap();
    let reply = match conn.on_frame(&mut store, &m) {
        Step::Reply(bytes) => bytes,
        other => panic!("unexpected step {:?}", other),
    };
    let (ack, _) = socket_decode(&reply).unwrap();
    assert_eq!(ack.opcode, 1);
    assert_eq!(ack.payload["evt"], json("\"READY\""));
    assert_eq!(conn.identity(), "abc");

    let set = encode_frame(
        1,
        r#"{"cmd":"SET_ACTIVITY","args":{"activity":{"state":"S","details":"D","timestamps":{"start":1700000000}}}}"#,
    )
    .unwrap();
    let (m, _) = socket_decode(&set).unwrap();
    assert!(matches!(conn.on_frame(&mut store, &m), Step::Stored));
    let snap = store.snapshot();
    assert_eq!(snap.len(), 1);
    assert_eq!(snap[0].0, "abc");
    assert_eq!(snap[0].1.state, "S");
    assert_eq!(snap[0].1.details, "D");
    assert_eq!(snap[0].1.start_time, Some(1_700_000_000_000));
    assert_eq!(snap[0].1.end_time, None);

    conn.close(&mut store);
    assert_eq!(store.snapshot().len(), 0);
}

#[test]
fn display_names() {
    let mut names = ClientNames::new();
    assert_eq!(client_id_to_name(&names, &"123".to_string()), "123");
    names.add("123".to_string(), "Game".to_string());
    names.add("123".to_string(), "Later".to_string());
    names.add("456".to_string(), "Editor".to_string());
    assert_eq!(client_id_to_name(&names, &"123".to_string()), "Game");
    assert_eq!(client_id_to_name(&names, &"456".to_string()), "Editor");
    assert_eq!(client_id_to_name(&names, &"789".to_string()), "789");
}

#[test]
fn update_lists_every_record() {
    let mut store = ActivityStore::new();
    let mut a = record("playing");
    a.start_time = Some(5);
    store.upsert("123".to_string(), a);
    store.upsert("999".to_string(), record("idle"));
    let mut names = ClientNames::new();
    names.add("123".to_string(), "Game".to_string());
    let update = build_update(&store, &names, &"SECRET-REDACTED".to_string());
    assert_eq!(update.token, "SECRET-REDACTED");
    assert_eq!(update.state.len(), 2);
    let game = update.state.iter().find(|p| p.client == "Game").unwrap();
    assert_eq!(game.state, "playing");
    assert_eq!(game.start_time, Some(5));
    let other = update.state.iter().find(|p| p.client == "999").unwrap();
    assert_eq!(other.state, "idle");
    assert_eq!(build_update(&ActivityStore::new(), &names, &"t".to_string()).state.len(), 0);
}

#[test]
fn sink_accepts_only_the_expected_token() {
    let presence = |client: &str| PresenceState {
        client: client.to_string(),
        large_text: String::new(),
        small_text: String::new(),
        state: "S".to_string(),
        details: String::new(),
        start_time: Some(1_700_000_000_000),
        end_time: None,
    };
    let expected = "SECRET-REDACTED".to_string();
    let mut sink = SinkState::new(10);
    assert!(sink.states().is_empty());
    let wrong = StateUpdate { token: "nope".to_string(), state: vec![presence("a")] };
    assert!(!sink.apply_update(wrong, &expected, 20));
    assert!(sink.states().is_empty());
    assert_eq!(sink.last_updated(), 10);
    let right = StateUpdate { token: expected.clone(), state: vec![presence("a"), presence("b")] };
    assert!(sink.apply_update(right, &expected, 30));
    assert_eq!(sink.states().len(), 2);
    assert_eq!(sink.states()[1].client, "b");
    assert_eq!(sink.last_updated(), 30);
    let empty = StateUpdate { token: expected.clone(), state: vec![] };
    assert!(sink.apply_update(empty, &expected, 40));
    assert!(sink.states().is_empty());
}
