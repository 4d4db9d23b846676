use nestri_server::errors::DecodeError;
use nestri_server::frame::{encode_frame, read_frame, FrameError, MAX_FRAME_SIZE};
use nestri_server::json::{json_parse, json_to_bytes, obj_lookup, obj_take, JsonValue};
use nestri_server::messages::{
    decode_answer, decode_envelope, decode_ice, decode_join, decode_log, decode_raw, decode_sdp,
    AnswerStatus, IceCandidateInit, JoinerRole, MessageBase, MessageICE, MessageJoin, MessageRaw,
    MessageSDP, SessionDescription,
};

fn parse(text: &str) -> JsonValue {
    json_parse(&text.as_bytes().to_vec()).expect("document should parse")
}

// ---------------------------------------------------------------------
// Framing
// ---------------------------------------------------------------------

#[test]
fn frame_round_trip_payload() {
    let payload: Vec<u8> = vec![9, 8, 7, 6, 5];
    let framed = encode_frame(&payload).expect("within bound");
    assert_eq!(&framed[..4], &[0, 0, 0, 5]);
    let (back, next) = read_frame(&framed, 0).expect("read back");
    assert_eq!(back, payload);
    assert_eq!(next, framed.len());
}

#[test]
fn frame_round_trip_empty_payload() {
    let payload: Vec<u8> = Vec::new();
    let framed = encode_frame(&payload).expect("within bound");
    assert_eq!(framed, vec![0, 0, 0, 0]);
    let (back, next) = read_frame(&framed, 0).expect("read back");
    assert!(back.is_empty());
    assert_eq!(next, 4);
}

#[test]
fn frame_round_trip_largest_payload() {
    let payload: Vec<u8> = vec![0xab; MAX_FRAME_SIZE as usize];
    let framed = encode_frame(&payload).expect("exactly at bound");
    let (back, _) = read_frame(&framed, 0).expect("read back");
    assert_eq!(back.len(), payload.len());
    assert_eq!(back, payload);
}

#[test]
fn frame_oversize_send_rejected() {
    let payload: Vec<u8> = vec![0; MAX_FRAME_SIZE as usize + 1];
    assert_eq!(encode_frame(&payload), Err(FrameError::Oversize));
}

#[test]
fn frame_oversize_receive_rejected_without_corrupting_stream() {
    // A frame declaring a length past the bound, then a good frame.
    let mut stream: Vec<u8> = vec![0x00, 0x10, 0x00, 0x01]; // 1 MiB + 1
    let good = encode_frame(&vec![1, 2, 3]).unwrap();
    // The oversized header is refused and consumes nothing.
    assert_eq!(read_frame(&stream, 0), Err(FrameError::Oversize));
    // After the peer abandons the bad frame, a clean stream still frames.
    stream.clear();
    stream.extend_from_slice(&good);
    let (back, _) = read_frame(&stream, 0).expect("good frame reads");
    assert_eq!(back, vec![1, 2, 3]);
}

#[test]
fn frame_incomplete_header_and_body() {
    assert_eq!(read_frame(&vec![0, 0], 0), Err(FrameError::Incomplete));
    assert_eq!(read_frame(&vec![0, 0, 0, 9, 1, 2], 0), Err(FrameError::Incomplete));
}

#[test]
fn frame_sequence_keeps_boundaries() {
    let mut stream = encode_frame(&vec![1]).unwrap();
    stream.extend_from_slice(&encode_frame(&vec![2, 2]).unwrap());
    let (a, p1) = read_frame(&stream, 0).unwrap();
    let (b, p2) = read_frame(&stream, p1).unwrap();
    assert_eq!(a, vec![1]);
    assert_eq!(b, vec![2, 2]);
    assert_eq!(p2, stream.len());
}

// ---------------------------------------------------------------------
// Documents
// ---------------------------------------------------------------------

#[test]
fn json_prints_canonical_object() {
    let v = JsonValue::Obj(vec![
        ("a".to_string(), JsonValue::Int(1)),
        ("b".to_string(), JsonValue::Str("x".to_string())),
        ("c".to_string(), JsonValue::Bool(true)),
        ("d".to_string(), JsonValue::Null),
    ]);
    let bytes = json_to_bytes(&v);
    assert_eq!(bytes, br#"{"a":1,"b":"x","c":true,"d":null}"#.to_vec());
}

#[test]
fn json_prints_escapes_and_serde_reads_them_back() {
    let v = JsonValue::Str("say \"hi\"\\\n\u{1}".to_string());
    let bytes = json_to_bytes(&v);
    let parsed: serde_json::Value = serde_json::from_slice(&bytes).expect("valid document");
    assert_eq!(parsed.as_str().unwrap(), "say \"hi\"\\\n\u{1}");
}

#[test]
fn json_prints_integers_at_both_extremes() {
    assert_eq!(json_to_bytes(&JsonValue::Int(i64::MIN)), b"-9223372036854775808".to_vec());
    assert_eq!(json_to_bytes(&JsonValue::Int(i64::MAX)), b"9223372036854775807".to_vec());
    assert_eq!(json_to_bytes(&JsonValue::Int(0)), b"0".to_vec());
}

#[test]
fn json_parse_accepts_whitespace_and_nesting() {
    let v = parse(" { \"a\" : [ 1 , -2 , \"x\" , { \"b\" : null } ] , \"t\" : true } ");
    let reprinted = json_to_bytes(&v);
    assert_eq!(reprinted, br#"{"a":[1,-2,"x",{"b":null}],"t":true}"#.to_vec());
}

#[test]
fn json_parse_decodes_escapes() {
    let v = parse(r#""a\n\t\"\\\u0041\u00e9""#);
    match v {
        JsonValue::Str(s) => assert_eq!(s, "a\n\t\"\\A\u{e9}"),
        _ => panic!("expected a string"),
    }
}

#[test]
fn json_parse_keeps_foreign_numbers_raw() {
    let v = parse("[1.5,1e9,99999999999999999999]");
    let reprinted = json_to_bytes(&v);
    assert_eq!(reprinted, b"[1.5,1e9,99999999999999999999]".to_vec());
}

#[test]
fn json_parse_round_trips_against_serde() {
    let text = r#"{"payload_type":"sdp","latency":{"stamps":[1,2,3]},"sdp":{"type":"offer","sdp":"v=0\r\n"}}"#;
    let ours = json_to_bytes(&parse(text));
    let serde_value: serde_json::Value = serde_json::from_str(text).unwrap();
    let serde_again: serde_json::Value = serde_json::from_slice(&ours).unwrap();
    assert_eq!(serde_value, serde_again);
}

#[test]
fn json_parse_rejects_malformed_documents() {
    for bad in ["{", "tru", "nul", "[1,", "\"a", "{\"a\"1}", "1 2", "", "\u{1}", "\"\u{1}\""] {
        assert!(json_parse(&bad.as_bytes().to_vec()).is_err(), "accepted {:?}", bad);
    }
}

#[test]
fn json_parse_rejects_too_deep_nesting() {
    let mut text = String::new();
    for _ in 0..200 {
        text.push('[');
    }
    for _ in 0..200 {
        text.push(']');
    }
    assert!(matches!(json_parse(&text.as_bytes().to_vec()), Err(DecodeError::TooDeep)));
}

#[test]
fn json_object_lookup_and_take() {
    let v = parse(r#"{"a":1,"b":2,"a":3}"#);
    match v {
        JsonValue::Obj(mut fields) => {
            assert!(matches!(obj_lookup(&fields, "a"), Some(JsonValue::Int(1))));
            assert!(obj_lookup(&fields, "missing").is_none());
            assert!(matches!(obj_take(&mut fields, "b"), Some(JsonValue::Int(2))));
            assert!(obj_take(&mut fields, "b").is_none());
        },
        _ => panic!("expected an object"),
    }
}

// ---------------------------------------------------------------------
// Messages
// ---------------------------------------------------------------------

#[test]
fn envelope_decodes_discriminant_and_ignores_unknown_fields() {
    let v = parse(r#"{"payload_type":"answer","whatever":[1,2],"status":"ok"}"#);
    let base = decode_envelope(v).expect("envelope decodes");
    assert_eq!(base.payload_type, "answer");
    assert!(base.latency.is_none());
}

#[test]
fn envelope_keeps_latency_token() {
    let v = parse(r#"{"payload_type":"log","latency":{"stamps":[4]}}"#);
    let base = decode_envelope(v).expect("envelope decodes");
    let token = base.latency.expect("token kept");
    let reprinted = json_to_bytes(&token);
    assert_eq!(reprinted, br#"{"stamps":[4]}"#.to_vec());
}

#[test]
fn envelope_treats_null_latency_as_absent() {
    let v = parse(r#"{"payload_type":"log","latency":null}"#);
    assert!(decode_envelope(v).unwrap().latency.is_none());
}

#[test]
fn envelope_requires_discriminant() {
    let v = parse(r#"{"latency":null}"#);
    assert!(matches!(decode_envelope(v), Err(DecodeError::MissingField)));
    let v = parse(r#"{"payload_type":7}"#);
    assert!(matches!(decode_envelope(v), Err(DecodeError::WrongType)));
    let v = parse("[]");
    assert!(matches!(decode_envelope(v), Err(DecodeError::WrongType)));
}

#[test]
fn sdp_with_missing_body_fails_typed_decode_but_not_envelope() {
    // The discriminant says `sdp`, the body lacks the field.
    let text = r#"{"payload_type":"sdp","other":1}"#;
    let base = decode_envelope(parse(text)).expect("envelope layer succeeds");
    assert_eq!(base.payload_type, "sdp");
    assert!(matches!(decode_sdp(parse(text)), Err(DecodeError::MissingField)));
}

#[test]
fn sdp_decodes_fully() {
    let v = parse(r#"{"payload_type":"sdp","sdp":{"type":"answer","sdp":"v=0\r\n"}}"#);
    let m = decode_sdp(v).expect("decodes");
    assert_eq!(m.base.payload_type, "sdp");
    assert_eq!(m.sdp.sdp_type, "answer");
    assert_eq!(m.sdp.sdp, "v=0\r\n");
}

#[test]
fn sdp_rejects_wrong_discriminant_and_shapes() {
    let v = parse(r#"{"payload_type":"ice","sdp":{"type":"answer","sdp":"x"}}"#);
    assert!(matches!(decode_sdp(v), Err(DecodeError::WrongPayloadType)));
    let v = parse(r#"{"payload_type":"sdp","sdp":"not an object"}"#);
    assert!(matches!(decode_sdp(v), Err(DecodeError::WrongType)));
    let v = parse(r#"{"payload_type":"sdp","sdp":{"type":"answer"}}"#);
    assert!(matches!(decode_sdp(v), Err(DecodeError::MissingField)));
}

#[test]
fn ice_decodes_fully() {
    let v = parse(
        r#"{"payload_type":"ice","candidate":{"candidate":"candidate:1","sdpMid":"0","sdpMLineIndex":5,"usernameFragment":null}}"#,
    );
    let m = decode_ice(v).expect("decodes");
    assert_eq!(m.candidate.candidate, "candidate:1");
    assert_eq!(m.candidate.sdp_mid.as_deref(), Some("0"));
    assert_eq!(m.candidate.sdp_mline_index, Some(5));
    assert_eq!(m.candidate.username_fragment, None);
}

#[test]
fn ice_rejects_out_of_range_line_index() {
    let v = parse(r#"{"payload_type":"ice","candidate":{"candidate":"c","sdpMLineIndex":70000}}"#);
    assert!(matches!(decode_ice(v), Err(DecodeError::WrongType)));
}

#[test]
fn answer_decodes_each_status() {
    for (text, expected) in [
        ("ok", AnswerStatus::Accepted),
        ("in_use", AnswerStatus::InUse),
        ("offline", AnswerStatus::Offline),
    ] {
        let v = parse(&format!(r#"{{"payload_type":"answer","status":"{}"}}"#, text));
        assert_eq!(decode_answer(v).expect("decodes").status, expected);
    }
    let v = parse(r#"{"payload_type":"answer","status":"weird"}"#);
    assert!(matches!(decode_answer(v), Err(DecodeError::WrongType)));
}

#[test]
fn join_decodes_each_role() {
    let v = parse(r#"{"payload_type":"join","joiner_role":"node"}"#);
    assert_eq!(decode_join(v).unwrap().joiner_role, JoinerRole::Node);
    let v = parse(r#"{"payload_type":"join","joiner_role":"client"}"#);
    assert_eq!(decode_join(v).unwrap().joiner_role, JoinerRole::Client);
    let v = parse(r#"{"payload_type":"join","joiner_role":"ghost"}"#);
    assert!(matches!(decode_join(v), Err(DecodeError::WrongType)));
}

#[test]
fn raw_requires_data_member() {
    let v = parse(r#"{"payload_type":"push-stream-ok","data":"room-7"}"#);
    let m = decode_raw(v).expect("decodes");
    assert_eq!(m.base.payload_type, "push-stream-ok");
    assert_eq!(json_to_bytes(&m.data), br#""room-7""#.to_vec());
    let v = parse(r#"{"payload_type":"push-stream-ok"}"#);
    assert!(matches!(decode_raw(v), Err(DecodeError::MissingField)));
}

#[test]
fn log_decodes_fully() {
    let v = parse(r#"{"payload_type":"log","level":"info","message":"hi","time":"now"}"#);
    let m = decode_log(v).expect("decodes");
    assert_eq!((m.level.as_str(), m.message.as_str(), m.time.as_str()), ("info", "hi", "now"));
}

#[test]
fn join_encodes_and_decodes_back() {
    let m = MessageJoin {
        base: MessageBase { payload_type: "join".to_string(), latency: None },
        joiner_role: JoinerRole::Client,
    };
    let bytes = json_to_bytes(&m.to_json());
    assert_eq!(bytes, br#"{"payload_type":"join","joiner_role":"client"}"#.to_vec());
    let back = decode_join(json_parse(&bytes).unwrap()).unwrap();
    assert_eq!(back.joiner_role, JoinerRole::Client);
}

#[test]
fn sdp_offer_encodes_and_decodes_back() {
    let m = MessageSDP {
        base: MessageBase { payload_type: "sdp".to_string(), latency: None },
        sdp: SessionDescription { sdp_type: "offer".to_string(), sdp: "v=0\r\n".to_string() },
    };
    let bytes = json_to_bytes(&m.to_json());
    assert_eq!(
        bytes,
        br#"{"payload_type":"sdp","sdp":{"type":"offer","sdp":"v=0\u000d\u000a"}}"#.to_vec()
    );
    let back = decode_sdp(json_parse(&bytes).unwrap()).unwrap();
    assert_eq!(back.sdp.sdp_type, "offer");
    assert_eq!(back.sdp.sdp, "v=0\r\n");
}

#[test]
fn ice_encodes_explicit_nulls_and_decodes_back() {
    let m = MessageICE {
        base: MessageBase { payload_type: "ice".to_string(), latency: None },
        candidate: IceCandidateInit {
            candidate: "candidate:7".to_string(),
            sdp_mid: None,
            sdp_mline_index: Some(2),
            username_fragment: None,
        },
    };
    let bytes = json_to_bytes(&m.to_json());
    assert_eq!(
        bytes,
        br#"{"payload_type":"ice","candidate":{"candidate":"candidate:7","sdpMid":null,"sdpMLineIndex":2,"usernameFragment":null}}"#
            .to_vec()
    );
    let back = decode_ice(json_parse(&bytes).unwrap()).unwrap();
    assert_eq!(back.candidate.candidate, "candidate:7");
    assert_eq!(back.candidate.sdp_mid, None);
    assert_eq!(back.candidate.sdp_mline_index, Some(2));
}

#[test]
fn raw_encodes_room_announcement() {
    let m = MessageRaw {
        base: MessageBase { payload_type: "push-stream-room".to_string(), latency: None },
        data: JsonValue::Str("room-1".to_string()),
    };
    let bytes = json_to_bytes(&m.to_json());
    assert_eq!(bytes, br#"{"payload_type":"push-stream-room","data":"room-1"}"#.to_vec());
    let back = decode_raw(json_parse(&bytes).unwrap()).unwrap();
    assert_eq!(back.base.payload_type, "push-stream-room");
}

#[test]
fn encoded_latency_token_survives_the_round_trip() {
    let token = json_parse(&br#"{"stamps":[1,2]}"#.to_vec()).unwrap();
    let m = MessageJoin {
        base: MessageBase { payload_type: "join".to_string(), latency: Some(token) },
        joiner_role: JoinerRole::Node,
    };
    let bytes = json_to_bytes(&m.to_json());
    assert_eq!(
        bytes,
        br#"{"payload_type":"join","latency":{"stamps":[1,2]},"joiner_role":"node"}"#.to_vec()
    );
    let back = decode_envelope(json_parse(&bytes).unwrap()).unwrap();
    assert_eq!(json_to_bytes(&back.latency.unwrap()), br#"{"stamps":[1,2]}"#.to_vec());
}
