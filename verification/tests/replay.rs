use techmino_replay_toolkit::{
    parse_input_slice, GameInputEvent, GameReplayData, GameReplayMetadata, InputEventKey,
    InputEventKind, InputParseMode, ReplayParseError, ReplaySerializeError,
};

const METADATA: &str = "{\"date\":\"2024/01/01\",\"mode\":\"sprint_10l\",\"player\":\"P\",\"seed\":123,\"setting\":{},\"version\":\"0.17.22\"}";

const OLD_METADATA: &str = "{\"date\":\"\",\"mode\":\"\",\"player\":\"\",\"seed\":0,\"setting\":{\"das\":10},\"version\":\"V0.16.2\"}";

const BASE64: &str = "eNqrVkpJLElVslIyMjAy0TcwBCIlHaXc/BSQWHFBUWZeSbyhQQ5QrCAnsTK1CCgaAOQUp6amKFkZGhmDmCUlmXnpSlbVtTpKZalFxZn5eUBVBnqG5npGRkq1XI0mjI2Wio2WbM0CagDl/h9M";

const OLD_BASE64: &str = "eNqrVkpJLElVslJS0lHKzU+BsgpyEitTiyDs4tTUFCUrAxCjpCQzL13Jqhqop1jJytCgVkepLLWoODM/D6g0zEDP0EzPSKmWq9GEkVWRga0xXA0ABTcZ8g==";

const COMPRESSED: [u8; 108] = [
    120, 218, 171, 86, 74, 73, 44, 73, 85, 178, 82, 50, 50, 48, 50, 209, 55, 48, 4, 34, 37, 29,
    165, 220, 252, 20, 144, 88, 113, 65, 81, 102, 94, 73, 188, 161, 65, 14, 80, 172, 32, 39, 177,
    50, 181, 8, 40, 26, 0, 228, 20, 167, 166, 166, 40, 89, 25, 26, 25, 131, 152, 37, 37, 153, 121,
    233, 74, 86, 213, 181, 58, 74, 101, 169, 69, 197, 153, 249, 121, 64, 85, 6, 122, 134, 230, 122,
    70, 70, 74, 181, 92, 141, 38, 140, 141, 150, 138, 141, 150, 108, 205, 2, 106, 0, 229, 254, 31,
    76,
];

fn event(frame: u64, key: InputEventKey, kind: InputEventKind) -> GameInputEvent {
    GameInputEvent { frame, kind, key }
}

fn inputs() -> Vec<GameInputEvent> {
    vec![
        event(180, InputEventKey::MoveLeft, InputEventKind::Press),
        event(185, InputEventKey::MoveLeft, InputEventKind::Release),
        event(185, InputEventKey::HardDrop, InputEventKind::Press),
        event(400, InputEventKey::HardDrop, InputEventKind::Release),
    ]
}

fn metadata(json: &str) -> GameReplayMetadata {
    GameReplayMetadata::try_from(json.as_bytes()).unwrap()
}

fn replay() -> GameReplayData {
    GameReplayData { inputs: inputs(), metadata: metadata(METADATA) }
}

fn raw_bytes() -> Vec<u8> {
    let mut raw = METADATA.as_bytes().to_vec();
    raw.push(10);
    raw.extend_from_slice(&[0x81, 0x34, 0x01, 0x81, 0x39, 0x21, 0x81, 0x39, 0x06, 0x83, 0x10, 0x26]);
    raw
}

#[test]
fn test_input_slice_parse() {
    struct InputSliceParseTestcase {
        raw: Vec<u8>,
        expect_pass: bool,
    }

    let cases = [InputSliceParseTestcase { raw: vec![2, 1, 9, 1, 3, 1], expect_pass: false }];

    for InputSliceParseTestcase { raw, expect_pass } in cases {
        let inputs = parse_input_slice(&raw, InputParseMode::Absolute).unwrap();
        let data = GameReplayData { inputs, ..Default::default() };

        let reserialized = data.serialize_to_raw(Some(InputParseMode::Absolute));

        if expect_pass {
            reserialized.unwrap();
        } else {
            reserialized.unwrap_err();
        }
    }
}

#[test]
fn test_serialize_deserialize_noop() {
    for data in [
        replay(),
        GameReplayData { inputs: inputs(), metadata: metadata(OLD_METADATA) },
        GameReplayData { inputs: vec![], metadata: metadata(METADATA) },
    ] {
        let serialized = data.serialize_to_raw(None).expect("Error while serializing replay");

        let deserialized = GameReplayData::try_from_raw(&serialized, None)
            .expect("Error while deserializing replay");

        assert_eq!(data, deserialized, "Original and deserialized data doesn't match up!");
    }
}

#[test]
fn test_deserialize_serialize_noop() {
    for serialized in [BASE64, OLD_BASE64] {
        let deserialized =
            GameReplayData::try_from_base64(serialized, None).expect("Failed to deserialize data");
        let compressed =
            deserialized.serialize_to_compressed(None).expect("Failed to reserialize data");
        let again = GameReplayData::try_from_compressed(&compressed, None)
            .expect("Failed to deserialize data");
        assert_eq!(deserialized, again, "Original and reserialized form doesn't match!");
    }
    let deserialized =
        GameReplayData::try_from_raw(&raw_bytes(), None).expect("Failed to deserialize data");
    let reserialized = deserialized.serialize_to_raw(None).expect("Failed to reserialize data");
    assert_eq!(raw_bytes(), reserialized, "Original and reserialized form doesn't match!");
}

#[test]
fn raw_bytes_are_metadata_line_feed_and_inputs() {
    assert_eq!(replay().serialize_to_raw(None).unwrap(), raw_bytes());
    assert_eq!(replay().serialize_to_raw(Some(InputParseMode::Absolute)).unwrap(), raw_bytes());
    let mut relative = METADATA.as_bytes().to_vec();
    relative.push(10);
    relative.extend_from_slice(&[0x81, 0x34, 0x01, 0x05, 0x21, 0x00, 0x06, 0x81, 0x57, 0x26]);
    assert_eq!(replay().serialize_to_raw(Some(InputParseMode::Relative)).unwrap(), relative);
}

#[test]
fn raw_bytes_are_read() {
    let read = GameReplayData::try_from_raw(&raw_bytes(), None).unwrap();
    assert_eq!(read.inputs, inputs());
    assert_eq!(read.metadata.version, "0.17.22");
    assert_eq!(read.metadata.document, serde_json::from_str::<serde_json::Value>(METADATA).unwrap());
    assert_eq!(read, replay());
}

#[test]
fn metadata_ends_at_the_first_line_feed() {
    // the input stream may hold the byte 10 itself: time 10, key 10
    let mut raw = METADATA.as_bytes().to_vec();
    raw.extend_from_slice(&[10, 10, 10]);
    let read = GameReplayData::try_from_raw(&raw, None).unwrap();
    assert_eq!(read.inputs, vec![event(10, InputEventKey::Function2, InputEventKind::Press)]);
    assert_eq!(read.serialize_to_raw(None).unwrap(), raw);
}

#[test]
fn a_line_feed_in_a_string_is_written_as_an_escape() {
    let json = "{\"player\":\"a\\nb\",\"version\":\"0.17.22\"}";
    let data = GameReplayData { inputs: inputs(), metadata: metadata(json) };
    let raw = data.serialize_to_raw(None).unwrap();
    assert_eq!(raw.iter().position(|&byte| byte == 10), Some(json.len()));
    assert_eq!(GameReplayData::try_from_raw(&raw, None).unwrap(), data);
}

#[test]
fn unknown_members_and_text_beyond_ascii_survive() {
    let json = "{\"extra\":[1,2.5,null,{\"deep\":true}],\"player\":\"\u{540d}\u{524d}\",\"version\":\"0.17.22\"}";
    let data = GameReplayData { inputs: inputs(), metadata: metadata(json) };
    let raw = data.serialize_to_raw(None).unwrap();
    assert_eq!(&raw[..json.len()], json.as_bytes());
    assert_eq!(GameReplayData::try_from_raw(&raw, None).unwrap(), data);
}

#[test]
fn compressed_bytes_are_read() {
    assert_eq!(GameReplayData::try_from_compressed(&COMPRESSED, None).unwrap(), replay());
}

#[test]
fn base64_text_is_read() {
    assert_eq!(GameReplayData::try_from_base64(BASE64, None).unwrap(), replay());
    let old = GameReplayData::try_from_base64(OLD_BASE64, None).unwrap();
    assert_eq!(old.metadata.version, "V0.16.2");
    assert_eq!(old.inputs, inputs());
    // the same bytes read as absolute times
    let forced = GameReplayData::try_from_base64(OLD_BASE64, Some(InputParseMode::Absolute)).unwrap();
    assert_eq!(
        forced.inputs,
        vec![
            event(180, InputEventKey::MoveLeft, InputEventKind::Press),
            event(5, InputEventKey::MoveLeft, InputEventKind::Release),
            event(0, InputEventKey::HardDrop, InputEventKind::Press),
            event(215, InputEventKey::HardDrop, InputEventKind::Release),
        ]
    );
}

#[test]
fn full_round_trip_in_every_layer() {
    for mode in [None, Some(InputParseMode::Relative), Some(InputParseMode::Absolute)] {
        let data = replay();
        let raw = data.serialize_to_raw(mode).unwrap();
        assert_eq!(GameReplayData::try_from_raw(&raw, mode).unwrap(), data);
        let compressed = data.serialize_to_compressed(mode).unwrap();
        assert_ne!(compressed, raw);
        assert_eq!(GameReplayData::try_from_compressed(&compressed, mode).unwrap(), data);
        let text = data.serialize_to_base64(mode).unwrap();
        assert_ne!(text.as_bytes(), &compressed[..]);
        assert_eq!(GameReplayData::try_from_base64(&text, mode).unwrap(), data);
        assert_eq!(data.try_serialize_to_base64(mode).unwrap().unwrap(), text);
    }
}

#[test]
fn compressed_bytes_are_a_zlib_stream_of_the_raw_bytes() {
    let compressed = replay().serialize_to_compressed(None).unwrap();
    assert_eq!(compressed[0], 0x78);
    assert_eq!(miniz_oxide::inflate::decompress_to_vec_zlib(&compressed).unwrap(), raw_bytes());
}

#[test]
fn base64_text_is_standard_with_padding() {
    let data = GameReplayData { inputs: vec![], metadata: metadata("{\"version\":\"1.0.0\"}") };
    let text = data.serialize_to_base64(None).unwrap();
    assert_eq!(text.len() % 4, 0);
    assert!(text.bytes().all(|b| b.is_ascii_alphanumeric() || b == b'+' || b == b'/' || b == b'='));
    let compressed = data.serialize_to_compressed(None).unwrap();
    assert_eq!(text.len(), (compressed.len() + 2) / 3 * 4);
}

#[test]
fn sortedness_rejection() {
    let data = GameReplayData {
        inputs: vec![
            event(5, InputEventKey::MoveLeft, InputEventKind::Press),
            event(3, InputEventKey::MoveLeft, InputEventKind::Release),
        ],
        metadata: metadata(METADATA),
    };
    for mode in [None, Some(InputParseMode::Relative), Some(InputParseMode::Absolute)] {
        match data.serialize_to_raw(mode) {
            Err(ReplaySerializeError::UnsortedInput {
                first_unsorted_index,
                prev_time,
                unsorted_time,
            }) => assert_eq!((first_unsorted_index, prev_time, unsorted_time), (1, 5, 3)),
            other => panic!("expected an unsorted input, got {:?}", other),
        }
        assert!(matches!(
            data.serialize_to_compressed(mode),
            Err(ReplaySerializeError::UnsortedInput { .. })
        ));
        assert!(matches!(
            data.try_serialize_to_base64(mode),
            Some(Err(ReplaySerializeError::UnsortedInput { .. }))
        ));
    }
}

#[test]
fn sorting_puts_inputs_in_order_and_is_idempotent() {
    let mut data = GameReplayData {
        inputs: vec![
            event(9, InputEventKey::Hold, InputEventKind::Press),
            event(5, InputEventKey::MoveLeft, InputEventKind::Press),
            event(7, InputEventKey::HardDrop, InputEventKind::Press),
            event(5, InputEventKey::MoveRight, InputEventKind::Release),
            event(0, InputEventKey::SoftDrop, InputEventKind::Press),
        ],
        metadata: metadata(METADATA),
    };
    assert!(data.serialize_to_raw(None).is_err());
    data.sort_inputs();
    let once = data.clone();
    assert_eq!(
        once.inputs,
        vec![
            event(0, InputEventKey::SoftDrop, InputEventKind::Press),
            event(5, InputEventKey::MoveLeft, InputEventKind::Press),
            event(5, InputEventKey::MoveRight, InputEventKind::Release),
            event(7, InputEventKey::HardDrop, InputEventKind::Press),
            event(9, InputEventKey::Hold, InputEventKind::Press),
        ]
    );
    assert_eq!(once.metadata, metadata(METADATA));
    data.sort_inputs();
    assert_eq!(data, once);
    let raw = data.serialize_to_raw(None).unwrap();
    assert_eq!(GameReplayData::try_from_raw(&raw, None).unwrap(), data);
}

#[test]
fn missing_separator() {
    assert!(matches!(
        GameReplayData::try_from_raw(METADATA.as_bytes(), None),
        Err(ReplayParseError::MetadataSeparatorNotFound)
    ));
    assert!(matches!(
        GameReplayData::try_from_raw(&[], Some(InputParseMode::Absolute)),
        Err(ReplayParseError::MetadataSeparatorNotFound)
    ));
}

#[test]
fn metadata_that_is_not_utf8() {
    assert!(matches!(
        GameReplayData::try_from_raw(&[0xff, 0xfe, 10, 1, 1], None),
        Err(ReplayParseError::MetadataNotUtf8(_))
    ));
}

#[test]
fn metadata_that_is_not_json_or_has_no_version() {
    for text in ["not json\n", "\n", "{\"player\":\"P\"}\n", "{\"version\":17}\n", "[\"version\"]\n"] {
        assert!(matches!(
            GameReplayData::try_from_raw(text.as_bytes(), Some(InputParseMode::Absolute)),
            Err(ReplayParseError::MetadataDeserializeError(_))
        ));
    }
}

#[test]
fn unknown_mode_on_reading_and_writing() {
    let json = "{\"version\":\"Techmino is fun!\"}";
    let mut raw = json.as_bytes().to_vec();
    raw.extend_from_slice(&[10, 5, 1]);
    match GameReplayData::try_from_raw(&raw, None) {
        Err(ReplayParseError::UnknownInputParseMode(version)) => {
            assert_eq!(version, "Techmino is fun!")
        }
        other => panic!("expected an unknown mode, got {:?}", other),
    }
    let read = GameReplayData::try_from_raw(&raw, Some(InputParseMode::Relative)).unwrap();
    assert_eq!(read.inputs, vec![event(5, InputEventKey::MoveLeft, InputEventKind::Press)]);
    match read.serialize_to_raw(None) {
        Err(ReplaySerializeError::UnknownInputParseMode(version)) => {
            assert_eq!(version, "Techmino is fun!")
        }
        other => panic!("expected an unknown mode, got {:?}", other),
    }
    assert_eq!(read.serialize_to_raw(Some(InputParseMode::Relative)).unwrap(), raw);
}

#[test]
fn unknown_mode_comes_before_unsorted_inputs() {
    let data = GameReplayData {
        inputs: vec![
            event(5, InputEventKey::MoveLeft, InputEventKind::Press),
            event(3, InputEventKey::MoveLeft, InputEventKind::Release),
        ],
        metadata: metadata("{\"version\":\"?\"}"),
    };
    assert!(matches!(
        data.serialize_to_raw(None),
        Err(ReplaySerializeError::UnknownInputParseMode(_))
    ));
}

#[test]
fn malformed_input_in_a_replay() {
    let mut raw = METADATA.as_bytes().to_vec();
    raw.extend_from_slice(&[10, 1, 1, 2, 21]);
    match GameReplayData::try_from_raw(&raw, None) {
        Err(ReplayParseError::MalformedInputData { position, frame, kind }) => {
            assert_eq!((position, frame, kind), (2, 2, 21))
        }
        other => panic!("expected a malformed input, got {:?}", other),
    }
}

#[test]
fn text_that_is_not_base64() {
    assert!(matches!(
        GameReplayData::try_from_base64("!!!", None),
        Err(ReplayParseError::Base64DecodeError(_))
    ));
    assert!(matches!(
        GameReplayData::try_from_base64("eNqr", None),
        Err(ReplayParseError::ZlibDecompressError(_))
    ));
}

#[test]
fn bytes_that_are_no_zlib_stream() {
    assert!(matches!(
        GameReplayData::try_from_compressed(&raw_bytes(), None),
        Err(ReplayParseError::ZlibDecompressError(_))
    ));
    assert!(matches!(
        GameReplayData::try_from_compressed(&COMPRESSED[..40], None),
        Err(ReplayParseError::ZlibDecompressError(_))
    ));
}

#[test]
fn default_replay_is_empty() {
    let data = GameReplayData::default();
    assert!(data.inputs.is_empty());
    assert_eq!(data.metadata.version, "");
    assert_eq!(data.metadata.document, serde_json::Value::Null);
}
