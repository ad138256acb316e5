use things_todo::cereal::{Cereal, EncodingType};
use things_todo::harness::RoundTripOutcome;
use things_todo::persist::data_file_name;
use things_todo::todolist::{DiffResult, TodoList};

fn sample_store() -> TodoList {
    let mut list = TodoList::new();
    list.add_todo("buy milk", false).unwrap();
    list.add_todo("walk dog", true).unwrap();
    list.add_todo("call mom", false).unwrap();
    list
}

#[test]
fn every_codec_round_trips_a_store() {
    let list = sample_store();
    for encoding in EncodingType::all() {
        assert_eq!(
            list.round_trip_diff(encoding).unwrap(),
            DiffResult::Same,
            "codec {} lost data",
            encoding.get_name()
        );
    }
}

#[test]
fn every_codec_round_trips_the_empty_store() {
    let list = TodoList::new();
    for encoding in EncodingType::all() {
        assert_eq!(list.round_trip_diff(encoding).unwrap(), DiffResult::Same);
    }
}

#[test]
fn pairs_survive_each_codec() {
    let pairs = vec![
        ("buy milk".to_string(), false),
        ("walk dog".to_string(), true),
    ];
    for encoding in EncodingType::all() {
        let bytes = Cereal::serialize_with(encoding, &pairs).unwrap();
        assert!(!bytes.is_empty());
        let back = Cereal::deserialize_with(encoding, &bytes).unwrap();
        assert_eq!(back, pairs, "codec {} altered the pairs", encoding.get_name());
    }
}

#[test]
fn saved_bytes_reload_into_an_equal_store() {
    let list = sample_store();
    for encoding in EncodingType::all() {
        let bytes = list.to_saved_bytes(encoding).unwrap();
        let reloaded = TodoList::from_saved_bytes(encoding, &bytes).unwrap();
        assert_eq!(reloaded.get_todos(), list.get_todos());
    }
}

#[test]
fn a_nul_in_a_name_stops_only_bson() {
    let mut list = TodoList::new();
    list.add_todo("bad\0name", false).unwrap();
    list.add_todo("fine", true).unwrap();
    assert!(list.round_trip_diff(EncodingType::Bson).is_err());
    assert_eq!(list.round_trip_diff(EncodingType::Json).unwrap(), DiffResult::Same);
    assert_eq!(list.round_trip_diff(EncodingType::Cbor).unwrap(), DiffResult::Same);
    assert_eq!(list.round_trip_diff(EncodingType::MsgPack).unwrap(), DiffResult::Same);
    assert_eq!(
        list.round_trip_diff(EncodingType::FlexBuffer).unwrap(),
        DiffResult::Same
    );
    let reports = list.run_encoding_test();
    assert_eq!(reports.len(), 5);
    for report in &reports {
        if report.encoding == EncodingType::Bson {
            assert!(matches!(report.outcome, RoundTripOutcome::EncodeFailed(_)));
            assert!(report.encoded.is_none());
        } else {
            assert!(report.encoded.is_some());
        }
    }
}

#[test]
fn garbage_bytes_fail_to_decode() {
    let garbage: Vec<u8> = vec![0xff, 0x00, 0x13, 0x37];
    assert!(Cereal::deserialize_with(EncodingType::Json, &garbage).is_err());
}

#[test]
fn default_codec_serializes_and_deserializes() {
    let pairs = vec![("a".to_string(), true)];
    let bytes = Cereal::serialize(&pairs).unwrap();
    let back = Cereal::deserialize(&bytes).unwrap();
    assert_eq!(back, pairs);
}

#[test]
fn json_encoding_differs_from_its_input_text() {
    let pairs = vec![("a".to_string(), true)];
    let bytes = Cereal::serialize_json(&pairs).unwrap();
    assert_eq!(bytes, br#"[["a",true]]"#.to_vec());
}

#[test]
fn the_codec_list_is_complete() {
    let all = EncodingType::all();
    assert_eq!(all.len(), 5);
    assert_eq!(
        all.to_vec(),
        vec![
            EncodingType::Bson,
            EncodingType::Cbor,
            EncodingType::FlexBuffer,
            EncodingType::Json,
            EncodingType::MsgPack,
        ]
    );
}

#[test]
fn extensions_and_names_are_fixed() {
    assert_eq!(EncodingType::Json.get_file_ext(), "json");
    assert_eq!(EncodingType::Cbor.get_file_ext(), "cbor");
    assert_eq!(EncodingType::Bson.get_file_ext(), "bson");
    assert_eq!(EncodingType::MsgPack.get_file_ext(), "msgpack");
    assert_eq!(EncodingType::FlexBuffer.get_file_ext(), "flex");
    assert_eq!(EncodingType::MsgPack.get_name(), "MsgPack");
    assert_eq!(data_file_name(EncodingType::MsgPack), "data.msgpack");
    assert_eq!(data_file_name(EncodingType::Json), "data.json");
}

#[test]
fn harness_reports_every_codec_with_size_and_times() {
    let list = sample_store();
    let reports = list.run_encoding_test();
    assert_eq!(reports.len(), 5);
    let expected = EncodingType::all();
    for (report, encoding) in reports.iter().zip(expected.iter()) {
        assert_eq!(report.encoding, *encoding);
        let bytes = report.encoded.as_ref().expect("encoded bytes missing");
        assert!(!bytes.is_empty());
        assert!(report.encode_ms.is_some());
        assert!(report.decode_ms.is_some());
        match &report.outcome {
            RoundTripOutcome::Diffed(d) => assert_eq!(*d, DiffResult::Same),
            other => panic!("codec {} did not round-trip: {:?}", encoding.get_name(), other),
        }
    }
}

#[test]
fn harness_on_empty_stores_reports_zero_diff_entries() {
    let list = TodoList::new();
    let reports = list.run_encoding_test();
    assert_eq!(reports.len(), 5);
    for report in reports {
        match report.outcome {
            RoundTripOutcome::Diffed(DiffResult::Same) => {},
            other => panic!("expected an identical diff, got {:?}", other),
        }
    }
}
