use persist::codec::{decode_datum, encode_datum, Codec};
use persist::file::ENGINE_VERSION;
use persist::{Datum, PersistData, PersistError, PersistFile};

#[test]
fn test_persist_file_new() {
    let file = PersistFile::new();

    assert!(file.type_data.is_empty());
    assert!(!file.last_saved.is_empty());
    assert_eq!(file.version, ENGINE_VERSION);
}

#[test]
fn test_persist_file_type_data() {
    let mut file = PersistFile::new();
    let mut data = PersistData::new();
    data.insert("test_key", Datum::Text("test_value".to_string()));

    file.set_type_data("TestType".to_string(), data.clone());

    let retrieved = file.get_type_data("TestType");
    assert!(retrieved.is_some());
    assert_eq!(
        retrieved.unwrap().get_string("test_key"),
        Some("test_value".to_string())
    );

    assert!(file.get_type_data("NonExistent").is_none());
}

#[test]
fn test_persist_file_save_and_load_json() {
    let file_path = "test.json";

    let mut file = PersistFile::new();
    let mut data = PersistData::new();
    data.insert("key1", Datum::Text("value1".to_string()));
    data.insert("key2", Datum::Int(42));
    file.set_type_data("TestResource".to_string(), data);

    let content = file.save_to_file(file_path).unwrap();

    let loaded = PersistFile::load_from_file(file_path, Some(&content)).unwrap();

    assert_eq!(loaded.type_data.len(), 1);
    let loaded_data = loaded.get_type_data("TestResource").unwrap();
    assert_eq!(loaded_data.get_string("key1"), Some("value1".to_string()));
    assert_eq!(loaded_data.get_i64("key2"), Some(42));
}

#[test]
fn test_persist_file_save_and_load_ron() {
    let file_path = "test.ron";

    let mut file = PersistFile::new();
    let mut data = PersistData::new();
    data.insert("name", Datum::Text("Ron Test".to_string()));
    data.insert("count", Datum::Int(100));
    file.set_type_data("RonResource".to_string(), data);

    let content = file.save_to_file(file_path).unwrap();

    let loaded = PersistFile::load_from_file(file_path, Some(&content)).unwrap();

    assert_eq!(loaded.type_data.len(), 1);
    let loaded_data = loaded.get_type_data("RonResource").unwrap();
    assert_eq!(loaded_data.get_string("name"), Some("Ron Test".to_string()));
    assert_eq!(loaded_data.get_i64("count"), Some(100));
}

#[test]
fn test_persist_file_load_nonexistent() {
    // an absent file reads as a fresh, empty container file
    let file = PersistFile::load_from_file("nonexistent.json", None).unwrap();
    assert!(file.type_data.is_empty());
}

#[test]
fn test_persist_file_format_detection() {
    let mut data = PersistData::new();
    data.insert("test_key", Datum::Text("test_value".to_string()));

    let mut json_file = PersistFile::new();
    json_file.set_type_data("TestType".to_string(), data.clone());
    let json_content = json_file.save_to_file("test.json").unwrap();
    assert!(json_content.starts_with('{'), "JSON should start with {{");
    assert!(
        json_content.contains("\"TestType\""),
        "JSON should contain TestType"
    );

    let mut ron_file = PersistFile::new();
    ron_file.set_type_data("TestType".to_string(), data);
    let ron_content = ron_file.save_to_file("test.ron").unwrap();

    let loaded_json = PersistFile::load_from_file("test.json", Some(&json_content)).unwrap();
    let loaded_ron = PersistFile::load_from_file("test.ron", Some(&ron_content)).unwrap();

    assert!(loaded_json.get_type_data("TestType").is_some());
    assert!(loaded_ron.get_type_data("TestType").is_some());

    let json_data = loaded_json.get_type_data("TestType").unwrap();
    let ron_data = loaded_ron.get_type_data("TestType").unwrap();

    assert_eq!(json_data.get_string("test_key"), Some("test_value".to_string()));
    assert_eq!(ron_data.get_string("test_key"), Some("test_value".to_string()));
}

#[test]
fn test_round_trip_nested_values_both_codecs() {
    let mut data = PersistData::new();
    data.insert("null", Datum::Null);
    data.insert("flag", Datum::Bool(true));
    data.insert("negative", Datum::Int(-12345));
    data.insert("big", Datum::UInt(9_007_199_254_740_993));
    data.insert(
        "list",
        Datum::List(vec![
            Datum::Int(1),
            Datum::Text("two".to_string()),
            Datum::List(vec![Datum::Bool(false)]),
        ]),
    );
    data.insert(
        "nested",
        Datum::Rec(vec![
            ("inner".to_string(), Datum::Text("deep".to_string())),
            ("n".to_string(), Datum::UInt(5)),
        ]),
    );

    for path in ["round.json", "round.ron"] {
        let mut file = PersistFile::new();
        file.set_type_data("Full".to_string(), data.clone());
        let content = file.save_to_file(path).unwrap();
        let loaded = PersistFile::load_from_file(path, Some(&content)).unwrap();
        let got = loaded.get_type_data("Full").unwrap();

        assert_eq!(got.get_bool("flag"), Some(true));
        assert_eq!(got.get_i64("negative"), Some(-12345));
        assert_eq!(got.get_u64("big"), Some(9_007_199_254_740_993));
        assert_eq!(got.get("null"), Some(&Datum::Null));
        match got.get("list") {
            Some(Datum::List(items)) => {
                assert_eq!(items.len(), 3);
                assert_eq!(items[0], Datum::UInt(1));
                assert_eq!(items[1], Datum::Text("two".to_string()));
                assert_eq!(items[2], Datum::List(vec![Datum::Bool(false)]));
            }
            other => panic!("expected a list, got {:?}", other),
        }
        match got.get("nested") {
            Some(Datum::Rec(entries)) => {
                assert_eq!(entries.len(), 2);
            }
            other => panic!("expected a nested mapping, got {:?}", other),
        }
    }
}

#[test]
fn test_round_trip_text_with_escapes() {
    let tricky = "line one\nline \"two\"\t\\ and unicode: \u{00e9}\u{4e16}";
    for path in ["esc.json", "esc.ron"] {
        let mut file = PersistFile::new();
        let mut data = PersistData::new();
        data.insert("text", Datum::Text(tricky.to_string()));
        file.set_type_data("Esc".to_string(), data);
        let content = file.save_to_file(path).unwrap();
        let loaded = PersistFile::load_from_file(path, Some(&content)).unwrap();
        assert_eq!(
            loaded.get_type_data("Esc").unwrap().get_string("text"),
            Some(tricky.to_string())
        );
    }
}

#[test]
fn test_load_bad_text_is_serialization_error() {
    let result = PersistFile::load_from_file("bad.json", Some("this is not json"));
    match result {
        Err(PersistError::SerializationError(_)) => (),
        other => panic!("expected a serialization error, got {:?}", other),
    }
}

#[test]
fn test_load_non_mapping_is_serialization_error() {
    let result = PersistFile::load_from_file("bad.json", Some("[1, 2, 3]"));
    match result {
        Err(PersistError::SerializationError(_)) => (),
        other => panic!("expected a serialization error, got {:?}", other),
    }
}

#[test]
fn test_load_missing_metadata_is_serialization_error() {
    // a mapping without the timestamp and version fields is not a container file
    let result = PersistFile::load_from_file("bad.json", Some("{\"OnlyType\": {}}"));
    match result {
        Err(PersistError::SerializationError(_)) => (),
        other => panic!("expected a serialization error, got {:?}", other),
    }
}

#[test]
fn test_save_replaces_type_data_entirely() {
    let mut file = PersistFile::new();
    let mut first = PersistData::new();
    first.insert("a", Datum::Int(1));
    first.insert("b", Datum::Int(2));
    file.set_type_data("T".to_string(), first);

    let mut second = PersistData::new();
    second.insert("c", Datum::Int(3));
    file.set_type_data("T".to_string(), second);

    let got = file.get_type_data("T").unwrap();
    assert_eq!(got.get_i64("a"), None);
    assert_eq!(got.get_i64("c"), Some(3));
    assert_eq!(file.type_data.len(), 1);
}

#[test]
fn test_codec_value_round_trip() {
    let value = Datum::Rec(vec![
        ("n".to_string(), Datum::Int(-7)),
        ("t".to_string(), Datum::Text("abc".to_string())),
        ("l".to_string(), Datum::List(vec![Datum::UInt(1), Datum::Null])),
    ]);

    for codec in [Codec::Json, Codec::Ron] {
        let text = encode_datum(codec, &value).unwrap();
        let back = decode_datum(codec, &text).unwrap();
        match back {
            Datum::Rec(entries) => {
                assert_eq!(entries.len(), 3);
                assert!(entries.contains(&("n".to_string(), Datum::Int(-7))));
                assert!(entries.contains(&("t".to_string(), Datum::Text("abc".to_string()))));
                assert!(entries.contains(&(
                    "l".to_string(),
                    Datum::List(vec![Datum::UInt(1), Datum::Null])
                )));
            }
            other => panic!("expected a mapping back, got {:?}", other),
        }
    }
}
