use persist::{
    load_persisted, persist_system, Datum, PersistData, PersistFile, PersistManager, PersistMode,
};

fn settings_store(volume: u64, name: &str, enabled: bool) -> PersistData {
    let mut data = PersistData::new();
    data.insert("volume", Datum::UInt(volume));
    data.insert("name", Datum::Text(name.to_string()));
    data.insert("enabled", Datum::Bool(enabled));
    data
}

#[test]
fn test_auto_save_integration() {
    // a persist hook run on a changed record writes the store under its
    // type's name; reading the text back yields the same values
    let mut manager = PersistManager::new("TestOrg", "TestApp");
    let data = settings_store(75, "modified", false);

    let plan = persist_system(&mut manager, "TestSettings", PersistMode::Dev, true, data)
        .expect("a changed record with auto-save on must produce a write");

    let loaded = PersistFile::load_from_file(&plan.path, Some(&plan.content)).unwrap();
    let got = loaded.get_type_data("TestSettings").unwrap();
    assert_eq!(got.get_u64("volume"), Some(75));
    assert_eq!(got.get_string("name"), Some("modified".to_string()));
    assert_eq!(got.get_bool("enabled"), Some(false));
}

#[test]
fn test_persist_hook_unchanged_is_no_op() {
    // running the hook twice with no intervening change writes once: the
    // second run produces no write at all
    let mut manager = PersistManager::new("TestOrg", "TestApp");

    let first = persist_system(
        &mut manager,
        "TestSettings",
        PersistMode::Dev,
        true,
        settings_store(1, "a", true),
    );
    assert!(first.is_some());

    let second = persist_system(
        &mut manager,
        "TestSettings",
        PersistMode::Dev,
        false,
        settings_store(1, "a", true),
    );
    assert!(second.is_none());
}

#[test]
fn test_auto_save_gating() {
    // with auto-save off for the type, mutating and running the hook leaves
    // the development file untouched; a manual save still writes the value
    let mut manager = PersistManager::new("TestOrg", "TestApp");
    manager.set_type_auto_save("ManualSaveSettings".to_string(), false);

    let mut count: u64 = 0;
    while count < 10 {
        let data = settings_store(count, "manual save", true);
        let plan = persist_system(&mut manager, "ManualSaveSettings", PersistMode::Dev, true, data);
        assert!(plan.is_none(), "auto-save is off: no file may be written");
        count += 1;
    }
    assert!(manager.get_persist_file().get_type_data("ManualSaveSettings").is_none());

    // manual save: exactly one write, carrying the latest value
    let mut latest = PersistData::new();
    latest.insert("value", Datum::Int(999));
    latest.insert("text", Datum::Text("manual save".to_string()));
    manager
        .get_persist_file_mut()
        .set_type_data("ManualSaveSettings".to_string(), latest);
    let plan = manager.save().unwrap();

    let mut manager2 = PersistManager::new("TestOrg", "TestApp");
    manager2.load(Some(&plan.content)).unwrap();
    let got = manager2.get_persist_file().get_type_data("ManualSaveSettings").unwrap();
    assert_eq!(got.get_i64("value"), Some(999));
    assert_eq!(got.get_string("text"), Some("manual save".to_string()));
}

#[test]
fn test_manual_save_integration() {
    // an auto_save = false type never writes on ticks; saving by hand and
    // rebuilding the engine brings the values back
    let mut manager = PersistManager::new("TestOrg", "ManualSaveTest");
    manager.set_type_auto_save("ManualSaveSettings".to_string(), false);

    let mut data = PersistData::new();
    data.insert("value", Datum::Int(999));
    data.insert("text", Datum::Text("manual save".to_string()));

    let ticked = persist_system(
        &mut manager,
        "ManualSaveSettings",
        PersistMode::Dev,
        true,
        data.clone(),
    );
    assert!(ticked.is_none());

    manager
        .get_persist_file_mut()
        .set_type_data("ManualSaveSettings".to_string(), data);
    let plan = manager.save().unwrap();

    let mut manager2 = PersistManager::new("TestOrg", "ManualSaveTest");
    manager2.load(Some(&plan.content)).unwrap();
    let loaded = load_persisted(&manager2, "ManualSaveSettings", PersistMode::Dev, None, None)
        .expect("the saved store must load");
    assert_eq!(loaded.get_i64("value"), Some(999));
    assert_eq!(loaded.get_string("text"), Some("manual save".to_string()));
}

#[test]
fn test_multiple_resources() {
    let mut manager = PersistManager::new("TestOrg", "TestApp");

    let data1 = settings_store(90, "resource1", true);
    persist_system(&mut manager, "TestSettings", PersistMode::Dev, true, data1).unwrap();

    let mut data2 = PersistData::new();
    data2.insert("value", Datum::Int(123));
    data2.insert("text", Datum::Text("resource2".to_string()));
    let plan = persist_system(&mut manager, "ManualSaveSettings", PersistMode::Dev, true, data2)
        .unwrap();

    let loaded = PersistFile::load_from_file(&plan.path, Some(&plan.content)).unwrap();

    let got1 = loaded.get_type_data("TestSettings").unwrap();
    assert_eq!(got1.get_u64("volume"), Some(90));
    assert_eq!(got1.get_string("name"), Some("resource1".to_string()));

    let got2 = loaded.get_type_data("ManualSaveSettings").unwrap();
    assert_eq!(got2.get_i64("value"), Some(123));
    assert_eq!(got2.get_string("text"), Some("resource2".to_string()));
}

#[test]
fn test_ron_format() {
    // the development file of this manager ends in the RON extension, so
    // the hook's write is RON text
    let mut manager = PersistManager::new("TestOrg", "TestApp");
    let data = settings_store(33, "ron_test", true);

    let plan = persist_system(&mut manager, "TestSettings", PersistMode::Dev, true, data).unwrap();
    assert!(plan.path.ends_with(".ron"));

    let loaded = PersistFile::load_from_file(&plan.path, Some(&plan.content)).unwrap();
    let got = loaded.get_type_data("TestSettings").unwrap();
    assert_eq!(got.get_u64("volume"), Some(33));
    assert_eq!(got.get_string("name"), Some("ron_test".to_string()));
    assert_eq!(got.get_bool("enabled"), Some(true));
}

#[test]
fn test_mode_isolation() {
    // a dynamically or securely stored type never enters the development
    // container file; an embedded type is never written at all
    let mut manager = PersistManager::new("TestOrg", "TestApp");
    manager.production = true;

    let dyn_plan = persist_system(
        &mut manager,
        "DynType",
        PersistMode::Dynamic,
        true,
        settings_store(1, "d", true),
    );
    assert!(dyn_plan.is_some());
    assert!(manager.get_persist_file().get_type_data("DynType").is_none());

    let sec_plan = persist_system(
        &mut manager,
        "SecType",
        PersistMode::Secure,
        true,
        settings_store(2, "s", true),
    );
    assert!(sec_plan.is_some());
    assert!(manager.get_persist_file().get_type_data("SecType").is_none());

    let embed_plan = persist_system(
        &mut manager,
        "EmbedType",
        PersistMode::Embed,
        true,
        settings_store(3, "e", true),
    );
    assert!(embed_plan.is_none(), "embedded resources are never written back");

    // the development file's text carries none of them
    let dev_plan = manager.save().unwrap();
    assert!(!dev_plan.content.contains("DynType"));
    assert!(!dev_plan.content.contains("SecType"));
    assert!(!dev_plan.content.contains("EmbedType"));
}

#[test]
fn test_dynamic_save_and_load_round_trip() {
    let mut manager = PersistManager::new("TestOrg", "TestApp");
    manager.production = true;

    let mut data = PersistData::new();
    data.insert("user_pref", Datum::Text("dark".to_string()));
    let plan = persist_system(&mut manager, "DynamicSettings", PersistMode::Dynamic, true, data)
        .unwrap();
    assert!(plan.path.ends_with("dynamicsettings.ron"));

    let loaded = load_persisted(
        &manager,
        "DynamicSettings",
        PersistMode::Dynamic,
        None,
        Some(&plan.content),
    )
    .expect("the dedicated file's text must load");
    assert_eq!(loaded.get_string("user_pref"), Some("dark".to_string()));
}

#[test]
fn test_embedded_data_loads_first() {
    // an embedded type in production reads its baked-in text, trying RON
    // first and JSON second, and never touches the cache
    let mut manager = PersistManager::new("TestOrg", "TestApp");
    manager.production = true;

    let mut baked = PersistFile::new();
    let mut data = PersistData::new();
    data.insert("level", Datum::Int(4));
    baked.set_type_data("EmbeddedType".to_string(), data);
    let ron_text = baked.save_to_file("baked.ron").unwrap();

    let loaded = load_persisted(
        &manager,
        "EmbeddedType",
        PersistMode::Embed,
        Some(&ron_text),
        None,
    )
    .expect("embedded data must load");
    assert_eq!(loaded.get_i64("level"), Some(4));

    let json_text = baked.save_to_file("baked.json").unwrap();
    let loaded_json = load_persisted(
        &manager,
        "EmbeddedType",
        PersistMode::Embed,
        Some(&json_text),
        None,
    )
    .expect("embedded JSON data must load too");
    assert_eq!(loaded_json.get_i64("level"), Some(4));
}

#[test]
fn test_load_falls_back_to_defaults() {
    // nothing stored anywhere: the load hook yields nothing and the record
    // keeps its defaults
    let manager = PersistManager::new("TestOrg", "TestApp");
    let loaded = load_persisted(&manager, "Missing", PersistMode::Dev, None, None);
    assert!(loaded.is_none());
}

#[test]
fn test_secure_encryption() {
    let mut manager = PersistManager::new("TestOrg", "TestApp").with_secret("my_secret_key_123");
    manager.production = true;

    let mut data = PersistData::new();
    data.insert("score", Datum::Int(9999));
    data.insert("level", Datum::Int(42));
    data.insert("player_name", Datum::Text("TestPlayer".to_string()));

    let plan = persist_system(&mut manager, "SecureData", PersistMode::Secure, true, data)
        .expect("a changed secure record must produce a write");
    assert!(plan.path.ends_with("securedata.dat"));

    // the written text must not be readable as plain text: it is nothing
    // but hexadecimal digits, and none of the stored words survive
    assert!(plan.content.chars().all(|c| c.is_ascii_hexdigit()));
    assert!(!plan.content.contains("score"));
    assert!(!plan.content.contains("TestPlayer"));

    // the same secret reads it back
    let loaded = load_persisted(
        &manager,
        "SecureData",
        PersistMode::Secure,
        None,
        Some(&plan.content),
    )
    .expect("the same secret must read the data back");
    assert_eq!(loaded.get_i64("score"), Some(9999));
    assert_eq!(loaded.get_i64("level"), Some(42));
    assert_eq!(loaded.get_string("player_name"), Some("TestPlayer".to_string()));

    // a wrong secret reads nothing
    let mut wrong = PersistManager::new("TestOrg", "TestApp").with_secret("wrong_secret");
    wrong.production = true;
    let bad = load_persisted(&wrong, "SecureData", PersistMode::Secure, None, Some(&plan.content));
    assert!(bad.is_none());
}

#[test]
fn test_secure_without_secret() {
    // with no secret set, a securely stored type writes plain text and
    // reads it back
    let mut manager = PersistManager::new("TestOrg", "TestApp2");
    manager.production = true;

    let mut data = PersistData::new();
    data.insert("value", Datum::Int(123));

    let plan = persist_system(&mut manager, "SecureData2", PersistMode::Secure, true, data)
        .unwrap();
    let loaded = load_persisted(
        &manager,
        "SecureData2",
        PersistMode::Secure,
        None,
        Some(&plan.content),
    )
    .unwrap();
    assert_eq!(loaded.get_i64("value"), Some(123));
}

#[test]
fn test_fresh_directory_scenario() {
    // construct a manager; nothing is written yet; register, load, mutate,
    // persist; a second independent manager reads the value back
    let mut manager = PersistManager::new("Acme", "Game");
    assert_eq!(manager.dev_file, "game_dev.ron");

    let loaded = load_persisted(&manager, "Settings", PersistMode::Dev, None, None);
    assert!(loaded.is_none(), "a fresh directory holds nothing: defaults stay");

    let mut store = PersistData::new();
    store.insert("volume", Datum::UInt(80));
    let plan = persist_system(&mut manager, "Settings", PersistMode::Dev, true, store)
        .expect("a changed record must be written");
    assert_eq!(plan.path, "game_dev.ron");
    assert!(plan.content.contains("Settings"));
    assert!(plan.content.contains("volume"));

    let mut second = PersistManager::new("Acme", "Game");
    second.load(Some(&plan.content)).unwrap();
    let reloaded = load_persisted(&second, "Settings", PersistMode::Dev, None, None)
        .expect("the second manager must see the saved store");
    assert_eq!(reloaded.get_u64("volume"), Some(80));
}

#[test]
fn test_obfuscation_round_trip() {
    let cipher = persist::secure::obfuscate("a short plain text", "orchard gate");
    assert!(!cipher.contains("plain"));
    let back = persist::secure::deobfuscate(&cipher, "orchard gate");
    assert_eq!(back, Some("a short plain text".to_string()));
}
