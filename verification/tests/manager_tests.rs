use persist::{Datum, PersistData, PersistError, PersistManager, PersistMode};
use persist::manager::PlatformDirs;

#[test]
fn test_persist_manager_new() {
    let manager = PersistManager::new("TestOrg", "TestApp");

    assert_eq!(manager.organization, "TestOrg");
    assert_eq!(manager.app_name, "TestApp");
    assert!(manager.auto_save);
    assert!(manager.auto_save_types.is_empty());
    assert_eq!(manager.dev_file, "testapp_dev.ron");
}

#[test]
fn test_persist_manager_auto_save_settings() {
    let mut manager = PersistManager::new("TestOrg", "TestApp");

    assert!(manager.is_auto_save_enabled("AnyType"));

    manager.set_type_auto_save("DisabledType".to_string(), false);
    assert!(!manager.is_auto_save_enabled("DisabledType"));
    assert!(manager.is_auto_save_enabled("EnabledType"));

    manager.auto_save = false;
    assert!(!manager.is_auto_save_enabled("AnyType"));
}

#[test]
fn test_persist_manager_save_and_load() {
    let mut manager = PersistManager::new("TestOrg", "TestApp");

    let mut data = PersistData::new();
    data.insert("test", Datum::Text("data".to_string()));
    manager
        .get_persist_file_mut()
        .set_type_data("TestType".to_string(), data);

    let plan = manager.save().unwrap();
    assert_eq!(plan.path, "testapp_dev.ron");

    let mut manager2 = PersistManager::new("TestOrg", "TestApp");
    manager2.load(Some(&plan.content)).unwrap();

    let loaded_data = manager2.get_persist_file().get_type_data("TestType");
    assert!(loaded_data.is_some());
    assert_eq!(
        loaded_data.unwrap().get_string("test"),
        Some("data".to_string())
    );
}

#[test]
fn test_persist_manager_load_rejects_bad_text() {
    let mut manager = PersistManager::new("TestOrg", "TestApp");
    assert!(manager.load(Some("not a container file")).is_err());
    // the cache is untouched: still empty
    assert!(manager.get_persist_file().type_data.is_empty());
}

#[test]
fn test_persist_manager_type_modes() {
    let mut manager = PersistManager::new("TestOrg", "TestApp");

    assert_eq!(manager.get_type_mode("Unset"), PersistMode::Dev);
    manager.set_type_mode("Saves".to_string(), PersistMode::Secure);
    manager.set_type_mode("Prefs".to_string(), PersistMode::Dynamic);
    assert_eq!(manager.get_type_mode("Saves"), PersistMode::Secure);
    assert_eq!(manager.get_type_mode("Prefs"), PersistMode::Dynamic);
    manager.set_type_mode("Saves".to_string(), PersistMode::Embed);
    assert_eq!(manager.get_type_mode("Saves"), PersistMode::Embed);
}

#[test]
fn test_persist_error_display() {
    let io_error = PersistError::IoError("file not found".to_string());
    assert_eq!(io_error.message(), "IO error: file not found");

    let ser_error = PersistError::SerializationError("invalid JSON".to_string());
    assert_eq!(ser_error.message(), "Serialization error: invalid JSON");

    let res_error = PersistError::ResourceNotFound("MyResource".to_string());
    assert_eq!(res_error.message(), "Resource not found: MyResource");
}

#[test]
fn test_persist_mode_enum() {
    let dev = PersistMode::Dev;
    let embed = PersistMode::Embed;
    let dynamic = PersistMode::Dynamic;
    let secure = PersistMode::Secure;

    assert_ne!(dev, embed);
    assert_ne!(dynamic, secure);
    assert_eq!(dev, PersistMode::Dev);

    assert_eq!(format!("{:?}", dev), "Dev");
    assert_eq!(format!("{:?}", embed), "Embed");
    assert_eq!(format!("{:?}", dynamic), "Dynamic");
    assert_eq!(format!("{:?}", secure), "Secure");
}

#[test]
fn test_resource_path_generation() {
    let manager = PersistManager::new("TestOrg", "TestApp");

    // in a development configuration, every mode resolves to the shared
    // development file
    let dev_path = manager.get_resource_path("TestResource", PersistMode::Dev);
    let dynamic_path = manager.get_resource_path("TestResource", PersistMode::Dynamic);
    let secure_path = manager.get_resource_path("TestResource", PersistMode::Secure);

    assert_eq!(dev_path, "testapp_dev.ron");
    assert_eq!(dynamic_path, dev_path);
    assert_eq!(secure_path, dev_path);

    // in a production configuration, the modes resolve to dedicated files
    let mut prod = PersistManager::new("TestOrg", "TestApp");
    prod.production = true;

    let embed_path = prod.get_resource_path("TestResource", PersistMode::Embed);
    assert_eq!(embed_path, "");

    let dirs = PlatformDirs {
        config_dir: "/cfg".to_string(),
        data_dir: "/dat".to_string(),
    };
    let user = prod.resource_path_with(Some(&dirs), "UserSettings", PersistMode::Dynamic);
    let save = prod.resource_path_with(Some(&dirs), "SaveData", PersistMode::Secure);
    assert_eq!(user, "/cfg/usersettings.ron");
    assert_eq!(save, "/dat/savedata.dat");
    assert!(user.ends_with(".ron"));
    assert!(save.ends_with(".dat"));

    let dynamic_fallback = prod.resource_path_with(None, "UserSettings", PersistMode::Dynamic);
    assert_eq!(dynamic_fallback, "usersettings.ron");
}

#[test]
fn test_dev_file_name_replaces_spaces() {
    let manager = PersistManager::new("Acme", "My Great Game");
    assert_eq!(manager.dev_file, "my_great_game_dev.ron");
}

#[test]
fn test_with_secret_keeps_other_fields() {
    let manager = PersistManager::new("TestOrg", "TestApp").with_secret("orchard gate");
    assert_eq!(manager.organization, "TestOrg");
    assert_eq!(manager.app_name, "TestApp");
    assert!(manager.secret.is_some());
}
