use persist::{
    build_manager, Datum, PersistData, PersistMode, PersistPlugin, PersistRegistration,
    PersistRegistry, Persistable,
};

struct TestSettings {
    volume: u64,
    name: String,
    enabled: bool,
}

impl Default for TestSettings {
    fn default() -> Self {
        TestSettings { volume: 0, name: String::new(), enabled: false }
    }
}

impl Persistable for TestSettings {
    fn persist_name() -> &'static str {
        "TestSettings"
    }

    fn to_persist_data(&self) -> PersistData {
        let mut data = PersistData::new();
        data.insert("volume", Datum::UInt(self.volume));
        data.insert("name", Datum::Text(self.name.clone()));
        data.insert("enabled", Datum::Bool(self.enabled));
        data
    }

    fn load_from_persist_data(&mut self, data: &PersistData) {
        if let Some(v) = data.get_u64("volume") {
            self.volume = v;
        }
        if let Some(n) = data.get_string("name") {
            self.name = n;
        }
        if let Some(e) = data.get_bool("enabled") {
            self.enabled = e;
        }
    }
}

struct ManualSaveSettings {
    value: i64,
    text: String,
}

impl Default for ManualSaveSettings {
    fn default() -> Self {
        ManualSaveSettings { value: 0, text: String::new() }
    }
}

impl Persistable for ManualSaveSettings {
    fn persist_name() -> &'static str {
        "ManualSaveSettings"
    }

    fn to_persist_data(&self) -> PersistData {
        let mut data = PersistData::new();
        data.insert("value", Datum::Int(self.value));
        data.insert("text", Datum::Text(self.text.clone()));
        data
    }

    fn load_from_persist_data(&mut self, data: &PersistData) {
        if let Some(v) = data.get_i64("value") {
            self.value = v;
        }
        if let Some(t) = data.get_string("text") {
            self.text = t;
        }
    }
}

struct DynamicSettings;

impl Persistable for DynamicSettings {
    fn persist_name() -> &'static str {
        "DynamicSettings"
    }

    fn persist_mode() -> PersistMode {
        PersistMode::Dynamic
    }

    fn to_persist_data(&self) -> PersistData {
        PersistData::new()
    }

    fn load_from_persist_data(&mut self, _data: &PersistData) {}
}

struct SecureSettings;

impl Persistable for SecureSettings {
    fn persist_name() -> &'static str {
        "SecureSettings"
    }

    fn persist_mode() -> PersistMode {
        PersistMode::Secure
    }

    fn to_persist_data(&self) -> PersistData {
        PersistData::new()
    }

    fn load_from_persist_data(&mut self, _data: &PersistData) {}
}

#[test]
fn test_derive_macro_basic() {
    // the adapter contract, here written by hand, as generated code would be
    let settings = TestSettings { volume: 50, name: "test".to_string(), enabled: true };

    assert_eq!(TestSettings::persist_name(), "TestSettings");

    let data = settings.to_persist_data();
    assert_eq!(data.get_u64("volume"), Some(50));
    assert_eq!(data.get_string("name"), Some("test".to_string()));
    assert_eq!(data.get_bool("enabled"), Some(true));

    let mut new_settings = TestSettings::default();
    new_settings.load_from_persist_data(&data);
    assert_eq!(new_settings.volume, settings.volume);
    assert_eq!(new_settings.name, settings.name);
    assert_eq!(new_settings.enabled, settings.enabled);
}

#[test]
fn test_derive_macro_with_attributes() {
    assert_eq!(ManualSaveSettings::persist_name(), "ManualSaveSettings");

    let settings = ManualSaveSettings { value: 42, text: "manual".to_string() };

    let data = settings.to_persist_data();
    assert_eq!(data.get_i64("value"), Some(42));
    assert_eq!(data.get_string("text"), Some("manual".to_string()));
}

#[test]
fn test_persist_mode_trait_implementation() {
    assert_eq!(TestSettings::persist_mode(), PersistMode::Dev);
    assert_eq!(DynamicSettings::persist_mode(), PersistMode::Dynamic);
    assert_eq!(SecureSettings::persist_mode(), PersistMode::Secure);
}

#[test]
fn test_plugin_integration() {
    let mut registry = PersistRegistry::new();
    registry.submit(PersistRegistration::new("TestSettings", "dev", true));
    registry.submit(PersistRegistration::new("ManualSaveSettings", "dev", false));

    let plugin = PersistPlugin::new("TestOrg", "TestApp");
    let manager = build_manager(&plugin, &registry, None);

    assert_eq!(manager.organization, "TestOrg");
    assert_eq!(manager.app_name, "TestApp");
    assert!(manager.is_auto_save_enabled("TestSettings"));
    assert!(!manager.is_auto_save_enabled("ManualSaveSettings"));
}

#[test]
fn test_build_manager_records_modes() {
    let mut registry = PersistRegistry::new();
    registry.submit(PersistRegistration::new("A", "embed", true));
    registry.submit(PersistRegistration::new("B", "dynamic", true));
    registry.submit(PersistRegistration::new("C", "secure", false));
    registry.submit(PersistRegistration::new("D", "anything else", true));

    let plugin = PersistPlugin::new("Org", "App").with_auto_save(true);
    let manager = build_manager(&plugin, &registry, None);

    assert_eq!(manager.get_type_mode("A"), PersistMode::Embed);
    assert_eq!(manager.get_type_mode("B"), PersistMode::Dynamic);
    assert_eq!(manager.get_type_mode("C"), PersistMode::Secure);
    assert_eq!(manager.get_type_mode("D"), PersistMode::Dev);
    assert!(!manager.is_auto_save_enabled("C"));
}

#[test]
fn test_build_manager_loads_dev_content() {
    let mut registry = PersistRegistry::new();
    registry.submit(PersistRegistration::new("TestSettings", "dev", true));

    // a first manager writes; a rebuilt engine reads the same text back
    let plugin = PersistPlugin::new("TestOrg", "TestApp");
    let mut first = build_manager(&plugin, &registry, None);
    let mut data = PersistData::new();
    data.insert("volume", Datum::UInt(9));
    first
        .get_persist_file_mut()
        .set_type_data("TestSettings".to_string(), data);
    let plan = first.save().unwrap();

    let second = build_manager(&plugin, &registry, Some(&plan.content));
    let loaded = second.get_persist_file().get_type_data("TestSettings").unwrap();
    assert_eq!(loaded.get_u64("volume"), Some(9));
}

#[test]
fn test_persist_plugin_default() {
    let plugin = PersistPlugin::default();
    assert_eq!(plugin.organization, "DefaultOrg");
    assert_eq!(plugin.app_name, "DefaultApp");
    assert!(plugin.auto_save);
}

#[test]
fn test_persist_plugin_custom() {
    let plugin = PersistPlugin::new("MyOrg", "MyApp").with_auto_save(false);
    assert_eq!(plugin.organization, "MyOrg");
    assert_eq!(plugin.app_name, "MyApp");
    assert!(!plugin.auto_save);
}

#[test]
fn test_persist_manager_new_api() {
    let manager = persist::PersistManager::new("TestOrganization", "TestApplication");
    assert_eq!(manager.organization, "TestOrganization");
    assert_eq!(manager.app_name, "TestApplication");
    assert!(manager.auto_save);
    assert_eq!(manager.dev_file, "testapplication_dev.ron");
}

#[test]
fn test_persist_plugin_new_api() {
    let plugin = PersistPlugin::new("MyCompany", "MyGame");
    assert_eq!(plugin.organization, "MyCompany");
    assert_eq!(plugin.app_name, "MyGame");
    assert!(plugin.auto_save);

    let plugin_no_save = plugin.with_auto_save(false);
    assert!(!plugin_no_save.auto_save);
}
