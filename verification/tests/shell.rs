use map_editor::graph::StreetMap;
use map_editor::modes::{CreateDistrict, DeleteDistrict};
use map_editor::plugins::{
    ComponentsPlugin, ConnectionEvent, ConnectionStatus, EditorCommand, Load, Save, SpecialKey,
    Sync,
};
use map_editor::options::{clamp_number, validate_number, validate_port, OptionKind};
use map_editor::ui::{App, ToolbarPosition};

fn keys2(a: &str, b: &str) -> Vec<String> {
    vec![a.to_string(), b.to_string()]
}

#[test]
fn integration_startup_adds_shortcut() {
    let mut app = App::<StreetMap>::default();

    let mut plugin = Load::default();
    plugin.startup(&mut app).unwrap();

    assert!(app.has_shortkey(keys2("Control", "o")))
}

#[test]
fn integration_startup_adds_toolbar_button() {
    let mut app = App::<StreetMap>::default();

    let mut plugin = Load::default();
    plugin.startup(&mut app).unwrap();

    let toolbar = app
        .get_or_add_toolbar("primary.actions", ToolbarPosition::Left)
        .unwrap();

    assert!(toolbar.has_button("load"));
}

#[test]
fn create_district_integration_startup_adds_shortcut() {
    let mut app = App::<StreetMap>::default();

    let mut plugin = CreateDistrict::default();
    plugin.startup(&mut app).unwrap();

    assert!(app.has_shortkey(keys2("Control", "d")))
}

#[test]
fn create_district_integration_startup_adds_toolbar_button() {
    let mut app = App::<StreetMap>::default();

    let mut plugin = CreateDistrict::default();
    plugin.startup(&mut app).unwrap();

    let toolbar = app
        .get_or_add_toolbar("primary.edit.modes.district", ToolbarPosition::Left)
        .unwrap();

    assert!(toolbar.has_button("create_district"));
}

#[test]
fn delete_district_integration_startup_adds_shortcut() {
    let mut app = App::<StreetMap>::default();

    let mut delete_district_plugin = DeleteDistrict::default();
    delete_district_plugin.startup(&mut app).unwrap();

    assert!(app.has_shortkey(keys2("Control", "f")))
}

#[test]
fn delete_district_integration_startup_adds_toolbar_button() {
    let mut app = App::<StreetMap>::default();

    let mut delete_district_plugin = DeleteDistrict::default();
    delete_district_plugin.startup(&mut app).unwrap();

    let toolbar = app
        .get_or_add_toolbar("primary.edit.modes.district", ToolbarPosition::Left)
        .unwrap();

    assert!(toolbar.has_button("delete_district"));
}

#[test]
fn duplicate_shortcut_is_rejected() {
    let mut app = App::<StreetMap>::default();
    assert!(app.add_shortkey(keys2("Control", "o")).is_ok());
    assert!(app.add_shortkey(keys2("Control", "o")).is_err());
    assert!(app.add_shortkey(keys2("Control", "s")).is_ok());
}

#[test]
fn save_and_debug_startup_register() {
    let mut app = App::<StreetMap>::default();
    let mut save = Save::default();
    let mut debug = map_editor::plugins::Debug::default();
    save.startup(&mut app).unwrap();
    debug.startup(&mut app).unwrap();
    assert!(app.has_shortkey(keys2("Control", "s")));
    assert!(app.has_shortkey(keys2("Control", "u")));
    let toolbar = app
        .get_or_add_toolbar("primary.actions", ToolbarPosition::Left)
        .unwrap();
    assert!(toolbar.has_button("save"));
    assert!(toolbar.has_button("debug"));
    assert!(!toolbar.has_button("load"));
}

#[test]
fn shortkeys_resolve_to_commands() {
    let load = Load::default();
    let save = Save::default();
    assert_eq!(
        load.shortkey_pressed(&keys2("Control", "o")),
        Some(EditorCommand::LoadMap)
    );
    assert_eq!(load.shortkey_pressed(&keys2("Control", "s")), None);
    assert_eq!(
        save.shortkey_pressed(&keys2("Control", "s")),
        Some(EditorCommand::SaveMap)
    );
    assert_eq!(save.shortkey_pressed(&keys2("Control", "o")), None);
}

#[test]
fn debug_shortkey_toggles() {
    let mut debug = map_editor::plugins::Debug::default();
    assert!(!debug.enabled);
    debug.shortkey_pressed(&keys2("Control", "u"));
    assert!(debug.enabled);
    debug.shortkey_pressed(&keys2("Control", "u"));
    assert!(!debug.enabled);
    debug.shortkey_pressed(&keys2("Control", "x"));
    assert!(!debug.enabled);
}

#[test]
fn snackbar_queues_messages() {
    let mut components = ComponentsPlugin::default();
    components.show_snackbar("Hello :)", None, None);
    assert_eq!(components.editor_elements().len(), 1);
    assert_eq!(components.editor_elements()[0].message, "Hello :)");
    assert_eq!(components.editor_elements()[0].action_label, "Retry");
}

#[test]
fn sync_startup_registers_ribbon_action() {
    let mut app = App::<StreetMap>::default();
    let mut components = ComponentsPlugin::default();
    let mut sync = Sync::default();
    sync.startup(&mut app, &mut components).unwrap();
    assert_eq!(app.ribbon_tabs.len(), 1);
    assert_eq!(app.ribbon_tabs[0].id, "default");
    assert_eq!(app.ribbon_tabs[0].actions.len(), 1);
    assert_eq!(app.ribbon_tabs[0].actions[0].identifier, "cast");
    assert_eq!(components.editor_elements().len(), 1);
}

#[test]
fn sync_connection_lifecycle() {
    let mut sync = Sync::default();
    assert_eq!(sync.status, ConnectionStatus::Disconnected);
    assert!(!sync.connected());
    sync.start_connect();
    assert_eq!(sync.status, ConnectionStatus::Connecting);
    sync.apply_connection_event(ConnectionEvent::Opened);
    assert!(sync.connected());
    sync.apply_connection_event(ConnectionEvent::Closed);
    assert!(!sync.connected());
    sync.apply_connection_event(ConnectionEvent::Errored);
    assert_eq!(sync.status, ConnectionStatus::Failed);
}

#[test]
fn sync_property_updates() {
    let mut sync = Sync::default();
    sync.property_updated("url", "127.0.0.1".to_string());
    sync.property_updated("port", "8765".to_string());
    sync.property_updated("nonsense", "zzz".to_string());
    assert_eq!(sync.url, "127.0.0.1");
    assert_eq!(sync.port, "8765");
}

#[test]
fn special_keys_name_their_chord_entry() {
    assert_eq!(SpecialKey::Ctrl.key_name(), "Control");
    assert_eq!(SpecialKey::Shift.key_name(), "Shift");
    assert_eq!(SpecialKey::Alt.key_name(), "Alt");
    let load = Load::default();
    let chord = vec![SpecialKey::Ctrl.key_name().to_string(), "o".to_string()];
    assert_eq!(
        load.shortkey_pressed(&chord),
        Some(EditorCommand::LoadMap)
    );
}

#[test]
fn option_schema_validates_numbers() {
    let fields = CreateDistrict::options();
    assert_eq!(fields.len(), 1);
    assert_eq!(fields[0].name, "minimum_house_side");
    assert_eq!(fields[0].kind, OptionKind::Number);
    assert!(validate_number(&fields[0], 500));
    assert!(validate_number(&fields[0], 0));
    assert!(validate_number(&fields[0], 100_000));
    assert!(!validate_number(&fields[0], -1));
    assert!(!validate_number(&fields[0], 100_001));
    assert_eq!(clamp_number(&fields[0], -5), 0);
    assert_eq!(clamp_number(&fields[0], 200_000), 100_000);
    assert_eq!(clamp_number(&fields[0], 42), 42);
    let sync_fields = Sync::options();
    assert_eq!(sync_fields.len(), 2);
    assert_eq!(sync_fields[0].name, "url");
    assert_eq!(sync_fields[1].name, "port");
    assert!(!validate_number(&sync_fields[0], 1));
}

#[test]
fn port_validation_is_exact() {
    assert!(validate_port("1"));
    assert!(validate_port("80"));
    assert!(validate_port("8765"));
    assert!(validate_port("65535"));
    assert!(!validate_port("65536"));
    assert!(!validate_port("0"));
    assert!(!validate_port("007"));
    assert!(!validate_port(""));
    assert!(!validate_port("123456"));
    assert!(!validate_port("12a"));
    assert!(!validate_port("-1"));
    assert!(!validate_port("ポート"));
}
