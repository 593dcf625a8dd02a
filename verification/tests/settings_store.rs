use proton_launcher::settings::{
    initialize_settings, parse_settings, Setting, SettingManager,
};

fn b(s: &str) -> Vec<u8> {
    s.as_bytes().to_vec()
}

#[test]
fn empty_store_saves_as_empty_object() {
    let m = SettingManager::new();
    assert_eq!(m.save(), b"{}".to_vec());
}

#[test]
fn save_produces_exact_json() {
    let mut m = SettingManager::new();
    m.set_setting(b("memory"), Setting::Integer(1024));
    m.set_setting(b("developer_mode"), Setting::Boolean(false));
    assert_eq!(
        String::from_utf8(m.save()).unwrap(),
        "{\n  \"memory\":1024,\n  \"developer_mode\":false\n}"
    );
}

#[test]
fn round_trip_preserves_all_variants() {
    let mut m = SettingManager::new();
    m.set_setting(b("memory"), Setting::Integer(2048));
    m.set_setting(b("developer_mode"), Setting::Boolean(true));
    m.set_setting(b("java_executable"), Setting::Text(b("/usr/bin/java")));
    m.set_setting(
        b("mods"),
        Setting::StringArray(vec![b("alpha"), b("beta"), b("ga\"mma\\delta")]),
    );
    m.set_setting(b("nothing"), Setting::Null);
    let saved = m.save();
    let back = parse_settings(&saved).unwrap();
    assert_eq!(back.get_setting(&b("memory")), Some(&Setting::Integer(2048)));
    assert_eq!(
        back.get_setting(&b("developer_mode")),
        Some(&Setting::Boolean(true))
    );
    assert_eq!(
        back.get_setting(&b("java_executable")),
        Some(&Setting::Text(b("/usr/bin/java")))
    );
    assert_eq!(
        back.get_setting(&b("mods")),
        Some(&Setting::StringArray(vec![
            b("alpha"),
            b("beta"),
            b("ga\"mma\\delta")
        ]))
    );
    assert_eq!(back.get_setting(&b("nothing")), Some(&Setting::Null));
    // and the re-saved text is identical
    assert_eq!(back.save(), saved);
}

#[test]
fn round_trip_keeps_control_bytes_in_strings() {
    let mut m = SettingManager::new();
    m.set_setting(b("note"), Setting::Text(b("line1\nline2\ttabbed\r")));
    let saved = m.save();
    let back = parse_settings(&saved).unwrap();
    assert_eq!(
        back.get_setting(&b("note")),
        Some(&Setting::Text(b("line1\nline2\ttabbed\r")))
    );
}

#[test]
fn defaults_fill_missing_keys() {
    let m = initialize_settings(None).unwrap();
    assert_eq!(m.get_setting(&b("memory")), Some(&Setting::Integer(1024)));
    assert_eq!(
        m.get_setting(&b("java_executable")),
        Some(&Setting::Text(b("java")))
    );
    assert_eq!(
        m.get_setting(&b("developer_mode")),
        Some(&Setting::Boolean(false))
    );
}

#[test]
fn defaults_do_not_override_stored_values() {
    let text = b("{\"memory\":512,\"custom\":\"kept\"}");
    let m = initialize_settings(Some(&text)).unwrap();
    assert_eq!(m.get_setting(&b("memory")), Some(&Setting::Integer(512)));
    assert_eq!(m.get_setting(&b("custom")), Some(&Setting::Text(b("kept"))));
    assert_eq!(
        m.get_setting(&b("java_executable")),
        Some(&Setting::Text(b("java")))
    );
}

#[test]
fn unknown_shapes_degrade_to_null() {
    let text = b("{\"odd\":1.5,\"deep\":{\"x\":1},\"mixed\":[\"a\",3]}");
    let m = parse_settings(&text).unwrap();
    assert_eq!(m.get_setting(&b("odd")), Some(&Setting::Null));
    assert_eq!(m.get_setting(&b("deep")), Some(&Setting::Null));
    assert_eq!(m.get_setting(&b("mixed")), Some(&Setting::Null));
}

#[test]
fn load_rejects_bad_json() {
    assert!(parse_settings(&b("{\"unterminated\":")).is_err());
    assert!(parse_settings(&b("[1,2,3]")).is_err());
}

#[test]
fn set_setting_replaces_in_place() {
    let mut m = SettingManager::new();
    m.set_setting(b("a"), Setting::Integer(1));
    m.set_setting(b("b"), Setting::Integer(2));
    m.set_setting(b("a"), Setting::Integer(9));
    assert_eq!(m.get_setting(&b("a")), Some(&Setting::Integer(9)));
    assert_eq!(
        String::from_utf8(m.save()).unwrap(),
        "{\n  \"a\":9,\n  \"b\":2\n}"
    );
}

#[test]
fn get_setting_mut_allows_update() {
    let mut m = SettingManager::new();
    m.set_setting(b("memory"), Setting::Integer(1024));
    if let Some(v) = m.get_setting_mut(&b("memory")) {
        *v = Setting::Integer(4096);
    }
    assert_eq!(m.get_setting(&b("memory")), Some(&Setting::Integer(4096)));
    assert!(m.get_setting_mut(&b("absent")).is_none());
}

#[test]
fn wide_integers_truncate_to_32_bits() {
    let text = b("{\"big\":4294967297}");
    let m = parse_settings(&text).unwrap();
    assert_eq!(m.get_setting(&b("big")), Some(&Setting::Integer(1)));
}
