use soulbook::settings::{
    settings_reply, settings_update_sql, settings_with_section, SettingsData, SettingsWrite,
};

fn defaults() -> Vec<(String, i32)> {
    vec![
        ("general".to_string(), 1),
        ("ai".to_string(), 2),
        ("appearance".to_string(), 3),
    ]
}

#[test]
fn settings_statement_names_the_section() {
    assert_eq!(
        settings_update_sql("ai"),
        "UPDATE settings:global SET ai = $data, updated_at = $now RETURN AFTER"
    );
}

#[test]
fn a_set_section_reads_back_and_others_stay() {
    let s = settings_with_section(defaults(), "ai", 20);
    assert_eq!(
        s,
        vec![
            ("general".to_string(), 1),
            ("ai".to_string(), 20),
            ("appearance".to_string(), 3)
        ]
    );
    let s = settings_with_section(defaults(), "extra", 9);
    assert_eq!(s.len(), 4);
    assert_eq!(s[3], ("extra".to_string(), 9));
}

#[test]
fn replies_after_an_update() {
    let r = settings_reply(defaults(), "ai", 5, SettingsWrite::Failed);
    assert_eq!(r.warning.as_deref(), Some("settings update was not persisted"));
    assert!(matches!(r.data, SettingsData::Fallback(ref f) if f[1] == ("ai".to_string(), 5)));
    let r = settings_reply(defaults(), "ai", 5, SettingsWrite::Unreadable);
    assert_eq!(r.warning.as_deref(), Some("settings update result was not readable"));
    let r = settings_reply(defaults(), "ai", 5, SettingsWrite::Stored(vec![7, 8]));
    assert!(r.warning.is_none());
    assert!(matches!(r.data, SettingsData::Stored(7)));
    let r = settings_reply(defaults(), "general", 5, SettingsWrite::Stored(vec![]));
    assert!(r.warning.is_none());
    assert!(matches!(r.data, SettingsData::Fallback(ref f) if f[0] == ("general".to_string(), 5)));
}
