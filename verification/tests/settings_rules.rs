use wavepilot::models::settings::Settings;
use wavepilot::services::settings::{
    get_settings, parse_bool, parse_i32, parse_u32, read_settings, reset_settings, update_setting,
};
use wavepilot::sql::SqlValue;

fn row(k: &str, v: &str) -> (String, String) {
    (k.to_string(), v.to_string())
}

#[test]
fn defaults_when_nothing_is_stored() {
    let s = get_settings(vec![]);
    let d = Settings::default();
    assert_eq!(s.theme, "dark");
    assert_eq!(s.default_backup_count, 5);
    assert_eq!(s.projects_directory, None);
    assert!(s.analysis_enabled);
    assert_eq!(s.autosave_interval_seconds, 30);
    assert_eq!(d.theme, s.theme);
}

#[test]
fn stored_values_are_read_back() {
    let s = get_settings(vec![
        row("autosave_interval_seconds", "120"),
        row("theme", "light"),
        row("projects_directory", "/music"),
        row("analysis_enabled", "false"),
        row("default_backup_count", "-3"),
    ]);
    assert_eq!(s.theme, "light");
    assert_eq!(s.default_backup_count, -3);
    assert_eq!(s.projects_directory, Some("/music".to_string()));
    assert!(!s.analysis_enabled);
    assert_eq!(s.autosave_interval_seconds, 120);
}

#[test]
fn unparsable_and_unknown_values_leave_defaults() {
    let s = get_settings(vec![
        row("default_backup_count", "many"),
        row("analysis_enabled", "yes"),
        row("autosave_interval_seconds", "-1"),
        row("colour", "blue"),
    ]);
    assert_eq!(s.default_backup_count, 5);
    assert!(s.analysis_enabled);
    assert_eq!(s.autosave_interval_seconds, 30);
    assert_eq!(s.theme, "dark");
}

#[test]
fn numbers_parse_as_std_does() {
    assert_eq!(parse_u32("4294967295"), Some(u32::MAX));
    assert_eq!(parse_u32("4294967296"), None);
    assert_eq!(parse_u32("+7"), Some(7));
    assert_eq!(parse_u32(""), None);
    assert_eq!(parse_u32("+"), None);
    assert_eq!(parse_u32("1 "), None);
    assert_eq!(parse_i32("-2147483648"), Some(i32::MIN));
    assert_eq!(parse_i32("2147483647"), Some(i32::MAX));
    assert_eq!(parse_i32("2147483648"), None);
    assert_eq!(parse_i32("-"), None);
    assert_eq!(parse_i32("007"), Some(7));
    for n in [0i32, 1, -1, 42, i32::MIN, i32::MAX] {
        assert_eq!(parse_i32(&n.to_string()), n.to_string().parse::<i32>().ok());
    }
    assert_eq!(parse_bool("true"), Some(true));
    assert_eq!(parse_bool("false"), Some(false));
    assert_eq!(parse_bool("True"), None);
}

#[test]
fn settings_statements() {
    assert_eq!(read_settings().sql, "SELECT key, value FROM settings");
    let st = update_setting("theme", "light");
    assert!(st.sql.contains("ON CONFLICT(key) DO UPDATE SET value = ?2"));
    assert!(matches!(&st.params[0], SqlValue::Text(k) if k == "theme"));
    assert!(matches!(&st.params[1], SqlValue::Text(v) if v == "light"));
    assert_eq!(reset_settings().sql, "DELETE FROM settings");
}
