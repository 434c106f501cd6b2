use connectivity_monitor::models::AppSettings;
use connectivity_monitor::settings::{
    autostart_action, autostart_out_of_sync, disable_error_is_ignorable, AutostartAction,
};
use connectivity_monitor::text::{str_contains, str_equal};

#[test]
fn autostart_actions() {
    assert_eq!(autostart_action(true, false), AutostartAction::Enable);
    assert_eq!(autostart_action(false, true), AutostartAction::Disable);
    assert_eq!(autostart_action(true, true), AutostartAction::Keep);
    assert_eq!(autostart_action(false, false), AutostartAction::Keep);
}

#[test]
fn missing_autostart_entry_is_ignored() {
    assert!(disable_error_is_ignorable(
        "O sistema não pode encontrar o arquivo especificado. (os error 2)"
    ));
    assert!(!disable_error_is_ignorable("Access is denied. (os error 5)"));
    assert!(!disable_error_is_ignorable("os error"));
}

#[test]
fn stored_autostart_mirror() {
    let settings = AppSettings {
        id: Some(1),
        online_interval_sec: 10,
        offline_interval_sec: 2,
        autostart_enabled: false,
        updated_at: None,
    };
    assert!(autostart_out_of_sync(&settings, true));
    assert!(!autostart_out_of_sync(&settings, false));
}

#[test]
fn text_helpers() {
    assert!(str_contains("abcabd", "abd"));
    assert!(str_contains("abc", ""));
    assert!(!str_contains("ab", "abc"));
    assert!(str_equal("ção", "ção"));
    assert!(!str_equal("ab", "abc"));
}
