use connectivity_monitor::tray::{
    calculate_tray_status, tray_icon_for, tray_menu_action, TrayIcon, TrayMenuAction, TrayStatus,
};
use std::collections::HashMap;

#[test]
fn empty_is_neutral() {
    let states: HashMap<i64, Option<bool>> = HashMap::new();
    assert_eq!(calculate_tray_status(&states), TrayStatus::Neutral);
}

#[test]
fn unknown_device_keeps_neutral() {
    let mut states = HashMap::new();
    states.insert(1, Some(false));
    states.insert(2, None);
    assert_eq!(calculate_tray_status(&states), TrayStatus::Neutral);
}

#[test]
fn offline_device_turns_red() {
    let mut states = HashMap::new();
    states.insert(1, Some(true));
    states.insert(2, Some(false));
    assert_eq!(calculate_tray_status(&states), TrayStatus::HasOffline);
}

#[test]
fn all_online_turns_green() {
    let mut states = HashMap::new();
    states.insert(1, Some(true));
    states.insert(2, Some(true));
    states.insert(3, Some(true));
    assert_eq!(calculate_tray_status(&states), TrayStatus::AllOnline);
}

#[test]
fn icons() {
    assert_eq!(tray_icon_for(TrayStatus::Neutral), TrayIcon::Default);
    assert_eq!(tray_icon_for(TrayStatus::AllOnline), TrayIcon::Green);
    assert_eq!(tray_icon_for(TrayStatus::HasOffline), TrayIcon::Red);
}

#[test]
fn menu_entries() {
    assert_eq!(tray_menu_action("open"), TrayMenuAction::ShowWindow);
    assert_eq!(tray_menu_action("quit"), TrayMenuAction::Quit);
    assert_eq!(tray_menu_action("Open"), TrayMenuAction::Ignore);
    assert_eq!(tray_menu_action(""), TrayMenuAction::Ignore);
}
