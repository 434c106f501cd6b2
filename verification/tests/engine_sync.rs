use connectivity_monitor::engine::{MonitoringEngine, SyncStep};
use connectivity_monitor::models::Device;
use connectivity_monitor::tray::TrayStatus;

fn device(id: i64, name: &str, ip: &str) -> Device {
    Device {
        id: Some(id),
        name: name.to_string(),
        ip: ip.to_string(),
        is_active: true,
        created_at: None,
    }
}

#[test]
fn default_intervals() {
    let mut e = MonitoringEngine::new();
    assert_eq!(e.check_interval_secs(true), 10);
    assert_eq!(e.check_interval_secs(false), 2);
    e.set_intervals(30, 5);
    assert_eq!(e.check_interval_secs(true), 30);
    assert_eq!(e.check_interval_secs(false), 5);
}

#[test]
fn first_sync_starts_every_monitor() {
    let mut e = MonitoringEngine::new();
    let devices = vec![device(1, "a", "10.0.0.1"), device(2, "b", "10.0.0.2")];
    let plan = e.sync_devices(&devices);
    assert!(plan.stopped.is_empty());
    assert_eq!(plan.steps, vec![SyncStep::Start, SyncStep::Start]);
    assert_eq!(plan.tray, None);
    assert!(e.is_monitored(1) && e.is_monitored(2));
    assert_eq!(e.device_status(1), Some(None));
    assert_eq!(e.tray_status(), TrayStatus::Neutral);
}

#[test]
fn second_sync_keeps_everything() {
    let mut e = MonitoringEngine::new();
    let devices = vec![device(1, "a", "10.0.0.1"), device(2, "b", "10.0.0.2")];
    e.sync_devices(&devices);
    e.record_status(1, Some(true));
    let plan = e.sync_devices(&devices);
    assert!(plan.stopped.is_empty());
    assert_eq!(plan.steps, vec![SyncStep::Keep, SyncStep::Keep]);
    assert_eq!(plan.tray, None);
    assert_eq!(e.device_status(1), Some(Some(true)));
}

#[test]
fn removed_device_is_stopped_and_forgotten() {
    let mut e = MonitoringEngine::new();
    e.sync_devices(&vec![device(1, "a", "10.0.0.1"), device(2, "b", "10.0.0.2")]);
    e.record_status(1, Some(true));
    e.record_status(2, Some(false));
    assert_eq!(e.tray_status(), TrayStatus::HasOffline);
    let plan = e.sync_devices(&vec![device(1, "a", "10.0.0.1")]);
    assert_eq!(plan.stopped, vec![2]);
    assert_eq!(plan.steps, vec![SyncStep::Keep]);
    assert_eq!(plan.tray, Some(TrayStatus::AllOnline));
    assert!(!e.is_monitored(2));
    assert_eq!(e.device_status(2), None);
}

#[test]
fn edited_device_is_restarted_with_unknown_status() {
    let mut e = MonitoringEngine::new();
    e.sync_devices(&vec![device(1, "a", "10.0.0.1"), device(2, "b", "10.0.0.2")]);
    e.record_status(1, Some(true));
    e.record_status(2, Some(true));
    assert_eq!(e.tray_status(), TrayStatus::AllOnline);
    let plan = e.sync_devices(&vec![device(1, "a", "10.0.0.1"), device(2, "b", "10.0.0.9")]);
    assert!(plan.stopped.is_empty());
    assert_eq!(plan.steps, vec![SyncStep::Keep, SyncStep::Restart]);
    assert_eq!(plan.tray, Some(TrayStatus::Neutral));
    assert_eq!(e.device_status(2), Some(None));
    let renamed = e.sync_devices(&vec![device(1, "z", "10.0.0.1"), device(2, "b", "10.0.0.9")]);
    assert_eq!(renamed.steps, vec![SyncStep::Restart, SyncStep::Keep]);
}

#[test]
fn record_status_reports_tray_changes_only() {
    let mut e = MonitoringEngine::new();
    e.sync_devices(&vec![device(1, "a", "10.0.0.1")]);
    assert_eq!(e.record_status(1, Some(true)), Some(TrayStatus::AllOnline));
    assert_eq!(e.record_status(1, Some(true)), None);
    assert_eq!(e.record_status(1, Some(false)), Some(TrayStatus::HasOffline));
    assert_eq!(e.record_status(1, Some(false)), None);
    assert_eq!(e.record_status(1, None), Some(TrayStatus::Neutral));
}

#[test]
fn empty_list_stops_all() {
    let mut e = MonitoringEngine::new();
    e.sync_devices(&vec![device(1, "a", "10.0.0.1"), device(2, "b", "10.0.0.2")]);
    e.record_status(1, Some(true));
    e.record_status(2, Some(true));
    let mut plan = e.sync_devices(&Vec::new());
    plan.stopped.sort();
    assert_eq!(plan.stopped, vec![1, 2]);
    assert!(plan.steps.is_empty());
    assert_eq!(plan.tray, Some(TrayStatus::Neutral));
}
