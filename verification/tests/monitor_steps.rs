use connectivity_monitor::models::Device;
use connectivity_monitor::monitor::{
    change_notification, initial_notification, notification_failure, status_label_pt_br,
    transition_label, DeviceMonitor,
};

fn device() -> Device {
    Device {
        id: Some(7),
        name: "Servidor Web".to_string(),
        ip: "192.168.1.1".to_string(),
        is_active: true,
        created_at: None,
    }
}

#[test]
fn status_labels() {
    assert_eq!(status_label_pt_br(true), "online");
    assert_eq!(status_label_pt_br(false), "offline");
    assert_eq!(transition_label(true), "Online");
    assert_eq!(transition_label(false), "Offline");
}

#[test]
fn notification_texts() {
    let n = initial_notification("Servidor Web", "192.168.1.1", false);
    assert_eq!(n.title, "Status inicial detectado: Servidor Web");
    assert_eq!(n.body, "O dispositivo Servidor Web (IP: 192.168.1.1) está offline.");
    let n = change_notification("Servidor Web", "192.168.1.1", true, false);
    assert_eq!(n.title, "Mudança de status: Servidor Web");
    assert_eq!(n.body, "O dispositivo Servidor Web (IP: 192.168.1.1) mudou de online para offline.");
}

#[test]
fn notification_failure_record() {
    let e = notification_failure("Servidor Web", "192.168.1.1", "permission denied");
    assert_eq!(e.id, None);
    assert_eq!(e.timestamp, None);
    assert_eq!(e.source, "NOTIFICATION");
    assert_eq!(
        e.message,
        "Não foi possível exibir a notificação do dispositivo Servidor Web (192.168.1.1): permission denied"
    );
}

#[test]
fn first_check_is_announced_without_transition() {
    let mut m = DeviceMonitor::new(&device());
    assert_eq!(m.device_id(), 7);
    let step = m.observe(true);
    let n = step.notification.expect("first check is announced");
    assert_eq!(n.title, "Status inicial detectado: Servidor Web");
    assert_eq!(n.body, "O dispositivo Servidor Web (IP: 192.168.1.1) está online.");
    assert!(step.transition.is_none());
}

#[test]
fn stable_status_is_not_announced_again() {
    let mut m = DeviceMonitor::new(&device());
    m.observe(false);
    for _ in 0..5 {
        let step = m.observe(false);
        assert!(step.notification.is_none());
        assert!(step.transition.is_none());
    }
}

#[test]
fn change_is_recorded_and_announced_once() {
    let mut m = DeviceMonitor::new(&device());
    m.observe(true);
    let step = m.observe(false);
    let t = step.transition.expect("a change is recorded");
    assert_eq!(t.device_id, 7);
    assert_eq!(t.from_status, "Online");
    assert_eq!(t.to_status, "Offline");
    assert!(t.id.is_none() && t.timestamp.is_none());
    let n = step.notification.expect("a change is announced");
    assert_eq!(n.title, "Mudança de status: Servidor Web");
    assert_eq!(n.body, "O dispositivo Servidor Web (IP: 192.168.1.1) mudou de online para offline.");
    let again = m.observe(false);
    assert!(again.transition.is_none() && again.notification.is_none());
}

#[test]
fn oscillation_gives_one_notification_per_transition() {
    let checks = [true, true, false, false, true, false, false, false, true, true];
    let mut m = DeviceMonitor::new(&device());
    let mut transitions = 0;
    let mut notifications = 0;
    for c in checks.iter() {
        let step = m.observe(*c);
        if step.transition.is_some() {
            transitions += 1;
        }
        if step.notification.is_some() {
            notifications += 1;
        }
    }
    assert_eq!(transitions, 4);
    assert_eq!(notifications, transitions + 1);
}
