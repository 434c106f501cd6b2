use connectivity_monitor::domain::{validate_ipv4, validate_new_device, DeviceRuleError, MAX_DEVICES};
use connectivity_monitor::models::Device;

fn device(id: i64, name: &str, ip: &str) -> Device {
    Device {
        id: Some(id),
        name: name.to_string(),
        ip: ip.to_string(),
        is_active: true,
        created_at: None,
    }
}

#[test]
fn admits_a_new_address() {
    let devices = vec![device(1, "Servidor Web", "192.168.1.1")];
    assert_eq!(validate_new_device(&devices, "192.168.1.2"), Ok(()));
    assert_eq!(validate_new_device(&Vec::new(), "10.0.0.1"), Ok(()));
}

#[test]
fn refuses_an_invalid_address_first() {
    let full = vec![
        device(1, "a", "10.0.0.1"),
        device(2, "b", "10.0.0.2"),
        device(3, "c", "10.0.0.3"),
        device(4, "d", "10.0.0.4"),
    ];
    assert_eq!(validate_new_device(&full, "10.0.0.999"), Err(DeviceRuleError::InvalidIpv4));
    assert_eq!(validate_ipv4("abc"), Err(DeviceRuleError::InvalidIpv4));
    assert_eq!(validate_ipv4("10.0.0.1"), Ok(()));
}

#[test]
fn refuses_a_fifth_device() {
    assert_eq!(MAX_DEVICES, 4);
    let full = vec![
        device(1, "a", "10.0.0.1"),
        device(2, "b", "10.0.0.2"),
        device(3, "c", "10.0.0.3"),
        device(4, "d", "10.0.0.4"),
    ];
    assert_eq!(validate_new_device(&full, "10.0.0.5"), Err(DeviceRuleError::LimitReached));
    // the limit is checked before the duplicate
    assert_eq!(validate_new_device(&full, "10.0.0.1"), Err(DeviceRuleError::LimitReached));
}

#[test]
fn refuses_a_duplicate_address() {
    let devices = vec![device(1, "a", "10.0.0.1"), device(2, "b", "10.0.0.2")];
    assert_eq!(validate_new_device(&devices, "10.0.0.2"), Err(DeviceRuleError::DuplicateIp));
}

#[test]
fn refusal_messages() {
    assert_eq!(DeviceRuleError::InvalidIpv4.message(), "Invalid IPv4 address");
    assert_eq!(DeviceRuleError::LimitReached.message(), "MVP limit reached (max 4 devices)");
    assert_eq!(DeviceRuleError::DuplicateIp.message(), "IP address already monitored");
}

#[test]
fn registry_grown_by_admission_stays_within_limit() {
    let mut devices: Vec<Device> = Vec::new();
    let candidates = ["10.0.0.1", "10.0.0.1", "10.0.0.2", "bad", "10.0.0.3", "10.0.0.4", "10.0.0.5"];
    let mut id = 0;
    for ip in candidates.iter() {
        if validate_new_device(&devices, ip).is_ok() {
            id += 1;
            devices.push(device(id, "d", ip));
        }
    }
    assert_eq!(devices.len(), 4);
    let ips: Vec<&str> = devices.iter().map(|d| d.ip.as_str()).collect();
    assert_eq!(ips, vec!["10.0.0.1", "10.0.0.2", "10.0.0.3", "10.0.0.4"]);
}
