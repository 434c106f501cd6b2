use vstd::prelude::*;

verus! {

/// A monitored device as stored in the device table.
#[derive(Debug)]
pub struct Device {
    pub id: Option<i64>,
    pub name: String,
    pub ip: String,
    pub is_active: bool,
    pub created_at: Option<String>,
}

/// A change of a device's status, from one label to another.
#[derive(Debug)]
pub struct Transition {
    pub id: Option<i64>,
    pub device_id: i64,
    pub from_status: String,
    pub to_status: String,
    pub timestamp: Option<String>,
}

/// An operational error recorded for later display.
#[derive(Debug)]
pub struct AppError {
    pub id: Option<i64>,
    pub source: String,
    pub message: String,
    pub timestamp: Option<String>,
}

/// The persisted application settings.
#[derive(Debug, Clone)]
pub struct AppSettings {
    pub id: Option<i64>,
    pub online_interval_sec: i64,
    pub offline_interval_sec: i64,
    pub autostart_enabled: bool,
    pub updated_at: Option<String>,
}

/// Mathematical model of a `Device`.
pub struct DeviceView {
    pub id: Option<i64>,
    pub name: Seq<char>,
    pub ip: Seq<char>,
    pub is_active: bool,
}

impl View for Device {
    type V = DeviceView;

    open spec fn view(&self) -> DeviceView {
        DeviceView { id: self.id, name: self.name@, ip: self.ip@, is_active: self.is_active }
    }
}

} // verus!
