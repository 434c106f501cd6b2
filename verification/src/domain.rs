use vstd::prelude::*;
use crate::ipv4::{is_ipv4, is_valid_ipv4};
use crate::models::{Device, DeviceView};
use crate::text::str_equal;

verus! {

/// Most devices that may be registered at once.
pub const MAX_DEVICES: usize = 4;

/// Why a new device was refused.
#[derive(Debug, Clone, Copy, PartialEq, Eq, Structural)]
pub enum DeviceRuleError {
    /// The address is not a dotted-decimal IPv4 address.
    InvalidIpv4,
    /// The registry already holds `MAX_DEVICES` devices.
    LimitReached,
    /// A registered device already has this address.
    DuplicateIp,
}

impl DeviceRuleError {
    /// The text shown to the user for this refusal.
    pub open spec fn spec_message(self) -> Seq<char> {
        match self {
            DeviceRuleError::InvalidIpv4 => "Invalid IPv4 address"@,
            DeviceRuleError::LimitReached => "MVP limit reached (max 4 devices)"@,
            DeviceRuleError::DuplicateIp => "IP address already monitored"@,
        }
    }

    /// The text shown to the user for this refusal.
    pub fn message(&self) -> (text: String)
        ensures
            text@ == self.spec_message(),
    {
        match self {
            DeviceRuleError::InvalidIpv4 => String::from_str("Invalid IPv4 address"),
            DeviceRuleError::LimitReached => String::from_str("MVP limit reached (max 4 devices)"),
            DeviceRuleError::DuplicateIp => String::from_str("IP address already monitored"),
        }
    }
}

/// The models of a list of devices.
pub open spec fn device_views(devices: Seq<Device>) -> Seq<DeviceView> {
    devices.map_values(|d: Device| d@)
}

/// Some registered device has address `ip`.
pub open spec fn ip_registered(devices: Seq<DeviceView>, ip: Seq<char>) -> bool {
    exists|i: int| 0 <= i < devices.len() && #[trigger] devices[i].ip == ip
}

/// Outcome of asking to register a device with address `ip` next to the
/// registered `devices`: the address is checked first, then the size limit,
/// then uniqueness of the address.
pub open spec fn admission(devices: Seq<DeviceView>, ip: Seq<char>) -> Result<(), DeviceRuleError> {
    if !is_ipv4(ip) {
        Err(DeviceRuleError::InvalidIpv4)
    } else if devices.len() >= MAX_DEVICES {
        Err(DeviceRuleError::LimitReached)
    } else if ip_registered(devices, ip) {
        Err(DeviceRuleError::DuplicateIp)
    } else {
        Ok(())
    }
}

/// Checks the address of a device that is about to be registered.
pub fn validate_ipv4(ip: &str) -> (r: Result<(), DeviceRuleError>)
    ensures
        r is Ok <==> is_ipv4(ip@),
        r is Err ==> r == Err::<(), DeviceRuleError>(DeviceRuleError::InvalidIpv4),
{
    if is_valid_ipv4(ip) {
        Ok(())
    } else {
        Err(DeviceRuleError::InvalidIpv4)
    }
}

/// Decides whether a device with address `ip` may join the registered
/// `devices`.
pub fn validate_new_device(devices: &Vec<Device>, ip: &str) -> (r: Result<(), DeviceRuleError>)
    ensures
        r == admission(device_views(devices@), ip@),
{
    let ghost views = device_views(devices@);
    if !is_valid_ipv4(ip) {
        return Err(DeviceRuleError::InvalidIpv4);
    }
    if devices.len() >= MAX_DEVICES {
        return Err(DeviceRuleError::LimitReached);
    }
    let mut i: usize = 0;
    while i < devices.len()
        invariant
            i <= devices.len(),
            views == device_views(devices@),
            views.len() == devices.len(),
            devices.len() < MAX_DEVICES,
            is_ipv4(ip@),
            forall|j: int| 0 <= j < i ==> views[j].ip != ip@,
        decreases devices.len() - i,
    {
        if str_equal(devices[i].ip.as_str(), ip) {
            assert(views[i as int].ip == ip@);
            assert(ip_registered(views, ip@));
            return Err(DeviceRuleError::DuplicateIp);
        }
        i = i + 1;
    }
    Ok(())
}

/// A device is refused as a duplicate only when a registered device has
/// exactly the same address: a valid address that differs from every
/// registered address is admitted while fewer than `MAX_DEVICES` devices are
/// registered, whatever the addresses share (for example "10.0.0.10" next to
/// "10.0.0.1"); and a duplicate refusal always points at an equal address.
pub proof fn lemma_duplicate_means_equal_address(devices: Seq<DeviceView>, ip: Seq<char>)
    ensures
        is_ipv4(ip) && devices.len() < MAX_DEVICES && (forall|i: int|
            0 <= i < devices.len() ==> devices[i].ip != ip) ==> admission(devices, ip) == Ok::<
            (),
            DeviceRuleError,
        >(()),
        admission(devices, ip) == Err::<(), DeviceRuleError>(DeviceRuleError::DuplicateIp) ==> exists|
            i: int,
        |
            0 <= i < devices.len() && devices[i].ip == ip,
        (exists|i: int| 0 <= i < devices.len() && devices[i].ip == ip) && is_ipv4(ip)
            && devices.len() < MAX_DEVICES ==> admission(devices, ip) == Err::<(), DeviceRuleError>(
            DeviceRuleError::DuplicateIp,
        ),
{
}

/// What the device registry keeps when it only grows through
/// `validate_new_device`: at most `MAX_DEVICES` devices, each with a valid
/// address of its own.
pub open spec fn registry_ok(devices: Seq<DeviceView>) -> bool {
    &&& devices.len() <= MAX_DEVICES
    &&& forall|i: int| 0 <= i < devices.len() ==> is_ipv4(#[trigger] devices[i].ip)
    &&& forall|i: int, j: int|
        0 <= i < j < devices.len() ==> #[trigger] devices[i].ip != #[trigger] devices[j].ip
}

/// Admitting a device keeps the registry within the device limit, with valid
/// and pairwise distinct addresses.
pub proof fn lemma_admission_keeps_registry_ok(devices: Seq<DeviceView>, added: DeviceView)
    requires
        registry_ok(devices),
        admission(devices, added.ip) is Ok,
    ensures
        registry_ok(devices.push(added)),
{
    let grown = devices.push(added);
    assert forall|i: int, j: int| 0 <= i < j < grown.len() implies #[trigger] grown[i].ip
        != #[trigger] grown[j].ip by {
        if j == devices.len() {
            assert(grown[i] == devices[i]);
            assert(!ip_registered(devices, added.ip));
        } else {
            assert(grown[i] == devices[i] && grown[j] == devices[j]);
        }
    }
    assert forall|i: int| 0 <= i < grown.len() implies is_ipv4(#[trigger] grown[i].ip) by {
        if i < devices.len() {
            assert(grown[i] == devices[i]);
        }
    }
}

} // verus!
