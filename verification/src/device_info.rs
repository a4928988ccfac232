//! Device ids, device descriptions and device events.

use vstd::prelude::*;

verus! {

/// The id of a device. A WebHID device is named by its place in the registry
/// of granted devices, which does not change while the process runs.
#[derive(Debug, Clone, Copy, PartialEq, Eq, Hash, Structural)]
pub enum DeviceId {
    WebHid(u32),
}

/// What is known of one HID interface of a device.
#[derive(Debug, Clone, PartialEq, Eq)]
pub struct DeviceInfo {
    pub id: DeviceId,
    pub name: String,
    pub manufacturer: Option<String>,
    pub product_id: u16,
    pub vendor_id: u16,
    pub usage_id: u16,
    pub usage_page: u16,
    pub serial_number: Option<String>,
    /// Largest input report in bytes, the report id byte included.
    pub max_input_report_size: Option<u16>,
    /// Largest output report in bytes, the report id byte included.
    pub max_output_report_size: Option<u16>,
    /// Largest feature report in bytes, the report id byte included.
    pub max_feature_report_size: Option<u16>,
}

/// A change in the set of connected devices.
#[derive(Debug, Clone, Copy, PartialEq, Eq, Structural)]
pub enum DeviceEvent {
    Connected(DeviceId),
    Disconnected(DeviceId),
}

} // verus!
