//! Verified core of an asynchronous HID library: report size computation,
//! device descriptions, request filters, the device registry that keeps
//! device ids stable, and the framing of input, output and feature reports.

pub mod backend;
pub mod buffer;
pub mod descriptor;
pub mod device_info;
pub mod error;
pub mod filter;
pub mod report;
pub mod store;
pub mod webhid;

pub use backend::BackendType;
pub use device_info::{DeviceEvent, DeviceId, DeviceInfo};
pub use error::{HidError, HidResult};
pub use filter::RequestFilter;
