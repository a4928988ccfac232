//! Device descriptions built from what a WebHID device reports of itself.

use vstd::prelude::*;

use crate::device_info::{DeviceId, DeviceInfo};
use crate::report::{max_report_byte_length, max_report_length, reports_fit, reports_fit_check, ReportInfo};

verus! {

/// One top-level collection of a device: one HID interface.
/// A report list is `None` where the device reports none that can be read.
#[derive(Debug, Clone, PartialEq, Eq)]
pub struct CollectionData {
    pub usage_page: Option<u16>,
    pub usage: Option<u16>,
    pub input_reports: Option<Vec<ReportInfo>>,
    pub output_reports: Option<Vec<ReportInfo>>,
    pub feature_reports: Option<Vec<ReportInfo>>,
}

/// What a granted WebHID device reports of itself.
#[derive(Debug, Clone, PartialEq, Eq)]
pub struct HidDeviceData {
    pub product_name: String,
    pub vendor_id: u16,
    pub product_id: u16,
    pub collections: Vec<CollectionData>,
}

/// The largest report of an optional list, as a device description carries it.
pub open spec fn optional_report_length(reports: Option<Vec<ReportInfo>>) -> Option<u16> {
    match reports {
        Some(r) => max_report_length(r@),
        None => None,
    }
}

pub open spec fn optional_reports_fit(reports: Option<Vec<ReportInfo>>) -> bool {
    match reports {
        Some(r) => reports_fit(r@),
        None => true,
    }
}

pub open spec fn collection_fits(c: CollectionData) -> bool {
    &&& optional_reports_fit(c.input_reports)
    &&& optional_reports_fit(c.output_reports)
    &&& optional_reports_fit(c.feature_reports)
}

/// Every report size of the device is computed without overflow.
pub open spec fn device_fits(device: HidDeviceData) -> bool {
    forall|i: int| 0 <= i < device.collections@.len() ==> #[trigger] collection_fits(device.collections@[i])
}

/// The description of a device as a whole: no usage and no report sizes.
pub open spec fn base_info(device: HidDeviceData, index: u32) -> DeviceInfo {
    DeviceInfo {
        id: DeviceId::WebHid(index),
        name: device.product_name,
        manufacturer: None,
        product_id: device.product_id,
        vendor_id: device.vendor_id,
        usage_id: 0,
        usage_page: 0,
        serial_number: None,
        max_input_report_size: None,
        max_output_report_size: None,
        max_feature_report_size: None,
    }
}

/// The description of one collection of a device: the device's own fields, the
/// collection's usage (zero where it has none) and its report sizes.
pub open spec fn collection_info(device: HidDeviceData, index: u32, c: CollectionData) -> DeviceInfo {
    DeviceInfo {
        usage_page: match c.usage_page { Some(u) => u, None => 0 },
        usage_id: match c.usage { Some(u) => u, None => 0 },
        max_input_report_size: optional_report_length(c.input_reports),
        max_output_report_size: optional_report_length(c.output_reports),
        max_feature_report_size: optional_report_length(c.feature_reports),
        ..base_info(device, index)
    }
}

/// The descriptions that a device yields: one per collection, or the device as a
/// whole where it has no collection.
pub open spec fn device_infos(device: HidDeviceData, index: u32) -> Seq<DeviceInfo> {
    if device.collections@.len() == 0 {
        seq![base_info(device, index)]
    } else {
        device.collections@.map_values(|c: CollectionData| collection_info(device, index, c))
    }
}

/// A device with collections is described once per collection, in order, and
/// description `k` carries collection `k`'s usage page and usage (zero where
/// absent) and the lengths of its input, output and feature report lists; only a
/// device without collections is described once, as a whole, with no usage and
/// no report lengths. Every description carries the device's id, name, vendor
/// id and product id.
pub proof fn lemma_one_description_per_collection(device: HidDeviceData, index: u32)
    ensures
        device.collections@.len() > 0 ==> device_infos(device, index).len() == device.collections@.len(),
        device.collections@.len() == 0 ==> device_infos(device, index).len() == 1,
        forall|k: int| 0 <= k < device.collections@.len() ==> {
            let info = #[trigger] device_infos(device, index)[k];
            let c = device.collections@[k];
            &&& info.usage_page == (if c.usage_page is Some { c.usage_page->0 } else { 0 })
            &&& info.usage_id == (if c.usage is Some { c.usage->0 } else { 0 })
            &&& info.max_input_report_size == (if c.input_reports is Some { max_report_length(c.input_reports->0@) } else { None })
            &&& info.max_output_report_size == (if c.output_reports is Some { max_report_length(c.output_reports->0@) } else { None })
            &&& info.max_feature_report_size == (if c.feature_reports is Some { max_report_length(c.feature_reports->0@) } else { None })
        },
        device.collections@.len() == 0 ==> {
            let info = device_infos(device, index)[0];
            &&& info.usage_page == 0 && info.usage_id == 0
            &&& info.max_input_report_size is None
            &&& info.max_output_report_size is None
            &&& info.max_feature_report_size is None
        },
        forall|k: int| 0 <= k < device_infos(device, index).len() ==> {
            let info = #[trigger] device_infos(device, index)[k];
            &&& info.id == DeviceId::WebHid(index)
            &&& info.name == device.product_name
            &&& info.vendor_id == device.vendor_id
            &&& info.product_id == device.product_id
            &&& info.manufacturer is None
            &&& info.serial_number is None
        },
{
}

fn optional_reports_fit_check(reports: &Option<Vec<ReportInfo>>) -> (fits: bool)
    ensures
        fits == optional_reports_fit(*reports),
{
    match reports {
        Some(r) => reports_fit_check(r.as_slice()),
        None => true,
    }
}

/// Whether every report size of the device can be computed, so that it can be
/// described.
pub fn device_fits_check(device: &HidDeviceData) -> (fits: bool)
    ensures
        fits == device_fits(*device),
{
    let mut i: usize = 0;
    while i < device.collections.len()
        invariant
            i <= device.collections@.len(),
            forall|k: int| 0 <= k < i ==> #[trigger] collection_fits(device.collections@[k]),
        decreases device.collections@.len() - i,
    {
        let c = &device.collections[i];
        if !optional_reports_fit_check(&c.input_reports) || !optional_reports_fit_check(&c.output_reports)
            || !optional_reports_fit_check(&c.feature_reports) {
            assert(!collection_fits(device.collections@[i as int]));
            return false;
        }
        i = i + 1;
    }
    true
}

fn optional_max_report_byte_length(reports: &Option<Vec<ReportInfo>>) -> (length: Option<u16>)
    requires
        optional_reports_fit(*reports),
    ensures
        length == optional_report_length(*reports),
{
    match reports {
        Some(r) => max_report_byte_length(r.as_slice()),
        None => None,
    }
}

fn base_device_info(device: &HidDeviceData, index: u32) -> (info: DeviceInfo)
    ensures
        info == base_info(*device, index),
{
    DeviceInfo {
        id: DeviceId::WebHid(index),
        name: device.product_name.clone(),
        manufacturer: None,
        product_id: device.product_id,
        vendor_id: device.vendor_id,
        usage_id: 0,
        usage_page: 0,
        serial_number: None,
        max_input_report_size: None,
        max_output_report_size: None,
        max_feature_report_size: None,
    }
}

/// Describes a device, registered under `index`: one description per collection,
/// so that each HID interface appears as a device of its own, as on native
/// platforms; a device without collections yields one description of itself.
pub fn device_infos_from_hid_device(device: &HidDeviceData, index: u32) -> (infos: Vec<DeviceInfo>)
    requires
        device_fits(*device),
    ensures
        infos@ == device_infos(*device, index),
        infos@.len() >= 1,
        forall|i: int| 0 <= i < infos@.len() ==> {
            &&& (#[trigger] infos@[i]).id == DeviceId::WebHid(index)
            &&& infos@[i].name == device.product_name
            &&& infos@[i].vendor_id == device.vendor_id
            &&& infos@[i].product_id == device.product_id
        },
        device.collections@.len() > 0 ==> infos@.len() == device.collections@.len(),
        device.collections@.len() == 0 ==> infos@.len() == 1,
        forall|k: int| 0 <= k < device.collections@.len() ==> {
            let info = #[trigger] infos@[k];
            let c = device.collections@[k];
            &&& info.usage_page == (if c.usage_page is Some { c.usage_page->0 } else { 0 })
            &&& info.usage_id == (if c.usage is Some { c.usage->0 } else { 0 })
            &&& info.max_input_report_size == (if c.input_reports is Some { max_report_length(c.input_reports->0@) } else { None })
            &&& info.max_output_report_size == (if c.output_reports is Some { max_report_length(c.output_reports->0@) } else { None })
            &&& info.max_feature_report_size == (if c.feature_reports is Some { max_report_length(c.feature_reports->0@) } else { None })
        },
{
    proof {
        lemma_one_description_per_collection(*device, index);
    }
    let n = device.collections.len();
    if n == 0 {
        let base = base_device_info(device, index);
        let mut infos: Vec<DeviceInfo> = Vec::new();
        infos.push(base);
        assert(infos@ =~= device_infos(*device, index));
        return infos;
    }
    let mut infos: Vec<DeviceInfo> = Vec::new();
    let mut i: usize = 0;
    while i < n
        invariant
            n == device.collections@.len(),
            i <= n,
            device_fits(*device),
            infos@.len() == i,
            forall|k: int| 0 <= k < i ==> #[trigger] infos@[k] == collection_info(*device, index, device.collections@[k]),
        decreases n - i,
    {
        let c = &device.collections[i];
        assert(collection_fits(device.collections@[i as int]));
        let base = base_device_info(device, index);
        let info = DeviceInfo {
            usage_page: match c.usage_page { Some(u) => u, None => 0 },
            usage_id: match c.usage { Some(u) => u, None => 0 },
            max_input_report_size: optional_max_report_byte_length(&c.input_reports),
            max_output_report_size: optional_max_report_byte_length(&c.output_reports),
            max_feature_report_size: optional_max_report_byte_length(&c.feature_reports),
            ..base
        };
        infos.push(info);
        i = i + 1;
    }
    assert(infos@ =~= device_infos(*device, index));
    infos
}

} // verus!
