use async_hid::descriptor::{device_fits_check, device_infos_from_hid_device, CollectionData, HidDeviceData};
use async_hid::report::{ReportInfo, ReportItem};
use async_hid::{DeviceId, DeviceInfo};

fn reports(bits: &[u32]) -> Option<Vec<ReportInfo>> {
    Some(bits.iter().map(|&b| ReportInfo { items: Some(vec![ReportItem { report_size: 1, report_count: b }]) }).collect())
}

fn device(collections: Vec<CollectionData>) -> HidDeviceData {
    HidDeviceData { product_name: "Keyboard".to_string(), vendor_id: 0x046d, product_id: 0xc31c, collections }
}

#[test]
fn device_without_collections_is_described_once() {
    let infos = device_infos_from_hid_device(&device(vec![]), 3);
    assert_eq!(
        infos,
        vec![DeviceInfo {
            id: DeviceId::WebHid(3),
            name: "Keyboard".to_string(),
            manufacturer: None,
            product_id: 0xc31c,
            vendor_id: 0x046d,
            usage_id: 0,
            usage_page: 0,
            serial_number: None,
            max_input_report_size: None,
            max_output_report_size: None,
            max_feature_report_size: None,
        }]
    );
}

#[test]
fn each_collection_is_described_on_its_own() {
    let collections = vec![
        CollectionData {
            usage_page: Some(1),
            usage: Some(6),
            input_reports: reports(&[64]),
            output_reports: reports(&[5, 8]),
            feature_reports: None,
        },
        CollectionData { usage_page: Some(0xff00), usage: None, input_reports: reports(&[]), output_reports: None, feature_reports: reports(&[9]) },
    ];
    let infos = device_infos_from_hid_device(&device(collections), 0);
    assert_eq!(infos.len(), 2);
    for info in &infos {
        assert_eq!(info.id, DeviceId::WebHid(0));
        assert_eq!(info.name, "Keyboard");
        assert_eq!(info.vendor_id, 0x046d);
        assert_eq!(info.product_id, 0xc31c);
    }
    assert_eq!((infos[0].usage_page, infos[0].usage_id), (1, 6));
    assert_eq!(infos[0].max_input_report_size, Some(9));
    assert_eq!(infos[0].max_output_report_size, Some(2));
    assert_eq!(infos[0].max_feature_report_size, None);
    assert_eq!((infos[1].usage_page, infos[1].usage_id), (0xff00, 0));
    assert_eq!(infos[1].max_input_report_size, None);
    assert_eq!(infos[1].max_output_report_size, None);
    assert_eq!(infos[1].max_feature_report_size, Some(3));
}

#[test]
fn fit_check_looks_at_every_report_list() {
    let fits = CollectionData { usage_page: None, usage: None, input_reports: reports(&[8]), output_reports: None, feature_reports: None };
    assert!(device_fits_check(&device(vec![fits.clone()])));
    let too_big = CollectionData { feature_reports: reports(&[u32::MAX]), ..fits.clone() };
    assert!(!device_fits_check(&device(vec![fits, too_big])));
    assert!(device_fits_check(&device(vec![])));
}
