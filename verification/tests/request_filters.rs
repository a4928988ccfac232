use async_hid::filter::{build_filters, filter_restricts, to_device_filter, DeviceFilter};
use async_hid::RequestFilter;

#[test]
fn empty_filters_are_dropped() {
    let filters = [
        RequestFilter::default(),
        RequestFilter { vendor_id: Some(0x054c), ..Default::default() },
        RequestFilter::default(),
        RequestFilter { usage_page: Some(1), usage: Some(5), ..Default::default() },
    ];
    assert_eq!(
        build_filters(&filters),
        vec![
            DeviceFilter { vendor_id: Some(0x054c), product_id: None, usage_page: None, usage: None },
            DeviceFilter { vendor_id: None, product_id: None, usage_page: Some(1), usage: Some(5) },
        ]
    );
}

#[test]
fn no_filters_give_no_restriction() {
    assert!(build_filters(&[]).is_empty());
    assert!(build_filters(&[RequestFilter::default(), RequestFilter::default()]).is_empty());
}

#[test]
fn every_field_is_carried() {
    let f = RequestFilter { vendor_id: Some(0xffff), product_id: Some(2), usage_page: Some(3), usage: Some(4) };
    assert!(filter_restricts(&f));
    assert!(!filter_restricts(&RequestFilter::default()));
    assert_eq!(
        to_device_filter(&f),
        DeviceFilter { vendor_id: Some(0xffff_u32), product_id: Some(2), usage_page: Some(3), usage: Some(4) }
    );
    assert!(filter_restricts(&RequestFilter { product_id: Some(0), ..Default::default() }));
}
