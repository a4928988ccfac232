use async_hid::descriptor::{CollectionData, HidDeviceData};
use async_hid::store::DeviceStore;
use async_hid::webhid::describe_granted_devices;
use async_hid::{DeviceEvent, DeviceId, HidError};

fn same(a: &u64, b: &u64) -> bool {
    a == b
}

#[test]
fn stored_devices_keep_their_index() {
    let mut store: DeviceStore<u64> = DeviceStore::new();
    assert_eq!(store.len(), 0);
    assert_eq!(store.store(10, &same), 0);
    assert_eq!(store.store(20, &same), 1);
    assert_eq!(store.store(10, &same), 0);
    assert_eq!(store.len(), 2);
    assert_eq!(*store.get(0).unwrap(), 10);
    assert_eq!(*store.get(1).unwrap(), 20);
}

#[test]
fn unknown_index_is_not_connected() {
    let mut store: DeviceStore<u64> = DeviceStore::new();
    assert!(matches!(store.get(0), Err(HidError::NotConnected)));
    store.store(1, &same);
    assert!(matches!(store.get(1), Err(HidError::NotConnected)));
    assert!(matches!(store.get(u32::MAX), Err(HidError::NotConnected)));
}

#[test]
fn find_gives_first_match() {
    let mut store: DeviceStore<u64> = DeviceStore::new();
    store.store(4, &same);
    store.store(6, &same);
    let even = |a: &u64, b: &u64| a % 2 == b % 2;
    assert_eq!(store.find(&8, &even), Some(0));
    assert_eq!(store.find(&6, &same), Some(1));
    assert_eq!(store.find(&7, &same), None);
}

#[test]
fn connect_and_disconnect_events() {
    let mut store: DeviceStore<u64> = DeviceStore::new();
    assert_eq!(store.on_connect(30, &same), DeviceEvent::Connected(DeviceId::WebHid(0)));
    assert_eq!(store.on_connect(40, &same), DeviceEvent::Connected(DeviceId::WebHid(1)));
    assert_eq!(store.on_connect(30, &same), DeviceEvent::Connected(DeviceId::WebHid(0)));
    assert_eq!(store.on_disconnect(&40, &same), Some(DeviceEvent::Disconnected(DeviceId::WebHid(1))));
    assert_eq!(store.on_disconnect(&50, &same), None);
    // A disconnected device keeps its place.
    assert_eq!(*store.get(1).unwrap(), 40);
}

fn data(name: &str, collections: usize) -> HidDeviceData {
    let collection = CollectionData { usage_page: Some(1), usage: Some(2), input_reports: None, output_reports: None, feature_reports: None };
    HidDeviceData { product_name: name.to_string(), vendor_id: 1, product_id: 2, collections: vec![collection; collections] }
}

#[test]
fn granted_devices_are_described_under_their_ids() {
    let mut store: DeviceStore<u64> = DeviceStore::new();
    store.store(99, &same);
    let infos = describe_granted_devices(&mut store, vec![(5, data("a", 2)), (99, data("b", 0)), (5, data("a", 1))], &same);
    let ids: Vec<(DeviceId, String)> = infos.iter().map(|i| (i.id, i.name.clone())).collect();
    assert_eq!(
        ids,
        vec![
            (DeviceId::WebHid(1), "a".to_string()),
            (DeviceId::WebHid(1), "a".to_string()),
            (DeviceId::WebHid(0), "b".to_string()),
            (DeviceId::WebHid(1), "a".to_string()),
        ]
    );
    assert_eq!(store.len(), 2);
    assert_eq!(*store.get(1).unwrap(), 5);
}
