use async_hid::buffer::{
    copy_input_report, feature_report_id, frame_input_report, receive_input_report, split_feature_report, split_output_report,
    store_feature_report,
};
use async_hid::error::HidError;

#[test]
fn input_report_starts_with_its_id() {
    assert_eq!(frame_input_report(3, &[10, 20]), vec![3, 10, 20]);
    assert_eq!(frame_input_report(0, &[]), vec![0]);
}

#[test]
fn input_report_is_cut_to_the_buffer() {
    let mut buf = [9u8; 2];
    assert_eq!(copy_input_report(&[1, 2, 3], &mut buf), 2);
    assert_eq!(buf, [1, 2]);
    let mut buf = [9u8; 5];
    assert_eq!(copy_input_report(&[1, 2, 3], &mut buf), 3);
    assert_eq!(buf, [1, 2, 3, 9, 9]);
    let mut empty: [u8; 0] = [];
    assert_eq!(copy_input_report(&[1], &mut empty), 0);
}

#[test]
fn closed_input_stream_means_disconnected() {
    let mut buf = [7u8; 4];
    assert!(matches!(receive_input_report(None, &mut buf), Err(HidError::Disconnected)));
    assert_eq!(buf, [7; 4]);
    assert_eq!(receive_input_report(Some(vec![1, 2]), &mut buf).unwrap(), 2);
    assert_eq!(buf, [1, 2, 7, 7]);
}

#[test]
fn output_report_needs_its_id() {
    match split_output_report(&[]) {
        Err(HidError::Message(m)) => assert_eq!(m, "Output report must contain at least the report ID byte"),
        other => panic!("unexpected {other:?}"),
    }
    assert_eq!(split_output_report(&[5, 1, 2]).unwrap(), (5, vec![1, 2]));
    assert_eq!(split_output_report(&[5]).unwrap(), (5, vec![]));
}

#[test]
fn feature_report_to_send_needs_its_id() {
    match split_feature_report(&[]) {
        Err(HidError::Message(m)) => assert_eq!(m, "Feature report must contain at least the report ID byte"),
        other => panic!("unexpected {other:?}"),
    }
    assert_eq!(split_feature_report(&[2, 0xff]).unwrap(), (2, vec![0xff]));
}

#[test]
fn feature_report_to_read_needs_its_id() {
    match feature_report_id(&[]) {
        Err(HidError::Message(m)) => assert_eq!(m, "Buffer must contain at least the report ID byte"),
        other => panic!("unexpected {other:?}"),
    }
    assert_eq!(feature_report_id(&[4, 0, 0]).unwrap(), 4);
}

#[test]
fn feature_report_lands_after_its_id() {
    let mut buf = [4u8, 0, 0, 0];
    assert_eq!(store_feature_report(&[10, 11], &mut buf), 3);
    assert_eq!(buf, [4, 10, 11, 0]);
    let mut buf = [4u8, 0, 0];
    assert_eq!(store_feature_report(&[10, 11, 12, 13], &mut buf), 3);
    assert_eq!(buf, [4, 10, 11]);
    let mut buf = [4u8];
    assert_eq!(store_feature_report(&[10], &mut buf), 1);
    assert_eq!(buf, [4]);
}

#[test]
fn framed_report_splits_back() {
    let framed = frame_input_report(9, &[1, 2, 3]);
    assert_eq!(split_output_report(&framed).unwrap(), (9, vec![1, 2, 3]));
}

#[test]
fn error_message_keeps_its_words() {
    match HidError::message("gone") {
        HidError::Message(m) => assert_eq!(m, "gone"),
        other => panic!("unexpected {other:?}"),
    }
}
