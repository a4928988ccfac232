use async_hid::report::{max_report_byte_length, report_byte_length, report_fits_check, reports_fit_check, ReportInfo, ReportItem};

fn report(items: &[(u32, u32)]) -> ReportInfo {
    ReportInfo {
        items: Some(items.iter().map(|&(report_size, report_count)| ReportItem { report_size, report_count }).collect()),
    }
}

#[test]
fn byte_length_rounds_bits_up() {
    assert_eq!(report_byte_length(&report(&[])), 0);
    assert_eq!(report_byte_length(&report(&[(1, 1)])), 1);
    assert_eq!(report_byte_length(&report(&[(8, 1)])), 1);
    assert_eq!(report_byte_length(&report(&[(8, 1), (1, 1)])), 2);
    assert_eq!(report_byte_length(&report(&[(8, 3), (1, 5)])), 4);
}

#[test]
fn byte_length_of_report_without_items_is_zero() {
    assert_eq!(report_byte_length(&ReportInfo { items: None }), 0);
}

#[test]
fn no_reports_give_no_length() {
    assert_eq!(max_report_byte_length(&[]), None);
}

#[test]
fn length_counts_the_report_id_byte() {
    assert_eq!(max_report_byte_length(&[report(&[(8, 63)])]), Some(64));
    assert_eq!(max_report_byte_length(&[ReportInfo { items: None }]), Some(1));
    assert_eq!(max_report_byte_length(&[report(&[])]), Some(1));
}

#[test]
fn length_is_that_of_the_largest_report() {
    let reports = [report(&[(8, 2)]), report(&[(8, 3), (1, 5)]), ReportInfo { items: None }, report(&[(16, 1)])];
    assert_eq!(max_report_byte_length(&reports), Some(5));
}

#[test]
fn length_keeps_sixteen_bits() {
    // 0xffff_fff8 bits are 0x1fff_ffff bytes; with the id byte 0x2000_0000, whose low 16 bits are zero.
    let reports = [report(&[(0xffff_fff8, 1)])];
    assert!(reports_fit_check(&reports));
    assert_eq!(max_report_byte_length(&reports), Some(0));
    let reports = [report(&[(8, 0x1_0000)])];
    assert_eq!(max_report_byte_length(&reports), Some(1));
}

#[test]
fn fit_check_refuses_overflowing_reports() {
    assert!(report_fits_check(&report(&[(0xffff_fff8, 1)])));
    assert!(!report_fits_check(&report(&[(0xffff_fff9, 1)])));
    assert!(!report_fits_check(&report(&[(0x1_0000, 0x1_0000)])));
    assert!(!report_fits_check(&report(&[(0x8000_0000, 1), (0x8000_0000, 1)])));
    assert!(report_fits_check(&ReportInfo { items: None }));
    assert!(!reports_fit_check(&[report(&[(1, 1)]), report(&[(u32::MAX, u32::MAX)])]));
    assert!(reports_fit_check(&[]));
}
