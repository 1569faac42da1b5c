use rp_wheel_bridge::identity::{
    C269_IF0_REPORT_DESC, C272_IF0_REPORT_DESC, FFB_REPORT_DESC, HIDPP_REPORT_DESC,
};
use rp_wheel_bridge::report_desc::{report_summary, ReportKind, MAX_REPORTS};

#[test]
fn report_sizes_of_the_c269() {
    let s = report_summary(&C269_IF0_REPORT_DESC);
    let got: Vec<(u8, &str, u32, u16)> = s
        .reports
        .iter()
        .map(|r| (r.id, r.kind.name(), r.len(), r.usage_page))
        .collect();
    assert_eq!(
        got,
        vec![
            (0x01, "input", 63, 0x0001),
            (0x05, "output", 31, 0xff00),
            (0x03, "feature", 47, 0xff00),
            (0xf0, "feature", 63, 0xfff0),
            (0xf1, "feature", 63, 0xfff0),
            (0xf2, "feature", 15, 0xfff0),
            (0xf3, "feature", 7, 0xfff0),
            (0x30, "output", 7, 0xff01),
            (0x31, "feature", 252, 0x0010),
        ]
    );
    assert_eq!(
        s.collections,
        vec![(0x0001, 0x05), (0xfff0, 0x40), (0x0001, 0x04)]
    );
    assert!(s.truncated_at.is_none());
    assert!(!s.incomplete);
}

#[test]
fn report_sizes_of_the_c272() {
    let s = report_summary(&C272_IF0_REPORT_DESC);
    assert_eq!(s.reports.len(), 1);
    assert_eq!(s.reports[0].id, 0);
    assert!(s.reports[0].kind == ReportKind::Input);
    assert_eq!(s.reports[0].bits, 240);
    assert_eq!(s.reports[0].len(), 30);
    let h = report_summary(&HIDPP_REPORT_DESC);
    let sizes: Vec<(u8, u32)> = h.reports.iter().map(|r| (r.id, r.len())).collect();
    assert_eq!(
        sizes,
        vec![(0x10, 6), (0x10, 6), (0x11, 19), (0x11, 19), (0x12, 63), (0x12, 63)]
    );
    let f = report_summary(&FFB_REPORT_DESC);
    let sizes: Vec<(u8, &str, u32)> = f
        .reports
        .iter()
        .map(|r| (r.id, r.kind.name(), r.len()))
        .collect();
    assert_eq!(sizes, vec![(0x01, "input", 63), (0x01, "output", 63)]);
}

#[test]
fn truncated_descriptor_is_noted() {
    // Usage page, then an item that says four data bytes but has one.
    let s = report_summary(&[0x05, 0x01, 0x27, 0xff]);
    assert_eq!(s.truncated_at, Some(2));
    assert!(s.reports.is_empty());
}

#[test]
fn long_items_are_skipped() {
    // A long item with two data bytes, then one input item of 8 bits.
    let s = report_summary(&[0xfe, 0x02, 0x00, 0xaa, 0xbb, 0x75, 0x08, 0x95, 0x01, 0x81, 0x02]);
    assert_eq!(s.reports.len(), 1);
    assert_eq!(s.reports[0].bits, 8);
}

#[test]
fn globals_are_pushed_and_popped() {
    // Size 8 count 2; push; size 1 count 3; input; pop; output.
    let s = report_summary(&[
        0x75, 0x08, 0x95, 0x02, 0xa4, 0x75, 0x01, 0x95, 0x03, 0x81, 0x02, 0xb4, 0x91, 0x02,
    ]);
    assert_eq!(s.reports[0].bits, 3);
    assert_eq!(s.reports[0].len(), 1);
    assert_eq!(s.reports[1].bits, 16);
}

#[test]
fn items_of_one_report_add_up() {
    let s = report_summary(&[0x75, 0x01, 0x95, 0x03, 0x81, 0x02, 0x95, 0x05, 0x81, 0x01]);
    assert_eq!(s.reports.len(), 1);
    assert_eq!(s.reports[0].bits, 8);
}

#[test]
fn too_many_reports_are_incomplete() {
    let mut desc = vec![0x75, 0x08, 0x95, 0x01];
    for id in 1..=(MAX_REPORTS as u8 + 1) {
        desc.extend_from_slice(&[0x85, id, 0x81, 0x02]);
    }
    let s = report_summary(&desc);
    assert_eq!(s.reports.len(), MAX_REPORTS);
    assert!(s.incomplete);
}

#[test]
fn empty_descriptor_has_no_reports() {
    let s = report_summary(&[]);
    assert!(s.reports.is_empty());
    assert!(s.collections.is_empty());
    assert!(s.truncated_at.is_none());
}
