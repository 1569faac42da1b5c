use rp_wheel_bridge::descriptor::config_ok;
use rp_wheel_bridge::hid::{
    feature_reads, find_interfaces, report_desc_request, set_idle, watch, HidInterface, Monitor,
    Watch,
};
use rp_wheel_bridge::identity::C269_IF0_REPORT_DESC;
use rp_wheel_bridge::probe::{Probe, Transfer};
use rp_wheel_bridge::report_desc::report_summary;

/// The c269's configuration: IF0 with OUT and IN, IF1 with IN, IF2 with IN and OUT.
fn c269_config() -> Vec<u8> {
    let mut c = vec![9, 2, 98, 0, 3, 1, 0, 0xc0, 100];
    c.extend_from_slice(&[9, 4, 0, 0, 2, 3, 0, 0, 0, 9, 0x21, 0x10, 0x01, 0, 1, 0x22, 193, 0]);
    c.extend_from_slice(&[7, 5, 0x01, 3, 64, 0, 1, 7, 5, 0x81, 3, 64, 0, 5]);
    c.extend_from_slice(&[9, 4, 1, 0, 1, 3, 0, 0, 0, 9, 0x21, 0x11, 0x01, 0, 1, 0x22, 84, 0]);
    c.extend_from_slice(&[7, 5, 0x83, 3, 20, 0, 5]);
    c.extend_from_slice(&[9, 4, 2, 0, 2, 3, 0, 0, 0, 9, 0x21, 0x11, 0x01, 0, 1, 0x22, 30, 0]);
    c.extend_from_slice(&[7, 5, 0x82, 3, 64, 0, 1, 7, 5, 0x02, 3, 64, 0, 1]);
    c
}

fn with_header(body: &[u8]) -> Vec<u8> {
    let mut c = vec![9, 2, (9 + body.len()) as u8, 0, 1, 1, 0, 0x80, 50];
    c.extend_from_slice(body);
    c
}

#[test]
fn interfaces_of_a_c269() {
    let config = c269_config();
    assert_eq!(config.len(), 98);
    assert!(config_ok(&config));
    let ifaces = find_interfaces(&config);
    let i0 = ifaces[0].unwrap();
    assert_eq!((i0.number, i0.report_desc_len), (0, 193));
    let e = i0.in_ep.unwrap();
    assert_eq!((e.address, e.attributes, e.max_packet_size, e.interval), (0x81, 3, 64, 5));
    assert!(e.is_in());
    assert!(e.is_interrupt());
    assert_eq!(i0.out_ep.unwrap().address, 0x01);
    let i1 = ifaces[1].unwrap();
    assert_eq!((i1.number, i1.report_desc_len), (1, 84));
    assert_eq!(i1.in_ep.unwrap().max_packet_size, 20);
    assert!(i1.out_ep.is_none());
    let i2 = ifaces[2].unwrap();
    assert_eq!(i2.in_ep.unwrap().address, 0x82);
    assert_eq!(i2.out_ep.unwrap().address, 0x02);
    assert!(!i2.out_ep.unwrap().is_in());
    assert!(ifaces[3].is_none());
}

#[test]
fn not_a_configuration_has_no_interfaces() {
    for bytes in [vec![], vec![9, 2, 9], vec![9, 4, 9, 0, 0, 0, 0, 0, 0]] {
        assert!(config_ok(&bytes));
        assert!(find_interfaces(&bytes).iter().all(|i| i.is_none()));
    }
}

#[test]
fn lengths_past_the_end_are_seen() {
    let mut c = c269_config();
    c[2] = 99;
    assert!(!config_ok(&c));
    c[2] = 8;
    assert!(!config_ok(&c));
    c[2] = 98;
    assert!(config_ok(&c));
}

#[test]
fn only_hid_interfaces_in_setting_0_are_found() {
    // A vendor interface with an interrupt endpoint, a HID interface in setting 1, then a HID one.
    let c = with_header(&[
        9, 4, 0, 0, 1, 0xff, 0, 0, 0, 7, 5, 0x81, 3, 8, 0, 1, //
        9, 4, 1, 1, 1, 3, 0, 0, 0, 7, 5, 0x82, 3, 8, 0, 1, //
        9, 4, 2, 0, 1, 3, 0, 0, 0, 7, 5, 0x83, 2, 8, 0, 1, 7, 5, 0x84, 3, 8, 0, 1, 7, 5, 0x85, 3,
        8, 0, 1,
    ]);
    let ifaces = find_interfaces(&c);
    let i = ifaces[0].unwrap();
    assert_eq!(i.number, 2);
    // The bulk endpoint is passed over, and the first interrupt one kept.
    assert_eq!(i.in_ep.unwrap().address, 0x84);
    assert!(ifaces[1].is_none());
}

#[test]
fn fifth_hid_interface_is_ignored() {
    let mut body = vec![];
    for n in 0..5u8 {
        body.extend_from_slice(&[9, 4, n, 0, 1, 3, 0, 0, 0, 7, 5, 0x80 + n, 3, 8, 0, 1]);
    }
    let ifaces = find_interfaces(&with_header(&body));
    for n in 0..4u8 {
        assert_eq!(ifaces[n as usize].unwrap().number, n);
        assert_eq!(ifaces[n as usize].unwrap().in_ep.unwrap().address, 0x80 + n);
    }
}

#[test]
fn descriptor_cut_short_ends_the_walk() {
    // A good interface, then an endpoint of six bytes, then one that would be good.
    let c = with_header(&[
        9, 4, 0, 0, 2, 3, 0, 0, 0, 6, 5, 0x81, 3, 8, 0, 7, 5, 0x82, 3, 8, 0, 1,
    ]);
    let ifaces = find_interfaces(&c);
    assert_eq!(ifaces[0].unwrap().number, 0);
    assert!(ifaces[0].unwrap().in_ep.is_none());
    // An interface of eight bytes.
    let c = with_header(&[8, 4, 0, 0, 2, 3, 0, 0, 9, 4, 1, 0, 0, 3, 0, 0, 0]);
    assert!(find_interfaces(&c)[0].is_none());
    // A descriptor of length 0, or past the end, ends it too; one of length 1 is passed over.
    let c = with_header(&[1, 9, 4, 1, 0, 0, 3, 0, 0, 0, 0, 9, 4, 2, 0, 0, 3, 0, 0, 0]);
    let ifaces = find_interfaces(&c);
    assert_eq!(ifaces[0].unwrap().number, 1);
    assert!(ifaces[1].is_none());
}

#[test]
fn report_length_is_the_first_report_descriptors() {
    // Two listed descriptors: a physical one (0x23) and a report one.
    let c = with_header(&[
        9, 4, 0, 0, 0, 3, 0, 0, 0, 12, 0x21, 0x11, 1, 0, 2, 0x23, 5, 0, 0x22, 0x34, 0x12,
    ]);
    assert_eq!(find_interfaces(&c)[0].unwrap().report_desc_len, 0x1234);
    // Only as many entries as bNumDescriptors says.
    let c = with_header(&[
        9, 4, 0, 0, 0, 3, 0, 0, 0, 12, 0x21, 0x11, 1, 0, 1, 0x23, 5, 0, 0x22, 0x34, 0x12,
    ]);
    assert_eq!(find_interfaces(&c)[0].unwrap().report_desc_len, 0);
}

fn iface(number: u8, report_desc_len: u16) -> HidInterface {
    HidInterface {
        number,
        report_desc_len,
        in_ep: None,
        out_ep: None,
    }
}

#[test]
fn report_descriptor_request() {
    let (setup, len) = report_desc_request(&iface(2, 193));
    assert_eq!(setup, [0x81, 0x06, 0x00, 0x22, 0x02, 0x00, 193, 0x00]);
    assert_eq!(len, 193);
    let (setup, len) = report_desc_request(&iface(0, 1000));
    assert_eq!(setup, [0x81, 0x06, 0x00, 0x22, 0x00, 0x00, 0x00, 0x02]);
    assert_eq!(len, 512);
    assert_eq!(set_idle(1), [0x21, 0x0a, 0x00, 0x00, 0x01, 0x00, 0x00, 0x00]);
}

#[test]
fn auth_reports_are_not_read() {
    let reads = feature_reads(0, &report_summary(&C269_IF0_REPORT_DESC).reports);
    let got: Vec<(u8, u16)> = reads.iter().map(|r| (r.id, r.len)).collect();
    assert_eq!(got, vec![(0x03, 48), (0x31, 253)]);
    assert_eq!(reads[1].setup, [0xa1, 0x01, 0x31, 0x03, 0x00, 0x00, 253, 0x00]);
}

#[test]
fn long_feature_reports_are_cut() {
    // Feature report 7 of 400 bytes.
    let s = report_summary(&[0x85, 0x07, 0x75, 0x08, 0x96, 0x90, 0x01, 0xb1, 0x02]);
    let reads = feature_reads(1, &s.reports);
    assert_eq!(reads.len(), 1);
    assert_eq!(reads[0].len, 256);
    assert_eq!(reads[0].setup, [0xa1, 0x01, 0x07, 0x03, 0x01, 0x00, 0x00, 0x01]);
}

fn in_setup(t: Transfer) -> ([u8; 8], u16) {
    match t {
        Transfer::In { setup, len } => (setup, len),
        _ => panic!("no IN transfer"),
    }
}

fn out_setup(t: Transfer) -> [u8; 8] {
    match t {
        Transfer::Out { setup } => setup,
        _ => panic!("no OUT transfer"),
    }
}

#[test]
fn probe_reads_and_sets_idle() {
    let ifaces = [Some(iface(0, 193)), None, Some(iface(2, 30)), None];
    let (mut p, t) = Probe::new(&ifaces);
    assert_eq!(in_setup(t).1, 193);
    let (setup, len) = in_setup(p.next(Some(&C269_IF0_REPORT_DESC)));
    assert_eq!((setup[2], setup[3], len), (0x03, 0x03, 48));
    let (setup, _) = in_setup(p.next(None));
    assert_eq!(setup[2], 0x31);
    assert_eq!(out_setup(p.next(Some(&[0x31]))), set_idle(0));
    // The next interface: its descriptor cannot be read, and it is set idle all the same.
    assert_eq!(in_setup(p.next(None)).0[4], 2);
    assert_eq!(out_setup(p.next(None)), set_idle(2));
    assert!(matches!(p.next(None), Transfer::Done));
    assert!(matches!(p.next(None), Transfer::Done));
}

#[test]
fn probe_of_nothing_is_done() {
    let (_, t) = Probe::new(&[None, None, None, None]);
    assert!(matches!(t, Transfer::Done));
}

#[test]
fn watched_endpoints() {
    let ifaces = find_interfaces(&c269_config());
    assert!(watch(None) == Watch::Nothing);
    assert!(watch(Some(iface(0, 1))) == Watch::Nothing);
    let mut i = ifaces[0].unwrap();
    assert!(watch(Some(i)) == Watch::At(i.in_ep.unwrap()));
    let mut e = i.in_ep.unwrap();
    e.max_packet_size = 65;
    i.in_ep = Some(e);
    assert!(watch(Some(i)) == Watch::Unsupported(65));
}

#[test]
fn changed_reports_are_coalesced() {
    let mut m = Monitor::new(1_000_000);
    let n = m.poll(1_000_000);
    assert!(!n.report);
    m.on_report(&[1, 2]);
    assert!(m.poll(1_000_100).report);
    // Changes within 100 ms wait, and only the latest is logged.
    m.on_report(&[1, 3]);
    assert!(!m.poll(1_050_000).report);
    m.on_report(&[1, 4]);
    m.on_report(&[1, 4]);
    assert!(!m.poll(1_100_099).report);
    assert!(m.poll(1_100_100).report);
    assert_eq!(m.last.bytes(), &[1, 4]);
    // The same report again is no change.
    m.on_report(&[1, 4]);
    assert!(!m.poll(2_000_000).report);
}

#[test]
fn report_rate_every_five_seconds() {
    let mut m = Monitor::new(0);
    for _ in 0..3 {
        m.on_report(&[7]);
    }
    assert_eq!(m.poll(4_999_999).stats, None);
    assert_eq!(m.poll(5_000_000).stats, Some(3));
    assert_eq!(m.poll(10_000_000).stats, None);
    m.on_report(&[7]);
    assert_eq!(m.poll(15_000_000).stats, Some(1));
}
