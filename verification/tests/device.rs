use rp_wheel_bridge::auth::next_cmd;
use rp_wheel_bridge::device::{
    control_in, control_out, count, ffb_output, hid_descriptor, if0_output, in_packets, input,
    layout, mirror_c272, next_ffb, next_ffb_output, next_hidpp, next_if0_output, next_input,
    next_request, ps5, push_ffb, push_hidpp, push_input, relay_c269, report_sent, set_input, take,
    take_stats, waits_for_backend, Device, InReply, OutReply, Recipient, Request, RequestType, Role,
};
use rp_wheel_bridge::identity::{
    C269_IF0_REPORT_DESC, C272_IF0_REPORT_DESC, FEATURE_03, FEATURE_31, FFB_REPORT_DESC,
    HIDPP_REPORT_DESC,
};
use rp_wheel_bridge::input_map::neutral;
use rp_wheel_bridge::packet::{Cmd, Packet};

fn class(request: u8, value: u16, index: u16) -> Request {
    Request {
        request_type: RequestType::Class,
        recipient: Recipient::Interface,
        request,
        value,
        index,
    }
}

fn standard(request: u8, value: u16, index: u16) -> Request {
    Request {
        request_type: RequestType::Standard,
        ..class(request, value, index)
    }
}

fn accepted(r: Option<InReply>) -> Vec<u8> {
    match r {
        Some(InReply::Accepted(data)) => data,
        _ => panic!("not accepted"),
    }
}

fn rejected(r: Option<InReply>) -> bool {
    matches!(r, Some(InReply::Rejected))
}

#[test]
fn identities() {
    let p = ps5();
    assert_eq!((p.vid, p.pid, p.release), (0x046d, 0xc269, 0x3300));
    assert_eq!(p.manufacturer, "Logitech ");
    assert_eq!(p.product, "PRO Raccing Wheel for Playstation /PC");
    assert_eq!(p.serial, "000000000000");
    assert_eq!(p.name, "PS device");
    assert!(p.role == Role::Wheel);
    let r = relay_c269();
    assert_eq!((r.name, r.pid), ("relay device", 0xc269));
    assert!(r.role == Role::Relay);
    let m = mirror_c272();
    assert_eq!((m.name, m.pid, m.release), ("mirror device", 0xc272, 0x3309));
    assert_eq!(m.product, "PRO Racing Wheel");
    assert!(m.role == Role::Mirror);
    assert_eq!((p.max_power_ma, m.max_power_ma), (200, 100));
    for profile in [p, r, m] {
        assert_eq!(profile.usb_version, 0x0200);
        assert_eq!(profile.class, (0, 0, 0));
        assert!(!profile.composite_with_iads);
        assert_eq!(profile.max_packet_size_0, 64);
        // Attributes 0xc0.
        assert!(profile.self_powered);
        assert!(!profile.remote_wakeup);
    }
}

#[test]
fn endpoints_in_configuration_order() {
    let eps: Vec<(u8, u8, u16, u8)> = layout(&ps5())
        .iter()
        .map(|e| (e.interface, e.address, e.max_packet, e.interval_ms))
        .collect();
    assert_eq!(
        eps,
        vec![(0, 0x01, 64, 1), (0, 0x81, 64, 5), (1, 0x83, 20, 5), (2, 0x82, 64, 1), (2, 0x02, 64, 1)]
    );
    let eps: Vec<(u8, u8, u16, u8)> = layout(&mirror_c272())
        .iter()
        .map(|e| (e.interface, e.address, e.max_packet, e.interval_ms))
        .collect();
    assert_eq!(
        eps,
        vec![(0, 0x81, 64, 1), (1, 0x82, 64, 1), (2, 0x83, 64, 1), (2, 0x03, 64, 1)]
    );
}

#[test]
fn hid_descriptor_bytes() {
    assert_eq!(hid_descriptor(0x0111, 30), [0x11, 0x01, 0x00, 0x01, 0x22, 0x1e, 0x00]);
    assert_eq!(hid_descriptor(0x0110, 0x1c1), [0x10, 0x01, 0x00, 0x01, 0x22, 0xc1, 0x01]);
}

#[test]
fn feature_31_shows_the_ffb_interface() {
    let eps = layout(&ps5());
    let if2: Vec<_> = eps.iter().filter(|e| e.interface == 2).collect();
    let mut want = vec![9, 4, 2, 0, if2.len() as u8, 3, 0, 0, 0, 9, 0x21];
    want.extend_from_slice(&hid_descriptor(ps5().hid[2].0, FFB_REPORT_DESC.len()));
    for e in if2 {
        want.extend_from_slice(&[7, 5, e.address, 3, e.max_packet as u8, 0, e.interval_ms]);
    }
    assert_eq!(&FEATURE_31[0x42..0x42 + want.len()], &want[..]);
    assert!(FEATURE_31[0x42 + want.len()..].iter().all(|b| *b == 0));
    assert_eq!(FEATURE_31[0x41], 5);
    // The serial number, in UTF-16LE.
    for (i, c) in ps5().serial.bytes().enumerate() {
        assert_eq!(FEATURE_31[1 + 2 * i], c);
        assert_eq!(FEATURE_31[2 + 2 * i], 0);
    }
    // A configuration with these endpoints is 98 bytes long.
    assert_eq!(9 + 3 * 18 + 7 * eps.len(), 98);
    assert_eq!(9 + 3 * 18 + 7 * layout(&mirror_c272()).len(), 91);
}

#[test]
fn only_the_relay_waits() {
    assert!(!waits_for_backend(Role::Wheel));
    assert!(waits_for_backend(Role::Relay));
    assert!(!waits_for_backend(Role::Mirror));
}

#[test]
fn report_descriptors_are_answered() {
    let mut d = Device::new(ps5());
    assert_eq!(accepted(control_in(&mut d, &standard(6, 0x2200, 0))), C269_IF0_REPORT_DESC);
    assert_eq!(accepted(control_in(&mut d, &standard(6, 0x2200, 1))), HIDPP_REPORT_DESC);
    assert_eq!(accepted(control_in(&mut d, &standard(6, 0x2200, 2))), FFB_REPORT_DESC);
    assert!(rejected(control_in(&mut d, &standard(6, 0x2200, 3))));
    assert!(rejected(control_in(&mut d, &standard(6, 0x0200, 0))));
    let mut m = Device::new(mirror_c272());
    assert_eq!(accepted(control_in(&mut m, &standard(6, 0x2200, 0))), C272_IF0_REPORT_DESC);
}

#[test]
fn hid_descriptors_are_answered() {
    let mut d = Device::new(ps5());
    let wanted = [
        [0x09, 0x21, 0x10, 0x01, 0x00, 0x01, 0x22, 0xc1, 0x00],
        [0x09, 0x21, 0x11, 0x01, 0x00, 0x01, 0x22, 0x54, 0x00],
        [0x09, 0x21, 0x11, 0x01, 0x00, 0x01, 0x22, 0x1e, 0x00],
    ];
    for (index, want) in wanted.iter().enumerate() {
        let req = standard(6, 0x2100, index as u16);
        assert_eq!(accepted(control_in(&mut d, &req)), want);
    }
    assert!(rejected(control_in(&mut d, &standard(6, 0x2100, 3))));
    let mut m = Device::new(mirror_c272());
    assert_eq!(
        accepted(control_in(&mut m, &standard(6, 0x2100, 0))),
        [0x09, 0x21, 0x11, 0x01, 0x00, 0x01, 0x22, 0x8d, 0x00]
    );
}

#[test]
fn requests_to_others_are_not_handled() {
    let mut d = Device::new(ps5());
    let mut req = standard(6, 0x2200, 0);
    req.recipient = Recipient::Device;
    assert!(control_in(&mut d, &req).is_none());
    assert!(control_out(&mut d, &req, &[]).is_none());
    assert!(control_out(&mut d, &standard(6, 0x2200, 0), &[]).is_none());
    let mut vendor = class(1, 0, 0);
    vendor.request_type = RequestType::Vendor;
    assert!(rejected(control_in(&mut d, &vendor)));
}

#[test]
fn features_and_input_are_answered() {
    let mut d = Device::new(ps5());
    assert_eq!(accepted(control_in(&mut d, &class(1, 0x0303, 0))), FEATURE_03);
    assert_eq!(accepted(control_in(&mut d, &class(1, 0x0331, 0))), FEATURE_31);
    assert!(rejected(control_in(&mut d, &class(1, 0x0332, 0))));
    assert!(rejected(control_in(&mut d, &class(1, 0x0303, 1))));
    assert_eq!(accepted(control_in(&mut d, &class(1, 0x0101, 0))), neutral());
    let mut report = neutral();
    report[6] = 0x42;
    set_input(&mut d, report);
    assert_eq!(accepted(control_in(&mut d, &class(1, 0x0101, 0))), report);
    assert_eq!(input(&d), report);
    assert_eq!(accepted(control_in(&mut d, &class(2, 0, 0))), vec![0]);
    assert_eq!(accepted(control_in(&mut d, &class(3, 0, 0))), vec![1]);
    assert!(rejected(control_in(&mut d, &class(9, 0, 0))));
    // The relay's input report is the backend's business.
    let mut r = Device::new(relay_c269());
    assert!(rejected(control_in(&mut r, &class(1, 0x0101, 0))));
    assert_eq!(accepted(control_in(&mut r, &class(1, 0x0303, 0))), FEATURE_03);
    let mut m = Device::new(mirror_c272());
    assert!(rejected(control_in(&mut m, &class(1, 0x0303, 0))));
    assert!(rejected(control_in(&mut m, &class(1, 0x03f3, 0))));
}

#[test]
fn auth_reports_go_to_the_auth_relay() {
    let mut d = Device::new(ps5());
    assert_eq!(
        accepted(control_in(&mut d, &class(1, 0x03f3, 0))),
        vec![0xf3, 0, 0x38, 0x38, 0, 0, 0, 0]
    );
    assert!(matches!(next_cmd(&mut d.auth), Some(Cmd::Reset)));
    let page = [0xf0, 9, 0, 1, 2];
    assert!(control_out(&mut d, &class(9, 0x03f0, 0), &page) == Some(OutReply::Accepted));
    match next_cmd(&mut d.auth) {
        Some(Cmd::Nonce(p)) => assert_eq!(p.bytes(), &page),
        _ => panic!("no nonce page"),
    }
    assert_eq!(accepted(control_in(&mut d, &class(1, 0x03f2, 0)))[..3], [0xf2, 9, 0x10]);
    assert!(rejected(control_in(&mut d, &class(1, 0x03f1, 0))));
    assert!(next_request(&mut d).is_none());
}

#[test]
fn wheel_gets_hidpp_requests_only() {
    let mut d = Device::new(ps5());
    let msg = [0x10, 0xff, 0x00, 0x1d, 0, 0, 0];
    assert!(control_out(&mut d, &class(9, 0x0210, 1), &msg) == Some(OutReply::Accepted));
    assert!(control_out(&mut d, &class(0x0a, 0, 0), &[]) == Some(OutReply::Accepted));
    assert!(control_out(&mut d, &class(0x0b, 1, 0), &[]) == Some(OutReply::Accepted));
    assert!(control_out(&mut d, &class(9, 0x0205, 0), &[5]) == Some(OutReply::Accepted));
    assert!(control_out(&mut d, &class(0x77, 0, 0), &[]) == Some(OutReply::Rejected));
    let m = next_request(&mut d).unwrap();
    assert_eq!((m.request, m.value, m.index), (9, 0x0210, 1));
    assert_eq!(m.data.bytes(), &msg);
    assert!(next_request(&mut d).is_none());
    assert_eq!(d.stats.hidpp_set_report, 1);
}

#[test]
fn mirror_and_relay_repeat_class_requests() {
    let mut m = Device::new(mirror_c272());
    assert!(control_out(&mut m, &class(9, 0x03f0, 0), &[1]) == Some(OutReply::Accepted));
    assert!(control_out(&mut m, &class(0x77, 5, 2), &[]) == Some(OutReply::Accepted));
    assert_eq!(next_request(&mut m).unwrap().value, 0x03f0);
    let r = next_request(&mut m).unwrap();
    assert_eq!((r.request, r.value, r.index), (0x77, 5, 2));
    assert!(next_cmd(&mut m.auth).is_none());

    let mut r = Device::new(relay_c269());
    assert!(control_out(&mut r, &class(9, 0x03f0, 0), &[0xf0, 1, 0]) == Some(OutReply::Accepted));
    assert!(next_request(&mut r).is_none());
    assert!(matches!(next_cmd(&mut r.auth), Some(Cmd::Nonce(_))));
    assert!(control_out(&mut r, &class(9, 0x03f1, 0), &[2]) == Some(OutReply::Accepted));
    assert_eq!(next_request(&mut r).unwrap().value, 0x03f1);
}

#[test]
fn full_request_queue_drops_and_counts() {
    let mut m = Device::new(mirror_c272());
    for i in 0..10 {
        assert!(control_out(&mut m, &class(0x0a, i, 0), &[]) == Some(OutReply::Accepted));
    }
    assert_eq!(m.stats.dropped, 2);
    for i in 0..8 {
        assert_eq!(next_request(&mut m).unwrap().value, i);
    }
    assert!(next_request(&mut m).is_none());
}

#[test]
fn queues_keep_order_and_limits() {
    let mut d = Device::new(relay_c269());
    for i in 0..9u8 {
        push_input(&mut d, Packet::new(&[i]));
        push_ffb(&mut d, Packet::new(&[i, i]));
    }
    for i in 0..33u8 {
        push_hidpp(&mut d, Packet::new(&[i]));
    }
    assert_eq!(d.stats.dropped, 3);
    for i in 0..8u8 {
        assert_eq!(next_input(&mut d).unwrap().bytes(), &[i]);
        assert_eq!(next_ffb(&mut d).unwrap().bytes(), &[i, i]);
    }
    assert!(next_input(&mut d).is_none());
    assert!(next_ffb(&mut d).is_none());
    for i in 0..32u8 {
        assert_eq!(next_hidpp(&mut d).unwrap().bytes(), &[i]);
    }
    assert!(next_hidpp(&mut d).is_none());
    // Zero-length packets are kept too.
    push_input(&mut d, Packet::new(&[]));
    assert_eq!(next_input(&mut d).unwrap().bytes().len(), 0);
}

/// Lengths of the packets for a report of `n` bytes, which they carry in order.
fn packet_lens(role: Role, n: usize, max: usize) -> Vec<usize> {
    let report: Vec<u8> = (0..n as u8).collect();
    let packets = in_packets(role, &Packet::new(&report), max);
    let carried: Vec<u8> = packets.iter().flat_map(|p| p.bytes().to_vec()).collect();
    assert_eq!(carried, report);
    packets.iter().map(|p| p.bytes().len()).collect()
}

#[test]
fn reports_are_framed_by_role() {
    assert_eq!(packet_lens(Role::Relay, 20, 20), [20]);
    assert_eq!(packet_lens(Role::Relay, 0, 20), [0]);
    assert_eq!(packet_lens(Role::Relay, 64, 64), [64]);
    assert_eq!(packet_lens(Role::Wheel, 20, 20), [20, 0]);
    assert_eq!(packet_lens(Role::Wheel, 64, 20), [20, 20, 20, 4]);
    assert_eq!(packet_lens(Role::Wheel, 40, 20), [20, 20, 0]);
    assert_eq!(packet_lens(Role::Wheel, 7, 20), [7]);
    assert_eq!(packet_lens(Role::Wheel, 0, 20), [0]);
    assert_eq!(packet_lens(Role::Mirror, 63, 64), [63]);
    assert_eq!(packet_lens(Role::Mirror, 64, 64), [64]);
    assert_eq!(packet_lens(Role::Mirror, 64, 32), [32, 32]);
}

#[test]
fn sent_reports_are_counted() {
    let mut d = Device::new(ps5());
    let sent = |d: &Device| (d.stats.input_sent, d.stats.hidpp_sent, d.stats.ffb_sent);
    report_sent(&mut d, 0, true);
    assert_eq!(sent(&d), (1, 0, 0));
    report_sent(&mut d, 1, true);
    report_sent(&mut d, 1, true);
    assert_eq!(sent(&d), (1, 2, 0));
    report_sent(&mut d, 2, true);
    assert_eq!(sent(&d), (1, 2, 1));
    for interface in 0..3 {
        report_sent(&mut d, interface, false);
    }
    report_sent(&mut d, 3, true);
    assert_eq!(sent(&d), (1, 2, 1));
    assert_eq!((d.stats.ffb_received, d.stats.hidpp_set_report, d.stats.dropped), (0, 0, 0));
    d.stats.ffb_sent = u32::MAX;
    report_sent(&mut d, 2, true);
    assert_eq!(d.stats.ffb_sent, 0);
}

#[test]
fn last_input_set_stays() {
    let mut d = Device::new(ps5());
    assert_eq!(input(&d), neutral());
    let (mut first, mut second) = (neutral(), neutral());
    first[6] = 0x01;
    second[6] = 0x02;
    set_input(&mut d, first);
    set_input(&mut d, second);
    push_input(&mut d, Packet::new(&first));
    push_hidpp(&mut d, Packet::new(&[0x11]));
    next_input(&mut d);
    control_in(&mut d, &class(1, 0x03f3, 0));
    control_out(&mut d, &class(9, 0x0211, 1), &[0x11, 0xff]);
    if0_output(&mut d, &[0x30, 0xf3]);
    ffb_output(&mut d, &[1], 5);
    report_sent(&mut d, 0, true);
    take_stats(&mut d);
    assert_eq!(input(&d), second);
    set_input(&mut d, first);
    assert_eq!(input(&d), first);
}

#[test]
fn if0_output_is_noted_on_change() {
    let mut d = Device::new(ps5());
    assert_eq!(if0_output(&mut d, &[0x30, 0xf3]), Some(0));
    assert_eq!(if0_output(&mut d, &[0x30, 0xf3]), None);
    assert_eq!(if0_output(&mut d, &[0x30, 0xf3]), None);
    assert_eq!(if0_output(&mut d, &[0x30, 0xf4]), Some(2));
    assert_eq!(if0_output(&mut d, &[0x30, 0xf5]), Some(0));
    for want in [0xf3, 0xf3, 0xf3, 0xf4, 0xf5] {
        assert_eq!(next_if0_output(&mut d).unwrap().bytes(), &[0x30, want]);
    }
    assert!(next_if0_output(&mut d).is_none());
    let mut m = Device::new(mirror_c272());
    assert_eq!(if0_output(&mut m, &[1]), Some(0));
    assert!(next_if0_output(&mut m).is_none());
}

#[test]
fn ffb_output_is_queued_and_gaps_noted() {
    let mut d = Device::new(ps5());
    assert_eq!(ffb_output(&mut d, &[1, 2], 1_000), None);
    assert_eq!(ffb_output(&mut d, &[3], 101_000), None);
    assert_eq!(ffb_output(&mut d, &[4], 201_001), Some(100_001));
    assert_eq!(d.stats.ffb_received, 3);
    assert_eq!(next_ffb_output(&mut d).unwrap().bytes(), &[1, 2]);
    assert_eq!(next_ffb_output(&mut d).unwrap().bytes(), &[3]);
    assert_eq!(next_ffb_output(&mut d).unwrap().bytes(), &[4]);
    assert!(next_ffb_output(&mut d).is_none());
    for _ in 0..9 {
        ffb_output(&mut d, &[1], 300_000);
    }
    assert_eq!(d.stats.dropped, 1);
}

#[test]
fn counters_wrap_and_are_taken() {
    let mut n = u32::MAX - 1;
    count(&mut n);
    assert_eq!(n, u32::MAX);
    count(&mut n);
    assert_eq!(n, 0);
    count(&mut n);
    assert_eq!(take(&mut n), 1);
    assert_eq!(n, 0);
    let mut d = Device::new(ps5());
    count(&mut d.stats.input_sent);
    count(&mut d.stats.hidpp_sent);
    count(&mut d.stats.ffb_sent);
    let s = take_stats(&mut d);
    assert_eq!((s.input_sent, s.hidpp_sent, s.ffb_sent, s.dropped), (1, 1, 1, 0));
    assert_eq!(take_stats(&mut d).input_sent, 0);
}

#[test]
fn every_interface_request_is_answered() {
    for profile in [ps5(), relay_c269(), mirror_c272()] {
        let mut d = Device::new(profile);
        for request_type in [RequestType::Standard, RequestType::Class, RequestType::Vendor] {
            for request in 0..=16u8 {
                for value in [0u16, 0x0101, 0x0303, 0x0331, 0x03f0, 0x03f1, 0x03f2, 0x03f3, 0x2200] {
                    for index in 0..4u16 {
                        let req = Request {
                            request_type,
                            recipient: Recipient::Interface,
                            request,
                            value,
                            index,
                        };
                        match control_in(&mut d, &req) {
                            Some(InReply::Accepted(data)) => {
                                assert!(data.len() <= FEATURE_31.len());
                            }
                            Some(InReply::Rejected) => {}
                            None => panic!("not answered"),
                        }
                        let out = control_out(&mut d, &req, &[0xf0, 1, 0]);
                        assert!(out.is_some() == (request_type == RequestType::Class));
                    }
                }
            }
        }
    }
    assert!(FEATURE_31.len() <= 256);
}
