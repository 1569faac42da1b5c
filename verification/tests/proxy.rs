use rp_wheel_bridge::descriptor::Endpoint;
use rp_wheel_bridge::device::{
    mirror_c272, next_ffb, next_hidpp, next_input, ps5, relay_c269, set_input, Device,
};
use rp_wheel_bridge::hid::HidInterface;
use rp_wheel_bridge::input_map::{neutral, translate};
use rp_wheel_bridge::pace::{GapMeter, Sampler};
use rp_wheel_bridge::packet::{ControlOut, Packet};
use rp_wheel_bridge::proxy::{
    ffb_report, ffb_written, has_samples, hidpp_long_setup, hidpp_short_setup, idle_failed,
    keep_polling, on_ffb, on_hidpp, on_input, on_status, pad_ffb, repeat_setup, request_repeated,
    rev_lights, slow_ffb, take_stats, wheel_layout, Link, Liveness, TransferError,
};
use rp_wheel_bridge::relay::{self, backend_layout, Backend, OutPath};
use rp_wheel_bridge::wake::{Action, Replay, WakeUp, GET_LED_FEATURE, PING};

fn endpoint(address: u8) -> Endpoint {
    Endpoint {
        address,
        attributes: 3,
        max_packet_size: 64,
        interval: 1,
    }
}

fn iface(number: u8, input: u8, output: Option<u8>) -> Option<HidInterface> {
    Some(HidInterface {
        number,
        report_desc_len: 30,
        in_ep: Some(endpoint(input)),
        out_ep: output.map(endpoint),
    })
}

#[test]
fn wheel_layout_is_found() {
    let ifaces = [
        iface(2, 0x83, Some(0x03)),
        iface(0, 0x81, None),
        iface(1, 0x82, None),
        None,
    ];
    let w = wheel_layout(&ifaces).unwrap();
    assert_eq!(
        (w.if0_in.address, w.if1_in.address, w.if2_in.address, w.if2_out.address),
        (0x81, 0x82, 0x83, 0x03)
    );
    // No OUT endpoint on interface 2, or no interface 1.
    assert!(wheel_layout(&[iface(2, 0x83, None), iface(0, 0x81, None), iface(1, 0x82, None), None])
        .is_none());
    assert!(wheel_layout(&[iface(2, 0x83, Some(3)), iface(0, 0x81, None), None, None]).is_none());
}

#[test]
fn backend_layout_needs_an_if0_output() {
    let mut ifaces = [
        iface(0, 0x81, Some(0x01)),
        iface(1, 0x83, None),
        iface(2, 0x82, Some(0x02)),
        None,
    ];
    let b = backend_layout(&ifaces).unwrap();
    assert_eq!(
        (b.if0_in.address, b.if0_out.address, b.if1_in.address),
        (0x81, 0x01, 0x83)
    );
    assert_eq!((b.if2_in.address, b.if2_out.address), (0x82, 0x02));
    ifaces[0] = iface(0, 0x81, None);
    assert!(backend_layout(&ifaces).is_none());
}

#[test]
fn detach_ends_polling() {
    assert_eq!(keep_polling(TransferError::Disconnected), None);
    assert_eq!(keep_polling(TransferError::Canceled), None);
    for e in [
        TransferError::Stall,
        TransferError::BadResponse,
        TransferError::Timeout,
        TransferError::Babble,
        TransferError::BufferOverflow,
        TransferError::DataToggleError,
        TransferError::Other,
    ] {
        assert_eq!(keep_polling(e), Some(50_000));
    }
    assert!(!idle_failed(Ok(())));
    assert!(!idle_failed(Err(TransferError::Stall)));
    assert!(idle_failed(Err(TransferError::Timeout)));
}

#[test]
fn wheel_input_is_translated() {
    let mut link = Link::new();
    let mut dev = Device::new(ps5());
    let mut report = [0u8; 30];
    report[1] = 0x01;
    assert!(on_input(&mut link, &mut dev, &report));
    assert_eq!(dev.input, translate(&report));
    assert_eq!(link.stats.input, 1);
    // Reports of other lengths are ignored.
    set_input(&mut dev, neutral());
    assert!(!on_input(&mut link, &mut dev, &report[..29]));
    assert!(!on_input(&mut link, &mut dev, &[0; 31]));
    assert_eq!(dev.input, neutral());
    assert_eq!(link.stats.input, 1);
}

#[test]
fn mirrored_input_is_forwarded() {
    let mut link = Link::new();
    let mut dev = Device::new(mirror_c272());
    let report: Vec<u8> = (0..30).collect();
    assert!(on_input(&mut link, &mut dev, &report));
    assert_eq!(next_input(&mut dev).unwrap().bytes(), &report[..]);
    assert_eq!(dev.input, neutral());
}

#[test]
fn own_answers_are_not_forwarded() {
    let mut link = Link::new();
    let mut dev = Device::new(ps5());
    let own = [0x11, 0xff, 0x05, 0x1b, 1, 2];
    let other = [0x11, 0xff, 0x05, 0x1d, 1, 2];
    let notification = [0x12, 0xff, 0x1f, 0x00, 0x30];
    assert!(!on_hidpp(&mut link, &mut dev, Packet::new(&own)));
    assert!(on_hidpp(&mut link, &mut dev, Packet::new(&other)));
    assert!(on_hidpp(&mut link, &mut dev, Packet::new(&notification)));
    assert!(on_hidpp(&mut link, &mut dev, Packet::new(&[0x10])));
    assert_eq!(next_hidpp(&mut dev).unwrap().bytes(), &other);
    assert_eq!(next_hidpp(&mut dev).unwrap().bytes(), &notification);
    assert_eq!(next_hidpp(&mut dev).unwrap().bytes(), &[0x10]);
    assert!(next_hidpp(&mut dev).is_none());
    assert_eq!(link.stats.hidpp, 4);
    // In mirror mode everything is.
    let mut mirror = Device::new(mirror_c272());
    assert!(on_hidpp(&mut link, &mut mirror, Packet::new(&own)));
    assert_eq!(next_hidpp(&mut mirror).unwrap().bytes(), &own);
}

#[test]
fn nothing_is_forwarded_while_waking() {
    let mut link = Link::new();
    let mut dev = Device::new(ps5());
    link.waking = true;
    assert!(!on_hidpp(&mut link, &mut dev, Packet::new(&[0x12, 0xff, 0x1f, 0x00])));
    assert!(!link.answered);
    assert!(!on_hidpp(&mut link, &mut dev, Packet::new(&[0x11, 0xff, 0x00, 0x1d])));
    assert!(link.answered);
    assert!(next_hidpp(&mut dev).is_none());
}

#[test]
fn led_feature_is_learned() {
    let mut link = Link::new();
    let mut dev = Device::new(ps5());
    on_hidpp(&mut link, &mut dev, Packet::new(&[0x11, 0xff, 0x00, 0x1b, 4, 2, 0x5a]));
    assert_eq!(link.led, None);
    on_hidpp(&mut link, &mut dev, Packet::new(&[0x11, 0xff, 0x00, 0x0b, 0]));
    assert_eq!(link.led, None);
    on_hidpp(&mut link, &mut dev, Packet::new(&[0x11, 0xff, 0x00, 0x0b, 9, 0, 0]));
    assert_eq!(link.led, Some(9));
    assert!(next_hidpp(&mut dev).is_none());
}

#[test]
fn rev_lights_for_the_wheel() {
    let mut link = Link::new();
    assert!(rev_lights(&link, &[0x30, 0xf8, 0x12, 0x1f]).is_none());
    link.led = Some(9);
    for (mask, level) in [(0u8, 0u8), (0x01, 2), (0x03, 4), (0x07, 6), (0x0f, 8), (0x1f, 10), (0xe1, 2)] {
        let msg = rev_lights(&link, &[0x30, 0xf8, 0x12, mask, 0, 0]).unwrap();
        let mut want = [0u8; 20];
        want[..10].copy_from_slice(&[0x11, 0xff, 9, 0x6b, 0, 1, 0, 0x0a, 0, level]);
        assert_eq!(msg, want);
    }
    // Other commands and reports are not for the LEDs.
    for report in [
        &[0x30u8, 0xf8, 0x81, 0x38][..],
        &[0x30, 0xf3, 0x12, 0x1f],
        &[0x05, 0xf8, 0x12, 0x1f],
        &[0x30, 0xf8, 0x12],
    ] {
        assert!(rev_lights(&link, report).is_none());
    }
    assert_eq!(hidpp_long_setup(), [0x21, 0x09, 0x11, 0x02, 0x01, 0x00, 0x14, 0x00]);
}

#[test]
fn force_feedback_is_padded() {
    let short = [0x01, 0, 0, 0, 0x01, 7, 0xc5, 0x80, 0xc5, 0x80, 0, 0];
    let report = pad_ffb(&Packet::new(&short));
    assert_eq!(&report[..12], &short);
    assert!(report[12..].iter().all(|b| *b == 0));
    let full = [0x5au8; 64];
    assert_eq!(pad_ffb(&Packet::new(&full)), full);
    assert_eq!(pad_ffb(&Packet::new(&[])), [0u8; 64]);
}

#[test]
fn trueforce_packets_are_counted() {
    let mut link = Link::new();
    let with = pad_ffb(&Packet::new(&[1, 0, 0, 0, 1, 0x0f, 0xc5, 0x80, 0xc5, 0x80, 5, 0x0d, 0x1f]));
    let without = pad_ffb(&Packet::new(&[1, 0, 0, 0, 1, 0x0f, 0xc5, 0x80, 0xc5, 0x80, 0, 0]));
    let other = pad_ffb(&Packet::new(&[1, 0, 0, 0, 9, 0x3c, 2, 2, 0, 0, 0x80, 0x3f]));
    assert!(has_samples(&with));
    assert!(!has_samples(&without));
    assert!(!has_samples(&other));
    assert!(!has_samples(&with[..10]));
    ffb_written(&mut link, &with, true);
    ffb_written(&mut link, &without, true);
    ffb_written(&mut link, &with, false);
    assert_eq!((link.stats.ffb_written, link.stats.trueforce), (2, 1));
}

#[test]
fn ffb_streams_are_sampled() {
    let mut link = Link::new();
    let mut dev = Device::new(ps5());
    let n = on_ffb(&mut link, &mut dev, Packet::new(&[1]), 1_000);
    assert_eq!((n.log, n.gap), (Some(0), None));
    let n = on_ffb(&mut link, &mut dev, Packet::new(&[2]), 2_000);
    assert_eq!((n.log, n.gap), (None, None));
    let n = on_ffb(&mut link, &mut dev, Packet::new(&[3]), 150_000);
    assert_eq!((n.log, n.gap), (Some(1), Some(148_000)));
    assert_eq!(next_ffb(&mut dev).unwrap().bytes(), &[1]);
    let (report, log) = ffb_report(&mut link, &Packet::new(&[9]), 5);
    assert_eq!((report[0], report[1], log), (9, 0, Some(0)));
    assert_eq!(ffb_report(&mut link, &Packet::new(&[9]), 100_004).1, None);
    assert_eq!(ffb_report(&mut link, &Packet::new(&[9]), 100_005).1, Some(1));
    // A packet too short for a command counts as the stream.
    assert_eq!(ffb_report(&mut link, &Packet::new(&[1, 0, 0, 0]), 100_006).1, None);
    assert_eq!(slow_ffb(100, 20_100), None);
    assert_eq!(slow_ffb(100, 20_101), Some(20_001));
}

#[test]
fn ffb_commands_are_all_logged() {
    let mut link = Link::new();
    let force = |seq| Packet::new(&[1, 0, 0, 0, 1, seq, 0, 0x80, 0, 0x80]);
    let command = |seq| Packet::new(&[1, 0, 0, 0, 5, seq, 0x30]);
    // The set-up burst, one packet a millisecond.
    for seq in 0..48u8 {
        let (report, log) = ffb_report(&mut link, &command(seq), u64::from(seq) * 1_000);
        assert_eq!((report[4], report[5], log), (5, seq, Some(0)));
    }
    // The stream is sampled, from the last packet logged on.
    assert_eq!(ffb_report(&mut link, &force(1), 48_000).1, None);
    assert_eq!(ffb_report(&mut link, &force(2), 49_000).1, None);
    // A command in the stream comes with what was held back before it.
    assert_eq!(ffb_report(&mut link, &command(3), 50_000).1, Some(2));
    assert_eq!(ffb_report(&mut link, &force(4), 149_999).1, None);
    assert_eq!(ffb_report(&mut link, &force(5), 150_000).1, Some(1));
}

#[test]
fn sampler_and_gap_meter() {
    let mut s = Sampler::new(10);
    assert_eq!(s.pass(90), 0);
    assert_eq!(s.sample(100), Some(0));
    assert_eq!(s.sample(100), None);
    assert_eq!(s.sample(109), None);
    assert_eq!(s.sample(110), Some(2));
    assert_eq!(s.sample(111), None);
    assert_eq!(s.pass(112), 1);
    assert_eq!(s.sample(121), None);
    assert_eq!(s.sample(122), Some(1));
    let mut g = GapMeter::new(10);
    assert_eq!(g.tick(5), None);
    assert_eq!(g.tick(15), None);
    assert_eq!(g.tick(26), Some(11));
}

#[test]
fn class_requests_are_repeated() {
    let msg = ControlOut {
        request: 9,
        value: 0x0210,
        index: 1,
        data: Packet::new(&PING),
    };
    assert_eq!(repeat_setup(&msg), [0x21, 0x09, 0x10, 0x02, 0x01, 0x00, 0x07, 0x00]);
    assert_eq!(repeat_setup(&msg), hidpp_short_setup());
    let mut link = Link::new();
    request_repeated(&mut link, &msg, true);
    request_repeated(&mut link, &msg, false);
    let mut other = msg;
    other.index = 0;
    request_repeated(&mut link, &other, true);
    assert_eq!(link.stats.hidpp_written, 1);
}

#[test]
fn statistics_start_over() {
    let mut link = Link::new();
    let mut dev = Device::new(ps5());
    on_input(&mut link, &mut dev, &[0; 30]);
    on_hidpp(&mut link, &mut dev, Packet::new(&[1]));
    for _ in 0..9 {
        on_ffb(&mut link, &mut dev, Packet::new(&[1]), 0);
    }
    let i = take_stats(&mut link, &mut dev);
    assert_eq!((i.wheel.input, i.wheel.hidpp, i.wheel.ffb), (1, 1, 9));
    assert_eq!(i.device.dropped, 1);
    let i = take_stats(&mut link, &mut dev);
    assert_eq!((i.wheel.input, i.wheel.ffb, i.device.dropped), (0, 0, 0));
}

#[test]
fn liveness_is_noted_on_change() {
    let mut responding = true;
    assert!(on_status(&mut responding, true) == Liveness::Unchanged);
    assert!(on_status(&mut responding, false) == Liveness::StoppedResponding);
    assert!(on_status(&mut responding, false) == Liveness::Unchanged);
    assert!(on_status(&mut responding, true) == Liveness::RespondingAgain);
}

fn sent(a: Action) -> [u8; 7] {
    match a {
        Action::Send { setup, data } => {
            assert_eq!(setup, [0x21, 0x09, 0x10, 0x02, 0x01, 0x00, 0x07, 0x00]);
            data
        }
        _ => panic!("nothing sent"),
    }
}

#[test]
fn wheel_is_woken_up() {
    let mut link = Link::new();
    let mut dev = Device::new(ps5());
    let (mut w, a) = WakeUp::new();
    let mut action = a;
    for iface in 0..3u8 {
        match action {
            Action::Out(setup) => {
                assert_eq!(setup, [0x21, 0x0a, 0, 0, iface, 0, 0, 0]);
            }
            _ => panic!("no SET_IDLE"),
        }
        assert!(!link.waking);
        // A refusal does not matter.
        action = w.on_sent(&mut link, iface != 1, 1_000);
    }
    assert_eq!(sent(action), PING);
    assert!(link.waking);
    assert!(matches!(w.on_sent(&mut link, false, 3_000), Action::WaitUntil(21_000)));
    assert_eq!(sent(w.on_wait_over(&mut link, 21_000)), PING);
    assert!(matches!(w.on_sent(&mut link, true, 22_000), Action::WaitUntil(41_000)));
    // The wheel answers the second ping.
    on_hidpp(&mut link, &mut dev, Packet::new(&[0x11, 0xff, 0x00, 0x1b, 4, 2, 0x5a]));
    assert_eq!(sent(w.on_wait_over(&mut link, 41_000)), GET_LED_FEATURE);
    assert_eq!((w.pings, w.failed), (2, 1));
    on_hidpp(&mut link, &mut dev, Packet::new(&[0x11, 0xff, 0x00, 0x0b, 9]));
    assert!(matches!(w.on_sent(&mut link, true, 42_000), Action::Wait(100_000)));
    assert!(link.waking);
    assert!(matches!(w.on_wait_over(&mut link, 142_000), Action::Done));
    assert!(!link.waking);
    assert_eq!(link.led, Some(9));
    assert!(next_hidpp(&mut dev).is_none());
}

#[test]
fn pinging_ends_after_ten_seconds() {
    let mut link = Link::new();
    let (mut w, _) = WakeUp::new();
    for _ in 0..2 {
        w.on_sent(&mut link, true, 0);
    }
    assert_eq!(sent(w.on_sent(&mut link, true, 0)), PING);
    w.on_sent(&mut link, true, 0);
    assert_eq!(sent(w.on_wait_over(&mut link, 9_999_999)), PING);
    w.on_sent(&mut link, true, 10_000_000);
    assert_eq!(sent(w.on_wait_over(&mut link, 10_000_000)), GET_LED_FEATURE);
}

#[test]
fn own_requests_bear_the_software_id() {
    assert_eq!(PING, [0x10, 0xff, 0x00, 0x1b, 0x00, 0x00, 0x5a]);
    assert_eq!(GET_LED_FEATURE, [0x10, 0xff, 0x00, 0x0b, 0x80, 0x7a, 0x00]);
    assert_eq!(PING[3] & 0x0f, 0x0b);
    assert_eq!(GET_LED_FEATURE[3] & 0x0f, 0x0b);
}

#[test]
fn recorded_requests_are_replayed() {
    let recording = vec![(0u16, PING), (250, GET_LED_FEATURE)];
    let mut r = Replay::new();
    assert_eq!(r.request(&recording), Some((0, PING)));
    r.on_sent(&recording, true);
    assert_eq!(r.request(&recording), Some((250_000, GET_LED_FEATURE)));
    r.on_sent(&recording, false);
    assert_eq!(r.request(&recording), None);
    assert_eq!(r.failed, 1);
}

#[test]
fn relayed_packets_keep_their_framing() {
    let mut b = Backend::new();
    let mut dev = Device::new(relay_c269());
    relay::on_input(&mut b, &mut dev, Packet::new(&[1, 2]));
    relay::on_input(&mut b, &mut dev, Packet::new(&[]));
    relay::on_hidpp(&mut b, &mut dev, Packet::new(&[0x11, 0xff, 0, 0x0b]));
    assert_eq!(relay::on_ffb(&mut b, &mut dev, Packet::new(&[5]), 0), Some(0));
    assert_eq!(relay::on_ffb(&mut b, &mut dev, Packet::new(&[6]), 10), None);
    assert_eq!(next_input(&mut dev).unwrap().bytes(), &[1, 2]);
    assert_eq!(next_input(&mut dev).unwrap().bytes().len(), 0);
    assert_eq!(next_hidpp(&mut dev).unwrap().bytes(), &[0x11, 0xff, 0, 0x0b]);
    assert_eq!(next_ffb(&mut dev).unwrap().bytes(), &[5]);
    assert_eq!(relay::on_ffb_output(&mut b, 7), Some(0));
    assert!(relay::written(&mut b, OutPath::If0, true));
    assert!(relay::written(&mut b, OutPath::Ffb, true));
    assert!(!relay::written(&mut b, OutPath::Ffb, false));
    let msg = ControlOut {
        request: 9,
        value: 0x0210,
        index: 1,
        data: Packet::new(&[1]),
    };
    relay::request_repeated(&mut b, &msg, true);
    let i = relay::take_stats(&mut b, &mut dev);
    assert_eq!((i.backend.input, i.backend.hidpp, i.backend.ffb), (2, 1, 2));
    assert_eq!(
        (i.backend.if0_written, i.backend.ffb_written, i.backend.hidpp_written),
        (1, 1, 1)
    );
    assert_eq!(relay::take_stats(&mut b, &mut dev).backend.input, 0);
}
