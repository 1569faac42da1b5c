use rp_wheel_bridge::hub::{
    on_error, Action, Child, ChildAction, ChildEvent, Enumeration, Ports, ResetError,
    ERROR_LOG_INTERVAL,
};
use rp_wheel_bridge::pace::Sampler;
use rp_wheel_bridge::usb_host::Kind;

const UP: [u8; 4] = [0x03, 0x01, 0x10, 0x00];
const NOT_UP: [u8; 4] = [0x11, 0x01, 0x00, 0x00];

fn out(a: Action) -> [u8; 8] {
    match a {
        Action::Out(setup) => setup,
        _ => panic!("no OUT request"),
    }
}

fn status(a: Action) -> [u8; 8] {
    match a {
        Action::In(setup) => setup,
        _ => panic!("no IN request"),
    }
}

fn wait(a: Action) -> u64 {
    match a {
        Action::Wait(t) => t,
        _ => panic!("no pause"),
    }
}

const SET_RESET: [u8; 8] = [0x23, 0x03, 0x04, 0x00, 0x03, 0x00, 0x00, 0x00];

#[test]
fn port_is_reset_and_enumerated() {
    let (mut e, a) = Enumeration::new(2, 1_000);
    assert_eq!(out(a), SET_RESET);
    let a = e.on_out(true, 26_000);
    assert_eq!(status(a), [0xa3, 0x00, 0x00, 0x00, 0x03, 0x00, 0x04, 0x00]);
    assert_eq!(wait(e.on_status(Some(&NOT_UP), 27_000)), 5_000);
    status(e.on_wait_over());
    let a = e.on_status(Some(&UP), 33_000);
    assert_eq!(out(a), [0x23, 0x01, 20, 0x00, 0x03, 0x00, 0x00, 0x00]);
    assert_eq!(wait(e.on_out(true, 34_000)), 10_000);
    assert!(matches!(e.on_wait_over(), Action::Enumerate));
    assert!(matches!(e.on_enumerated(true, 50_000), Action::Found));
    assert_eq!(e.attempt, 1);
}

#[test]
fn port_needs_both_bits() {
    // Enabled, but the reset is not over; and the other way round; and a short reply.
    for reply in [&[0x03u8, 0x01, 0x00, 0x00][..], &[0x01, 0x01, 0x10, 0x00], &[0x03], &[]] {
        let (mut e, _) = Enumeration::new(0, 0);
        e.on_out(true, 0);
        assert_eq!(wait(e.on_status(Some(reply), 0)), 5_000);
    }
}

#[test]
fn each_failure_starts_over_until_the_fourth() {
    let (mut e, _) = Enumeration::new(2, 0);
    // The request itself.
    assert_eq!(out(e.on_out(false, 10)), SET_RESET);
    assert!(e.error == Some(ResetError::Request));
    assert_eq!((e.attempt, e.start), (2, 10));
    // GET_STATUS.
    e.on_out(true, 20);
    assert_eq!(out(e.on_status(None, 30)), SET_RESET);
    assert!(e.error == Some(ResetError::Status));
    // The timeout: half a second after this attempt began.
    e.on_out(true, 40);
    assert_eq!(wait(e.on_status(Some(&NOT_UP), 500_029)), 5_000);
    e.on_wait_over();
    assert_eq!(out(e.on_status(Some(&NOT_UP), 500_030)), SET_RESET);
    assert!(e.error == Some(ResetError::TimedOut));
    assert_eq!(e.attempt, 4);
    // Clearing the change, on the last attempt.
    e.on_out(true, 500_040);
    e.on_status(Some(&UP), 500_050);
    assert!(matches!(e.on_out(false, 500_060), Action::GiveUp));
    assert!(e.error == Some(ResetError::Clear));
}

#[test]
fn failed_enumeration_resets_the_port_again() {
    let (mut e, _) = Enumeration::new(2, 0);
    for attempt in 1..=4u32 {
        assert_eq!(e.attempt, attempt);
        e.on_out(true, 0);
        e.on_status(Some(&UP), 0);
        e.on_out(true, 0);
        e.on_wait_over();
        let a = e.on_enumerated(false, 0);
        if attempt < 4 {
            assert_eq!(out(a), SET_RESET);
        } else {
            assert!(matches!(a, Action::GiveUp));
        }
    }
}

#[test]
fn reset_errors_are_named() {
    assert_eq!(ResetError::Request.text(), "SET_FEATURE(PORT_RESET) failed");
    assert_eq!(ResetError::Status.text(), "GET_STATUS(port) failed");
    assert_eq!(ResetError::TimedOut.text(), "port reset timed out");
    assert_eq!(ResetError::Clear.text(), "CLEAR_FEATURE(C_PORT_RESET) failed");
}

#[test]
fn ports_get_children_in_order() {
    let mut p = Ports::new();
    assert_eq!(p.free(), Some(0));
    assert!(p.attach(3, 0, Kind::Wheel));
    assert_eq!(p.free(), Some(1));
    assert!(p.attach(1, 1, Kind::Other));
    assert!(p.attach(0, 2, Kind::Other));
    assert_eq!(p.free(), None);
    assert_eq!(p.detach(1), Some(1));
    assert_eq!(p.free(), Some(1));
    // Gone twice is gone once; the others are served on.
    assert_eq!(p.detach(1), None);
    assert_eq!(p.detach(3), Some(0));
    assert_eq!(p.detach(0), Some(2));
    assert_eq!(p.free(), Some(0));
}

#[test]
fn hubs_behind_the_hub_are_not_served() {
    let mut p = Ports::new();
    assert!(!p.attach(3, 0, Kind::Hub));
    assert_eq!(p.free(), Some(0));
    assert_eq!(p.detach(3), None);
}

#[test]
fn port_past_the_tracked_ones() {
    let mut p = Ports::new();
    assert!(p.attach(8, 0, Kind::Other));
    assert_eq!(p.free(), Some(1));
    assert_eq!(p.detach(8), None);
    assert_eq!(p.free(), Some(1));
}

#[test]
fn child_serves_until_removed() {
    let (c, a) = Child::Free.on_event(ChildEvent::Detached);
    assert!(c == Child::Free && a == ChildAction::Nothing);
    let (c, a) = c.on_event(ChildEvent::Attached);
    assert!(c == Child::Serving && a == ChildAction::Serve);
    let (c, a) = c.on_event(ChildEvent::Attached);
    assert!(c == Child::Serving && a == ChildAction::Nothing);
    // Served out: the address is kept until the device is gone.
    let (c, a) = c.on_event(ChildEvent::Ended);
    assert!(c == Child::ServedOut && a == ChildAction::Nothing);
    let (c, a) = c.on_event(ChildEvent::Detached);
    assert!(c == Child::Free && a == ChildAction::Release);
    let (c, a) = Child::Serving.on_event(ChildEvent::Detached);
    assert!(c == Child::Free && a == ChildAction::Release);
}

#[test]
fn hub_errors_are_logged_every_five_seconds() {
    let mut log = Sampler::new(ERROR_LOG_INTERVAL);
    assert_eq!(on_error(&mut log, 100), Some(1));
    assert_eq!(on_error(&mut log, 200), None);
    assert_eq!(on_error(&mut log, 5_000_099), None);
    assert_eq!(on_error(&mut log, 5_000_100), Some(3));
    assert_eq!(on_error(&mut log, 20_000_000), Some(1));
}
