//! Native USB device, in one of three roles ([`Role`]):
//!
//! - [`ps5`] ([`Role::Wheel`]): the PlayStation-mode G Pro (046d:c269), with the c272 wheel
//!   behind it, its IF0 input translated.
//! - [`relay_c269`] ([`Role::Relay`]): the same identity, with another c269 behind it instead of
//!   the wheel. Everything is passed through packet by packet, auth (F0-F3) via
//!   [`crate::auth`]. Connects only once that device is enumerated.
//! - [`mirror_c272`] ([`Role::Mirror`]): the wheel itself (046d:c272). Everything is forwarded
//!   unchanged, class control requests included.
//!
//! Data paths (the host side fills and drains the queues):
//! - IF0 input: wheel role, the latest translated wheel report ([`set_input`]), sent at every
//!   poll; otherwise each backend report (`input_in`).
//! - IF0 output (0x05, 0x30): to the backend's side (`if0_out`).
//! - IF1 HID++: backend reports to the IN endpoint (`hidpp_in`); SET_REPORT to the backend
//!   (`control_out`).
//! - IF2 force feedback: backend reports to the IN endpoint (`ffb_in`); OUT to the backend
//!   (`ffb_out`).
//! - c269: IF0 feature 0x03/0x31 are answered here; auth (F0-F3) through [`crate::auth`].
//!
//! Control requests are answered on the spot, so nothing here waits for the backend.

use crate::auth::{get_report, set_report, Cache, State, HID_GET_REPORT, HID_SET_REPORT, ID_NONCE};
use crate::bytes::{copy_range, hi, lo, same};
use crate::descriptor::{ENDPOINT, INTERFACE};
use crate::hid::{CLASS_HID, DESC_TYPE_HID, DESC_TYPE_REPORT};
use crate::identity::{
    C269_IF0_REPORT_DESC, C272_IF0_REPORT_DESC, FEATURE_03, FEATURE_31, FFB_REPORT_DESC,
    HIDPP_REPORT_DESC,
};
use crate::input_map::{neutral, neutral_report, C269_LEN};
use crate::pace::{counted, GapMeter};
use crate::packet::{packet_bytes, ControlOut, Packet, MAX_PACKET};
use crate::queue::{
    offered, queued_hidpp, queued_packets, queued_requests, ControlQueue, HidppQueue, PacketQueue,
    HIDPP_IN_QUEUE_LEN, QUEUE_LEN,
};
use crate::setup::GET_DESCRIPTOR;
use embassy_usb_driver::{Direction, EndpointAddress};
use vstd::prelude::*;

verus! {

pub const HID_GET_IDLE: u8 = 0x02;

pub const HID_GET_PROTOCOL: u8 = 0x03;

pub const HID_SET_IDLE: u8 = 0x0a;

pub const HID_SET_PROTOCOL: u8 = 0x0b;

pub const REPORT_TYPE_INPUT: u8 = 0x01;

pub const REPORT_TYPE_FEATURE: u8 = 0x03;

pub const IF_INPUT: u16 = 0;

pub const IF_HIDPP: u16 = 1;

/// Mirror mode: connect only once the wheel is enumerated. Off: a host that sees no device for
/// the seconds that a booting wheel needs power-cycles its port.
pub const MIRROR_WAIT_FOR_WHEEL: bool = false;

/// An interrupt endpoint: number (without direction), max packet size, bInterval (ms).
#[derive(Clone, Copy, PartialEq, Eq, Structural)]
pub struct Ep(pub u8, pub u16, pub u8);

/// What is behind the device, and how it is forwarded.
#[derive(Clone, Copy, PartialEq, Eq, Structural)]
pub enum Role {
    /// The c272 wheel; IF0 translated, HID++ and force feedback passed through.
    Wheel,
    /// A device with the same identity; everything passed through.
    Relay,
    /// The c272 wheel, presented as itself; everything passed through.
    Mirror,
}

/// Everything that differs between the personalities.
pub struct Profile {
    /// Log prefix.
    pub name: &'static str,
    pub role: Role,
    /// bcdUSB.
    pub usb_version: u16,
    /// bDeviceClass, bDeviceSubClass, bDeviceProtocol.
    pub class: (u8, u8, u8),
    /// Whether the interfaces are grouped by interface association descriptors.
    pub composite_with_iads: bool,
    /// Packet size of endpoint 0.
    pub max_packet_size_0: u8,
    pub vid: u16,
    pub pid: u16,
    pub release: u16,
    pub manufacturer: &'static str,
    pub product: &'static str,
    pub serial: &'static str,
    pub self_powered: bool,
    pub remote_wakeup: bool,
    pub max_power_ma: u16,
    /// bcdHID and report descriptor of IF0, IF1, IF2.
    pub hid: [(u16, &'static [u8]); 3],
    /// IF0's OUT endpoint, listed before its IN endpoint.
    pub if0_out: Option<Ep>,
    pub if0_in: Ep,
    pub if1_in: Ep,
    /// IF2: IN endpoint first, then OUT.
    pub if2_in: Ep,
    pub if2_out: Ep,
    /// IF0 feature reports answered locally (report ID first).
    pub features: Vec<&'static [u8]>,
}

impl Profile {
    /// Every feature report has its ID.
    pub open spec fn wf(self) -> bool {
        forall|i: int| 0 <= i < self.features@.len() ==> (#[trigger] self.features@[i])@.len() > 0
    }

    /// What both wheels have in common: USB 2.0, the class given by each interface, no interface
    /// associations, 64-byte packets on endpoint 0, its own power source, no remote wakeup.
    pub open spec fn is_g_pro(self) -> bool {
        &&& self.usb_version == 0x0200
        &&& self.class == (0u8, 0u8, 0u8)
        &&& !self.composite_with_iads
        &&& self.max_packet_size_0 == 64
        &&& self.vid == 0x046d
        &&& self.manufacturer@ == "Logitech "@
        &&& self.serial@ == "000000000000"@
        &&& self.self_powered
        &&& !self.remote_wakeup
    }

    /// The PlayStation-mode G Pro.
    pub open spec fn is_c269(self) -> bool {
        &&& self.is_g_pro()
        &&& self.pid == 0xc269
        &&& self.release == 0x3300
        &&& self.product@ == "PRO Raccing Wheel for Playstation /PC"@
        &&& self.max_power_ma == 200
        &&& self.hid@[0].0 == 0x0110
        &&& self.hid@[0].1@ == C269_IF0_REPORT_DESC@
        &&& self.hid@[1].0 == 0x0111
        &&& self.hid@[1].1@ == HIDPP_REPORT_DESC@
        &&& self.hid@[2].0 == 0x0111
        &&& self.hid@[2].1@ == FFB_REPORT_DESC@
        &&& self.if0_out == Some(Ep(1, 64, 1))
        &&& self.if0_in == Ep(1, 64, 5)
        &&& self.if1_in == Ep(3, 20, 5)
        &&& self.if2_in == Ep(2, 64, 1)
        &&& self.if2_out == Ep(2, 64, 1)
        &&& self.features@.len() == 2
        &&& self.features@[0]@ == FEATURE_03@
        &&& self.features@[1]@ == FEATURE_31@
    }

    /// The G Pro Xbox/PC itself.
    pub open spec fn is_c272(self) -> bool {
        &&& self.is_g_pro()
        &&& self.pid == 0xc272
        &&& self.release == 0x3309
        &&& self.product@ == "PRO Racing Wheel"@
        &&& self.max_power_ma == 100
        &&& self.hid@[0].0 == 0x0111
        &&& self.hid@[0].1@ == C272_IF0_REPORT_DESC@
        &&& self.hid@[1].0 == 0x0111
        &&& self.hid@[1].1@ == HIDPP_REPORT_DESC@
        &&& self.hid@[2].0 == 0x0111
        &&& self.hid@[2].1@ == FFB_REPORT_DESC@
        &&& self.if0_out is None
        &&& self.if0_in == Ep(1, 64, 1)
        &&& self.if1_in == Ep(2, 64, 1)
        &&& self.if2_in == Ep(3, 64, 1)
        &&& self.if2_out == Ep(3, 64, 1)
        &&& self.features@.len() == 0
    }
}

/// The PlayStation-mode G Pro. The strings are those that the console knows, typos included; the
/// serial number is a placeholder (also in feature 0x31).
fn c269(name: &'static str, role: Role) -> (p: Profile)
    ensures
        p.wf(),
        p.is_c269(),
        p.name@ == name@,
        p.role == role,
{
    let mut features: Vec<&'static [u8]> = Vec::new();
    features.push(&FEATURE_03);
    features.push(&FEATURE_31);
    Profile {
        name,
        role,
        usb_version: 0x0200,
        class: (0, 0, 0),
        composite_with_iads: false,
        max_packet_size_0: 64,
        vid: 0x046d,
        pid: 0xc269,
        release: 0x3300,
        manufacturer: "Logitech ",
        product: "PRO Raccing Wheel for Playstation /PC",
        serial: "000000000000",
        self_powered: true,
        remote_wakeup: false,
        max_power_ma: 200,
        hid: [
            (0x0110, &C269_IF0_REPORT_DESC),
            (0x0111, &HIDPP_REPORT_DESC),
            (0x0111, &FFB_REPORT_DESC),
        ],
        if0_out: Some(Ep(1, 64, 1)),
        if0_in: Ep(1, 64, 5),
        // 20 bytes per 5 ms poll (the wheel's own is 64 bytes, 1 ms).
        if1_in: Ep(3, 20, 5),
        if2_in: Ep(2, 64, 1),
        if2_out: Ep(2, 64, 1),
        features,
    }
}

/// c269 with the wheel behind it.
pub fn ps5() -> (p: Profile)
    ensures
        p.wf(),
        p.is_c269(),
        p.name@ == "PS device"@,
        p.role == Role::Wheel,
{
    c269("PS device", Role::Wheel)
}

/// c269 with a c269 behind it.
pub fn relay_c269() -> (p: Profile)
    ensures
        p.wf(),
        p.is_c269(),
        p.name@ == "relay device"@,
        p.role == Role::Relay,
{
    c269("relay device", Role::Relay)
}

/// The G Pro Xbox/PC itself. The wheel's own serial number is not reproduced.
pub fn mirror_c272() -> (p: Profile)
    ensures
        p.wf(),
        p.is_c272(),
        p.name@ == "mirror device"@,
        p.role == Role::Mirror,
{
    Profile {
        name: "mirror device",
        role: Role::Mirror,
        usb_version: 0x0200,
        class: (0, 0, 0),
        composite_with_iads: false,
        max_packet_size_0: 64,
        vid: 0x046d,
        pid: 0xc272,
        release: 0x3309,
        manufacturer: "Logitech ",
        product: "PRO Racing Wheel",
        serial: "000000000000",
        self_powered: true,
        remote_wakeup: false,
        max_power_ma: 100,
        hid: [
            (0x0111, &C272_IF0_REPORT_DESC),
            (0x0111, &HIDPP_REPORT_DESC),
            (0x0111, &FFB_REPORT_DESC),
        ],
        if0_out: None,
        if0_in: Ep(1, 64, 1),
        if1_in: Ep(2, 64, 1),
        if2_in: Ep(3, 64, 1),
        if2_out: Ep(3, 64, 1),
        features: Vec::new(),
    }
}

/// Whether to stay off the bus until the device behind the bridge is enumerated.
pub fn waits_for_backend(role: Role) -> (wait: bool)
    ensures
        wait == (role == Role::Relay || (role == Role::Mirror && MIRROR_WAIT_FOR_WHEEL)),
{
    match role {
        Role::Wheel => false,
        Role::Relay => true,
        Role::Mirror => MIRROR_WAIT_FOR_WHEEL,
    }
}

/// An endpoint to allocate, with its address on the bus.
#[derive(Clone, Copy, PartialEq, Eq, Structural)]
pub struct Endpoint {
    pub interface: u8,
    pub address: u8,
    pub max_packet: u16,
    pub interval_ms: u8,
}

/// Address of an endpoint: its number, with the top bit set for IN.
pub open spec fn address(number: u8, input: bool) -> u8 {
    if input {
        number | 0x80
    } else {
        number
    }
}

/// `EndpointAddress::from_parts`: the number with bit 7 set for an IN endpoint.
#[verifier::external_body]
pub(crate) fn endpoint_address(number: u8, input: bool) -> (r: u8)
    ensures
        r == address(number, input),
{
    let dir = if input { Direction::In } else { Direction::Out };
    EndpointAddress::from_parts(usize::from(number), dir).into()
}

pub open spec fn endpoint(interface: u8, ep: Ep, input: bool) -> Endpoint {
    Endpoint {
        interface,
        address: address(ep.0, input),
        max_packet: ep.1,
        interval_ms: ep.2,
    }
}

/// The endpoints of a device, in the order in which its configuration lists them.
pub open spec fn endpoints(p: Profile) -> Seq<Endpoint> {
    (match p.if0_out {
        Some(ep) => seq![endpoint(0, ep, false)],
        None => seq![],
    }) + seq![
        endpoint(0, p.if0_in, true),
        endpoint(1, p.if1_in, true),
        endpoint(2, p.if2_in, true),
        endpoint(2, p.if2_out, false),
    ]
}

fn make_endpoint(interface: u8, ep: Ep, input: bool) -> (r: Endpoint)
    ensures
        r == endpoint(interface, ep, input),
{
    Endpoint {
        interface,
        address: endpoint_address(ep.0, input),
        max_packet: ep.1,
        interval_ms: ep.2,
    }
}

/// The endpoints to allocate, in order.
pub fn layout(p: &Profile) -> (r: Vec<Endpoint>)
    ensures
        r@ == endpoints(*p),
{
    let mut r: Vec<Endpoint> = Vec::new();
    if let Some(ep) = p.if0_out {
        r.push(make_endpoint(0, ep, false));
    }
    r.push(make_endpoint(0, p.if0_in, true));
    r.push(make_endpoint(1, p.if1_in, true));
    r.push(make_endpoint(2, p.if2_in, true));
    r.push(make_endpoint(2, p.if2_out, false));
    assert(r@ =~= endpoints(*p));
    r
}

/// Class-specific HID descriptor (HID 1.11 6.2.1), without bLength/bDescriptorType: bcdHID,
/// bCountryCode, bNumDescriptors, report descriptor type and length (its low 16 bits).
pub open spec fn hid_descriptor_bytes(bcd_hid: u16, report_len: int) -> Seq<u8> {
    seq![
        (bcd_hid % 256) as u8,
        (bcd_hid / 256) as u8,
        0x00,
        0x01,
        DESC_TYPE_REPORT,
        (report_len % 256) as u8,
        (report_len / 256 % 256) as u8,
    ]
}

pub fn hid_descriptor(bcd_hid: u16, report_len: usize) -> (r: [u8; 7])
    ensures
        r@ == hid_descriptor_bytes(bcd_hid, report_len as int),
{
    let r = [
        lo(bcd_hid),
        hi(bcd_hid),
        0x00,
        0x01,
        DESC_TYPE_REPORT,
        (report_len % 256) as u8,
        (report_len / 256 % 256) as u8,
    ];
    assert(r@ =~= hid_descriptor_bytes(bcd_hid, report_len as int));
    r
}

/// A HID descriptor with its bLength and bDescriptorType.
pub open spec fn whole_hid_descriptor(bcd_hid: u16, report_len: int) -> Seq<u8> {
    seq![9u8, DESC_TYPE_HID] + hid_descriptor_bytes(bcd_hid, report_len)
}

/// An endpoint descriptor (USB 2.0, table 9-13) for an interrupt endpoint.
pub open spec fn endpoint_descriptor(e: Endpoint) -> Seq<u8> {
    seq![
        7u8,
        ENDPOINT,
        e.address,
        0x03,
        (e.max_packet % 256) as u8,
        (e.max_packet / 256) as u8,
        e.interval_ms,
    ]
}

/// Feature 0x31 shows the console IF2 as the configuration has it: interface 2 with two
/// endpoints, its HID descriptor, and its endpoints in order; zero after that.
pub proof fn law_feature_31_shows_if2(p: Profile)
    requires
        p.is_c269(),
    ensures
        FEATURE_31@.subrange(0x42, 98) == seq![
            9u8,
            INTERFACE,
            2,
            0,
            2,
            CLASS_HID,
            0,
            0,
            0,
        ] + whole_hid_descriptor(p.hid@[2].0, p.hid@[2].1@.len() as int) + endpoint_descriptor(
            endpoint(2, p.if2_in, true),
        ) + endpoint_descriptor(endpoint(2, p.if2_out, false)),
        forall|i: int| 98 <= i < FEATURE_31@.len() ==> FEATURE_31@[i] == 0,
{
    assert(2u8 | 0x80 == 0x82) by (bit_vector);
    let want = seq![9u8, INTERFACE, 2, 0, 2, CLASS_HID, 0, 0, 0] + whole_hid_descriptor(
        p.hid@[2].0,
        p.hid@[2].1@.len() as int,
    ) + endpoint_descriptor(endpoint(2, p.if2_in, true)) + endpoint_descriptor(
        endpoint(2, p.if2_out, false),
    );
    assert(FEATURE_31@.subrange(0x42, 98) =~= want);
}

/// wTotalLength of the configuration descriptor: its own 9 bytes, an interface and a HID descriptor
/// for each of three interfaces, and the endpoints.
pub open spec fn configuration_len(p: Profile) -> nat {
    (9 + 3 * (9 + 9) + 7 * endpoints(p).len()) as nat
}

/// bmAttributes of the configuration descriptor (USB 2.0, table 9-10).
pub open spec fn configuration_attributes(p: Profile) -> u8 {
    0x80u8 | (if p.self_powered {
        0x40u8
    } else {
        0u8
    }) | (if p.remote_wakeup {
        0x20u8
    } else {
        0u8
    })
}

/// The configuration descriptor is 98 bytes long on the c269 and 91 on the c272, which has no IF0
/// OUT endpoint; its attributes are 0xc0 on both.
pub proof fn law_configuration(p: Profile)
    ensures
        p.is_c269() ==> configuration_len(p) == 98,
        p.is_c272() ==> configuration_len(p) == 91,
        p.is_g_pro() ==> configuration_attributes(p) == 0xc0,
{
    assert(0x80u8 | 0x40 | 0 == 0xc0) by (bit_vector);
}

/// Longest pause in force feedback from the console that is not logged.
pub const FFB_GAP: u64 = 100_000;

/// Device-side counters, logged by the host side.
#[derive(Clone, Copy, PartialEq, Eq, Structural)]
pub struct Stats {
    pub input_sent: u32,
    pub hidpp_sent: u32,
    pub hidpp_set_report: u32,
    pub ffb_sent: u32,
    pub ffb_received: u32,
    /// Messages lost because a queue was full.
    pub dropped: u32,
}

pub open spec fn no_stats() -> Stats {
    Stats {
        input_sent: 0,
        hidpp_sent: 0,
        hidpp_set_report: 0,
        ffb_sent: 0,
        ffb_received: 0,
        dropped: 0,
    }
}

impl Stats {
    pub fn new() -> (s: Self)
        ensures
            s == no_stats(),
    {
        Stats {
            input_sent: 0,
            hidpp_sent: 0,
            hidpp_set_report: 0,
            ffb_sent: 0,
            ffb_received: 0,
            dropped: 0,
        }
    }
}

/// One more event; the counter wraps around.
pub fn count(counter: &mut u32)
    ensures
        *final(counter) == counted(*old(counter)),
{
    *counter = counter.wrapping_add(1);
}

/// Read a counter and start it over.
pub fn take(counter: &mut u32) -> (n: u32)
    ensures
        n == *old(counter),
        *final(counter) == 0,
{
    let n: u32 = *counter;
    *counter = 0;
    n
}

/// The device side and everything that it shares with the host side.
pub struct Device {
    pub profile: Profile,
    pub auth: State,
    /// Wheel role: the IF0 input report sent at every poll.
    pub input: [u8; C269_LEN],
    pub stats: Stats,
    pub input_in: PacketQueue,
    pub hidpp_in: HidppQueue,
    pub ffb_in: PacketQueue,
    pub control_out: ControlQueue,
    pub ffb_out: PacketQueue,
    /// IF0 output reports from the console.
    pub if0_out: PacketQueue,
    /// The last IF0 output report, and how often it came again.
    pub if0_last: Packet,
    pub if0_repeats: u32,
    pub ffb_gap: GapMeter,
}

/// The values that [`Device`] holds, besides its profile.
pub struct Port {
    pub auth: Cache,
    pub input: Seq<u8>,
    pub stats: Stats,
    pub input_in: Seq<Seq<u8>>,
    pub hidpp_in: Seq<Seq<u8>>,
    pub ffb_in: Seq<Seq<u8>>,
    pub control_out: Seq<(u8, u16, u16, Seq<u8>)>,
    pub ffb_out: Seq<Seq<u8>>,
    pub if0_out: Seq<Seq<u8>>,
    pub if0_last: Seq<u8>,
    pub if0_repeats: u32,
    pub ffb_gap: GapMeter,
}

impl View for Device {
    type V = Port;

    open spec fn view(&self) -> Port {
        Port {
            auth: self.auth@,
            input: self.input@,
            stats: self.stats,
            input_in: queued_packets(self.input_in),
            hidpp_in: queued_hidpp(self.hidpp_in),
            ffb_in: queued_packets(self.ffb_in),
            control_out: queued_requests(self.control_out),
            ffb_out: queued_packets(self.ffb_out),
            if0_out: queued_packets(self.if0_out),
            if0_last: self.if0_last@,
            if0_repeats: self.if0_repeats,
            ffb_gap: self.ffb_gap,
        }
    }
}

impl Device {
    pub open spec fn wf(self) -> bool {
        &&& self.profile.wf()
        &&& self.auth.wf()
    }

    /// Nothing received yet, in either direction.
    pub fn new(profile: Profile) -> (d: Self)
        requires
            profile.wf(),
        ensures
            d.wf(),
            d.profile == profile,
            d@.auth == Cache::fresh(),
            d@.input == neutral_report(),
            d@.input_in == Seq::<Seq<u8>>::empty(),
            d@.hidpp_in == Seq::<Seq<u8>>::empty(),
            d@.ffb_in == Seq::<Seq<u8>>::empty(),
            d@.control_out == Seq::<(u8, u16, u16, Seq<u8>)>::empty(),
            d@.ffb_out == Seq::<Seq<u8>>::empty(),
            d@.if0_out == Seq::<Seq<u8>>::empty(),
            d@.if0_last == Seq::<u8>::empty(),
            d@.if0_repeats == 0,
            d@.stats == no_stats(),
            d@.ffb_gap == (GapMeter { limit: FFB_GAP, last: None }),
    {
        let d = Device {
            profile,
            auth: State::new(),
            input: neutral(),
            stats: Stats::new(),
            input_in: PacketQueue::new(),
            hidpp_in: HidppQueue::new(),
            ffb_in: PacketQueue::new(),
            control_out: ControlQueue::new(),
            ffb_out: PacketQueue::new(),
            if0_out: PacketQueue::new(),
            if0_last: Packet::new(&[]),
            if0_repeats: 0,
            ffb_gap: GapMeter::new(FFB_GAP),
        };
        assert(d@.if0_last =~= Seq::<u8>::empty());
        d
    }
}

/// Read the counters and start them over.
pub fn take_stats(dev: &mut Device) -> (r: Stats)
    requires
        old(dev).wf(),
    ensures
        final(dev).wf(),
        final(dev).profile == old(dev).profile,
        r == old(dev)@.stats,
        final(dev)@ == (Port { stats: no_stats(), ..old(dev)@ }),
{
    Stats {
        input_sent: take(&mut dev.stats.input_sent),
        hidpp_sent: take(&mut dev.stats.hidpp_sent),
        hidpp_set_report: take(&mut dev.stats.hidpp_set_report),
        ffb_sent: take(&mut dev.stats.ffb_sent),
        ffb_received: take(&mut dev.stats.ffb_received),
        dropped: take(&mut dev.stats.dropped),
    }
}

/// Wheel role: replace the IF0 input report sent from now on.
pub fn set_input(dev: &mut Device, report: [u8; C269_LEN])
    requires
        old(dev).wf(),
    ensures
        final(dev).wf(),
        final(dev).profile == old(dev).profile,
        final(dev)@ == (Port { input: report@, ..old(dev)@ }),
{
    dev.input = report;
}

/// The IF0 input report sent at the next poll.
pub fn input(dev: &Device) -> (report: [u8; C269_LEN])
    ensures
        report@ == dev@.input,
{
    dev.input
}

// ---- control requests ----

/// Who a control request is for.
#[derive(Clone, Copy, PartialEq, Eq, Structural)]
pub enum Recipient {
    Device,
    Interface,
    Endpoint,
    Other,
    Reserved,
}

#[derive(Clone, Copy, PartialEq, Eq, Structural)]
pub enum RequestType {
    Standard,
    Class,
    Vendor,
    Reserved,
}

/// A control request from the console.
#[derive(Clone, Copy, PartialEq, Eq, Structural)]
pub struct Request {
    pub request_type: RequestType,
    pub recipient: Recipient,
    pub request: u8,
    pub value: u16,
    pub index: u16,
}

impl Request {
    /// Descriptor or report type: the high byte of wValue.
    pub open spec fn kind(self) -> u8 {
        (self.value / 256) as u8
    }

    /// Descriptor index or report ID: the low byte of wValue.
    pub open spec fn id(self) -> u8 {
        (self.value % 256) as u8
    }
}

/// Answer to a device-to-host request.
pub enum InReply {
    Accepted(Vec<u8>),
    Rejected,
}

/// An [`InReply`], by its bytes.
pub enum InAnswer {
    Accepted(Seq<u8>),
    Rejected,
}

impl View for InReply {
    type V = InAnswer;

    open spec fn view(&self) -> InAnswer {
        match self {
            InReply::Accepted(data) => InAnswer::Accepted(data@),
            InReply::Rejected => InAnswer::Rejected,
        }
    }
}

/// Answer to a host-to-device request.
#[derive(Clone, Copy, PartialEq, Eq, Structural)]
pub enum OutReply {
    Accepted,
    Rejected,
}

/// The first of `features` with report ID `id`.
pub open spec fn feature(features: Seq<&'static [u8]>, id: u8) -> Option<Seq<u8>>
    decreases features.len(),
{
    if features.len() == 0 {
        None
    } else if features[0]@[0] == id {
        Some(features[0]@)
    } else {
        feature(features.drop_first(), id)
    }
}

fn find_feature(features: &Vec<&'static [u8]>, id: u8) -> (r: Option<&'static [u8]>)
    requires
        forall|i: int| 0 <= i < features@.len() ==> (#[trigger] features@[i])@.len() > 0,
    ensures
        match r {
            Some(f) => feature(features@, id) == Some(f@),
            None => feature(features@, id) is None,
        },
{
    let mut i: usize = 0;
    assert(features@.skip(0) =~= features@);
    while i < features.len()
        invariant
            i <= features@.len(),
            forall|k: int| 0 <= k < features@.len() ==> (#[trigger] features@[k])@.len() > 0,
            feature(features@, id) == feature(features@.skip(i as int), id),
        decreases features@.len() - i,
    {
        assert(features@.skip(i as int).drop_first() =~= features@.skip(i + 1));
        assert(features@.skip(i as int)[0] == features@[i as int]);
        let f: &'static [u8] = features[i];
        if f[0] == id {
            return Some(f);
        }
        i += 1;
    }
    None
}

impl Port {
    /// A feature report on IF0, which may be one of the auth reports.
    pub open spec fn may_be_auth(p: Profile, req: Request) -> bool {
        p.role != Role::Mirror && req.kind() == REPORT_TYPE_FEATURE && req.index == IF_INPUT
    }

    /// GET_REPORT: the auth reports, then the profile's own features, then (wheel role) the
    /// input report.
    pub open spec fn report(self, p: Profile, req: Request) -> InAnswer {
        if Self::may_be_auth(p, req) && self.auth.answer(req.id()) is Some {
            InAnswer::Accepted(self.auth.answer(req.id())->0)
        } else if req.kind() == REPORT_TYPE_FEATURE && req.index == IF_INPUT && feature(
            p.features@,
            req.id(),
        ) is Some {
            InAnswer::Accepted(feature(p.features@, req.id())->0)
        } else if req.kind() == REPORT_TYPE_INPUT && req.id() == 0x01 && req.index == IF_INPUT
            && p.role == Role::Wheel {
            InAnswer::Accepted(self.input)
        } else {
            InAnswer::Rejected
        }
    }

    /// The answer to a device-to-host request; `None`: not for the HID interfaces.
    pub open spec fn in_answer(self, p: Profile, req: Request) -> Option<InAnswer> {
        if req.recipient != Recipient::Interface {
            None
        } else if req.request_type == RequestType::Standard && req.request == GET_DESCRIPTOR {
            if req.kind() == DESC_TYPE_REPORT && req.index < 3 {
                Some(InAnswer::Accepted(p.hid@[req.index as int].1@))
            } else if req.kind() == DESC_TYPE_HID && req.index < 3 {
                Some(
                    InAnswer::Accepted(
                        whole_hid_descriptor(
                            p.hid@[req.index as int].0,
                            p.hid@[req.index as int].1@.len() as int,
                        ),
                    ),
                )
            } else {
                Some(InAnswer::Rejected)
            }
        } else if req.request_type == RequestType::Class && req.request == HID_GET_REPORT {
            Some(self.report(p, req))
        } else if req.request_type == RequestType::Class && req.request == HID_GET_IDLE {
            Some(InAnswer::Accepted(seq![0u8]))
        } else if req.request_type == RequestType::Class && req.request == HID_GET_PROTOCOL {
            // The report protocol.
            Some(InAnswer::Accepted(seq![1u8]))
        } else {
            Some(InAnswer::Rejected)
        }
    }

    pub open spec fn is_get_report(req: Request) -> bool {
        req.recipient == Recipient::Interface && req.request_type == RequestType::Class
            && req.request == HID_GET_REPORT
    }

    /// After a device-to-host request: reading an auth report moves the auth state on.
    pub open spec fn after_in(self, p: Profile, req: Request) -> Port {
        if Self::is_get_report(req) && Self::may_be_auth(p, req) {
            Port { auth: self.auth.after_get(req.id()), ..self }
        } else {
            self
        }
    }
}

fn get_report_reply(dev: &mut Device, req: &Request) -> (r: InReply)
    requires
        old(dev).wf(),
        Port::is_get_report(*req),
    ensures
        final(dev).wf(),
        final(dev).profile == old(dev).profile,
        r@ == old(dev)@.report(old(dev).profile, *req),
        final(dev)@ == old(dev)@.after_in(old(dev).profile, *req),
{
    let kind: u8 = hi(req.value);
    let id: u8 = lo(req.value);
    if dev.profile.role != Role::Mirror && kind == REPORT_TYPE_FEATURE && req.index == IF_INPUT {
        let mut buf: [u8; MAX_PACKET] = [0;MAX_PACKET];
        if let Some(n) = get_report(&mut dev.auth, id, &mut buf) {
            let data = copy_range(&buf, 0, n);
            assert(data@ =~= old(dev)@.auth.answer(id)->0);
            return InReply::Accepted(data);
        }
    }
    if kind == REPORT_TYPE_FEATURE && req.index == IF_INPUT {
        if let Some(f) = find_feature(&dev.profile.features, id) {
            let data = copy_range(f, 0, f.len());
            assert(data@ =~= f@);
            return InReply::Accepted(data);
        }
    }
    if kind == REPORT_TYPE_INPUT && id == 0x01 && req.index == IF_INPUT && dev.profile.role
        == Role::Wheel {
        let report: [u8; C269_LEN] = input(dev);
        let data = copy_range(&report, 0, C269_LEN);
        assert(data@ =~= report@);
        return InReply::Accepted(data);
    }
    InReply::Rejected
}

/// Answer a device-to-host request: the HID and report descriptors and the HID class requests.
/// `None`: not a request to an interface.
pub fn control_in(dev: &mut Device, req: &Request) -> (r: Option<InReply>)
    requires
        old(dev).wf(),
    ensures
        final(dev).wf(),
        final(dev).profile == old(dev).profile,
        match r {
            Some(reply) => old(dev)@.in_answer(old(dev).profile, *req) == Some(reply@),
            None => old(dev)@.in_answer(old(dev).profile, *req) is None,
        },
        final(dev)@ == old(dev)@.after_in(old(dev).profile, *req),
{
    if req.recipient != Recipient::Interface {
        return None;
    }
    if req.request_type == RequestType::Standard && req.request == GET_DESCRIPTOR {
        if hi(req.value) == DESC_TYPE_REPORT && req.index < 3 {
            let report: &'static [u8] = dev.profile.hid[req.index as usize].1;
            let data = copy_range(report, 0, report.len());
            assert(data@ =~= report@);
            return Some(InReply::Accepted(data));
        }
        if hi(req.value) == DESC_TYPE_HID && req.index < 3 {
            let (bcd_hid, report) = dev.profile.hid[req.index as usize];
            let body: [u8; 7] = hid_descriptor(bcd_hid, report.len());
            let data: Vec<u8> = vec![
                9u8,
                DESC_TYPE_HID,
                body[0],
                body[1],
                body[2],
                body[3],
                body[4],
                body[5],
                body[6],
            ];
            assert(data@ =~= whole_hid_descriptor(bcd_hid, report@.len() as int));
            return Some(InReply::Accepted(data));
        }
        return Some(InReply::Rejected);
    }
    if req.request_type == RequestType::Class {
        if req.request == HID_GET_REPORT {
            return Some(get_report_reply(dev, req));
        }
        if req.request == HID_GET_IDLE {
            let data: Vec<u8> = vec![0u8];
            assert(data@ =~= seq![0u8]);
            return Some(InReply::Accepted(data));
        }
        if req.request == HID_GET_PROTOCOL {
            let data: Vec<u8> = vec![1u8];
            assert(data@ =~= seq![1u8]);
            return Some(InReply::Accepted(data));
        }
    }
    Some(InReply::Rejected)
}

/// The counters after a message that was lost if `lost`.
pub open spec fn dropped_if(stats: Stats, lost: bool) -> Stats {
    if lost {
        Stats { dropped: counted(stats.dropped), ..stats }
    } else {
        stats
    }
}

impl Port {
    /// SET_REPORT on IF1: a HID++ request.
    pub open spec fn is_hidpp(req: Request) -> bool {
        req.request == HID_SET_REPORT && req.index == IF_HIDPP
    }

    /// A class request to an interface; others are not handled here.
    pub open spec fn is_class_out(req: Request) -> bool {
        req.recipient == Recipient::Interface && req.request_type == RequestType::Class
    }

    /// SET_REPORT of a feature report on IF0, which may be a nonce page.
    pub open spec fn may_be_nonce(p: Profile, req: Request) -> bool {
        req.request == HID_SET_REPORT && Self::may_be_auth(p, req)
    }

    /// The request goes to the backend: relay and mirror, every class request but the nonce
    /// pages of the relay; wheel role, HID++.
    pub open spec fn repeats(p: Profile, req: Request) -> bool {
        &&& Self::is_class_out(req)
        &&& !(Self::may_be_nonce(p, req) && req.id() == ID_NONCE)
        &&& p.role != Role::Wheel || Self::is_hidpp(req)
    }

    /// The answer to a host-to-device request; `None`: not handled here.
    pub open spec fn out_answer(p: Profile, req: Request) -> Option<OutReply> {
        if !Self::is_class_out(req) {
            None
        } else if (Self::may_be_nonce(p, req) && req.id() == ID_NONCE) || Self::repeats(p, req)
            || req.request == HID_SET_IDLE || req.request == HID_SET_PROTOCOL || req.request
            == HID_SET_REPORT {
            Some(OutReply::Accepted)
        } else {
            Some(OutReply::Rejected)
        }
    }

    /// After a host-to-device request with `data`.
    pub open spec fn after_out(self, p: Profile, req: Request, data: Seq<u8>) -> Port {
        if !Self::is_class_out(req) {
            self
        } else {
            let counted_stats = if Self::is_hidpp(req) {
                Stats { hidpp_set_report: counted(self.stats.hidpp_set_report), ..self.stats }
            } else {
                self.stats
            };
            let auth = if Self::may_be_nonce(p, req) {
                self.auth.after_set(req.id(), data)
            } else {
                self.auth
            };
            if Self::repeats(p, req) {
                Port {
                    auth,
                    control_out: offered(
                        self.control_out,
                        QUEUE_LEN as nat,
                        (req.request, req.value, req.index, packet_bytes(data)),
                    ),
                    stats: dropped_if(counted_stats, self.control_out.len() >= QUEUE_LEN),
                    ..self
                }
            } else {
                Port { auth, stats: counted_stats, ..self }
            }
        }
    }
}

/// Answer a host-to-device request with `data`, and queue it for the backend where it goes
/// there. `None`: not a class request to an interface.
pub fn control_out(dev: &mut Device, req: &Request, data: &[u8]) -> (r: Option<OutReply>)
    requires
        old(dev).wf(),
    ensures
        final(dev).wf(),
        final(dev).profile == old(dev).profile,
        r == Port::out_answer(old(dev).profile, *req),
        final(dev)@ == old(dev)@.after_out(old(dev).profile, *req, data@),
{
    if req.recipient != Recipient::Interface || req.request_type != RequestType::Class {
        return None;
    }
    let hidpp: bool = req.request == HID_SET_REPORT && req.index == IF_HIDPP;
    if hidpp {
        count(&mut dev.stats.hidpp_set_report);
    }
    let id: u8 = lo(req.value);
    if dev.profile.role != Role::Mirror && req.request == HID_SET_REPORT && req.index == IF_INPUT
        && hi(req.value) == REPORT_TYPE_FEATURE {
        if set_report(&mut dev.auth, id, data) {
            return Some(OutReply::Accepted);
        }
    }
    if dev.profile.role != Role::Wheel || hidpp {
        let msg = ControlOut {
            request: req.request,
            value: req.value,
            index: req.index,
            data: Packet::new(data),
        };
        if !dev.control_out.try_send(msg) {
            count(&mut dev.stats.dropped);
        }
        return Some(OutReply::Accepted);
    }
    if req.request == HID_SET_IDLE || req.request == HID_SET_PROTOCOL || req.request
        == HID_SET_REPORT {
        Some(OutReply::Accepted)
    } else {
        Some(OutReply::Rejected)
    }
}

// ---- endpoints ----

/// `report` cut into packets of `max` bytes, the last of which may be shorter.
pub open spec fn chunks(report: Seq<u8>, max: nat) -> Seq<Seq<u8>>
    decreases report.len(),
{
    if report.len() == 0 || max == 0 {
        seq![]
    } else if report.len() <= max {
        seq![report]
    } else {
        seq![report.take(max as int)] + chunks(report.skip(max as int), max)
    }
}

/// The packets that carry `report` on an IN endpoint with packets of up to `max` bytes.
pub open spec fn packets(role: Role, report: Seq<u8>, max: nat) -> Seq<Seq<u8>> {
    if role == Role::Relay {
        seq![report]
    } else if report.len() < MAX_PACKET && report.len() % max == 0 {
        chunks(report, max).push(seq![])
    } else {
        chunks(report, max)
    }
}

/// The bytes of each packet.
pub open spec fn contents(packets: Seq<Packet>) -> Seq<Seq<u8>> {
    Seq::new(packets.len(), |i: int| packets[i]@)
}

/// Packets to write to an IN endpoint for a queued report.
///
/// Relay: one packet per packet received from the backend, zero-length ones included (its
/// endpoints are the same as ours, so its framing is kept as is).
///
/// Otherwise one report per transfer. A report that exactly fills its last packet but is shorter
/// than the longest report ([`MAX_PACKET`]) needs a zero-length packet to end the transfer (e.g.
/// a 20-byte HID++ report on a 20-byte endpoint); a longest-size report ends by itself.
pub fn in_packets(role: Role, report: &Packet, max: usize) -> (r: Vec<Packet>)
    requires
        max > 0,
    ensures
        contents(r@) == packets(role, report@, max as nat),
{
    let mut r: Vec<Packet> = Vec::new();
    if role == Role::Relay {
        r.push(*report);
        assert(contents(r@) =~= seq![report@]);
        return r;
    }
    let bytes: &[u8] = report.bytes();
    let n: usize = bytes.len();
    let mut done: usize = 0;
    assert(bytes@.skip(0) =~= bytes@);
    assert(contents(r@) + chunks(bytes@, max as nat) =~= chunks(bytes@, max as nat));
    while done < n
        invariant
            max > 0,
            done <= n == bytes@.len() <= MAX_PACKET,
            contents(r@) + chunks(bytes@.skip(done as int), max as nat) == chunks(
                bytes@,
                max as nat,
            ),
        decreases n - done,
    {
        let ghost rest = bytes@.skip(done as int);
        let ghost before = contents(r@);
        let end: usize = if n - done <= max {
            n
        } else {
            done + max
        };
        let packet = Packet::new(&bytes[done..end]);
        r.push(packet);
        proof {
            let part = bytes@.subrange(done as int, end as int);
            assert(packet@ =~= part);
            assert(contents(r@) =~= before.push(part));
            let left = chunks(bytes@.skip(end as int), max as nat);
            if rest.len() <= max {
                assert(part =~= rest);
                assert(before.push(part) + left =~= before + seq![rest]);
            } else {
                assert(part =~= rest.take(max as int));
                assert(rest.skip(max as int) =~= bytes@.skip(end as int));
                assert(before.push(part) + left =~= before + (seq![part] + left));
            }
        }
        done = end;
    }
    assert(contents(r@) =~= chunks(bytes@, max as nat));
    if n < MAX_PACKET && n % max == 0 {
        r.push(Packet::new(&[]));
        assert(r@.last()@ =~= seq![]);
        assert(contents(r@) =~= chunks(bytes@, max as nat).push(seq![]));
    }
    r
}

/// The counters after writing a report to the IN endpoint of `interface` (`ok`: it was sent).
pub open spec fn sent_if(stats: Stats, interface: u8, ok: bool) -> Stats {
    if !ok {
        stats
    } else if interface == 0 {
        Stats { input_sent: counted(stats.input_sent), ..stats }
    } else if interface == 1 {
        Stats { hidpp_sent: counted(stats.hidpp_sent), ..stats }
    } else if interface == 2 {
        Stats { ffb_sent: counted(stats.ffb_sent), ..stats }
    } else {
        stats
    }
}

/// A report was written to the IN endpoint of `interface`, or (`!ok`) could not be.
pub fn report_sent(dev: &mut Device, interface: u8, ok: bool)
    requires
        old(dev).wf(),
    ensures
        final(dev).wf(),
        final(dev).profile == old(dev).profile,
        final(dev)@ == (Port { stats: sent_if(old(dev)@.stats, interface, ok), ..old(dev)@ }),
{
    if ok {
        match interface {
            0 => count(&mut dev.stats.input_sent),
            1 => count(&mut dev.stats.hidpp_sent),
            2 => count(&mut dev.stats.ffb_sent),
            _ => {},
        }
    }
}

impl Port {
    /// After an IF0 output report: repeats are counted, a new report starts over; wheel and
    /// relay pass it on.
    pub open spec fn after_if0_output(self, p: Profile, report: Seq<u8>) -> Port {
        let noted = if report == self.if0_last {
            Port { if0_repeats: counted(self.if0_repeats), ..self }
        } else {
            Port { if0_last: report, if0_repeats: 0, ..self }
        };
        if p.role != Role::Mirror {
            Port {
                if0_out: offered(self.if0_out, QUEUE_LEN as nat, report),
                stats: dropped_if(self.stats, self.if0_out.len() >= QUEUE_LEN),
                ..noted
            }
        } else {
            noted
        }
    }
}

impl Port {
    /// After a force feedback packet from the console, at `now`.
    pub open spec fn after_ffb_output(self, packet: Seq<u8>, now: u64) -> Port {
        Port {
            ffb_out: offered(self.ffb_out, QUEUE_LEN as nat, packet),
            stats: dropped_if(
                Stats { ffb_received: counted(self.stats.ffb_received), ..self.stats },
                self.ffb_out.len() >= QUEUE_LEN,
            ),
            ffb_gap: (GapMeter { last: Some(now), ..self.ffb_gap }),
            ..self
        }
    }

    /// After a backend input report.
    pub open spec fn after_push_input(self, packet: Seq<u8>) -> Port {
        Port {
            input_in: offered(self.input_in, QUEUE_LEN as nat, packet),
            stats: dropped_if(self.stats, self.input_in.len() >= QUEUE_LEN),
            ..self
        }
    }

    /// After a backend HID++ message.
    pub open spec fn after_push_hidpp(self, packet: Seq<u8>) -> Port {
        Port {
            hidpp_in: offered(self.hidpp_in, HIDPP_IN_QUEUE_LEN as nat, packet),
            stats: dropped_if(self.stats, self.hidpp_in.len() >= HIDPP_IN_QUEUE_LEN),
            ..self
        }
    }

    /// After a backend force feedback report.
    pub open spec fn after_push_ffb(self, packet: Seq<u8>) -> Port {
        Port {
            ffb_in: offered(self.ffb_in, QUEUE_LEN as nat, packet),
            stats: dropped_if(self.stats, self.ffb_in.len() >= QUEUE_LEN),
            ..self
        }
    }
}

/// A queue after its oldest entry, if any, was taken out.
pub open spec fn taken<T>(queue: Seq<T>) -> Seq<T> {
    if queue.len() > 0 {
        queue.drop_first()
    } else {
        queue
    }
}

/// An output report came on IF0 OUT. Where it differs from the one before, returns how often
/// that one was repeated, for the log.
pub fn if0_output(dev: &mut Device, data: &[u8]) -> (changed: Option<u32>)
    requires
        old(dev).wf(),
    ensures
        final(dev).wf(),
        final(dev).profile == old(dev).profile,
        changed == (if packet_bytes(data@) == old(dev)@.if0_last {
            None
        } else {
            Some(old(dev)@.if0_repeats)
        }),
        final(dev)@ == old(dev)@.after_if0_output(old(dev).profile, packet_bytes(data@)),
{
    let packet = Packet::new(data);
    let changed: Option<u32> = if same(packet.bytes(), dev.if0_last.bytes()) {
        count(&mut dev.if0_repeats);
        None
    } else {
        let repeats: u32 = dev.if0_repeats;
        dev.if0_last = packet;
        dev.if0_repeats = 0;
        Some(repeats)
    };
    if dev.profile.role != Role::Mirror && !dev.if0_out.try_send(packet) {
        count(&mut dev.stats.dropped);
    }
    changed
}

/// A force feedback packet came on IF2 OUT, at `now`: queue it for the backend. Returns the
/// pause before it where that was longer than [`FFB_GAP`].
pub fn ffb_output(dev: &mut Device, data: &[u8], now: u64) -> (gap: Option<u64>)
    requires
        old(dev).wf(),
        old(dev)@.ffb_gap.clock_ok(now),
    ensures
        final(dev).wf(),
        final(dev).profile == old(dev).profile,
        gap == old(dev)@.ffb_gap.gap(now),
        final(dev)@ == old(dev)@.after_ffb_output(packet_bytes(data@), now),
{
    let gap: Option<u64> = dev.ffb_gap.tick(now);
    count(&mut dev.stats.ffb_received);
    if !dev.ffb_out.try_send(Packet::new(data)) {
        count(&mut dev.stats.dropped);
    }
    gap
}

/// A backend input report, for IF0 IN.
pub fn push_input(dev: &mut Device, packet: Packet)
    requires
        old(dev).wf(),
    ensures
        final(dev).wf(),
        final(dev).profile == old(dev).profile,
        final(dev)@ == old(dev)@.after_push_input(packet@),
{
    if !dev.input_in.try_send(packet) {
        count(&mut dev.stats.dropped);
    }
}

/// A backend HID++ message, for IF1 IN.
pub fn push_hidpp(dev: &mut Device, packet: Packet)
    requires
        old(dev).wf(),
    ensures
        final(dev).wf(),
        final(dev).profile == old(dev).profile,
        final(dev)@ == old(dev)@.after_push_hidpp(packet@),
{
    if !dev.hidpp_in.try_send(packet) {
        count(&mut dev.stats.dropped);
    }
}

/// A backend force feedback report, for IF2 IN.
pub fn push_ffb(dev: &mut Device, packet: Packet)
    requires
        old(dev).wf(),
    ensures
        final(dev).wf(),
        final(dev).profile == old(dev).profile,
        final(dev)@ == old(dev)@.after_push_ffb(packet@),
{
    if !dev.ffb_in.try_send(packet) {
        count(&mut dev.stats.dropped);
    }
}

/// The next report for IF0 IN (relay, mirror).
pub fn next_input(dev: &mut Device) -> (r: Option<Packet>)
    requires
        old(dev).wf(),
    ensures
        final(dev).wf(),
        final(dev).profile == old(dev).profile,
        match r {
            Some(packet) => old(dev)@.input_in.len() > 0 && packet@ == old(dev)@.input_in[0],
            None => old(dev)@.input_in.len() == 0,
        },
        final(dev)@ == (Port { input_in: taken(old(dev)@.input_in), ..old(dev)@ }),
{
    dev.input_in.try_receive()
}

/// The next message for IF1 IN.
pub fn next_hidpp(dev: &mut Device) -> (r: Option<Packet>)
    requires
        old(dev).wf(),
    ensures
        final(dev).wf(),
        final(dev).profile == old(dev).profile,
        match r {
            Some(packet) => old(dev)@.hidpp_in.len() > 0 && packet@ == old(dev)@.hidpp_in[0],
            None => old(dev)@.hidpp_in.len() == 0,
        },
        final(dev)@ == (Port { hidpp_in: taken(old(dev)@.hidpp_in), ..old(dev)@ }),
{
    dev.hidpp_in.try_receive()
}

/// The next report for IF2 IN.
pub fn next_ffb(dev: &mut Device) -> (r: Option<Packet>)
    requires
        old(dev).wf(),
    ensures
        final(dev).wf(),
        final(dev).profile == old(dev).profile,
        match r {
            Some(packet) => old(dev)@.ffb_in.len() > 0 && packet@ == old(dev)@.ffb_in[0],
            None => old(dev)@.ffb_in.len() == 0,
        },
        final(dev)@ == (Port { ffb_in: taken(old(dev)@.ffb_in), ..old(dev)@ }),
{
    dev.ffb_in.try_receive()
}

/// The next force feedback packet for the backend.
pub fn next_ffb_output(dev: &mut Device) -> (r: Option<Packet>)
    requires
        old(dev).wf(),
    ensures
        final(dev).wf(),
        final(dev).profile == old(dev).profile,
        match r {
            Some(packet) => old(dev)@.ffb_out.len() > 0 && packet@ == old(dev)@.ffb_out[0],
            None => old(dev)@.ffb_out.len() == 0,
        },
        final(dev)@ == (Port { ffb_out: taken(old(dev)@.ffb_out), ..old(dev)@ }),
{
    dev.ffb_out.try_receive()
}

/// The next IF0 output report for the backend.
pub fn next_if0_output(dev: &mut Device) -> (r: Option<Packet>)
    requires
        old(dev).wf(),
    ensures
        final(dev).wf(),
        final(dev).profile == old(dev).profile,
        match r {
            Some(packet) => old(dev)@.if0_out.len() > 0 && packet@ == old(dev)@.if0_out[0],
            None => old(dev)@.if0_out.len() == 0,
        },
        final(dev)@ == (Port { if0_out: taken(old(dev)@.if0_out), ..old(dev)@ }),
{
    dev.if0_out.try_receive()
}

/// The next class request for the backend.
pub fn next_request(dev: &mut Device) -> (r: Option<ControlOut>)
    requires
        old(dev).wf(),
    ensures
        final(dev).wf(),
        final(dev).profile == old(dev).profile,
        match r {
            Some(msg) => old(dev)@.control_out.len() > 0 && msg@ == old(dev)@.control_out[0],
            None => old(dev)@.control_out.len() == 0,
        },
        final(dev)@ == (Port { control_out: taken(old(dev)@.control_out), ..old(dev)@ }),
{
    dev.control_out.try_receive()
}

// ---- laws ----

/// A report goes out whole and once. Relay: as the packet that it came in. Otherwise cut into
/// full packets, the last of which may be short, and followed by a zero-length packet exactly
/// where it fills its last packet and is not the longest report.
pub proof fn law_packets_carry_report(role: Role, report: Seq<u8>, max: nat)
    requires
        max > 0,
    ensures
        role == Role::Relay ==> packets(role, report, max) == seq![report],
        role != Role::Relay && report.len() < MAX_PACKET && report.len() % max == 0 ==> packets(
            role,
            report,
            max,
        ) == chunks(report, max).push(Seq::<u8>::empty()),
        role != Role::Relay && !(report.len() < MAX_PACKET && report.len() % max == 0) ==> packets(
            role,
            report,
            max,
        ) == chunks(report, max),
        chunks(report, max).flatten() == report,
        forall|i: int|
            0 <= i < chunks(report, max).len() ==> 0 < (#[trigger] chunks(report, max)[i]).len()
                <= max,
        forall|i: int|
            0 <= i < chunks(report, max).len() - 1 ==> (#[trigger] chunks(report, max)[i]).len()
                == max,
    decreases report.len(),
{
    reveal_with_fuel(Seq::<_>::flatten, 3);
    let parts = chunks(report, max);
    if report.len() == 0 {
        assert(parts.flatten() =~= report);
    } else if report.len() <= max {
        assert(parts.drop_first() =~= seq![]);
        assert(parts.flatten() =~= report);
    } else {
        let rest = chunks(report.skip(max as int), max);
        law_packets_carry_report(role, report.skip(max as int), max);
        assert(parts.drop_first() =~= rest);
        assert(parts.flatten() =~= report);
        assert forall|i: int| 0 < i < parts.len() implies parts[i] == rest[i - 1] by {}
    }
}

/// Mirror: every class request from upstream is accepted and goes to the wheel as it came, and
/// no auth report is made of it.
pub proof fn law_mirror_repeats_every_class_request(
    port: Port,
    p: Profile,
    req: Request,
    data: Seq<u8>,
)
    requires
        p.role == Role::Mirror,
        Port::is_class_out(req),
        port.control_out.len() < QUEUE_LEN,
        data.len() <= MAX_PACKET,
    ensures
        Port::out_answer(p, req) == Some(OutReply::Accepted),
        port.after_out(p, req, data).control_out == port.control_out.push(
            (req.request, req.value, req.index, data),
        ),
        port.after_out(p, req, data).auth == port.auth,
{
    assert(packet_bytes(data) =~= data);
}

/// Relay: every class request but a nonce page goes to the backend; a nonce page goes to the
/// signer side instead.
pub proof fn law_relay_repeats_all_but_nonces(port: Port, p: Profile, req: Request, data: Seq<u8>)
    requires
        p.role == Role::Relay,
        Port::is_class_out(req),
    ensures
        Port::out_answer(p, req) == Some(OutReply::Accepted),
        Port::repeats(p, req) <==> !(req.request == HID_SET_REPORT && req.index == IF_INPUT
            && req.value == 0x3f0),
        !Port::repeats(p, req) ==> {
            &&& port.after_out(p, req, data).control_out == port.control_out
            &&& port.after_out(p, req, data).auth == port.auth.after_set(ID_NONCE, data)
        },
{
    assert(req.value == 256 * req.kind() + req.id());
}

/// Wheel role: nothing but HID++ requests reaches the wheel as a control request.
pub proof fn law_wheel_gets_only_hidpp(port: Port, p: Profile, req: Request, data: Seq<u8>)
    requires
        p.role == Role::Wheel,
    ensures
        port.after_out(p, req, data).control_out != port.control_out ==> req.request
            == HID_SET_REPORT && req.index == IF_HIDPP,
{
}

/// c269: features 0x03 and 0x31 are answered with their fixed bytes, whatever the auth state.
pub proof fn law_definition_features_answered(port: Port, p: Profile, req: Request)
    requires
        p.is_c269(),
        Port::is_get_report(req),
        req.index == IF_INPUT,
    ensures
        req.value == 0x303 ==> port.in_answer(p, req) == Some(InAnswer::Accepted(FEATURE_03@)),
        req.value == 0x331 ==> port.in_answer(p, req) == Some(InAnswer::Accepted(FEATURE_31@)),
{
    reveal_with_fuel(feature, 3);
}

/// Every answer to a device-to-host request fits the 256-byte control buffer; feature 0x31 is the
/// longest.
pub proof fn law_answers_fit_control_buffer(port: Port, p: Profile, req: Request)
    requires
        p.is_c269() || p.is_c272(),
        port.auth.valid(),
        port.input.len() == C269_LEN,
    ensures
        port.in_answer(p, req) matches Some(InAnswer::Accepted(data)) ==> data.len()
            <= FEATURE_31@.len() && FEATURE_31@.len() <= 256,
{
    reveal_with_fuel(feature, 3);
}

/// Wheel role: a GET_REPORT for the input report is answered with the report that the endpoint
/// sends too.
pub proof fn law_input_report_readable(port: Port, p: Profile, req: Request)
    requires
        p.role == Role::Wheel,
        Port::is_get_report(req),
        req.value == 0x101,
        req.index == IF_INPUT,
    ensures
        port.in_answer(p, req) == Some(InAnswer::Accepted(port.input)),
{
}

/// Requests never fail silently: a request to an interface is answered, accepted or rejected.
pub proof fn law_interface_requests_answered(port: Port, p: Profile, req: Request)
    requires
        req.recipient == Recipient::Interface,
    ensures
        port.in_answer(p, req) is Some,
        req.request_type == RequestType::Class ==> Port::out_answer(p, req) is Some,
{
}

/// What can happen to a [`Device`].
pub enum Event {
    /// [`set_input`].
    SetInput(Seq<u8>),
    /// [`control_in`].
    ControlIn(Request),
    /// [`control_out`].
    ControlOut(Request, Seq<u8>),
    /// [`if0_output`].
    If0Output(Seq<u8>),
    /// [`ffb_output`].
    FfbOutput(Seq<u8>, u64),
    /// [`push_input`].
    PushInput(Seq<u8>),
    /// [`push_hidpp`].
    PushHidpp(Seq<u8>),
    /// [`push_ffb`].
    PushFfb(Seq<u8>),
    /// [`next_input`].
    NextInput,
    /// [`next_hidpp`].
    NextHidpp,
    /// [`next_ffb`].
    NextFfb,
    /// [`next_ffb_output`].
    NextFfbOutput,
    /// [`next_if0_output`].
    NextIf0Output,
    /// [`next_request`].
    NextRequest,
    /// [`report_sent`].
    ReportSent(u8, bool),
    /// [`take_stats`].
    TakeStats,
    /// The signer side worked on the auth state.
    Auth(Cache),
}

impl Port {
    pub open spec fn after_event(self, p: Profile, event: Event) -> Port {
        match event {
            Event::SetInput(report) => Port { input: report, ..self },
            Event::ControlIn(req) => self.after_in(p, req),
            Event::ControlOut(req, data) => self.after_out(p, req, data),
            Event::If0Output(report) => self.after_if0_output(p, report),
            Event::FfbOutput(packet, now) => self.after_ffb_output(packet, now),
            Event::PushInput(packet) => self.after_push_input(packet),
            Event::PushHidpp(packet) => self.after_push_hidpp(packet),
            Event::PushFfb(packet) => self.after_push_ffb(packet),
            Event::NextInput => Port { input_in: taken(self.input_in), ..self },
            Event::NextHidpp => Port { hidpp_in: taken(self.hidpp_in), ..self },
            Event::NextFfb => Port { ffb_in: taken(self.ffb_in), ..self },
            Event::NextFfbOutput => Port { ffb_out: taken(self.ffb_out), ..self },
            Event::NextIf0Output => Port { if0_out: taken(self.if0_out), ..self },
            Event::NextRequest => Port { control_out: taken(self.control_out), ..self },
            Event::ReportSent(interface, ok) => Port {
                stats: sent_if(self.stats, interface, ok),
                ..self
            },
            Event::TakeStats => Port { stats: no_stats(), ..self },
            Event::Auth(auth) => Port { auth, ..self },
        }
    }

    /// After all of `events`, in order.
    pub open spec fn after_events(self, p: Profile, events: Seq<Event>) -> Port
        decreases events.len(),
    {
        if events.len() == 0 {
            self
        } else {
            self.after_events(p, events.drop_last()).after_event(p, events.last())
        }
    }
}

/// The last report that `events` set, or `before` if they set none.
pub open spec fn last_set(before: Seq<u8>, events: Seq<Event>) -> Seq<u8>
    decreases events.len(),
{
    if events.len() == 0 {
        before
    } else if let Event::SetInput(report) = events.last() {
        report
    } else {
        last_set(before, events.drop_last())
    }
}

/// The input report sent at a poll is the one set last, whatever else has happened since; until
/// the first is set it is the one the device started with.
pub proof fn law_last_input_set_is_sent(port: Port, p: Profile, events: Seq<Event>)
    ensures
        port.after_events(p, events).input == last_set(port.input, events),
    decreases events.len(),
{
    if events.len() > 0 {
        law_last_input_set_is_sent(port, p, events.drop_last());
    }
}

// ---- laws of the answers ----

/// The port is told by what the device holds, none of it left out or changed, and a reply by its
/// bytes.
pub proof fn law_port_is_what_device_holds(dev: Device, reply: InReply)
    ensures
        dev@.auth == dev.auth@,
        dev@.input == dev.input@,
        dev@.stats == dev.stats,
        dev@.input_in == queued_packets(dev.input_in),
        dev@.hidpp_in == queued_hidpp(dev.hidpp_in),
        dev@.ffb_in == queued_packets(dev.ffb_in),
        dev@.control_out == queued_requests(dev.control_out),
        dev@.ffb_out == queued_packets(dev.ffb_out),
        dev@.if0_out == queued_packets(dev.if0_out),
        dev@.if0_last == dev.if0_last@,
        dev@.if0_repeats == dev.if0_repeats,
        dev@.ffb_gap == dev.ffb_gap,
        reply matches InReply::Accepted(data) ==> reply@ == InAnswer::Accepted(data@),
        reply is Rejected ==> reply@ is Rejected,
{
}

/// A GET_REPORT of a feature report on IF0 (wValue 0x300 and the report ID) is answered from the
/// auth cache wherever that has an answer, but in the mirror, with exactly those bytes. So F3 and
/// F2 are always answered, and F1 while a signature is ready and a page is left.
pub proof fn law_auth_reports_answered(port: Port, p: Profile, req: Request, id: u8)
    requires
        p.role != Role::Mirror,
        req.request_type == RequestType::Class,
        req.recipient == Recipient::Interface,
        req.request == 1,
        req.value == 0x300 + id,
        req.index == 0,
    ensures
        port.auth.answer(id) matches Some(report) ==> port.in_answer(p, req) == Some(
            InAnswer::Accepted(report),
        ),
        id == 0xf3 ==> port.in_answer(p, req) == Some(InAnswer::Accepted(port.auth.reset)),
        id == 0xf2 && port.auth.ready ==> port.in_answer(p, req) == Some(
            InAnswer::Accepted(port.auth.ready_state),
        ),
        id == 0xf1 && port.auth.ready && port.auth.next_page < 19 ==> port.in_answer(p, req)
            == Some(InAnswer::Accepted(port.auth.signature[port.auth.next_page])),
        port.after_in(p, req).auth == port.auth.after_get(id),
        port.after_in(p, req) == (Port { auth: port.auth.after_get(id), ..port }),
{
    assert(req.kind() == 3 && req.id() == id);
}

/// The other GET_REPORTs on IF0: a feature report that the auth cache has no answer for is that of
/// the profile with this ID, if it has one; the input report (wValue 0x101) is the one to be sent
/// next, in the wheel role. Everything else, and every report on another interface, is refused.
/// The mirror answers no auth report. None of them changes anything.
pub proof fn law_other_reports_answered(port: Port, p: Profile, req: Request, k: int)
    requires
        req.request_type == RequestType::Class,
        req.recipient == Recipient::Interface,
        req.request == 1,
    ensures
        req.index == 0 && req.value / 256 == 3 && (p.role == Role::Mirror || port.auth.answer(
            (req.value % 256) as u8,
        ) is None) ==> {
            &&& 0 <= k < p.features@.len() && p.features@[k]@[0] == req.value % 256 && (forall|j: int|
                0 <= j < k ==> (#[trigger] p.features@[j])@[0] != req.value % 256)
                ==> port.in_answer(p, req) == Some(InAnswer::Accepted(p.features@[k]@))
            &&& (forall|j: int|
                0 <= j < p.features@.len() ==> (#[trigger] p.features@[j])@[0] != req.value % 256)
                ==> port.in_answer(p, req) == Some(InAnswer::Rejected)
        },
        req.index == 0 && req.value == 0x101 && p.role == Role::Wheel ==> port.in_answer(p, req)
            == Some(InAnswer::Accepted(port.input)),
        req.index == 0 && req.value / 256 != 3 && !(req.value == 0x101 && p.role == Role::Wheel)
            ==> port.in_answer(p, req) == Some(InAnswer::Rejected),
        req.index != 0 ==> port.in_answer(p, req) == Some(InAnswer::Rejected),
        req.index != 0 || req.value / 256 != 3 || p.role == Role::Mirror ==> port.after_in(p, req)
            == port,
{
    let id = (req.value % 256) as u8;
    assert(req.id() == id);
    assert(req.value == 256 * req.kind() + req.id());
    lemma_feature(p.features@, id, k);
}

proof fn lemma_feature(features: Seq<&'static [u8]>, id: u8, k: int)
    ensures
        0 <= k < features.len() && features[k]@[0] == id && (forall|j: int|
            0 <= j < k ==> (#[trigger] features[j])@[0] != id) ==> feature(features, id) == Some(
            features[k]@,
        ),
        (forall|j: int| 0 <= j < features.len() ==> (#[trigger] features[j])@[0] != id) ==> feature(
            features,
            id,
        ) is None,
    decreases features.len(),
{
    if features.len() > 0 {
        let rest = features.drop_first();
        lemma_feature(rest, id, k - 1);
        assert(forall|j: int| 0 <= j < rest.len() ==> #[trigger] rest[j] == features[j + 1]);
        if forall|j: int| 0 <= j < features.len() ==> (#[trigger] features[j])@[0] != id {
            assert(features[0]@[0] != id);
            assert forall|j: int| 0 <= j < rest.len() implies (#[trigger] rest[j])@[0] != id by {
                assert(features[j + 1]@[0] != id);
            }
        }
        if 0 < k < features.len() && features[k]@[0] == id && (forall|j: int|
            0 <= j < k ==> (#[trigger] features[j])@[0] != id) {
            assert(features[0]@[0] != id);
            assert forall|j: int| 0 <= j < k - 1 implies (#[trigger] rest[j])@[0] != id by {
                assert(features[j + 1]@[0] != id);
            }
            assert(rest[k - 1] == features[k]);
        }
    }
}

/// The other requests for data: the report descriptor of an interface (wValue 0x22..) is its own,
/// its HID descriptor (0x21..) tells its HID version and that descriptor's length, the idle rate is
/// 0 and the protocol 1 (report). Every other request to an interface is refused, a request to
/// anything else is left to others, and none of them changes anything.
pub proof fn law_descriptors_and_idle_answered(port: Port, p: Profile, req: Request)
    ensures
        req.recipient != Recipient::Interface ==> port.in_answer(p, req) is None,
        req.recipient == Recipient::Interface && req.request_type == RequestType::Standard
            && req.request == 6 && req.index < 3 ==> {
            let (bcd, report) = p.hid@[req.index as int];
            &&& req.value / 256 == 0x22 ==> port.in_answer(p, req) == Some(
                InAnswer::Accepted(report@),
            )
            &&& req.value / 256 == 0x21 ==> (port.in_answer(p, req) matches Some(
                InAnswer::Accepted(d),
            ) && {
                &&& d.len() == 9
                &&& d[0] == 9 && d[1] == 0x21
                &&& d[2] + 256 * d[3] == bcd
                &&& d[4] == 0 && d[5] == 1 && d[6] == 0x22
                &&& report@.len() < 0x10000 ==> d[7] + 256 * d[8] == report@.len()
            })
            &&& req.value / 256 != 0x22 && req.value / 256 != 0x21 ==> port.in_answer(p, req)
                == Some(InAnswer::Rejected)
        },
        req.recipient == Recipient::Interface && req.request_type == RequestType::Standard && (
        req.request != 6 || req.index >= 3) ==> port.in_answer(p, req) == Some(InAnswer::Rejected),
        req.recipient == Recipient::Interface && req.request_type == RequestType::Class
            && req.request == 2 ==> port.in_answer(p, req) == Some(InAnswer::Accepted(seq![0u8])),
        req.recipient == Recipient::Interface && req.request_type == RequestType::Class
            && req.request == 3 ==> port.in_answer(p, req) == Some(InAnswer::Accepted(seq![1u8])),
        req.recipient == Recipient::Interface && req.request_type == RequestType::Class
            && req.request != 1 && req.request != 2 && req.request != 3 ==> port.in_answer(p, req)
            == Some(InAnswer::Rejected),
        req.recipient == Recipient::Interface && req.request_type != RequestType::Class
            && req.request_type != RequestType::Standard ==> port.in_answer(p, req) == Some(
            InAnswer::Rejected,
        ),
        req.recipient != Recipient::Interface || req.request_type != RequestType::Class
            || req.request != 1 ==> port.after_in(p, req) == port,
{
}

/// A HID descriptor without its header tells the HID version and the length of the report
/// descriptor, both little-endian.
pub proof fn law_hid_descriptor_by_byte(bcd_hid: u16, report_len: int)
    requires
        0 <= report_len < 0x10000,
    ensures
        ({
            let d = hid_descriptor_bytes(bcd_hid, report_len);
            &&& d.len() == 7
            &&& d[0] + 256 * d[1] == bcd_hid
            &&& d[2] == 0 && d[3] == 1 && d[4] == 0x22
            &&& d[5] + 256 * d[6] == report_len
        }),
{
}

/// A class request to an interface with data (of at most 64 bytes) goes where it belongs:
/// - a nonce page (SET_REPORT, wValue 0x3f0, IF0) to the signer side, but in the mirror;
/// - SET_REPORT on IF1 (HID++) to the backend in every role, and is counted;
/// - in relay and mirror, everything else to the backend too; in the wheel role, nothing else.
/// What goes to the backend goes with its request, value, index and all of its bytes, behind what
/// waits; a full queue loses it and counts that.
pub proof fn law_class_requests_go_where_they_belong(
    port: Port,
    p: Profile,
    req: Request,
    data: Seq<u8>,
)
    requires
        req.request_type == RequestType::Class,
        req.recipient == Recipient::Interface,
        data.len() <= 64,
    ensures
        ({
            let nonce = p.role != Role::Mirror && req.request == 9 && req.value == 0x3f0
                && req.index == 0;
            let hidpp = req.request == 9 && req.index == 1;
            let to_backend = !nonce && (hidpp || p.role != Role::Wheel);
            let lost = to_backend && port.control_out.len() >= 8;
            let after = port.after_out(p, req, data);
            &&& nonce ==> after.auth == port.auth.after_set(0xf0, data)
            &&& !nonce ==> after.auth == port.auth
            &&& to_backend && !lost ==> after.control_out == port.control_out.push(
                (req.request, req.value, req.index, data),
            )
            &&& !to_backend || lost ==> after.control_out == port.control_out
            &&& after.stats == (Stats {
                hidpp_set_report: if hidpp {
                    counted(port.stats.hidpp_set_report)
                } else {
                    port.stats.hidpp_set_report
                },
                dropped: if lost {
                    counted(port.stats.dropped)
                } else {
                    port.stats.dropped
                },
                ..port.stats
            })
            &&& after == (Port {
                auth: after.auth,
                control_out: after.control_out,
                stats: after.stats,
                ..port
            })
            &&& nonce || to_backend || req.request == 9 || req.request == 10 || req.request == 11
                ==> Port::out_answer(p, req) == Some(OutReply::Accepted)
            &&& !(nonce || to_backend || req.request == 9 || req.request == 10 || req.request == 11)
                ==> Port::out_answer(p, req) == Some(OutReply::Rejected)
        }),
{
    assert(req.value == 256 * req.kind() + req.id());
    assert(packet_bytes(data) =~= data);
}

/// Any other request with data is left to others, and changes nothing.
pub proof fn law_other_requests_left_alone(port: Port, p: Profile, req: Request, data: Seq<u8>)
    requires
        req.request_type != RequestType::Class || req.recipient != Recipient::Interface,
    ensures
        Port::out_answer(p, req) is None,
        port.after_out(p, req, data) == port,
{
}

/// A force feedback packet from the console of at most 64 bytes goes to the wheel's side with all
/// of its bytes, behind the packets that wait there; it is counted as received. A full queue loses
/// it and counts that. Nothing else changes, but that the pause before the next one runs from it.
pub proof fn law_force_packet_queued_whole(port: Port, data: Seq<u8>, now: u64)
    requires
        data.len() <= 64,
    ensures
        ({
            let after = port.after_ffb_output(packet_bytes(data), now);
            &&& port.ffb_out.len() < 8 ==> after.ffb_out == port.ffb_out.push(data)
            &&& port.ffb_out.len() >= 8 ==> after.ffb_out == port.ffb_out
            &&& after.stats.ffb_received == counted(port.stats.ffb_received)
            &&& port.ffb_out.len() < 8 ==> after.stats.dropped == port.stats.dropped
            &&& port.ffb_out.len() >= 8 ==> after.stats.dropped == counted(port.stats.dropped)
            &&& after.ffb_gap.last == Some(now)
            &&& after.ffb_gap.limit == port.ffb_gap.limit
            &&& after == (Port {
                ffb_out: after.ffb_out,
                stats: (Stats {
                    ffb_received: after.stats.ffb_received,
                    dropped: after.stats.dropped,
                    ..port.stats
                }),
                ffb_gap: after.ffb_gap,
                ..port
            })
        }),
{
    assert(packet_bytes(data) =~= data);
}

/// An IF0 output report from the console of at most 64 bytes goes on with all of its bytes, behind
/// those that wait, but in the mirror; one that is the same as the last counts as a repeat of it,
/// any other takes its place.
pub proof fn law_output_report_queued_whole(port: Port, p: Profile, data: Seq<u8>)
    requires
        data.len() <= 64,
    ensures
        ({
            let after = port.after_if0_output(p, packet_bytes(data));
            &&& after.if0_last == data
            &&& data == port.if0_last ==> after.if0_repeats == counted(port.if0_repeats)
            &&& data != port.if0_last ==> after.if0_repeats == 0
            &&& p.role != Role::Mirror && port.if0_out.len() < 8 ==> after.if0_out
                == port.if0_out.push(data)
            &&& p.role == Role::Mirror || port.if0_out.len() >= 8 ==> after.if0_out == port.if0_out
            &&& p.role != Role::Mirror && port.if0_out.len() >= 8 ==> after.stats == (Stats {
                dropped: counted(port.stats.dropped),
                ..port.stats
            })
            &&& p.role == Role::Mirror || port.if0_out.len() < 8 ==> after.stats == port.stats
            &&& after == (Port {
                if0_last: after.if0_last,
                if0_repeats: after.if0_repeats,
                if0_out: after.if0_out,
                stats: after.stats,
                ..port
            })
        }),
{
    assert(packet_bytes(data) =~= data);
}

/// What the backend reports waits for the console as it came, behind what came before, each kind
/// in a queue of its own: 8 input and 8 force feedback reports, 32 HID++ messages. What finds its
/// queue full is lost and counted.
pub proof fn law_backend_reports_queued_whole(port: Port, packet: Seq<u8>)
    ensures
        ({
            let after = port.after_push_input(packet);
            &&& port.input_in.len() < 8 ==> after == (Port {
                input_in: port.input_in.push(packet),
                ..port
            })
            &&& port.input_in.len() >= 8 ==> after == (Port {
                stats: (Stats { dropped: counted(port.stats.dropped), ..port.stats }),
                ..port
            })
        }),
        ({
            let after = port.after_push_hidpp(packet);
            &&& port.hidpp_in.len() < 32 ==> after == (Port {
                hidpp_in: port.hidpp_in.push(packet),
                ..port
            })
            &&& port.hidpp_in.len() >= 32 ==> after == (Port {
                stats: (Stats { dropped: counted(port.stats.dropped), ..port.stats }),
                ..port
            })
        }),
        ({
            let after = port.after_push_ffb(packet);
            &&& port.ffb_in.len() < 8 ==> after == (Port {
                ffb_in: port.ffb_in.push(packet),
                ..port
            })
            &&& port.ffb_in.len() >= 8 ==> after == (Port {
                stats: (Stats { dropped: counted(port.stats.dropped), ..port.stats }),
                ..port
            })
        }),
{
}

/// What is taken from a queue is its oldest entry, and the others stay in their order.
pub proof fn law_oldest_taken_first<T>(first: T, rest: Seq<T>)
    ensures
        taken(seq![first] + rest) == rest,
        taken(Seq::<T>::empty()) == Seq::<T>::empty(),
{
    assert((seq![first] + rest).drop_first() =~= rest);
}

/// A report that was sent is counted once, for its own interface only; one that could not be sent
/// is not counted.
pub proof fn law_sent_reports_counted(stats: Stats, interface: u8)
    ensures
        sent_if(stats, interface, false) == stats,
        sent_if(stats, 0, true) == (Stats { input_sent: counted(stats.input_sent), ..stats }),
        sent_if(stats, 1, true) == (Stats { hidpp_sent: counted(stats.hidpp_sent), ..stats }),
        sent_if(stats, 2, true) == (Stats { ffb_sent: counted(stats.ffb_sent), ..stats }),
        interface > 2 ==> sent_if(stats, interface, true) == stats,
        no_stats().input_sent == 0,
        no_stats().hidpp_sent == 0,
        no_stats().hidpp_set_report == 0,
        no_stats().ffb_sent == 0,
        no_stats().ffb_received == 0,
        no_stats().dropped == 0,
{
}

/// The endpoints on the bus, as (interface, address, packet size, interval in ms). c269: IF0 01 and
/// 81, IF1 83, IF2 82 and 02; c272: IF0 81, IF1 82, IF2 83 and 03. In general, an endpoint keeps
/// its interface, number, size and interval, and bit 7 of its address is set where it is IN.
pub proof fn law_endpoints_on_the_bus(p: Profile, interface: u8, ep: Ep)
    requires
        ep.0 < 16,
    ensures
        p.is_c269() ==> endpoints(p) == seq![
            Endpoint { interface: 0, address: 0x01, max_packet: 64, interval_ms: 1 },
            Endpoint { interface: 0, address: 0x81, max_packet: 64, interval_ms: 5 },
            Endpoint { interface: 1, address: 0x83, max_packet: 20, interval_ms: 5 },
            Endpoint { interface: 2, address: 0x82, max_packet: 64, interval_ms: 1 },
            Endpoint { interface: 2, address: 0x02, max_packet: 64, interval_ms: 1 },
        ],
        p.is_c272() ==> endpoints(p) == seq![
            Endpoint { interface: 0, address: 0x81, max_packet: 64, interval_ms: 1 },
            Endpoint { interface: 1, address: 0x82, max_packet: 64, interval_ms: 1 },
            Endpoint { interface: 2, address: 0x83, max_packet: 64, interval_ms: 1 },
            Endpoint { interface: 2, address: 0x03, max_packet: 64, interval_ms: 1 },
        ],
        endpoint(interface, ep, true) == (Endpoint {
            interface,
            address: (ep.0 + 0x80) as u8,
            max_packet: ep.1,
            interval_ms: ep.2,
        }),
        endpoint(interface, ep, false) == (Endpoint {
            interface,
            address: ep.0,
            max_packet: ep.1,
            interval_ms: ep.2,
        }),
{
    let n = ep.0;
    assert(n | 0x80 == n + 0x80) by (bit_vector)
        requires
            n < 16,
    ;
    assert(1u8 | 0x80 == 0x81 && 2u8 | 0x80 == 0x82 && 3u8 | 0x80 == 0x83) by (bit_vector);
    if p.is_c269() {
        assert(endpoints(p) =~= seq![
            Endpoint { interface: 0, address: 0x01, max_packet: 64, interval_ms: 1 },
            Endpoint { interface: 0, address: 0x81, max_packet: 64, interval_ms: 5 },
            Endpoint { interface: 1, address: 0x83, max_packet: 20, interval_ms: 5 },
            Endpoint { interface: 2, address: 0x82, max_packet: 64, interval_ms: 1 },
            Endpoint { interface: 2, address: 0x02, max_packet: 64, interval_ms: 1 },
        ]);
    }
    if p.is_c272() {
        assert(endpoints(p) =~= seq![
            Endpoint { interface: 0, address: 0x81, max_packet: 64, interval_ms: 1 },
            Endpoint { interface: 1, address: 0x82, max_packet: 64, interval_ms: 1 },
            Endpoint { interface: 2, address: 0x83, max_packet: 64, interval_ms: 1 },
            Endpoint { interface: 2, address: 0x03, max_packet: 64, interval_ms: 1 },
        ]);
    }
}

/// What is put on an IN endpoint, byte by byte. Relay: the packet as it came. Otherwise byte `i` of
/// the report stands in packet `i / max` at place `i % max`; the packets before the last one that
/// carries bytes are full, and an empty one ends a report that fills its last packet and is shorter
/// than 64 bytes.
pub proof fn law_packets_by_byte(role: Role, report: Seq<u8>, max: int, i: int)
    requires
        max > 0,
        0 <= i < report.len(),
    ensures
        role == Role::Relay ==> packets(role, report, max as nat) == seq![report],
        role != Role::Relay ==> {
            let all = packets(role, report, max as nat);
            let carrying = (report.len() + max - 1) / max;
            &&& i / max < carrying <= all.len()
            &&& i % max < all[i / max].len() <= max
            &&& all[i / max][i % max] == report[i]
            &&& i / max < carrying - 1 ==> all[i / max].len() == max
            &&& i / max == carrying - 1 ==> all[i / max].len() == report.len() - max * (i / max)
            &&& report.len() < 64 && report.len() % (max as nat) == 0 ==> all.len() == carrying + 1
                && all.last().len() == 0
            &&& !(report.len() < 64 && report.len() % (max as nat) == 0) ==> all.len() == carrying
        },
{
    lemma_chunk_bytes(report, max, i);
}

proof fn lemma_chunk_bytes(report: Seq<u8>, max: int, i: int)
    requires
        max > 0,
        0 <= i < report.len(),
    ensures
        ({
            let parts = chunks(report, max as nat);
            let n = (report.len() + max - 1) / max;
            &&& parts.len() == n
            &&& 0 <= i / max < n
            &&& i % max < parts[i / max].len() <= max
            &&& parts[i / max][i % max] == report[i]
            &&& i / max < n - 1 ==> parts[i / max].len() == max
            &&& i / max == n - 1 ==> parts[i / max].len() == report.len() - max * (i / max)
        }),
    decreases report.len(),
{
    let parts = chunks(report, max as nat);
    let len = report.len() as int;
    if len <= max {
        assert((len + max - 1) / max == 1) by (nonlinear_arith)
            requires
                0 < len <= max,
        ;
        assert(i / max == 0 && i % max == i) by (nonlinear_arith)
            requires
                0 <= i < max,
        ;
        assert(max * (i / max) == 0) by (nonlinear_arith)
            requires
                i / max == 0,
        ;
    } else {
        let rest = report.skip(max);
        let j = if i < max {
            0
        } else {
            i - max
        };
        lemma_chunk_bytes(rest, max, j);
        assert((len + max - 1) / max == (len - max + max - 1) / max + 1) by (nonlinear_arith)
            requires
                max > 0,
                len > max,
        ;
        if i < max {
            assert(i / max == 0 && i % max == i) by (nonlinear_arith)
                requires
                    0 <= i < max,
            ;
            assert(0 <= j / max) by (nonlinear_arith)
                requires
                    max > 0,
                    j == 0,
            ;
        } else {
            assert(i / max == j / max + 1 && i % max == j % max) by (nonlinear_arith)
                requires
                    max > 0,
                    i >= max,
                    j == i - max,
            ;
            assert(max * (i / max) == max * (j / max) + max) by (nonlinear_arith)
                requires
                    i / max == j / max + 1,
            ;
            assert(j / max >= 0) by (nonlinear_arith)
                requires
                    max > 0,
                    j >= 0,
            ;
            assert(parts[i / max] == chunks(rest, max as nat)[j / max]);
            assert(j % max >= 0) by (nonlinear_arith)
                requires
                    max > 0,
            ;
        }
    }
}

} // verus!
