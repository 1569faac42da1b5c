//! Host side of the bridge: the G Pro Xbox/PC (c272), forwarded to the native-port device
//! ([`crate::device`]); "upstream" below is whatever drives that device (the console, or in mirror
//! mode the wheel's host).
//!
//! - IF0 input (30 bytes): translated for the console ([`crate::input_map`]), the only interface
//!   whose format differs; forwarded unchanged in mirror mode.
//! - IF1 HID++ and IF2 force feedback carry the same reports on both sides and are forwarded
//!   unchanged, but for the answers to the bridge's own HID++ requests. HID++ messages are logged
//!   in both directions; of force feedback, the streams are sampled and every other command to the
//!   wheel is logged.
//! - Upstream class control requests are repeated to the wheel.
//! - The console's rev-light commands (IF0 output 0x30) become the wheel's HID++ LED commands.
//! - The wheel is checked once a second with GET_STATUS: on the root port a detach is never seen.
//!
//! The wheel switches itself off about 2 s after enumeration unless host software talks to it
//! early, so outside mirror mode it gets SET_IDLE and then HID++ pings right away ([`WakeUp`]).
//! Mirror mode sends nothing of its own.
//!
//! Times are in microseconds.

use crate::auth::HID_SET_REPORT;
use crate::bytes::{overlaid, overlay};
use crate::descriptor::Endpoint;
use crate::device::{
    self, count, dropped_if, push_ffb, push_hidpp, push_input, set_input, take, Device, InAnswer,
    Port, Profile, Request, Role, Stats, IF_HIDPP, IF_INPUT,
};
use crate::hid::{HidInterface, MAX_HID_INTERFACES};
use crate::input_map::{translate, translated, C272_LEN};
use crate::pace::{counted, GapMeter, Sampler};
use crate::packet::{law_packet_keeps_report, packet_bytes, ControlOut, Packet, MAX_PACKET};
use crate::queue::{offered, HIDPP_IN_QUEUE_LEN, QUEUE_LEN};
use crate::setup::{class_interface_out, setup_bytes, CLASS_INTERFACE_OUT};
use vstd::prelude::*;

verus! {

pub const WHEEL_VID: u16 = 0x046d;

pub const WHEEL_PID: u16 = 0xc272;

/// Force feedback runs at up to 1 kHz; log at most one packet of each stream this often.
pub const FFB_LOG_INTERVAL: u64 = 100_000;

/// Command (byte 4) of the force stream to the wheel.
pub const FFB_STREAM: u8 = 0x01;

/// Longest pause in the wheel's force feedback that is not logged.
pub const FFB_GAP: u64 = 100_000;

/// A force feedback packet that takes longer than this to reach the wheel is logged.
pub const FFB_SLOW: u64 = 20_000;

/// Pause after a failed IN transfer before polling again.
pub const IN_ERROR_BACKOFF: u64 = 50_000;

/// Standard GET_STATUS (device), 2 bytes.
pub const GET_STATUS: [u8; 8] = [0x80, 0x00, 0x00, 0x00, 0x00, 0x00, 0x02, 0x00];

/// SET_REPORT wValue for HID++ output reports: short (0x10) and long (0x11).
pub const HIDPP_SHORT_OUTPUT: u16 = 0x0210;

pub const HIDPP_LONG_OUTPUT: u16 = 0x0211;

/// Length of a HID++ short and long report, report ID included.
pub const HIDPP_SHORT_LEN: u16 = 7;

pub const HIDPP_LONG_LEN: u16 = 20;

/// Software ID in the bridge's own HID++ requests.
pub const SOFTWARE_ID: u8 = 0x0b;

// ---- the wheel's endpoints ----

/// The first interface with number `n`.
pub open spec fn interface_numbered(ifaces: Seq<Option<HidInterface>>, n: u8) -> Option<
    HidInterface,
>
    decreases ifaces.len(),
{
    if ifaces.len() == 0 {
        None
    } else if ifaces[0] is Some && ifaces[0]->0.number == n {
        ifaces[0]
    } else {
        interface_numbered(ifaces.drop_first(), n)
    }
}

pub fn find_numbered(ifaces: &[Option<HidInterface>; MAX_HID_INTERFACES], n: u8) -> (r: Option<
    HidInterface,
>)
    ensures
        r == interface_numbered(ifaces@, n),
{
    let mut i: usize = 0;
    assert(ifaces@.skip(0) =~= ifaces@);
    while i < MAX_HID_INTERFACES
        invariant
            i <= MAX_HID_INTERFACES,
            interface_numbered(ifaces@, n) == interface_numbered(ifaces@.skip(i as int), n),
        decreases MAX_HID_INTERFACES - i,
    {
        assert(ifaces@.skip(i as int).drop_first() =~= ifaces@.skip(i + 1));
        if let Some(iface) = ifaces[i] {
            if iface.number == n {
                return Some(iface);
            }
        }
        i += 1;
    }
    None
}

/// The endpoints of the wheel that are forwarded.
#[derive(Clone, Copy, PartialEq, Eq, Structural)]
pub struct WheelEndpoints {
    pub if0_in: Endpoint,
    pub if1_in: Endpoint,
    pub if2_in: Endpoint,
    pub if2_out: Endpoint,
}

pub open spec fn in_endpoint(iface: Option<HidInterface>) -> Option<Endpoint> {
    match iface {
        Some(i) => i.in_ep,
        None => None,
    }
}

pub open spec fn out_endpoint(iface: Option<HidInterface>) -> Option<Endpoint> {
    match iface {
        Some(i) => i.out_ep,
        None => None,
    }
}

pub fn in_ep(iface: Option<HidInterface>) -> (r: Option<Endpoint>)
    ensures
        r == in_endpoint(iface),
{
    match iface {
        Some(i) => i.in_ep,
        None => None,
    }
}

pub fn out_ep(iface: Option<HidInterface>) -> (r: Option<Endpoint>)
    ensures
        r == out_endpoint(iface),
{
    match iface {
        Some(i) => i.out_ep,
        None => None,
    }
}

/// The c272's layout: IN endpoints on interfaces 0 to 2, and an OUT endpoint on 2.
pub open spec fn wheel_endpoints(ifaces: Seq<Option<HidInterface>>) -> Option<WheelEndpoints> {
    let if0 = interface_numbered(ifaces, 0);
    let if1 = interface_numbered(ifaces, 1);
    let if2 = interface_numbered(ifaces, 2);
    match (in_endpoint(if0), in_endpoint(if1), in_endpoint(if2), out_endpoint(if2)) {
        (Some(if0_in), Some(if1_in), Some(if2_in), Some(if2_out)) => Some(
            WheelEndpoints { if0_in, if1_in, if2_in, if2_out },
        ),
        _ => None,
    }
}

/// The endpoints to forward, unless the device does not have the c272's interface layout.
pub fn wheel_layout(ifaces: &[Option<HidInterface>; MAX_HID_INTERFACES]) -> (r: Option<
    WheelEndpoints,
>)
    ensures
        r == wheel_endpoints(ifaces@),
{
    let if0 = find_numbered(ifaces, 0);
    let if1 = find_numbered(ifaces, 1);
    let if2 = find_numbered(ifaces, 2);
    match (in_ep(if0), in_ep(if1), in_ep(if2), out_ep(if2)) {
        (Some(if0_in), Some(if1_in), Some(if2_in), Some(if2_out)) => Some(
            WheelEndpoints { if0_in, if1_in, if2_in, if2_out },
        ),
        _ => None,
    }
}

// ---- transfers ----

/// Why a transfer failed.
#[derive(Clone, Copy, PartialEq, Eq, Structural)]
pub enum TransferError {
    BufferOverflow,
    BadResponse,
    Babble,
    DataToggleError,
    Canceled,
    Stall,
    Timeout,
    Disconnected,
    Other,
}

/// After a failed IN transfer: `None` on a detach, which ends the polling; otherwise (a STALL or
/// garbled reply, seen now and then) the pause before polling on.
pub fn keep_polling(e: TransferError) -> (pause: Option<u64>)
    ensures
        pause == (if e == TransferError::Disconnected || e == TransferError::Canceled {
            None
        } else {
            Some(IN_ERROR_BACKOFF)
        }),
{
    match e {
        TransferError::Disconnected | TransferError::Canceled => None,
        _ => Some(IN_ERROR_BACKOFF),
    }
}

/// Whether the outcome of a SET_IDLE is worth a note: HID 1.11 7.2.4 makes the request optional,
/// so a STALL is fine.
pub fn idle_failed(result: Result<(), TransferError>) -> (r: bool)
    ensures
        r == (result is Err && result->Err_0 != TransferError::Stall),
{
    match result {
        Ok(()) => false,
        Err(TransferError::Stall) => false,
        Err(_) => true,
    }
}

/// The SETUP that repeats an upstream class request to the backend.
pub fn repeat_setup(msg: &ControlOut) -> (setup: [u8; 8])
    ensures
        setup@ == setup_bytes(
            CLASS_INTERFACE_OUT,
            msg.request,
            msg.value,
            msg.index,
            msg.data@.len() as u16,
        ),
{
    let data: &[u8] = msg.data.bytes();
    class_interface_out(msg.request, msg.value, msg.index, data.len() as u16)
}

/// A HID++ request: SET_REPORT on IF1.
pub open spec fn spec_is_hidpp(msg: ControlOut) -> bool {
    msg.request == HID_SET_REPORT && msg.index == IF_HIDPP
}

pub fn is_hidpp(msg: &ControlOut) -> (r: bool)
    ensures
        r == spec_is_hidpp(*msg),
{
    msg.request == HID_SET_REPORT && msg.index == IF_HIDPP
}

/// SETUP of SET_REPORT(Output, 0x10) on IF1: a HID++ short request.
pub fn hidpp_short_setup() -> (setup: [u8; 8])
    ensures
        setup@ == setup_bytes(
            CLASS_INTERFACE_OUT,
            HID_SET_REPORT,
            HIDPP_SHORT_OUTPUT,
            IF_HIDPP,
            HIDPP_SHORT_LEN,
        ),
{
    class_interface_out(HID_SET_REPORT, HIDPP_SHORT_OUTPUT, IF_HIDPP, HIDPP_SHORT_LEN)
}

/// SETUP of SET_REPORT(Output, 0x11) on IF1: a HID++ long request.
pub fn hidpp_long_setup() -> (setup: [u8; 8])
    ensures
        setup@ == setup_bytes(
            CLASS_INTERFACE_OUT,
            HID_SET_REPORT,
            HIDPP_LONG_OUTPUT,
            IF_HIDPP,
            HIDPP_LONG_LEN,
        ),
{
    class_interface_out(HID_SET_REPORT, HIDPP_LONG_OUTPUT, IF_HIDPP, HIDPP_LONG_LEN)
}

/// `data` padded with zeros to the longest report.
pub open spec fn padded(data: Seq<u8>) -> Seq<u8> {
    overlaid(Seq::new(MAX_PACKET as nat, |i: int| 0u8), data)
}

/// The force feedback report for the wheel. The console sends report 0x01 cut short (6 to 16
/// bytes, unless it carries TRUEFORCE samples); the wheel gets the declared 64 bytes.
pub fn pad_ffb(packet: &Packet) -> (report: [u8; MAX_PACKET])
    ensures
        report@ == padded(packet@),
{
    let mut report: [u8; MAX_PACKET] = [0;MAX_PACKET];
    assert(report@ =~= Seq::new(MAX_PACKET as nat, |i: int| 0u8));
    overlay(&mut report, packet.bytes());
    report
}

/// Padding adds zeros and nothing else; a full packet stays as it is.
pub proof fn law_padding_keeps_packet(data: Seq<u8>)
    requires
        data.len() <= MAX_PACKET,
    ensures
        padded(data).len() == MAX_PACKET,
        padded(data).take(data.len() as int) == data,
        forall|i: int| data.len() <= i < MAX_PACKET ==> padded(data)[i] == 0,
        data.len() == MAX_PACKET ==> padded(data) == data,
{
    assert(padded(data).take(data.len() as int) =~= data);
    assert(data.len() == MAX_PACKET ==> padded(data) =~= data);
}

/// A force packet (`01 00 00 00 01 ..`) with new TRUEFORCE samples: byte 10 is their number.
pub open spec fn spec_has_samples(data: Seq<u8>) -> bool {
    data.len() > 10 && data[0] == 0x01 && data[4] == 0x01 && data[10] != 0
}

pub fn has_samples(data: &[u8]) -> (r: bool)
    ensures
        r == spec_has_samples(data@),
{
    data.len() > 10 && data[0] == 0x01 && data[4] == 0x01 && data[10] != 0
}

/// The time that a force feedback packet took to reach the wheel, where it was longer than
/// [`FFB_SLOW`].
pub fn slow_ffb(taken: u64, written: u64) -> (r: Option<u64>)
    requires
        taken <= written,
    ensures
        r == (if written - taken > FFB_SLOW {
            Some((written - taken) as u64)
        } else {
            None
        }),
{
    if written - taken > FFB_SLOW {
        Some(written - taken)
    } else {
        None
    }
}

// ---- forwarding ----

/// Wheel-side counters (the device side's are in [`crate::device::Stats`]).
#[derive(Clone, Copy, PartialEq, Eq, Structural)]
pub struct WheelStats {
    pub input: u32,
    pub hidpp: u32,
    pub ffb: u32,
    pub ffb_written: u32,
    pub hidpp_written: u32,
    /// Force packets with TRUEFORCE samples.
    pub trueforce: u32,
}

/// What the proxy knows of the wheel.
#[derive(Clone, Copy)]
pub struct Link {
    /// The bridge is waking the wheel: its HID++ messages are then answers to the bridge.
    pub waking: bool,
    /// The wheel has answered a request (not just notified) during the wake-up.
    pub answered: bool,
    /// Index of the wheel's LED feature (0x807a), once known.
    pub led: Option<u8>,
    pub stats: WheelStats,
    pub ffb_in_log: Sampler,
    pub ffb_out_log: Sampler,
    pub ffb_gap: GapMeter,
}

impl Link {
    pub fn new() -> (l: Self)
        ensures
            l == (Link {
                waking: false,
                answered: false,
                led: None,
                stats: WheelStats {
                    input: 0,
                    hidpp: 0,
                    ffb: 0,
                    ffb_written: 0,
                    hidpp_written: 0,
                    trueforce: 0,
                },
                ffb_in_log: Sampler { interval: FFB_LOG_INTERVAL, last: None, skipped: 0 },
                ffb_out_log: Sampler { interval: FFB_LOG_INTERVAL, last: None, skipped: 0 },
                ffb_gap: GapMeter { limit: FFB_GAP, last: None },
            }),
    {
        Link {
            waking: false,
            answered: false,
            led: None,
            stats: WheelStats {
                input: 0,
                hidpp: 0,
                ffb: 0,
                ffb_written: 0,
                hidpp_written: 0,
                trueforce: 0,
            },
            ffb_in_log: Sampler::new(FFB_LOG_INTERVAL),
            ffb_out_log: Sampler::new(FFB_LOG_INTERVAL),
            ffb_gap: GapMeter::new(FFB_GAP),
        }
    }

    /// After one more input report.
    pub open spec fn input_counted(self) -> Link {
        Link { stats: WheelStats { input: counted(self.stats.input), ..self.stats }, ..self }
    }
}

/// The device side after an IF0 report from the wheel: a report of the right length is translated
/// for the console, or queued as it is in mirror mode.
pub open spec fn after_input(port: Port, role: Role, data: Seq<u8>) -> Port {
    if data.len() != C272_LEN {
        port
    } else if role == Role::Mirror {
        Port {
            input_in: offered(port.input_in, QUEUE_LEN as nat, data),
            stats: dropped_if(port.stats, port.input_in.len() >= QUEUE_LEN),
            ..port
        }
    } else {
        Port { input: translated(data), ..port }
    }
}

/// An IF0 report came from the wheel. Returns false for one of another length, which is ignored.
pub fn on_input(link: &mut Link, dev: &mut Device, data: &[u8]) -> (taken: bool)
    requires
        old(dev).wf(),
    ensures
        final(dev).wf(),
        final(dev).profile == old(dev).profile,
        taken == (data@.len() == C272_LEN),
        final(dev)@ == after_input(old(dev)@, old(dev).profile.role, data@),
        *final(link) == (if taken {
            old(link).input_counted()
        } else {
            *old(link)
        }),
{
    if data.len() != C272_LEN {
        return false;
    }
    count(&mut link.stats.input);
    if dev.profile.role == Role::Mirror {
        let packet = Packet::new(data);
        assert(packet@ =~= data@);
        push_input(dev, packet);
    } else {
        let mut report: [u8; C272_LEN] = [0;C272_LEN];
        overlay(&mut report, data);
        assert(report@ =~= data@);
        set_input(dev, translate(&report));
    }
    true
}

/// Wheel role: what the wheel reports is what the console reads from then on, translated.
pub proof fn law_wheel_report_reaches_console(port: Port, p: Profile, data: Seq<u8>, req: Request)
    requires
        p.role == Role::Wheel,
        data.len() == C272_LEN,
        Port::is_get_report(req),
        req.value == 0x101,
        req.index == IF_INPUT,
    ensures
        after_input(port, p.role, data).input == translated(data),
        after_input(port, p.role, data).in_answer(p, req) == Some(
            InAnswer::Accepted(translated(data)),
        ),
{
}

/// Mirror: what the wheel reports goes upstream unchanged, behind the reports before it.
pub proof fn law_mirrored_report_is_unchanged(port: Port, data: Seq<u8>)
    requires
        data.len() == C272_LEN,
        port.input_in.len() < QUEUE_LEN,
    ensures
        after_input(port, Role::Mirror, data).input_in == port.input_in.push(data),
        after_input(port, Role::Mirror, data).stats == port.stats,
{
}

/// A force feedback packet that the console sends reaches the wheel with its bytes unchanged and
/// zeros behind them, after the packets before it.
pub proof fn law_force_packet_reaches_wheel(queue: Seq<Seq<u8>>, data: Seq<u8>)
    requires
        queue.len() < QUEUE_LEN,
        data.len() <= MAX_PACKET,
    ensures
        offered(queue, QUEUE_LEN as nat, packet_bytes(data)).drop_last() == queue,
        padded(offered(queue, QUEUE_LEN as nat, packet_bytes(data)).last()) == padded(data),
        padded(data).take(data.len() as int) == data,
{
    law_packet_keeps_report(data);
    law_padding_keeps_packet(data);
    assert(offered(queue, QUEUE_LEN as nat, packet_bytes(data)).drop_last() =~= queue);
}

/// A HID++ message that answers a request: byte 3 is function and software ID, and notifications
/// have software ID 0.
pub open spec fn is_answer(msg: Seq<u8>) -> bool {
    msg.len() > 3 && msg[3] % 16 != 0
}

/// An answer to one of the bridge's own requests.
pub open spec fn is_own_answer(msg: Seq<u8>) -> bool {
    msg.len() > 3 && msg[3] % 16 == SOFTWARE_ID
}

/// The index that the wheel base's answer to the bridge's getFeature (IRoot function 0) gives;
/// index 0 means that it does not have the feature.
pub open spec fn feature_index(msg: Seq<u8>) -> Option<u8> {
    if msg.len() > 4 && msg[1] == 0xff && msg[2] == 0 && msg[3] == SOFTWARE_ID && msg[4] != 0 {
        Some(msg[4])
    } else {
        None
    }
}

impl Link {
    /// The HID++ message goes upstream: not during the wake-up, and (but in mirror mode) not
    /// where it answers the bridge.
    pub open spec fn forwards(self, role: Role, msg: Seq<u8>) -> bool {
        !self.waking && (role == Role::Mirror || !is_own_answer(msg))
    }

    pub open spec fn after_hidpp(self, role: Role, msg: Seq<u8>) -> Link {
        Link {
            answered: self.answered || (self.waking && is_answer(msg)),
            led: if role != Role::Mirror && feature_index(msg) is Some {
                feature_index(msg)
            } else {
                self.led
            },
            stats: WheelStats { hidpp: counted(self.stats.hidpp), ..self.stats },
            ..self
        }
    }
}

/// A HID++ message came from the wheel. Returns whether it goes upstream.
pub fn on_hidpp(link: &mut Link, dev: &mut Device, packet: Packet) -> (forwarded: bool)
    requires
        old(dev).wf(),
    ensures
        final(dev).wf(),
        final(dev).profile == old(dev).profile,
        forwarded == old(link).forwards(old(dev).profile.role, packet@),
        *final(link) == old(link).after_hidpp(old(dev).profile.role, packet@),
        final(dev)@ == (if forwarded {
            Port {
                hidpp_in: offered(old(dev)@.hidpp_in, HIDPP_IN_QUEUE_LEN as nat, packet@),
                stats: dropped_if(
                    old(dev)@.stats,
                    old(dev)@.hidpp_in.len() >= HIDPP_IN_QUEUE_LEN,
                ),
                ..old(dev)@
            }
        } else {
            old(dev)@
        }),
{
    count(&mut link.stats.hidpp);
    let mirror: bool = dev.profile.role == Role::Mirror;
    let msg: &[u8] = packet.bytes();
    let answer: bool = msg.len() > 3 && msg[3] % 16 != 0;
    let own: bool = msg.len() > 3 && msg[3] % 16 == SOFTWARE_ID;
    if link.waking && answer {
        link.answered = true;
    }
    if !mirror && msg.len() > 4 && msg[1] == 0xff && msg[2] == 0 && msg[3] == SOFTWARE_ID && msg[4]
        != 0 {
        link.led = Some(msg[4]);
    }
    if link.waking || (!mirror && own) {
        return false;
    }
    push_hidpp(dev, packet);
    true
}

/// While the bridge wakes the wheel, and for its own requests at any time, the wheel's answers do
/// not reach the console; everything else does, unchanged.
pub proof fn law_own_answers_stay_here(link: Link, role: Role, msg: Seq<u8>)
    ensures
        link.waking ==> !link.forwards(role, msg),
        role != Role::Mirror && is_own_answer(msg) ==> !link.forwards(role, msg),
        !link.waking && !is_own_answer(msg) ==> link.forwards(role, msg),
        role == Role::Mirror && !link.waking ==> link.forwards(role, msg),
        feature_index(msg) is Some ==> is_own_answer(msg),
{
}

/// What there is to note about a force feedback packet.
#[derive(Clone, Copy, PartialEq, Eq, Structural)]
pub struct FfbNote {
    /// Log it, with the number of packets since the last one logged.
    pub log: Option<u32>,
    /// The pause before it, where that was too long.
    pub gap: Option<u64>,
}

/// A force feedback report came from the wheel at `now`: queue it for the device side.
pub fn on_ffb(link: &mut Link, dev: &mut Device, packet: Packet, now: u64) -> (note: FfbNote)
    requires
        old(dev).wf(),
        old(link).ffb_in_log.clock_ok(now),
        old(link).ffb_gap.clock_ok(now),
    ensures
        final(dev).wf(),
        final(dev).profile == old(dev).profile,
        note.log == old(link).ffb_in_log.note(now),
        note.gap == old(link).ffb_gap.gap(now),
        *final(link) == (Link {
            stats: WheelStats { ffb: counted(old(link).stats.ffb), ..old(link).stats },
            ffb_in_log: old(link).ffb_in_log.after(now),
            ffb_gap: GapMeter { last: Some(now), ..old(link).ffb_gap },
            ..*old(link)
        }),
        final(dev)@ == (Port {
            ffb_in: offered(old(dev)@.ffb_in, QUEUE_LEN as nat, packet@),
            stats: dropped_if(old(dev)@.stats, old(dev)@.ffb_in.len() >= QUEUE_LEN),
            ..old(dev)@
        }),
{
    count(&mut link.stats.ffb);
    let log: Option<u32> = link.ffb_in_log.sample(now);
    let gap: Option<u64> = link.ffb_gap.tick(now);
    push_ffb(dev, packet);
    FfbNote { log, gap }
}

/// A force feedback command to the wheel other than the force stream.
pub open spec fn is_command(packet: Seq<u8>) -> bool {
    packet.len() > 4 && packet[4] != FFB_STREAM
}

/// What to log of a force feedback packet to the wheel at `now`: every command, and a sample of the
/// stream, with the number of packets held back since the last one logged.
pub open spec fn ffb_note(log: Sampler, packet: Seq<u8>, now: u64) -> Option<u32> {
    if is_command(packet) {
        Some(log.skipped)
    } else {
        log.note(now)
    }
}

/// The sampler after that packet.
pub open spec fn after_ffb(log: Sampler, packet: Seq<u8>, now: u64) -> Sampler {
    if is_command(packet) {
        log.passed(now)
    } else {
        log.after(now)
    }
}

/// A force feedback packet for the wheel was taken from its queue at `now`. Returns the report to
/// write, and what to log of it.
pub fn ffb_report(link: &mut Link, packet: &Packet, now: u64) -> (r: (
    [u8; MAX_PACKET],
    Option<u32>,
))
    requires
        old(link).ffb_out_log.clock_ok(now),
    ensures
        r.0@ == padded(packet@),
        r.1 == ffb_note(old(link).ffb_out_log, packet@, now),
        *final(link) == (Link {
            ffb_out_log: after_ffb(old(link).ffb_out_log, packet@, now),
            ..*old(link)
        }),
{
    let bytes: &[u8] = packet.bytes();
    let log: Option<u32> = if bytes.len() > 4 && bytes[4] != FFB_STREAM {
        Some(link.ffb_out_log.pass(now))
    } else {
        link.ffb_out_log.sample(now)
    };
    (pad_ffb(packet), log)
}

/// Every command to the wheel is logged, however soon it comes; a packet of the stream only
/// [`FFB_LOG_INTERVAL`] after the last packet logged. No packet goes uncounted: one that is held
/// back raises the number that the next one logged comes with.
pub proof fn law_commands_logged_stream_sampled(
    log: Sampler,
    packet: Seq<u8>,
    now: u64,
    next: Seq<u8>,
    later: u64,
)
    requires
        log.interval == FFB_LOG_INTERVAL,
        log.clock_ok(now),
        log.skipped < u32::MAX,
        now <= later,
    ensures
        is_command(packet) ==> ffb_note(log, packet, now) is Some,
        ffb_note(log, packet, now) is Some && !is_command(next) ==> (ffb_note(
            after_ffb(log, packet, now),
            next,
            later,
        ) is Some <==> later - now >= FFB_LOG_INTERVAL),
        ffb_note(log, packet, now) is Some ==> after_ffb(log, packet, now).skipped == 0,
        ffb_note(log, packet, now) is None ==> after_ffb(log, packet, now).skipped == log.skipped
            + 1,
        ffb_note(log, packet, now) matches Some(n) ==> n == log.skipped,
{
}

/// A force feedback report was written to the wheel, or could not be: a failure loses just that
/// packet.
pub fn ffb_written(link: &mut Link, report: &[u8; MAX_PACKET], ok: bool)
    ensures
        *final(link) == (if ok {
            Link {
                stats: WheelStats {
                    ffb_written: counted(old(link).stats.ffb_written),
                    trueforce: if spec_has_samples(report@) {
                        counted(old(link).stats.trueforce)
                    } else {
                        old(link).stats.trueforce
                    },
                    ..old(link).stats
                },
                ..*old(link)
            }
        } else {
            *old(link)
        }),
{
    if ok {
        count(&mut link.stats.ffb_written);
        if has_samples(report) {
            count(&mut link.stats.trueforce);
        }
    }
}

/// An upstream class request was repeated to the wheel; HID++ requests that went through are
/// counted.
pub fn request_repeated(link: &mut Link, msg: &ControlOut, ok: bool)
    ensures
        *final(link) == (if ok && spec_is_hidpp(*msg) {
            Link {
                stats: WheelStats {
                    hidpp_written: counted(old(link).stats.hidpp_written),
                    ..old(link).stats
                },
                ..*old(link)
            }
        } else {
            *old(link)
        }),
{
    if ok && is_hidpp(msg) {
        count(&mut link.stats.hidpp_written);
    }
}

// ---- rev lights ----

/// Lit LEDs in a 5-LED mask.
pub open spec fn lit(mask: u8) -> int {
    mask % 2 + mask / 2 % 2 + mask / 4 % 2 + mask / 8 % 2 + mask / 16 % 2
}

/// Rev-light level (0 to 10) that an IF0 output report asks for: report 0x30 with the G29-style
/// command `f8 12 <mask>` asks for two levels per lit LED.
pub open spec fn rev_level(report: Seq<u8>) -> Option<u8> {
    if report.len() > 3 && report[0] == 0x30 && report[1] == 0xf8 && report[2] == 0x12 {
        Some((2 * lit(report[3])) as u8)
    } else {
        None
    }
}

/// The HID++ long request that sets the rev lights: function 6 of the LED feature at `index`,
/// `11 ff <index> 6b 00 01 00 0a 00 <level>`.
pub open spec fn rev_command(index: u8, level: u8) -> Seq<u8> {
    overlaid(
        Seq::new(HIDPP_LONG_LEN as nat, |i: int| 0u8),
        seq![0x11u8, 0xff, index, 0x6b, 0x00, 0x01, 0x00, 0x0a, 0x00, level],
    )
}

/// The LED command for the wheel that an IF0 output report from the console stands for, if any;
/// none while the wheel's LED feature is not known.
pub fn rev_lights(link: &Link, report: &[u8]) -> (r: Option<[u8; 20]>)
    ensures
        match r {
            Some(msg) => {
                &&& link.led is Some
                &&& rev_level(report@) is Some
                &&& msg@ == rev_command(link.led->0, rev_level(report@)->0)
            },
            None => link.led is None || rev_level(report@) is None,
        },
{
    let index: u8 = match link.led {
        Some(i) => i,
        None => {
            return None;
        },
    };
    if report.len() > 3 && report[0] == 0x30 && report[1] == 0xf8 && report[2] == 0x12 {
        let m: u8 = report[3];
        let level: u8 = 2 * (m % 2 + m / 2 % 2 + m / 4 % 2 + m / 8 % 2 + m / 16 % 2);
        let msg: [u8; 20] = [
            0x11,
            0xff,
            index,
            0x6b,
            0x00,
            0x01,
            0x00,
            0x0a,
            0x00,
            level,
            0,
            0,
            0,
            0,
            0,
            0,
            0,
            0,
            0,
            0,
        ];
        assert(msg@ =~= rev_command(index, level));
        Some(msg)
    } else {
        None
    }
}

/// The level stays within the wheel's ten steps, is even, and no LED means no light; each LED
/// that the console adds from one side raises it by two.
pub proof fn law_rev_level_range(report: Seq<u8>)
    ensures
        rev_level(report) matches Some(level) ==> level <= 10 && level % 2 == 0,
        rev_level(report) is Some && report[3] % 32 == 0 ==> rev_level(report) == Some(0u8),
        rev_level(report) is Some && report[3] == 0x01 ==> rev_level(report) == Some(2u8),
        rev_level(report) is Some && report[3] == 0x03 ==> rev_level(report) == Some(4u8),
        rev_level(report) is Some && report[3] == 0x07 ==> rev_level(report) == Some(6u8),
        rev_level(report) is Some && report[3] == 0x0f ==> rev_level(report) == Some(8u8),
        rev_level(report) is Some && report[3] == 0x1f ==> rev_level(report) == Some(10u8),
{
    if report.len() > 3 && report[3] % 32 == 0 {
        let m = report[3];
        assert(m % 2 == 0 && m / 2 % 2 == 0 && m / 4 % 2 == 0 && m / 8 % 2 == 0 && m / 16 % 2 == 0)
            by (bit_vector)
            requires
                m % 32 == 0,
        ;
    }
}

// ---- statistics ----

/// Message counts of one interval, in both directions.
#[derive(Clone, Copy, PartialEq, Eq, Structural)]
pub struct Interval {
    pub wheel: WheelStats,
    pub device: Stats,
}

/// Read the counters of both sides and start them over.
pub fn take_stats(link: &mut Link, dev: &mut Device) -> (r: Interval)
    requires
        old(dev).wf(),
    ensures
        final(dev).wf(),
        final(dev).profile == old(dev).profile,
        r == (Interval { wheel: old(link).stats, device: old(dev)@.stats }),
        *final(link) == (Link {
            stats: WheelStats {
                input: 0,
                hidpp: 0,
                ffb: 0,
                ffb_written: 0,
                hidpp_written: 0,
                trueforce: 0,
            },
            ..*old(link)
        }),
        final(dev)@ == (Port { stats: device::no_stats(), ..old(dev)@ }),
{
    let wheel = WheelStats {
        input: take(&mut link.stats.input),
        hidpp: take(&mut link.stats.hidpp),
        ffb: take(&mut link.stats.ffb),
        ffb_written: take(&mut link.stats.ffb_written),
        hidpp_written: take(&mut link.stats.hidpp_written),
        trueforce: take(&mut link.stats.trueforce),
    };
    let device: Stats = device::take_stats(dev);
    Interval { wheel, device }
}

// ---- liveness ----

/// What a GET_STATUS tells of the wheel.
#[derive(Clone, Copy, PartialEq, Eq, Structural)]
pub enum Liveness {
    Unchanged,
    StoppedResponding,
    RespondingAgain,
}

/// The outcome of a GET_STATUS: `responding` holds what the last one was.
pub fn on_status(responding: &mut bool, ok: bool) -> (r: Liveness)
    ensures
        *final(responding) == ok,
        r == (if *old(responding) == ok {
            Liveness::Unchanged
        } else if ok {
            Liveness::RespondingAgain
        } else {
            Liveness::StoppedResponding
        }),
{
    let before: bool = *responding;
    *responding = ok;
    if before == ok {
        Liveness::Unchanged
    } else if ok {
        Liveness::RespondingAgain
    } else {
        Liveness::StoppedResponding
    }
}

// ---- laws of what goes where ----

/// A rev-light command is told by its first bytes, however long the report: every report of four
/// bytes or more that starts `30 f8 12` is one, and no other. Its level is twice the number of bits
/// set in the low five of byte 3.
pub proof fn law_rev_command_recognised(report: Seq<u8>)
    ensures
        rev_level(report) is Some <==> report.len() >= 4 && report[0] == 0x30 && report[1] == 0xf8
            && report[2] == 0x12,
        rev_level(report) matches Some(level) ==> {
            let m = report[3];
            let set = (if m & 0x01 != 0 {
                1int
            } else {
                0
            }) + (if m & 0x02 != 0 {
                1int
            } else {
                0
            }) + (if m & 0x04 != 0 {
                1int
            } else {
                0
            }) + (if m & 0x08 != 0 {
                1int
            } else {
                0
            }) + (if m & 0x10 != 0 {
                1int
            } else {
                0
            });
            level == 2 * set
        },
{
    if report.len() >= 4 {
        let m = report[3];
        assert({
            &&& m % 2 == (if m & 0x01 != 0 {
                1u8
            } else {
                0u8
            })
            &&& m / 2 % 2 == (if m & 0x02 != 0 {
                1u8
            } else {
                0u8
            })
            &&& m / 4 % 2 == (if m & 0x04 != 0 {
                1u8
            } else {
                0u8
            })
            &&& m / 8 % 2 == (if m & 0x08 != 0 {
                1u8
            } else {
                0u8
            })
            &&& m / 16 % 2 == (if m & 0x10 != 0 {
                1u8
            } else {
                0u8
            })
        }) by (bit_vector);
    }
}

/// What follows the mask in a rev-light report does not matter, and another mask bit that is lit
/// raises the level by two.
pub proof fn law_rev_level_by_mask(report: Seq<u8>, other: Seq<u8>)
    requires
        report.len() >= 4,
        other.len() >= 4,
        report.take(3) == other.take(3),
    ensures
        report[3] == other[3] ==> rev_level(report) == rev_level(other),
        rev_level(report) is Some <==> rev_level(other) is Some,
        rev_level(report) is Some && report[3] % 2 == 0 && other[3] == report[3] + 1 ==> rev_level(
            other,
        )->0 == rev_level(report)->0 + 2,
{
    assert(report[0] == report.take(3)[0] && report[1] == report.take(3)[1] && report[2]
        == report.take(3)[2]);
    assert(other[0] == other.take(3)[0] && other[1] == other.take(3)[1] && other[2] == other.take(
        3,
    )[2]);
}

/// The LED command, byte by byte: `11 ff <index> 6b 00 01 00 0a 00 <level>` and zeros, 20 bytes.
pub proof fn law_rev_command_by_byte(index: u8, level: u8)
    ensures
        ({
            let c = rev_command(index, level);
            &&& c.len() == 20
            &&& c[0] == 0x11 && c[1] == 0xff && c[2] == index && c[3] == 0x6b
            &&& c[4] == 0x00 && c[5] == 0x01 && c[6] == 0x00 && c[7] == 0x0a && c[8] == 0x00
            &&& c[9] == level
            &&& forall|i: int| 10 <= i < 20 ==> #[trigger] c[i] == 0
        }),
{
}

/// What the wheel is given of a force feedback packet: 64 bytes, of which the packet's own are
/// first and unchanged and the rest are zero.
pub proof fn law_wheel_gets_every_byte(data: Seq<u8>)
    ensures
        padded(data).len() == 64,
        forall|i: int| 0 <= i < 64 && i < data.len() ==> #[trigger] padded(data)[i] == data[i],
        forall|i: int| 0 <= i < 64 && i >= data.len() ==> #[trigger] padded(data)[i] == 0,
{
}

/// From the console to the wheel: a force feedback packet of at most 64 bytes that finds room waits
/// behind those before it, and once those are taken, what the wheel is given starts with all of its
/// bytes.
pub proof fn law_console_packet_reaches_wheel(port: Port, data: Seq<u8>, now: u64)
    requires
        data.len() <= 64,
        port.ffb_out.len() < 8,
    ensures
        ({
            let queue = port.after_ffb_output(packet_bytes(data), now).ffb_out;
            &&& queue.len() == port.ffb_out.len() + 1
            &&& forall|i: int|
                0 <= i < port.ffb_out.len() ==> #[trigger] queue[i] == port.ffb_out[i]
            &&& padded(queue.last()).len() == 64
            &&& forall|i: int|
                0 <= i < data.len() ==> #[trigger] padded(queue.last())[i] == data[i]
            &&& forall|i: int|
                data.len() <= i < 64 ==> #[trigger] padded(queue.last())[i] == 0
        }),
{
}

/// TRUEFORCE samples are counted in the force stream only (bytes 0 and 4 are 1), where byte 10 says
/// that there are any.
pub proof fn law_samples_told_by_count(data: Seq<u8>)
    ensures
        spec_has_samples(data) <==> data.len() >= 11 && data[0] == 1 && data[4] == 1 && data[10]
            > 0,
{
}

/// An interface is found by its number: the first one listed with it, and none where there is no
/// such one.
pub proof fn law_interface_found_by_number(ifaces: Seq<Option<HidInterface>>, n: u8, k: int)
    ensures
        interface_numbered(ifaces, n) matches Some(iface) ==> iface.number == n && ifaces.contains(
            Some(iface),
        ),
        0 <= k < ifaces.len() && ifaces[k] is Some && ifaces[k]->0.number == n && (forall|j: int|
            0 <= j < k ==> !((#[trigger] ifaces[j]) is Some && ifaces[j]->0.number == n))
            ==> interface_numbered(ifaces, n) == ifaces[k],
        (forall|j: int|
            0 <= j < ifaces.len() ==> !((#[trigger] ifaces[j]) is Some && ifaces[j]->0.number == n))
            ==> interface_numbered(ifaces, n) is None,
    decreases ifaces.len(),
{
    if ifaces.len() > 0 {
        let rest = ifaces.drop_first();
        law_interface_found_by_number(rest, n, k - 1);
        assert(forall|j: int| 0 <= j < rest.len() ==> #[trigger] rest[j] == ifaces[j + 1]);
        if let Some(iface) = interface_numbered(rest, n) {
            let j = choose|j: int| 0 <= j < rest.len() && rest[j] == Some(iface);
            assert(ifaces[j + 1] == Some(iface));
        }
        if ifaces[0] is Some && ifaces[0]->0.number == n {
            assert(ifaces.contains(ifaces[0]));
        }
        if 0 < k < ifaces.len() && ifaces[k] is Some && ifaces[k]->0.number == n && (forall|j: int|
            0 <= j < k ==> !((#[trigger] ifaces[j]) is Some && ifaces[j]->0.number == n)) {
            assert(!(ifaces[0] is Some && ifaces[0]->0.number == n));
            assert(rest[k - 1] == ifaces[k]);
            assert forall|j: int| 0 <= j < k - 1 implies !((#[trigger] rest[j]) is Some
                && rest[j]->0.number == n) by {
                assert(rest[j] == ifaces[j + 1]);
            }
        }
        if forall|j: int|
            0 <= j < ifaces.len() ==> !((#[trigger] ifaces[j]) is Some && ifaces[j]->0.number
                == n) {
            assert(!(ifaces[0] is Some && ifaces[0]->0.number == n));
            assert forall|j: int| 0 <= j < rest.len() implies !((#[trigger] rest[j]) is Some
                && rest[j]->0.number == n) by {
                assert(rest[j] == ifaces[j + 1]);
            }
        }
    }
}

/// The wheel's endpoints are those of its interfaces 0, 1 and 2, each by its direction; where one
/// of the four is missing, the device is not forwarded.
pub proof fn law_wheel_endpoints_by_interface(
    ifaces: Seq<Option<HidInterface>>,
    if0: HidInterface,
    if1: HidInterface,
    if2: HidInterface,
)
    requires
        interface_numbered(ifaces, 0) == Some(if0),
        interface_numbered(ifaces, 1) == Some(if1),
        interface_numbered(ifaces, 2) == Some(if2),
    ensures
        if0.in_ep is Some && if1.in_ep is Some && if2.in_ep is Some && if2.out_ep is Some
            ==> wheel_endpoints(ifaces) == Some(
            WheelEndpoints {
                if0_in: if0.in_ep->0,
                if1_in: if1.in_ep->0,
                if2_in: if2.in_ep->0,
                if2_out: if2.out_ep->0,
            },
        ),
        if0.in_ep is None || if1.in_ep is None || if2.in_ep is None || if2.out_ep is None
            ==> wheel_endpoints(ifaces) is None,
{
}

/// A device without one of the interfaces 0, 1 and 2 is not forwarded.
pub proof fn law_wheel_needs_three_interfaces(ifaces: Seq<Option<HidInterface>>)
    ensures
        interface_numbered(ifaces, 0) is None || interface_numbered(ifaces, 1) is None
            || interface_numbered(ifaces, 2) is None ==> wheel_endpoints(ifaces) is None,
{
}

/// HID++ messages from the wheel, by their bytes. The low four bits of byte 3 are the software ID:
/// 0 in a notification, 0xb in an answer to the bridge. Outside the wake-up everything goes
/// upstream unchanged, but (not in the mirror) what answers the bridge; in the wake-up nothing does,
/// and any answer ends the pinging. The index of the LED feature is byte 4 of the wheel base's
/// answer to the bridge's request `10 ff 00 0b`, unless that is 0.
pub proof fn law_wheel_messages(link: Link, role: Role, msg: Seq<u8>)
    ensures
        link.forwards(role, msg) <==> !link.waking && (role == Role::Mirror || msg.len() < 4
            || msg[3] & 0x0f != 0x0b),
        link.after_hidpp(role, msg).answered <==> link.answered || (link.waking && msg.len() >= 4
            && msg[3] & 0x0f != 0),
        role != Role::Mirror && msg.len() >= 5 && msg[1] == 0xff && msg[2] == 0x00 && msg[3] == 0x0b
            && msg[4] != 0 ==> link.after_hidpp(role, msg).led == Some(msg[4]),
        role == Role::Mirror || !(msg.len() >= 5 && msg[1] == 0xff && msg[2] == 0x00 && msg[3]
            == 0x0b && msg[4] != 0) ==> link.after_hidpp(role, msg).led == link.led,
        link.after_hidpp(role, msg) == (Link {
            answered: link.after_hidpp(role, msg).answered,
            led: link.after_hidpp(role, msg).led,
            stats: (WheelStats { hidpp: counted(link.stats.hidpp), ..link.stats }),
            ..link
        }),
{
    if msg.len() >= 4 {
        let b = msg[3];
        assert(b & 0x0f == b % 16) by (bit_vector);
    }
}

/// An IF0 report of the wheel is 30 bytes. In the mirror it goes upstream as it is; otherwise its
/// translation is what the console gets from then on, and nothing is queued. A report of any other
/// length changes nothing.
pub proof fn law_wheel_reports(port: Port, link: Link, role: Role, data: Seq<u8>)
    ensures
        data.len() != 30 ==> after_input(port, role, data) == port,
        data.len() == 30 && role == Role::Mirror && port.input_in.len() < 8 ==> after_input(
            port,
            role,
            data,
        ) == (Port { input_in: port.input_in.push(data), ..port }),
        data.len() == 30 && role == Role::Mirror && port.input_in.len() >= 8 ==> after_input(
            port,
            role,
            data,
        ) == (Port {
            stats: (device::Stats { dropped: counted(port.stats.dropped), ..port.stats }),
            ..port
        }),
        data.len() == 30 && role != Role::Mirror ==> after_input(port, role, data) == (Port {
            input: translated(data),
            ..port
        }),
        link.input_counted() == (Link {
            stats: (WheelStats { input: counted(link.stats.input), ..link.stats }),
            ..link
        }),
{
}

/// A force feedback packet to the wheel is a command exactly where it has a fifth byte that is not
/// 1; a HID++ request is a SET_REPORT (9) on interface 1.
pub proof fn law_commands_and_requests(packet: Seq<u8>, msg: ControlOut)
    ensures
        is_command(packet) <==> packet.len() >= 5 && packet[4] != 1,
        spec_is_hidpp(msg) <==> msg.request == 9 && msg.index == 1,
{
}

} // verus!
