//! Host side of the relay role ([`crate::device::relay_c269`]): a c269 on the host port, passed
//! through to the console on the native port. Both sides have the same endpoints, so every
//! endpoint is forwarded packet by packet:
//!
//! - IF0: input to the console; output reports 0x05/0x30 to the backend.
//! - IF1 HID++: 20-byte packets to the console; SET_REPORTs to the backend.
//! - IF2 force feedback: in both directions.
//! - Other class requests from the console are repeated to the backend; auth (F0-F3) goes through
//!   [`crate::auth`] with the backend as the signer.

use crate::descriptor::Endpoint;
use crate::device::{
    self, count, dropped_if, push_ffb, push_hidpp, push_input, take, Device, Port, Stats,
};
use crate::hid::{HidInterface, MAX_HID_INTERFACES};
use crate::pace::{counted, Sampler};
use crate::packet::{ControlOut, Packet};
use crate::proxy::{
    find_numbered, in_endpoint, in_ep, interface_numbered, is_hidpp, out_endpoint, out_ep,
    spec_is_hidpp, FFB_LOG_INTERVAL,
};
use crate::queue::{offered, HIDPP_IN_QUEUE_LEN, QUEUE_LEN};
use vstd::prelude::*;

verus! {

pub const BACKEND_VID: u16 = 0x046d;

pub const BACKEND_PID: u16 = 0xc269;

/// The backend's HID interface with the auth reports.
pub const IF_AUTH: u16 = 0;

/// The endpoints of the backend that are forwarded.
#[derive(Clone, Copy, PartialEq, Eq, Structural)]
pub struct BackendEndpoints {
    pub if0_in: Endpoint,
    pub if0_out: Endpoint,
    pub if1_in: Endpoint,
    pub if2_in: Endpoint,
    pub if2_out: Endpoint,
}

/// The c269's layout: IN endpoints on interfaces 0 to 2, OUT endpoints on 0 and 2.
pub open spec fn backend_endpoints(ifaces: Seq<Option<HidInterface>>) -> Option<
    BackendEndpoints,
> {
    let if0 = interface_numbered(ifaces, 0);
    let if1 = interface_numbered(ifaces, 1);
    let if2 = interface_numbered(ifaces, 2);
    match (
        in_endpoint(if0),
        out_endpoint(if0),
        in_endpoint(if1),
        in_endpoint(if2),
        out_endpoint(if2),
    ) {
        (Some(if0_in), Some(if0_out), Some(if1_in), Some(if2_in), Some(if2_out)) => Some(
            BackendEndpoints { if0_in, if0_out, if1_in, if2_in, if2_out },
        ),
        _ => None,
    }
}

/// The endpoints to forward, unless the device does not have the c269's interface layout.
pub fn backend_layout(ifaces: &[Option<HidInterface>; MAX_HID_INTERFACES]) -> (r: Option<
    BackendEndpoints,
>)
    ensures
        r == backend_endpoints(ifaces@),
{
    let if0 = find_numbered(ifaces, 0);
    let if1 = find_numbered(ifaces, 1);
    let if2 = find_numbered(ifaces, 2);
    match (in_ep(if0), out_ep(if0), in_ep(if1), in_ep(if2), out_ep(if2)) {
        (Some(if0_in), Some(if0_out), Some(if1_in), Some(if2_in), Some(if2_out)) => Some(
            BackendEndpoints { if0_in, if0_out, if1_in, if2_in, if2_out },
        ),
        _ => None,
    }
}

/// Backend-side counters (the console side's are in [`crate::device::Stats`]).
#[derive(Clone, Copy, PartialEq, Eq, Structural)]
pub struct BackendStats {
    pub input: u32,
    pub hidpp: u32,
    pub ffb: u32,
    pub if0_written: u32,
    pub ffb_written: u32,
    pub hidpp_written: u32,
}

pub open spec fn no_stats() -> BackendStats {
    BackendStats {
        input: 0,
        hidpp: 0,
        ffb: 0,
        if0_written: 0,
        ffb_written: 0,
        hidpp_written: 0,
    }
}

/// What the relay keeps of the backend.
#[derive(Clone, Copy)]
pub struct Backend {
    pub stats: BackendStats,
    pub ffb_in_log: Sampler,
    pub ffb_out_log: Sampler,
}

impl Backend {
    pub fn new() -> (b: Self)
        ensures
            b == (Backend {
                stats: no_stats(),
                ffb_in_log: Sampler { interval: FFB_LOG_INTERVAL, last: None, skipped: 0 },
                ffb_out_log: Sampler { interval: FFB_LOG_INTERVAL, last: None, skipped: 0 },
            }),
    {
        Backend {
            stats: BackendStats {
                input: 0,
                hidpp: 0,
                ffb: 0,
                if0_written: 0,
                ffb_written: 0,
                hidpp_written: 0,
            },
            ffb_in_log: Sampler::new(FFB_LOG_INTERVAL),
            ffb_out_log: Sampler::new(FFB_LOG_INTERVAL),
        }
    }
}

/// An IF0 packet came from the backend: queue it for the console as it is.
pub fn on_input(backend: &mut Backend, dev: &mut Device, packet: Packet)
    requires
        old(dev).wf(),
    ensures
        final(dev).wf(),
        final(dev).profile == old(dev).profile,
        *final(backend) == (Backend {
            stats: BackendStats { input: counted(old(backend).stats.input), ..old(backend).stats },
            ..*old(backend)
        }),
        final(dev)@ == (Port {
            input_in: offered(old(dev)@.input_in, QUEUE_LEN as nat, packet@),
            stats: dropped_if(old(dev)@.stats, old(dev)@.input_in.len() >= QUEUE_LEN),
            ..old(dev)@
        }),
{
    count(&mut backend.stats.input);
    push_input(dev, packet);
}

/// A HID++ packet came from the backend: queue it for the console as it is.
pub fn on_hidpp(backend: &mut Backend, dev: &mut Device, packet: Packet)
    requires
        old(dev).wf(),
    ensures
        final(dev).wf(),
        final(dev).profile == old(dev).profile,
        *final(backend) == (Backend {
            stats: BackendStats { hidpp: counted(old(backend).stats.hidpp), ..old(backend).stats },
            ..*old(backend)
        }),
        final(dev)@ == (Port {
            hidpp_in: offered(old(dev)@.hidpp_in, HIDPP_IN_QUEUE_LEN as nat, packet@),
            stats: dropped_if(old(dev)@.stats, old(dev)@.hidpp_in.len() >= HIDPP_IN_QUEUE_LEN),
            ..old(dev)@
        }),
{
    count(&mut backend.stats.hidpp);
    push_hidpp(dev, packet);
}

/// A force feedback packet came from the backend at `now` (in microseconds): queue it for the
/// console as it is. Returns the number of packets since the last one logged, where it is to be
/// logged.
pub fn on_ffb(backend: &mut Backend, dev: &mut Device, packet: Packet, now: u64) -> (log: Option<
    u32,
>)
    requires
        old(dev).wf(),
        old(backend).ffb_in_log.clock_ok(now),
    ensures
        final(dev).wf(),
        final(dev).profile == old(dev).profile,
        log == old(backend).ffb_in_log.note(now),
        *final(backend) == (Backend {
            stats: BackendStats { ffb: counted(old(backend).stats.ffb), ..old(backend).stats },
            ffb_in_log: old(backend).ffb_in_log.after(now),
            ..*old(backend)
        }),
        final(dev)@ == (Port {
            ffb_in: offered(old(dev)@.ffb_in, QUEUE_LEN as nat, packet@),
            stats: dropped_if(old(dev)@.stats, old(dev)@.ffb_in.len() >= QUEUE_LEN),
            ..old(dev)@
        }),
{
    count(&mut backend.stats.ffb);
    let log: Option<u32> = backend.ffb_in_log.sample(now);
    push_ffb(dev, packet);
    log
}

/// A force feedback packet for the backend was taken from its queue at `now`. Returns what to log
/// of it, as [`on_ffb`] does.
pub fn on_ffb_output(backend: &mut Backend, now: u64) -> (log: Option<u32>)
    requires
        old(backend).ffb_out_log.clock_ok(now),
    ensures
        log == old(backend).ffb_out_log.note(now),
        *final(backend) == (Backend {
            ffb_out_log: old(backend).ffb_out_log.after(now),
            ..*old(backend)
        }),
{
    backend.ffb_out_log.sample(now)
}

/// Where a packet for the backend goes.
#[derive(Clone, Copy, PartialEq, Eq, Structural)]
pub enum OutPath {
    If0,
    Ffb,
}

/// A packet was written to the backend, or could not be. Returns whether the path goes on: a
/// failure ends it.
pub fn written(backend: &mut Backend, path: OutPath, ok: bool) -> (more: bool)
    ensures
        more == ok,
        *final(backend) == (if !ok {
            *old(backend)
        } else {
            Backend {
                stats: match path {
                    OutPath::If0 => BackendStats {
                        if0_written: counted(old(backend).stats.if0_written),
                        ..old(backend).stats
                    },
                    OutPath::Ffb => BackendStats {
                        ffb_written: counted(old(backend).stats.ffb_written),
                        ..old(backend).stats
                    },
                },
                ..*old(backend)
            }
        }),
{
    if ok {
        match path {
            OutPath::If0 => count(&mut backend.stats.if0_written),
            OutPath::Ffb => count(&mut backend.stats.ffb_written),
        }
    }
    ok
}

/// A class request from the console was repeated to the backend; HID++ requests that went through
/// are counted.
pub fn request_repeated(backend: &mut Backend, msg: &ControlOut, ok: bool)
    ensures
        *final(backend) == (if ok && spec_is_hidpp(*msg) {
            Backend {
                stats: BackendStats {
                    hidpp_written: counted(old(backend).stats.hidpp_written),
                    ..old(backend).stats
                },
                ..*old(backend)
            }
        } else {
            *old(backend)
        }),
{
    if ok && is_hidpp(msg) {
        count(&mut backend.stats.hidpp_written);
    }
}

/// Message counts of one interval, in both directions.
#[derive(Clone, Copy, PartialEq, Eq, Structural)]
pub struct Interval {
    pub backend: BackendStats,
    pub device: Stats,
}

/// Read the counters of both sides and start them over.
pub fn take_stats(backend: &mut Backend, dev: &mut Device) -> (r: Interval)
    requires
        old(dev).wf(),
    ensures
        final(dev).wf(),
        final(dev).profile == old(dev).profile,
        r == (Interval { backend: old(backend).stats, device: old(dev)@.stats }),
        *final(backend) == (Backend { stats: no_stats(), ..*old(backend) }),
        final(dev)@ == (Port { stats: device::no_stats(), ..old(dev)@ }),
{
    let stats = BackendStats {
        input: take(&mut backend.stats.input),
        hidpp: take(&mut backend.stats.hidpp),
        ffb: take(&mut backend.stats.ffb),
        if0_written: take(&mut backend.stats.if0_written),
        ffb_written: take(&mut backend.stats.ffb_written),
        hidpp_written: take(&mut backend.stats.hidpp_written),
    };
    let device: Stats = device::take_stats(dev);
    Interval { backend: stats, device }
}

/// The backend's endpoints are those of its interfaces 0, 1 and 2, each by its direction; where one
/// of the five is missing, the device is not relayed.
pub proof fn law_backend_endpoints_by_interface(
    ifaces: Seq<Option<HidInterface>>,
    if0: HidInterface,
    if1: HidInterface,
    if2: HidInterface,
)
    requires
        interface_numbered(ifaces, 0) == Some(if0),
        interface_numbered(ifaces, 1) == Some(if1),
        interface_numbered(ifaces, 2) == Some(if2),
    ensures
        if0.in_ep is Some && if0.out_ep is Some && if1.in_ep is Some && if2.in_ep is Some
            && if2.out_ep is Some ==> backend_endpoints(ifaces) == Some(
            BackendEndpoints {
                if0_in: if0.in_ep->0,
                if0_out: if0.out_ep->0,
                if1_in: if1.in_ep->0,
                if2_in: if2.in_ep->0,
                if2_out: if2.out_ep->0,
            },
        ),
        if0.in_ep is None || if0.out_ep is None || if1.in_ep is None || if2.in_ep is None
            || if2.out_ep is None ==> backend_endpoints(ifaces) is None,
{
}

/// A device without one of the interfaces 0, 1 and 2 is not relayed; the counters start at zero.
pub proof fn law_backend_needs_three_interfaces(ifaces: Seq<Option<HidInterface>>)
    ensures
        interface_numbered(ifaces, 0) is None || interface_numbered(ifaces, 1) is None
            || interface_numbered(ifaces, 2) is None ==> backend_endpoints(ifaces) is None,
        no_stats().input == 0,
        no_stats().hidpp == 0,
        no_stats().ffb == 0,
        no_stats().if0_written == 0,
        no_stats().ffb_written == 0,
        no_stats().hidpp_written == 0,
{
}

} // verus!
