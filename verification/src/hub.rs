//! A USB hub on the host port, for the wheel and the licensed auth pad together.
//!
//! Each device found on a port is reset and enumerated ([`Enumeration`], retried: the wheel needs
//! about 5 s to boot) and handed to one of [`CHILDREN`] runners ([`Ports`]), which serves it until
//! the hub reports it gone ([`Child`]).
//!
//! The GL850G finishes SET_FEATURE(PORT_RESET) only once the reset is done, and a fixed wait does
//! not tell whether the port came up: the port status is polled until the port is enabled.
//!
//! Times are in microseconds.

use crate::bytes::{le16, overlaid, overlay, u16_from_le};
use crate::pace::{counted, Sampler};
use crate::setup::setup_bytes;
use crate::usb_host::Kind;
use vstd::prelude::*;

verus! {

/// Ports tracked.
pub const MAX_PORTS: usize = 8;

/// Devices served at the same time: wheel, auth pad, one spare.
pub const CHILDREN: usize = 3;

/// Enumeration attempts per attach; each resets the port.
pub const ENUM_ATTEMPTS: u32 = 4;

/// After a hub error, wait this long before listening again, and log a repeat of the same error
/// at most this often.
pub const ERROR_BACKOFF: u64 = 100_000;

pub const ERROR_LOG_INTERVAL: u64 = 5_000_000;

/// Hub class requests (USB 2.0 11.24.2), recipient "other" (a port): bmRequestType, bRequest.
pub const PORT_OUT: u8 = 0x23;

pub const PORT_IN: u8 = 0xa3;

pub const SET_FEATURE: u8 = 0x03;

pub const CLEAR_FEATURE: u8 = 0x01;

pub const GET_STATUS: u8 = 0x00;

pub const PORT_RESET: u8 = 4;

pub const C_PORT_RESET: u8 = 20;

/// wPortStatus and wPortChange bits.
pub const PORT_ENABLE: u16 = 0x0002;

pub const C_RESET: u16 = 0x0010;

/// Length of a port status.
pub const STATUS_LEN: usize = 4;

/// Give up on a port reset after this long.
pub const PORT_RESET_TIMEOUT: u64 = 500_000;

pub const PORT_POLL: u64 = 5_000;

/// TRSTRCY (USB 2.0 7.1.7.5): at least 10 ms after reset before the first request.
pub const RESET_RECOVERY: u64 = 10_000;

// ---- enumeration of a device on a port ----

/// Why a port reset failed.
#[derive(Clone, Copy, PartialEq, Eq, Structural)]
pub enum ResetError {
    Request,
    Status,
    TimedOut,
    Clear,
}

impl ResetError {
    pub open spec fn spec_text(self) -> Seq<char> {
        match self {
            ResetError::Request => "SET_FEATURE(PORT_RESET) failed"@,
            ResetError::Status => "GET_STATUS(port) failed"@,
            ResetError::TimedOut => "port reset timed out"@,
            ResetError::Clear => "CLEAR_FEATURE(C_PORT_RESET) failed"@,
        }
    }

    pub fn text(self) -> (r: &'static str)
        ensures
            r@ == self.spec_text(),
    {
        match self {
            ResetError::Request => "SET_FEATURE(PORT_RESET) failed",
            ResetError::Status => "GET_STATUS(port) failed",
            ResetError::TimedOut => "port reset timed out",
            ResetError::Clear => "CLEAR_FEATURE(C_PORT_RESET) failed",
        }
    }
}

/// What the enumeration is waiting for.
#[derive(Clone, Copy, PartialEq, Eq, Structural)]
pub enum Stage {
    /// The end of SET_FEATURE(PORT_RESET).
    Request,
    /// The reply to GET_STATUS.
    Status,
    /// The end of the pause before the next GET_STATUS.
    Poll,
    /// The end of CLEAR_FEATURE(C_PORT_RESET).
    Clear,
    /// The end of the recovery time.
    Recovery,
    /// The outcome of the enumeration.
    Enumerate,
    /// Nothing more.
    Over,
}

/// What to do next.
#[derive(Clone, Copy)]
pub enum Action {
    /// A control request to the hub without data.
    Out([u8; 8]),
    /// A control request to the hub for [`STATUS_LEN`] bytes.
    In([u8; 8]),
    /// Wait this long.
    Wait(u64),
    /// Enumerate the device at address 0.
    Enumerate,
    /// The device is enumerated.
    Found,
    /// The device could not be enumerated.
    GiveUp,
}

/// An [`Action`], by its bytes.
pub enum Step {
    Out(Seq<u8>),
    In(Seq<u8>),
    Wait(u64),
    Enumerate,
    Found,
    GiveUp,
}

impl View for Action {
    type V = Step;

    open spec fn view(&self) -> Step {
        match self {
            Action::Out(setup) => Step::Out(setup@),
            Action::In(setup) => Step::In(setup@),
            Action::Wait(t) => Step::Wait(*t),
            Action::Enumerate => Step::Enumerate,
            Action::Found => Step::Found,
            Action::GiveUp => Step::GiveUp,
        }
    }
}

/// Progress with the device on one port.
#[derive(Clone, Copy)]
pub struct Enumeration {
    /// The port, counted from 0.
    pub port: u8,
    pub attempt: u32,
    /// When the port reset began.
    pub start: u64,
    pub stage: Stage,
    /// Why the last reset failed, if it did.
    pub error: Option<ResetError>,
}

/// SET_FEATURE, CLEAR_FEATURE or GET_STATUS of a port; the hub counts ports from 1.
pub open spec fn port_setup(kind: u8, request: u8, feature: u8, port: u8, len: u16) -> Seq<u8> {
    setup_bytes(kind, request, feature as u16, (port + 1) as u16, len)
}

/// wPortStatus and wPortChange in a reply to GET_STATUS; what did not come counts as 0.
pub open spec fn port_status(reply: Seq<u8>) -> (u16, u16) {
    let s = overlaid(Seq::new(STATUS_LEN as nat, |i: int| 0u8), reply);
    (le16(s[0], s[1]), le16(s[2], s[3]))
}

/// The port is enabled and its reset is over.
pub open spec fn port_up(reply: Seq<u8>) -> bool {
    port_status(reply).0 & PORT_ENABLE != 0 && port_status(reply).1 & C_RESET != 0
}

impl Enumeration {
    pub open spec fn valid(self) -> bool {
        &&& self.port < 255
        &&& 1 <= self.attempt <= ENUM_ATTEMPTS
    }

    pub open spec fn spec_request(self, attempt: u32, now: u64) -> (Enumeration, Step) {
        (
            Enumeration { attempt, start: now, stage: Stage::Request, ..self },
            Step::Out(port_setup(PORT_OUT, SET_FEATURE, PORT_RESET, self.port, 0)),
        )
    }

    pub open spec fn spec_status(self) -> (Enumeration, Step) {
        (
            Enumeration { stage: Stage::Status, ..self },
            Step::In(port_setup(PORT_IN, GET_STATUS, 0, self.port, STATUS_LEN as u16)),
        )
    }

    /// The attempt failed: try again, or give up after the last.
    pub open spec fn spec_failed(self, error: Option<ResetError>, now: u64) -> (
        Enumeration,
        Step,
    ) {
        let noted = Enumeration { error, ..self };
        if self.attempt < ENUM_ATTEMPTS {
            noted.spec_request((self.attempt + 1) as u32, now)
        } else {
            (Enumeration { stage: Stage::Over, ..noted }, Step::GiveUp)
        }
    }

    /// After a control request without data.
    pub open spec fn after_out(self, ok: bool, now: u64) -> (Enumeration, Step) {
        match self.stage {
            Stage::Request => if ok {
                self.spec_status()
            } else {
                self.spec_failed(Some(ResetError::Request), now)
            },
            Stage::Clear => if ok {
                (Enumeration { stage: Stage::Recovery, ..self }, Step::Wait(RESET_RECOVERY))
            } else {
                self.spec_failed(Some(ResetError::Clear), now)
            },
            _ => (self, Step::GiveUp),
        }
    }

    /// After GET_STATUS (`None`: it failed).
    pub open spec fn after_status(self, reply: Option<Seq<u8>>, now: u64) -> (Enumeration, Step) {
        match reply {
            None => self.spec_failed(Some(ResetError::Status), now),
            Some(bytes) => if port_up(bytes) {
                (
                    Enumeration { stage: Stage::Clear, ..self },
                    Step::Out(port_setup(PORT_OUT, CLEAR_FEATURE, C_PORT_RESET, self.port, 0)),
                )
            } else if now - self.start >= PORT_RESET_TIMEOUT {
                self.spec_failed(Some(ResetError::TimedOut), now)
            } else {
                (Enumeration { stage: Stage::Poll, ..self }, Step::Wait(PORT_POLL))
            },
        }
    }

    /// After a pause.
    pub open spec fn after_wait(self) -> (Enumeration, Step) {
        match self.stage {
            Stage::Poll => self.spec_status(),
            Stage::Recovery => (
                Enumeration { stage: Stage::Enumerate, ..self },
                Step::Enumerate,
            ),
            _ => (self, Step::GiveUp),
        }
    }

    /// After the enumeration of the device.
    pub open spec fn after_enumeration(self, ok: bool, now: u64) -> (Enumeration, Step) {
        if ok {
            (Enumeration { stage: Stage::Over, error: None, ..self }, Step::Found)
        } else {
            self.spec_failed(None, now)
        }
    }

    /// A device appeared on `port` (counted from 0).
    pub fn new(port: u8, now: u64) -> (r: (Self, Action))
        requires
            port < 255,
        ensures
            r.0.valid(),
            (r.0, r.1@) == (Enumeration {
                port,
                attempt: 1,
                start: now,
                stage: Stage::Request,
                error: None,
            }).spec_request(1, now),
    {
        let mut e = Enumeration {
            port,
            attempt: 1,
            start: now,
            stage: Stage::Request,
            error: None,
        };
        let a = e.request(1, now);
        (e, a)
    }

    fn request(&mut self, attempt: u32, now: u64) -> (a: Action)
        requires
            old(self).port < 255,
        ensures
            (*final(self), a@) == old(self).spec_request(attempt, now),
    {
        self.attempt = attempt;
        self.start = now;
        self.stage = Stage::Request;
        let setup: [u8; 8] = [PORT_OUT, SET_FEATURE, PORT_RESET, 0, self.port + 1, 0, 0, 0];
        assert(setup@ =~= port_setup(PORT_OUT, SET_FEATURE, PORT_RESET, self.port, 0));
        Action::Out(setup)
    }

    fn status(&mut self) -> (a: Action)
        requires
            old(self).port < 255,
        ensures
            (*final(self), a@) == old(self).spec_status(),
    {
        self.stage = Stage::Status;
        let setup: [u8; 8] = [PORT_IN, GET_STATUS, 0, 0, self.port + 1, 0, STATUS_LEN as u8, 0];
        assert(setup@ =~= port_setup(PORT_IN, GET_STATUS, 0, self.port, STATUS_LEN as u16));
        Action::In(setup)
    }

    fn failed(&mut self, error: Option<ResetError>, now: u64) -> (a: Action)
        requires
            old(self).valid(),
        ensures
            final(self).valid(),
            (*final(self), a@) == old(self).spec_failed(error, now),
    {
        self.error = error;
        if self.attempt < ENUM_ATTEMPTS {
            self.request(self.attempt + 1, now)
        } else {
            self.stage = Stage::Over;
            Action::GiveUp
        }
    }

    /// The control request without data is over.
    pub fn on_out(&mut self, ok: bool, now: u64) -> (a: Action)
        requires
            old(self).valid(),
            old(self).stage is Request || old(self).stage is Clear,
        ensures
            final(self).valid(),
            (*final(self), a@) == old(self).after_out(ok, now),
    {
        match self.stage {
            Stage::Request => {
                if ok {
                    self.status()
                } else {
                    self.failed(Some(ResetError::Request), now)
                }
            },
            _ => {
                if ok {
                    self.stage = Stage::Recovery;
                    Action::Wait(RESET_RECOVERY)
                } else {
                    self.failed(Some(ResetError::Clear), now)
                }
            },
        }
    }

    /// The port status came, as far as it did (`None`: the request failed).
    pub fn on_status(&mut self, reply: Option<&[u8]>, now: u64) -> (a: Action)
        requires
            old(self).valid(),
            old(self).stage is Status,
            now >= old(self).start,
        ensures
            final(self).valid(),
            (*final(self), a@) == old(self).after_status(
                match reply {
                    Some(bytes) => Some(bytes@),
                    None => None,
                },
                now,
            ),
    {
        let bytes: &[u8] = match reply {
            Some(b) => b,
            None => {
                return self.failed(Some(ResetError::Status), now);
            },
        };
        let mut s: [u8; STATUS_LEN] = [0;STATUS_LEN];
        assert(s@ =~= Seq::new(STATUS_LEN as nat, |i: int| 0u8));
        overlay(&mut s, bytes);
        let status: u16 = u16_from_le(s[0], s[1]);
        let change: u16 = u16_from_le(s[2], s[3]);
        if status & PORT_ENABLE != 0 && change & C_RESET != 0 {
            self.stage = Stage::Clear;
            let setup: [u8; 8] = [
                PORT_OUT,
                CLEAR_FEATURE,
                C_PORT_RESET,
                0,
                self.port + 1,
                0,
                0,
                0,
            ];
            assert(setup@ =~= port_setup(PORT_OUT, CLEAR_FEATURE, C_PORT_RESET, self.port, 0));
            return Action::Out(setup);
        }
        if now - self.start >= PORT_RESET_TIMEOUT {
            return self.failed(Some(ResetError::TimedOut), now);
        }
        self.stage = Stage::Poll;
        Action::Wait(PORT_POLL)
    }

    /// A pause is over.
    pub fn on_wait_over(&mut self) -> (a: Action)
        requires
            old(self).valid(),
            old(self).stage is Poll || old(self).stage is Recovery,
        ensures
            final(self).valid(),
            (*final(self), a@) == old(self).after_wait(),
    {
        match self.stage {
            Stage::Poll => self.status(),
            _ => {
                self.stage = Stage::Enumerate;
                Action::Enumerate
            },
        }
    }

    /// The device was enumerated, or could not be.
    pub fn on_enumerated(&mut self, ok: bool, now: u64) -> (a: Action)
        requires
            old(self).valid(),
            old(self).stage is Enumerate,
        ensures
            final(self).valid(),
            (*final(self), a@) == old(self).after_enumeration(ok, now),
    {
        if ok {
            self.error = None;
            self.stage = Stage::Over;
            Action::Found
        } else {
            self.failed(None, now)
        }
    }
}

/// A device is enumerated only on a port that the hub has reported enabled after its reset, with
/// the change acknowledged and the recovery time over.
pub proof fn law_enumerated_only_after_reset(
    e: Enumeration,
    ok: bool,
    reply: Option<Seq<u8>>,
    now: u64,
)
    requires
        e.valid(),
    ensures
        e.stage is Status && e.after_status(reply, now).0.stage is Clear ==> reply is Some
            && port_up(reply->0),
        e.after_out(ok, now).0.stage is Recovery && e.stage !is Recovery ==> e.stage is Clear && ok,
        e.after_wait().0.stage is Enumerate && e.stage !is Enumerate ==> e.stage is Recovery,
        e.after_out(ok, now).1 !is Enumerate,
        e.after_status(reply, now).1 !is Enumerate,
{
}

/// A device gets at most [`ENUM_ATTEMPTS`] attempts: every failure uses one up, and the last one
/// gives the device up.
pub proof fn law_attempts_bounded(e: Enumeration, error: Option<ResetError>, now: u64)
    requires
        e.valid(),
    ensures
        e.spec_failed(error, now).0.valid(),
        e.attempt == ENUM_ATTEMPTS ==> e.spec_failed(error, now).1 is GiveUp,
        e.attempt < ENUM_ATTEMPTS ==> {
            &&& e.spec_failed(error, now).0.attempt == e.attempt + 1
            &&& e.spec_failed(error, now).1 is Out
        },
{
}

// ---- ports and children ----

/// The child serving each port, and which children are busy.
#[derive(Clone, Copy)]
pub struct Ports {
    pub port_child: [Option<usize>; MAX_PORTS],
    pub busy: [bool; CHILDREN],
}

/// The values that [`Ports`] holds.
pub struct Served {
    pub port_child: Seq<Option<usize>>,
    pub busy: Seq<bool>,
}

impl View for Ports {
    type V = Served;

    open spec fn view(&self) -> Served {
        Served { port_child: self.port_child@, busy: self.busy@ }
    }
}

impl Served {
    /// A port's child is busy, and serves no other port.
    pub open spec fn valid(self) -> bool {
        &&& self.port_child.len() == MAX_PORTS
        &&& self.busy.len() == CHILDREN
        &&& forall|p: int|
            #![trigger self.port_child[p]]
            0 <= p < MAX_PORTS ==> (self.port_child[p] matches Some(c) ==> c < CHILDREN
                && self.busy[c as int])
        &&& forall|p: int, q: int|
            #![trigger self.port_child[p], self.port_child[q]]
            0 <= p < q < MAX_PORTS && self.port_child[p] is Some && self.port_child[q] is Some
                ==> self.port_child[p] != self.port_child[q]
    }

    /// Every busy child serves a port.
    pub open spec fn removable(self) -> bool {
        forall|c: int|
            0 <= c < CHILDREN && #[trigger] self.busy[c] ==> self.port_child.contains(
                Some(c as usize),
            )
    }

    /// `child` is the first that is free.
    pub open spec fn is_first_free(self, child: int) -> bool {
        &&& 0 <= child < CHILDREN
        &&& !self.busy[child]
        &&& forall|k: int| 0 <= k < child ==> self.busy[k]
    }

    pub open spec fn all_busy(self) -> bool {
        forall|k: int| 0 <= k < CHILDREN ==> self.busy[k]
    }

    /// After `child` takes the device on `port`. A hub behind the hub is not served; a port past
    /// the tracked ones is served, but its removal will not be noticed.
    pub open spec fn after_attach(self, port: u8, child: usize, kind: Kind) -> Served {
        if kind == Kind::Hub {
            self
        } else {
            Served {
                port_child: if port < MAX_PORTS {
                    self.port_child.update(port as int, Some(child))
                } else {
                    self.port_child
                },
                busy: self.busy.update(child as int, true),
            }
        }
    }

    /// The child serving `port`.
    pub open spec fn child_of(self, port: u8) -> Option<usize> {
        if port < MAX_PORTS {
            self.port_child[port as int]
        } else {
            None
        }
    }

    /// After the device on `port` is gone.
    pub open spec fn after_detach(self, port: u8) -> Served {
        match self.child_of(port) {
            Some(c) => Served {
                port_child: self.port_child.update(port as int, None),
                busy: self.busy.update(c as int, false),
            },
            None => self,
        }
    }
}

impl Ports {
    pub open spec fn wf(self) -> bool {
        self@.valid()
    }

    pub fn new() -> (r: Self)
        ensures
            r.wf(),
            forall|p: int| 0 <= p < MAX_PORTS ==> r@.port_child[p] is None,
            forall|c: int| 0 <= c < CHILDREN ==> !r@.busy[c],
    {
        Ports { port_child: [None;MAX_PORTS], busy: [false;CHILDREN] }
    }

    /// The first free child.
    pub fn free(&self) -> (r: Option<usize>)
        ensures
            match r {
                Some(c) => self@.is_first_free(c as int),
                None => self@.all_busy(),
            },
    {
        let mut c: usize = 0;
        while c < CHILDREN
            invariant
                c <= CHILDREN,
                forall|k: int| 0 <= k < c ==> self@.busy[k],
            decreases CHILDREN - c,
        {
            if !self.busy[c] {
                return Some(c);
            }
            c += 1;
        }
        None
    }

    /// Hand the enumerated device on `port` to the free child `child`. Returns whether it is
    /// served.
    pub fn attach(&mut self, port: u8, child: usize, kind: Kind) -> (served: bool)
        requires
            old(self).wf(),
            child < CHILDREN,
            !old(self)@.busy[child as int],
        ensures
            final(self).wf(),
            served == (kind != Kind::Hub),
            final(self)@ == old(self)@.after_attach(port, child, kind),
    {
        if kind == Kind::Hub {
            return false;
        }
        if (port as usize) < MAX_PORTS {
            self.port_child[port as usize] = Some(child);
        }
        self.busy[child] = true;
        true
    }

    /// The device on `port` is gone. Returns the child that served it.
    pub fn detach(&mut self, port: u8) -> (child: Option<usize>)
        requires
            old(self).wf(),
        ensures
            final(self).wf(),
            child == old(self)@.child_of(port),
            final(self)@ == old(self)@.after_detach(port),
    {
        if (port as usize) < MAX_PORTS {
            let child: Option<usize> = self.port_child[port as usize];
            if let Some(c) = child {
                self.port_child[port as usize] = None;
                self.busy[c] = false;
            }
            child
        } else {
            None
        }
    }
}

/// Attaching keeps children and ports apart: no child serves two ports, and every busy child can
/// be freed by the removal of its device. A second attach on a port whose removal
/// was not reported, or on a port past the tracked ones, is left out: the child before it would
/// stay busy.
pub proof fn law_children_stay_removable(s: Served, port: u8, child: usize, kind: Kind)
    requires
        s.valid(),
        s.removable(),
        child < CHILDREN,
        !s.busy[child as int],
        port < MAX_PORTS,
        s.port_child[port as int] is None,
    ensures
        s.after_attach(port, child, kind).valid(),
        s.after_attach(port, child, kind).removable(),
{
    let a = s.after_attach(port, child, kind);
    assert forall|c: int| 0 <= c < CHILDREN && #[trigger] a.busy[c] implies a.port_child.contains(
        Some(c as usize),
    ) by {
        if c == child && kind != Kind::Hub {
            assert(a.port_child[port as int] == Some(child));
        } else {
            assert(s.busy[c]);
            let p = choose|p: int|
                0 <= p < s.port_child.len() && s.port_child[p] == Some(c as usize);
            assert(a.port_child[p] == Some(c as usize));
        }
    }
}

/// A detach undoes an attach: the same ports are served by the same children as before.
pub proof fn law_detach_undoes_attach(s: Served, port: u8, child: usize, kind: Kind)
    requires
        s.valid(),
        child < CHILDREN,
        !s.busy[child as int],
        port < MAX_PORTS,
        s.port_child[port as int] is None,
    ensures
        s.after_attach(port, child, kind).after_detach(port) == s,
{
    let b = s.after_attach(port, child, kind).after_detach(port);
    assert(b.port_child =~= s.port_child);
    assert(b.busy =~= s.busy);
}

/// Removing a device frees its child and leaves every other port as it is; every child still busy
/// can be freed in turn.
pub proof fn law_detach_frees_one_child(s: Served, port: u8, other: int)
    requires
        s.valid(),
        0 <= other < MAX_PORTS,
        other != port,
    ensures
        s.after_detach(port).valid(),
        s.after_detach(port).port_child[other] == s.port_child[other],
        s.child_of(port) matches Some(c) ==> !s.after_detach(port).busy[c as int],
        s.removable() ==> s.after_detach(port).removable(),
{
    let d = s.after_detach(port);
    assert forall|c: int|
        s.removable() && 0 <= c < CHILDREN && #[trigger] d.busy[c] implies d.port_child.contains(
        Some(c as usize),
    ) by {
        assert(s.busy[c]);
        let p = choose|p: int| 0 <= p < s.port_child.len() && s.port_child[p] == Some(c as usize);
        assert(d.port_child[p] == Some(c as usize));
    }
}

/// What a child is doing.
#[derive(Clone, Copy, PartialEq, Eq, Structural)]
pub enum Child {
    /// It has no device.
    Free,
    Serving,
    /// Served out (a transfer failed); the port is kept until the hub says the device is gone.
    ServedOut,
}

/// What happens to a child.
#[derive(Clone, Copy, PartialEq, Eq, Structural)]
pub enum ChildEvent {
    Attached,
    Detached,
    /// Serving ended by itself.
    Ended,
}

/// What a child does next.
#[derive(Clone, Copy, PartialEq, Eq, Structural)]
pub enum ChildAction {
    Nothing,
    /// Serve the device that was attached.
    Serve,
    /// Free the device's address.
    Release,
}

impl Child {
    pub open spec fn after(self, event: ChildEvent) -> (Child, ChildAction) {
        match (self, event) {
            (Child::Free, ChildEvent::Attached) => (Child::Serving, ChildAction::Serve),
            (Child::Serving, ChildEvent::Ended) => (Child::ServedOut, ChildAction::Nothing),
            (Child::Serving, ChildEvent::Detached) => (Child::Free, ChildAction::Release),
            (Child::ServedOut, ChildEvent::Detached) => (Child::Free, ChildAction::Release),
            (state, _) => (state, ChildAction::Nothing),
        }
    }

    pub fn on_event(self, event: ChildEvent) -> (r: (Child, ChildAction))
        ensures
            r == self.after(event),
    {
        match (self, event) {
            (Child::Free, ChildEvent::Attached) => (Child::Serving, ChildAction::Serve),
            (Child::Serving, ChildEvent::Ended) => (Child::ServedOut, ChildAction::Nothing),
            (Child::Serving, ChildEvent::Detached) => (Child::Free, ChildAction::Release),
            (Child::ServedOut, ChildEvent::Detached) => (Child::Free, ChildAction::Release),
            (state, _) => (state, ChildAction::Nothing),
        }
    }
}

/// A device's address is freed exactly when a child that has one learns that it is gone, whether
/// or not it was still being served.
pub proof fn law_address_freed_on_detach(child: Child, event: ChildEvent)
    ensures
        child.after(event).1 is Release <==> child != Child::Free && event == ChildEvent::Detached,
        child.after(event).1 is Serve <==> child == Child::Free && event == ChildEvent::Attached,
        child.after(event).1 is Release ==> child.after(event).0 == Child::Free,
{
}

// ---- hub errors ----

/// A hub error at `now`. An unhandled status change stays set, so the same error can repeat at
/// every hub poll: returns the number of errors since the last one logged, this one included,
/// where it is to be logged. `log` paces errors by [`ERROR_LOG_INTERVAL`].
pub fn on_error(log: &mut Sampler, now: u64) -> (r: Option<u32>)
    requires
        old(log).clock_ok(now),
    ensures
        r == (match old(log).note(now) {
            Some(n) => Some(counted(n)),
            None => None,
        }),
        *final(log) == old(log).after(now),
{
    match log.sample(now) {
        Some(n) => Some(n.wrapping_add(1)),
        None => None,
    }
}

// ---- laws of the requests ----

/// An action is told by all that it does.
pub proof fn law_actions_are_their_bytes(a: Action)
    ensures
        a matches Action::Out(setup) ==> a@ == Step::Out(setup@),
        a matches Action::In(setup) ==> a@ == Step::In(setup@),
        a matches Action::Wait(t) ==> a@ == Step::Wait(t),
        a is Enumerate ==> a@ is Enumerate,
        a is Found ==> a@ is Found,
        a is GiveUp ==> a@ is GiveUp,
{
}

/// A port's requests go to that port: SET_FEATURE, GET_STATUS and CLEAR_FEATURE carry in wIndex
/// (bytes 4 and 5, little-endian) the port's number as the hub counts, one more than as counted
/// here; so requests for two ports differ.
pub proof fn law_requests_name_their_port(e: Enumeration, other: Enumeration, now: u64)
    requires
        e.port < 255,
        other.port < 255,
    ensures
        e.spec_request(1, now).1 matches Step::Out(reset) && {
            &&& reset.len() == 8
            &&& reset[4] + 256 * reset[5] == e.port + 1
            &&& reset[0] == 0x23 && reset[1] == 0x03
            &&& reset[2] == 4 && reset[3] == 0
            &&& reset[6] == 0 && reset[7] == 0
        },
        e.spec_status().1 matches Step::In(status) && {
            &&& status.len() == 8
            &&& status[4] + 256 * status[5] == e.port + 1
            &&& status[0] == 0xa3 && status[1] == 0x00
            &&& status[2] == 0 && status[3] == 0
            &&& status[6] == 4 && status[7] == 0
        },
        forall|reply: Seq<u8>| #[trigger]
            port_up(reply) ==> (e.after_status(Some(reply), now).1 matches Step::Out(clear) && {
                &&& clear.len() == 8
                &&& clear[4] + 256 * clear[5] == e.port + 1
                &&& clear[0] == 0x23 && clear[1] == 0x01
                &&& clear[2] == 20 && clear[3] == 0
                &&& clear[6] == 0 && clear[7] == 0
            }),
        e.port != other.port ==> e.spec_request(1, now).1 != other.spec_request(1, now).1,
        e.port != other.port ==> e.spec_status().1 != other.spec_status().1,
{
    let a = port_setup(PORT_OUT, SET_FEATURE, PORT_RESET, e.port, 0);
    let b = port_setup(PORT_OUT, SET_FEATURE, PORT_RESET, other.port, 0);
    let c = port_setup(PORT_IN, GET_STATUS, 0, e.port, STATUS_LEN as u16);
    let d = port_setup(PORT_IN, GET_STATUS, 0, other.port, STATUS_LEN as u16);
    if e.port != other.port {
        assert(a[4] != b[4] && c[4] != d[4]);
    }
}

/// A port counts as up exactly where its status says enabled (byte 0, bit 1) and its change says
/// that the reset is over (byte 2, bit 4); what did not come says nothing.
pub proof fn law_port_up_by_bits(reply: Seq<u8>)
    ensures
        port_up(reply) <==> reply.len() > 2 && reply[0] & 0x02 != 0 && reply[2] & 0x10 != 0,
{
    let s = overlaid(Seq::new(STATUS_LEN as nat, |i: int| 0u8), reply);
    let (s0, s1, s2, s3) = (s[0], s[1], s[2], s[3]);
    let status = le16(s0, s1);
    let change = le16(s2, s3);
    assert((status & 0x0002 != 0) == (s0 & 0x02 != 0)) by (bit_vector)
        requires
            status == s0 + 256 * s1,
    ;
    assert((change & 0x0010 != 0) == (s2 & 0x10 != 0)) by (bit_vector)
        requires
            change == s2 + 256 * s3,
    ;
    assert(0u8 & 0x02 == 0 && 0u8 & 0x10 == 0) by (bit_vector);
}

/// What an enumeration does, step by step: the port is reset, its status read until it is up (every
/// 5 ms, for half a second), the change cleared, 10 ms waited, and the device enumerated. Whatever
/// fails starts the next attempt with another reset of the same port, and the fourth failure ends
/// it.
pub proof fn law_enumeration_by_stage(e: Enumeration, ok: bool, reply: Seq<u8>, now: u64)
    requires
        e.valid(),
        e.start <= now,
    ensures
        e.stage is Request && ok ==> e.after_out(ok, now).0 == (Enumeration {
            stage: Stage::Status,
            ..e
        }) && e.after_out(ok, now).1 == e.spec_status().1,
        e.stage is Request && !ok ==> e.after_out(ok, now) == e.spec_failed(
            Some(ResetError::Request),
            now,
        ),
        e.stage is Clear && ok ==> e.after_out(ok, now) == (
            Enumeration { stage: Stage::Recovery, ..e },
            Step::Wait(10_000),
        ),
        e.stage is Clear && !ok ==> e.after_out(ok, now) == e.spec_failed(
            Some(ResetError::Clear),
            now,
        ),
        e.after_status(None, now) == e.spec_failed(Some(ResetError::Status), now),
        port_up(reply) ==> e.after_status(Some(reply), now).0 == (Enumeration {
            stage: Stage::Clear,
            ..e
        }),
        !port_up(reply) && now - e.start < 500_000 ==> e.after_status(Some(reply), now) == (
            Enumeration { stage: Stage::Poll, ..e },
            Step::Wait(5_000),
        ),
        !port_up(reply) && now - e.start >= 500_000 ==> e.after_status(Some(reply), now)
            == e.spec_failed(Some(ResetError::TimedOut), now),
        e.stage is Poll ==> e.after_wait() == (
            Enumeration { stage: Stage::Status, ..e },
            e.spec_status().1,
        ),
        e.stage is Recovery ==> e.after_wait() == (
            Enumeration { stage: Stage::Enumerate, ..e },
            Step::Enumerate,
        ),
        e.after_enumeration(true, now).1 is Found,
        e.after_enumeration(true, now).0.stage is Over,
        e.after_enumeration(false, now) == e.spec_failed(None, now),
{
}

/// A failed attempt is told by its error. Up to the fourth, the next one starts `now`, with the
/// reset of the same port; after the fourth there is none.
pub proof fn law_failed_attempt_starts_next(e: Enumeration, error: Option<ResetError>, now: u64)
    ensures
        ({
            let next = e.spec_failed(error, now);
            &&& next.0.port == e.port
            &&& next.0.error == error
            &&& e.attempt < 4 ==> {
                &&& next.0.attempt == e.attempt + 1
                &&& next.0.start == now
                &&& next.0.stage is Request
                &&& next.1 is Out
                &&& next.1 == e.spec_request(1, now).1
            }
            &&& e.attempt >= 4 ==> {
                &&& next.0.attempt == e.attempt
                &&& next.0.stage is Over
                &&& next.1 is GiveUp
            }
        }),
        ({
            let first = e.spec_request(1, now).0;
            &&& first.port == e.port
            &&& first.attempt == 1
            &&& first.start == now
            &&& first.stage is Request
        }),
{
}

/// Attaching puts the device of that port, and of no other, into the hands of that child, which is
/// then busy; the other children stay as they are. A hub behind the hub changes nothing.
pub proof fn law_attach_by_port(s: Served, port: u8, child: usize, kind: Kind, q: int, c: int)
    requires
        s.port_child.len() == 8,
        s.busy.len() == 3,
        child < 3,
        0 <= q < 8,
        0 <= c < 3,
    ensures
        kind == Kind::Hub ==> s.after_attach(port, child, kind) == s,
        kind != Kind::Hub ==> {
            let t = s.after_attach(port, child, kind);
            &&& t.port_child.len() == 8
            &&& t.busy.len() == 3
            &&& q == port ==> t.port_child[q] == Some(child)
            &&& q != port ==> t.port_child[q] == s.port_child[q]
            &&& c == child ==> t.busy[c]
            &&& c != child ==> t.busy[c] == s.busy[c]
        },
{
}

/// Detaching names the child that has the device of that port, and frees it and the port; a port
/// without a child changes nothing.
pub proof fn law_detach_by_port(s: Served, port: u8, q: int, c: int)
    requires
        s.valid(),
        0 <= q < 8,
        0 <= c < 3,
    ensures
        port < 8 ==> s.child_of(port) == s.port_child[port as int],
        port >= 8 ==> s.child_of(port) is None,
        s.child_of(port) is None ==> s.after_detach(port) == s,
        s.child_of(port) matches Some(child) ==> {
            let t = s.after_detach(port);
            &&& q == port ==> t.port_child[q] is None
            &&& q != port ==> t.port_child[q] == s.port_child[q]
            &&& c == child ==> !t.busy[c]
            &&& c != child ==> t.busy[c] == s.busy[c]
        },
{
}

/// The children's books are those that are kept, and the first free child is one that is not busy
/// while all before it are.
pub proof fn law_books_are_what_is_kept(ports: Ports, child: int, k: int)
    ensures
        ports@.port_child == ports.port_child@,
        ports@.busy == ports.busy@,
        ports@.is_first_free(child) ==> 0 <= child < 3 && !ports.busy@[child],
        ports@.is_first_free(child) && 0 <= k < child ==> ports.busy@[k],
        ports@.all_busy() && 0 <= k < 3 ==> ports.busy@[k],
{
    assert(ports@.all_busy() && 0 <= k < 3 ==> ports@.busy[k]);
}

/// A child serves from the attach of its device to the end of its service, keeps it until the
/// detach, and is free again after that; what does not concern it changes nothing.
pub proof fn law_child_by_event(child: Child, event: ChildEvent)
    ensures
        Child::Free.after(ChildEvent::Attached) == (Child::Serving, ChildAction::Serve),
        Child::Free.after(ChildEvent::Detached) == (Child::Free, ChildAction::Nothing),
        Child::Free.after(ChildEvent::Ended) == (Child::Free, ChildAction::Nothing),
        Child::Serving.after(ChildEvent::Ended) == (Child::ServedOut, ChildAction::Nothing),
        child != Child::Free ==> child.after(ChildEvent::Detached) == (
            Child::Free,
            ChildAction::Release,
        ),
        child != Child::Free ==> child.after(ChildEvent::Attached) == (child, ChildAction::Nothing),
        Child::ServedOut.after(ChildEvent::Ended) == (Child::ServedOut, ChildAction::Nothing),
{
}

} // verus!
