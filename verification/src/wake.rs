//! How the bridge keeps a freshly booted wheel on: SET_IDLE(0) on its three interfaces, then
//! HID++ requests right away.
//!
//! Times are in microseconds.

use crate::auth::HID_SET_REPORT;
use crate::device::{HID_SET_IDLE, IF_HIDPP};
use crate::hid::set_idle;
use crate::pace::counted;
use crate::proxy::{
    hidpp_short_setup, Link, HIDPP_SHORT_LEN, HIDPP_SHORT_OUTPUT,
};
use crate::setup::{setup_bytes, CLASS_INTERFACE_OUT};
use vstd::prelude::*;

verus! {

/// IRoot (feature index 0) function 1, getProtocolVersion, ping data 0x5a.
pub const PING: [u8; 7] = [0x10, 0xff, 0x00, 0x1b, 0x00, 0x00, 0x5a];

/// IRoot function 0, getFeature, for the LED feature (0x807a).
pub const GET_LED_FEATURE: [u8; 7] = [0x10, 0xff, 0x00, 0x0b, 0x80, 0x7a, 0x00];

/// Short enough that a request is always pending when the wheel finishes booting.
pub const PING_INTERVAL: u64 = 20_000;

/// Give up pinging after this long.
pub const PING_TIMEOUT: u64 = 10_000_000;

/// Lets the last answers arrive before forwarding resumes.
pub const SETTLE: u64 = 100_000;

/// Interfaces that get SET_IDLE.
pub const INTERFACES: u16 = 3;

/// What the wake-up is waiting for.
#[derive(Clone, Copy, PartialEq, Eq, Structural)]
pub enum Stage {
    /// The end of SET_IDLE on an interface.
    Idle { iface: u16 },
    /// The end of a ping request.
    Ping,
    /// The time of the next ping.
    PingWait,
    /// The end of the request for the LED feature's index.
    Led,
    /// The end of the settling time.
    Settle,
    Done,
}

/// What to do next.
#[derive(Clone, Copy)]
pub enum Action {
    /// A control request to the wheel without data.
    Out([u8; 8]),
    /// A HID++ short request to the wheel.
    Send { setup: [u8; 8], data: [u8; 7] },
    /// Wait until this time.
    WaitUntil(u64),
    /// Wait this long.
    Wait(u64),
    Done,
}

/// An [`Action`], by its bytes.
pub enum Step {
    Out(Seq<u8>),
    Send { setup: Seq<u8>, data: Seq<u8> },
    WaitUntil(u64),
    Wait(u64),
    Done,
}

impl View for Action {
    type V = Step;

    open spec fn view(&self) -> Step {
        match self {
            Action::Out(setup) => Step::Out(setup@),
            Action::Send { setup, data } => Step::Send { setup: setup@, data: data@ },
            Action::WaitUntil(t) => Step::WaitUntil(*t),
            Action::Wait(t) => Step::Wait(*t),
            Action::Done => Step::Done,
        }
    }
}

/// Progress of a wake-up.
#[derive(Clone, Copy)]
pub struct WakeUp {
    pub stage: Stage,
    /// When pinging began.
    pub start: u64,
    /// When the next ping is due.
    pub tick: u64,
    pub pings: u32,
    /// Pings whose request failed.
    pub failed: u32,
}

/// A HID++ short request.
pub open spec fn short_request(data: Seq<u8>) -> Step {
    Step::Send {
        setup: setup_bytes(
            CLASS_INTERFACE_OUT,
            HID_SET_REPORT,
            HIDPP_SHORT_OUTPUT,
            IF_HIDPP,
            HIDPP_SHORT_LEN,
        ),
        data,
    }
}

/// SET_IDLE(0) on an interface.
pub open spec fn idle_request(iface: u16) -> Step {
    Step::Out(setup_bytes(CLASS_INTERFACE_OUT, HID_SET_IDLE, 0, iface, 0))
}

impl WakeUp {
    /// The wheel's messages are answers to the bridge.
    pub open spec fn pinging(self) -> bool {
        !(self.stage is Idle || self.stage is Done)
    }

    /// While the bridge pings, nothing is forwarded; once it is done, forwarding is on.
    pub open spec fn valid(self, link: Link) -> bool {
        &&& self.stage matches Stage::Idle { iface } ==> iface < INTERFACES
        &&& self.pinging() ==> link.waking
        &&& self.stage is Done ==> !link.waking
    }

    /// The clock has not gone back, and can be moved on by one ping.
    pub open spec fn clock_ok(self, now: u64) -> bool {
        &&& now <= u64::MAX - PING_INTERVAL
        &&& self.pinging() ==> self.start <= now
        &&& self.stage is PingWait ==> self.tick <= now
    }

    /// Ping, or go on to the LED feature once the wheel has answered or the time is up.
    pub open spec fn spec_ping(self, answered: bool, now: u64) -> (WakeUp, Step) {
        if answered || now - self.start >= PING_TIMEOUT {
            (WakeUp { stage: Stage::Led, ..self }, short_request(GET_LED_FEATURE@))
        } else {
            (
                WakeUp { stage: Stage::Ping, pings: counted(self.pings), ..self },
                short_request(PING@),
            )
        }
    }

    /// After the request under way.
    pub open spec fn after_sent(self, link: Link, ok: bool, now: u64) -> (WakeUp, Link, Step) {
        match self.stage {
            Stage::Idle { iface } => if iface + 1 < INTERFACES {
                (
                    WakeUp { stage: Stage::Idle { iface: (iface + 1) as u16 }, ..self },
                    link,
                    idle_request((iface + 1) as u16),
                )
            } else {
                let (w, step) = (WakeUp {
                    start: now,
                    tick: (now + PING_INTERVAL) as u64,
                    pings: 0,
                    failed: 0,
                    ..self
                }).spec_ping(false, now);
                (w, Link { waking: true, answered: false, ..link }, step)
            },
            Stage::Ping => (
                WakeUp {
                    stage: Stage::PingWait,
                    failed: if ok {
                        self.failed
                    } else {
                        counted(self.failed)
                    },
                    ..self
                },
                link,
                Step::WaitUntil(self.tick),
            ),
            Stage::Led => (WakeUp { stage: Stage::Settle, ..self }, link, Step::Wait(SETTLE)),
            _ => (self, link, Step::Done),
        }
    }

    /// After the pause under way.
    pub open spec fn after_wait(self, link: Link, now: u64) -> (WakeUp, Link, Step) {
        match self.stage {
            Stage::PingWait => {
                let (w, step) = (WakeUp {
                    tick: (self.tick + PING_INTERVAL) as u64,
                    ..self
                }).spec_ping(link.answered, now);
                (w, link, step)
            },
            Stage::Settle => (
                WakeUp { stage: Stage::Done, ..self },
                Link { waking: false, ..link },
                Step::Done,
            ),
            _ => (self, link, Step::Done),
        }
    }

    /// Wake the wheel up: SET_IDLE on its first interface comes first.
    pub fn new() -> (r: (Self, Action))
        ensures
            r.0 == (WakeUp {
                stage: Stage::Idle { iface: 0 },
                start: 0,
                tick: 0,
                pings: 0,
                failed: 0,
            }),
            r.1@ == idle_request(0),
    {
        (
            WakeUp { stage: Stage::Idle { iface: 0 }, start: 0, tick: 0, pings: 0, failed: 0 },
            Action::Out(set_idle(0)),
        )
    }

    fn ping(&mut self, answered: bool, now: u64) -> (a: Action)
        requires
            old(self).start <= now,
        ensures
            (*final(self), a@) == old(self).spec_ping(answered, now),
    {
        if answered || now - self.start >= PING_TIMEOUT {
            self.stage = Stage::Led;
            Action::Send { setup: hidpp_short_setup(), data: GET_LED_FEATURE }
        } else {
            self.stage = Stage::Ping;
            self.pings = self.pings.wrapping_add(1);
            Action::Send { setup: hidpp_short_setup(), data: PING }
        }
    }

    /// The request under way is over. A failed SET_IDLE or ping does not stop the wake-up.
    pub fn on_sent(&mut self, link: &mut Link, ok: bool, now: u64) -> (a: Action)
        requires
            old(self).valid(*old(link)),
            old(self).stage is Idle || old(self).stage is Ping || old(self).stage is Led,
            old(self).clock_ok(now),
        ensures
            final(self).valid(*final(link)),
            (*final(self), *final(link), a@) == old(self).after_sent(*old(link), ok, now),
    {
        match self.stage {
            Stage::Idle { iface } => {
                if iface + 1 < INTERFACES {
                    self.stage = Stage::Idle { iface: iface + 1 };
                    return Action::Out(set_idle(iface + 1));
                }
                link.waking = true;
                link.answered = false;
                self.start = now;
                self.tick = now + PING_INTERVAL;
                self.pings = 0;
                self.failed = 0;
                self.ping(false, now)
            },
            Stage::Ping => {
                if !ok {
                    self.failed = self.failed.wrapping_add(1);
                }
                self.stage = Stage::PingWait;
                Action::WaitUntil(self.tick)
            },
            _ => {
                self.stage = Stage::Settle;
                Action::Wait(SETTLE)
            },
        }
    }

    /// The pause under way is over.
    pub fn on_wait_over(&mut self, link: &mut Link, now: u64) -> (a: Action)
        requires
            old(self).valid(*old(link)),
            old(self).stage is PingWait || old(self).stage is Settle,
            old(self).clock_ok(now),
        ensures
            final(self).valid(*final(link)),
            (*final(self), *final(link), a@) == old(self).after_wait(*old(link), now),
    {
        match self.stage {
            Stage::PingWait => {
                self.tick = self.tick + PING_INTERVAL;
                self.ping(link.answered, now)
            },
            _ => {
                link.waking = false;
                self.stage = Stage::Done;
                Action::Done
            },
        }
    }
}

/// Nothing of the wheel's is forwarded while the bridge pings it, and forwarding is on again when
/// the wake-up is done.
pub proof fn law_forwarding_resumes(w: WakeUp, link: Link, ok: bool, now: u64)
    requires
        w.valid(link),
        w.clock_ok(now),
    ensures
        w.after_sent(link, ok, now).0.valid(w.after_sent(link, ok, now).1),
        w.after_wait(link, now).0.valid(w.after_wait(link, now).1),
        w.stage is Settle ==> !w.after_wait(link, now).1.waking,
{
}

/// Pinging ends with the wheel's first answer, or after [`PING_TIMEOUT`]; before that, every
/// pause ends in another ping.
pub proof fn law_pings_until_answered(w: WakeUp, link: Link, now: u64)
    requires
        w.valid(link),
        w.stage is PingWait,
        w.start <= now,
    ensures
        w.after_wait(link, now).0.stage is Led <==> link.answered || now - w.start >= PING_TIMEOUT,
        w.after_wait(link, now).0.stage is Ping <==> !link.answered && now - w.start < PING_TIMEOUT,
{
}

// ---- replaying a recorded start-up ----

/// Recorded HID++ requests: the pause before each (in milliseconds), and its bytes.
pub type Recording = Vec<(u16, [u8; 7])>;

/// Progress of a replay.
#[derive(Clone, Copy, PartialEq, Eq, Structural)]
pub struct Replay {
    /// The request that is next.
    pub next: usize,
    /// Requests that failed.
    pub failed: u32,
}

impl Replay {
    pub fn new() -> (r: Self)
        ensures
            r == (Replay { next: 0, failed: 0 }),
    {
        Replay { next: 0, failed: 0 }
    }

    /// The pause before the next request of a recording, and the request; `None` after the last.
    pub fn request(&self, recording: &Recording) -> (r: Option<(u64, [u8; 7])>)
        ensures
            r == (if self.next < recording@.len() {
                Some(
                    (
                        (1000 * recording@[self.next as int].0) as u64,
                        recording@[self.next as int].1,
                    ),
                )
            } else {
                None
            }),
    {
        if self.next < recording.len() {
            let (ms, msg): (u16, [u8; 7]) = recording[self.next];
            Some((1000 * (ms as u64), msg))
        } else {
            None
        }
    }

    /// The request was sent, or could not be; the replay goes on either way.
    pub fn on_sent(&mut self, recording: &Recording, ok: bool)
        requires
            old(self).next < recording@.len(),
        ensures
            final(self).next == old(self).next + 1,
            final(self).failed == (if ok {
                old(self).failed
            } else {
                counted(old(self).failed)
            }),
    {
        assert(self.next < recording.len());
        self.next += 1;
        if !ok {
            self.failed = self.failed.wrapping_add(1);
        }
    }
}

/// An action is told by all that it does.
pub proof fn law_actions_are_their_bytes(a: Action)
    ensures
        a matches Action::Out(setup) ==> a@ == Step::Out(setup@),
        a matches Action::Send { setup, data } ==> a@ == (Step::Send {
            setup: setup@,
            data: data@,
        }),
        a matches Action::WaitUntil(t) ==> a@ == Step::WaitUntil(t),
        a matches Action::Wait(t) ==> a@ == Step::Wait(t),
        a is Done ==> a@ is Done,
{
}

/// The wake-up's requests, byte by byte: SET_IDLE(0) is `21 0a 00 00 <interface> 00 00 00`, and a
/// HID++ short request goes as its seven bytes with `21 09 10 02 01 00 07 00`. The ping is
/// `10 ff 00 1b 00 00 5a`, the question for the LED feature `10 ff 00 0b 80 7a 00`.
pub proof fn law_wake_requests(iface: u16, data: Seq<u8>)
    ensures
        idle_request(iface) matches Step::Out(setup) && {
            &&& setup.len() == 8
            &&& setup[0] == 0x21 && setup[1] == 0x0a && setup[2] == 0 && setup[3] == 0
            &&& setup[4] + 256 * setup[5] == iface
            &&& setup[6] == 0 && setup[7] == 0
        },
        short_request(data) == (Step::Send {
            setup: seq![0x21u8, 0x09, 0x10, 0x02, 0x01, 0x00, 0x07, 0x00],
            data,
        }),
        PING@ == seq![0x10u8, 0xff, 0x00, 0x1b, 0x00, 0x00, 0x5a],
        GET_LED_FEATURE@ == seq![0x10u8, 0xff, 0x00, 0x0b, 0x80, 0x7a, 0x00],
{
    assert(short_request(data)->setup =~= seq![0x21u8, 0x09, 0x10, 0x02, 0x01, 0x00, 0x07, 0x00]);
    assert(PING@ =~= seq![0x10u8, 0xff, 0x00, 0x1b, 0x00, 0x00, 0x5a]);
    assert(GET_LED_FEATURE@ =~= seq![0x10u8, 0xff, 0x00, 0x0b, 0x80, 0x7a, 0x00]);
}

/// The order of a wake-up: SET_IDLE on interfaces 0, 1 and 2, whatever comes of it, then pings 20 ms
/// apart, from the first of which on the wheel's messages are held back; each failed ping counts.
/// Once the wheel has answered, or 10 s after the first ping, it is asked for its LED feature, 100
/// ms are waited, and its messages go upstream again.
pub proof fn law_wake_up_by_stage(w: WakeUp, link: Link, ok: bool, now: u64, iface: u16)
    requires
        now <= u64::MAX - 20_000,
        w.start <= now,
        w.tick <= now,
    ensures
        w.stage == (Stage::Idle { iface }) && iface < 2 ==> w.after_sent(link, ok, now) == (
            WakeUp { stage: Stage::Idle { iface: (iface + 1) as u16 }, ..w },
            link,
            idle_request((iface + 1) as u16),
        ),
        w.stage == (Stage::Idle { iface }) && iface >= 2 ==> w.after_sent(link, ok, now) == (
            WakeUp {
                stage: Stage::Ping,
                start: now,
                tick: (now + 20_000) as u64,
                pings: 1,
                failed: 0,
            },
            Link { waking: true, answered: false, ..link },
            short_request(PING@),
        ),
        w.stage is Ping ==> w.after_sent(link, ok, now) == (
            WakeUp {
                stage: Stage::PingWait,
                failed: if ok {
                    w.failed
                } else {
                    counted(w.failed)
                },
                ..w
            },
            link,
            Step::WaitUntil(w.tick),
        ),
        w.stage is PingWait && (link.answered || now - w.start >= 10_000_000) ==> w.after_wait(
            link,
            now,
        ) == (
            WakeUp { stage: Stage::Led, tick: (w.tick + 20_000) as u64, ..w },
            link,
            short_request(GET_LED_FEATURE@),
        ),
        w.stage is PingWait && !link.answered && now - w.start < 10_000_000 ==> w.after_wait(
            link,
            now,
        ) == (
            WakeUp {
                stage: Stage::Ping,
                tick: (w.tick + 20_000) as u64,
                pings: counted(w.pings),
                ..w
            },
            link,
            short_request(PING@),
        ),
        w.stage is Led ==> w.after_sent(link, ok, now) == (
            WakeUp { stage: Stage::Settle, ..w },
            link,
            Step::Wait(100_000),
        ),
        w.stage is Settle ==> w.after_wait(link, now) == (
            WakeUp { stage: Stage::Done, ..w },
            Link { waking: false, ..link },
            Step::Done,
        ),
{
}

} // verus!
