//! PS4/PS5 peripheral authentication, signer side: what to ask the signing device, one transfer
//! or pause at a time.
//!
//! Nonce pages go to the signer as the console sends them. After the last one the signer's F2 is
//! polled until it is ready, then its signature pages (F1) are fetched and cached. The signer
//! steps its F1 page on every GET it takes, also one whose reply is lost, so a lost page can only
//! be had again by signing the same nonce once more.
//!
//! Times are in microseconds.

use crate::auth::{
    law_console_gets_signers_bytes, law_published_signature_is_served, page_bytes, page_reads,
    pages_in_order, publish, starts_round, with_nonce_id, Cache, Event, State, ID_RESET,
    ID_SIGNATURE, ID_STATE, LAST_NONCE_PAGE, NONCE_LEN, NONCE_PAGES, RESET_LEN, SIGNATURE_LEN,
    SIGNATURE_PAGES, STATE_LEN, STATE_READY, STATE_SIGNING,
};
use crate::bytes::{overlaid, overlay};
use crate::packet::{packet_bytes, Cmd, Packet};
use vstd::prelude::*;

verus! {

/// How often the signer's F2 is polled, and for how long.
pub const SIGNER_POLL: u64 = 20_000;

pub const SIGNER_TIMEOUT: u64 = 10_000_000;

/// Signing runs per console nonce. Kept low: after many signings in a row a signer can stay
/// "signing" for good.
pub const SIGN_ATTEMPTS: u32 = 4;

/// Pauses when signing again.
pub const RESIGN_PAUSE: u64 = 300_000;

pub const RESET_SETTLE: u64 = 50_000;

pub const NONCE_PAGE_GAP: u64 = 10_000;

/// A "ready" F2 right after a nonce can be the previous signing's; it is believed only once
/// "signing" has been seen, or after this long.
pub const STALE_READY_GRACE: u64 = 500_000;

/// What the signer side is waiting for.
#[derive(Clone, Copy, PartialEq, Eq, Structural)]
pub enum Phase {
    /// The console's next event.
    Idle,
    /// The reply to GET F3, after the console's own.
    Reset,
    /// The signer's taking of a nonce page from the console; `last`: of the last page.
    Forward { last: bool },
    /// The end of the pause before signing again.
    Pause,
    /// The reply to GET F3, before signing again.
    Restart,
    /// The end of the pause after that reset.
    Settle,
    /// The signer's taking of a nonce page sent again.
    Resend { page: usize },
    /// The end of the pause after that page.
    Gap { page: usize },
    /// The reply to GET F2.
    Poll,
    /// The end of the pause before the next GET F2.
    PollPause,
    /// The reply to GET F1.
    Fetch { page: usize },
    /// The reply to GET F3, after giving up on the nonce.
    GiveUp,
}

/// What happens to end a [`Phase`].
#[derive(Clone, Copy, PartialEq, Eq, Structural)]
pub enum Awaits {
    Event,
    Reply,
    Sent,
    PauseOver,
}

pub open spec fn spec_awaits(phase: Phase) -> Awaits {
    match phase {
        Phase::Idle => Awaits::Event,
        Phase::Forward { .. } | Phase::Resend { .. } => Awaits::Sent,
        Phase::Pause | Phase::Settle | Phase::Gap { .. } | Phase::PollPause => Awaits::PauseOver,
        Phase::Reset | Phase::Restart | Phase::Poll | Phase::Fetch { .. } | Phase::GiveUp => {
            Awaits::Reply
        },
    }
}

/// What to do next.
pub enum Action {
    /// GET_REPORT(Feature, `id`) of `len` bytes.
    Get { id: u8, len: usize },
    /// SET_REPORT(Feature, F0) with these bytes.
    Send(Packet),
    /// Wait this long.
    Pause(u64),
    /// Take the next event.
    Done,
}

/// An [`Action`], with the bytes it sends.
pub enum Step {
    Get { id: u8, len: int },
    Send(Seq<u8>),
    Pause(int),
    Done,
}

impl View for Action {
    type V = Step;

    open spec fn view(&self) -> Step {
        match self {
            Action::Get { id, len } => Step::Get { id: *id, len: *len as int },
            Action::Send(p) => Step::Send(p@),
            Action::Pause(t) => Step::Pause(*t as int),
            Action::Done => Step::Done,
        }
    }
}

/// Progress with the signing device.
pub struct Signer {
    pub phase: Phase,
    /// The console's nonce pages, kept to sign again.
    pub nonce: [[u8; NONCE_LEN]; NONCE_PAGES],
    /// The signer refused a page of the current nonce.
    pub refused: bool,
    /// Signing runs of the current nonce, this one included.
    pub attempt: u32,
    /// When polling began.
    pub start: u64,
    /// The signer's F2.
    pub f2: [u8; STATE_LEN],
    /// Whether F2 has said "signing" since polling began.
    pub seen_signing: bool,
    /// Signature pages fetched.
    pub pages: [[u8; SIGNATURE_LEN]; SIGNATURE_PAGES],
}

/// The values that [`Signer`] holds.
pub struct Progress {
    pub phase: Phase,
    pub nonce: Seq<Seq<u8>>,
    pub refused: bool,
    pub attempt: int,
    pub start: int,
    pub f2: Seq<u8>,
    pub seen_signing: bool,
    pub pages: Seq<Seq<u8>>,
}

impl View for Signer {
    type V = Progress;

    open spec fn view(&self) -> Progress {
        Progress {
            phase: self.phase,
            nonce: page_bytes(self.nonce),
            refused: self.refused,
            attempt: self.attempt as int,
            start: self.start as int,
            f2: self.f2@,
            seen_signing: self.seen_signing,
            pages: page_bytes(self.pages),
        }
    }
}

pub open spec fn zeros(n: nat) -> Seq<u8> {
    Seq::new(n, |i: int| 0u8)
}

pub open spec fn no_pages() -> Seq<Seq<u8>> {
    Seq::new(SIGNATURE_PAGES as nat, |i: int| zeros(SIGNATURE_LEN as nat))
}

/// Number of a nonce page, in byte 2.
pub open spec fn page_number(data: Seq<u8>) -> Option<u8> {
    if data.len() > 2 {
        Some(data[2])
    } else {
        None
    }
}

impl Progress {
    /// A signing run is under way.
    pub open spec fn signing(self) -> bool {
        !(self.phase is Idle || self.phase is Reset || self.phase is Forward
            || self.phase is GiveUp)
    }

    pub open spec fn valid(self) -> bool {
        &&& self.nonce.len() == NONCE_PAGES
        &&& forall|i: int|
            0 <= i < NONCE_PAGES ==> (#[trigger] self.nonce[i]).len() == NONCE_LEN
        &&& self.f2.len() == STATE_LEN
        &&& self.pages.len() == SIGNATURE_PAGES
        &&& forall|i: int|
            0 <= i < SIGNATURE_PAGES ==> (#[trigger] self.pages[i]).len() == SIGNATURE_LEN
        &&& self.signing() ==> 1 <= self.attempt <= SIGN_ATTEMPTS
        &&& self.phase matches Phase::Resend { page } ==> page < NONCE_PAGES
        &&& self.phase matches Phase::Gap { page } ==> page < NONCE_PAGES
        &&& self.phase matches Phase::Fetch { page } ==> {
            &&& page < SIGNATURE_PAGES
            &&& self.f2[2] == STATE_READY
            &&& forall|i: int| 0 <= i < page ==> (#[trigger] self.pages[i])[2] == i
        }
    }

    /// Reading the clock at `now` does not go back behind the start of polling.
    pub open spec fn clock_ok(self, now: int) -> bool {
        self.phase is Poll || self.phase is PollPause ==> now >= self.start
    }

    /// Poll F2 from `now` on.
    pub open spec fn begin_poll(self, now: int) -> (Progress, Step) {
        (
            Progress {
                phase: Phase::Poll,
                start: now,
                f2: zeros(STATE_LEN as nat),
                seen_signing: false,
                pages: no_pages(),
                ..self
            },
            Step::Get { id: ID_STATE, len: STATE_LEN as int },
        )
    }

    pub open spec fn idle(self) -> (Progress, Step) {
        (Progress { phase: Phase::Idle, ..self }, Step::Done)
    }

    /// Reset the signer and leave the nonce unsigned.
    pub open spec fn give_up(self) -> (Progress, Step) {
        (
            Progress { phase: Phase::GiveUp, ..self },
            Step::Get { id: ID_RESET, len: RESET_LEN as int },
        )
    }

    pub open spec fn poll_again(self) -> (Progress, Step) {
        (Progress { phase: Phase::PollPause, ..self }, Step::Pause(SIGNER_POLL as int))
    }

    /// A signature page is missing: sign again, or give up after the last attempt.
    pub open spec fn page_lost(self) -> (Progress, Step) {
        if self.attempt < SIGN_ATTEMPTS {
            (
                Progress { phase: Phase::Pause, attempt: self.attempt + 1, ..self },
                Step::Pause(RESIGN_PAUSE as int),
            )
        } else {
            self.give_up()
        }
    }

    /// After an event from the console: a reset, or a nonce page.
    pub open spec fn after_event(self, event: Option<Seq<u8>>) -> (Progress, Step) {
        match event {
            None => (
                Progress { phase: Phase::Reset, ..self },
                Step::Get { id: ID_RESET, len: RESET_LEN as int },
            ),
            Some(data) => (
                Progress {
                    phase: Phase::Forward { last: page_number(data) == Some(LAST_NONCE_PAGE) },
                    nonce: if data.len() == NONCE_LEN && data[2] < NONCE_PAGES {
                        self.nonce.update(data[2] as int, data)
                    } else {
                        self.nonce
                    },
                    refused: self.refused && page_number(data) != Some(0u8),
                    ..self
                },
                Step::Send(data),
            ),
        }
    }

    /// After the signer has taken (or refused) a nonce page.
    pub open spec fn after_sent(self, ok: bool, now: int) -> (Progress, Step) {
        match self.phase {
            Phase::Forward { last } => {
                let refused = self.refused || !ok;
                if !last {
                    (Progress { refused, ..self }).idle()
                } else if refused {
                    (
                        Progress { phase: Phase::Pause, refused: false, attempt: 1, ..self },
                        Step::Pause(RESIGN_PAUSE as int),
                    )
                } else {
                    (Progress { refused: false, attempt: 1, ..self }).begin_poll(now)
                }
            },
            Phase::Resend { page } => if ok {
                (
                    Progress { phase: Phase::Gap { page }, ..self },
                    Step::Pause(NONCE_PAGE_GAP as int),
                )
            } else {
                self.idle()
            },
            _ => (self, Step::Done),
        }
    }

    /// After a pause.
    pub open spec fn after_pause(self, now: int) -> (Progress, Step) {
        match self.phase {
            Phase::Pause => (
                Progress { phase: Phase::Restart, ..self },
                Step::Get { id: ID_RESET, len: RESET_LEN as int },
            ),
            Phase::Settle => (
                Progress { phase: Phase::Resend { page: 0 }, ..self },
                Step::Send(self.nonce[0]),
            ),
            Phase::Gap { page } => if page + 1 < NONCE_PAGES {
                (
                    Progress { phase: Phase::Resend { page: (page + 1) as usize }, ..self },
                    Step::Send(self.nonce[page + 1]),
                )
            } else {
                self.begin_poll(now)
            },
            Phase::PollPause => if now - self.start >= SIGNER_TIMEOUT {
                self.give_up()
            } else {
                (
                    Progress { phase: Phase::Poll, ..self },
                    Step::Get { id: ID_STATE, len: STATE_LEN as int },
                )
            },
            _ => (self, Step::Done),
        }
    }

    /// After the reply to GET F2 (`None`: it failed).
    pub open spec fn after_state_reply(self, reply: Option<Seq<u8>>, now: int) -> (
        Progress,
        Step,
    ) {
        match reply {
            None => self.poll_again(),
            Some(bytes) => {
                let f2 = overlaid(self.f2, bytes);
                let seen_signing = self.seen_signing || f2[2] == STATE_SIGNING;
                let next = Progress { f2, seen_signing, ..self };
                if f2[2] == STATE_READY && (seen_signing || now - self.start >= STALE_READY_GRACE) {
                    (
                        Progress { phase: Phase::Fetch { page: 0 }, ..next },
                        Step::Get { id: ID_SIGNATURE, len: SIGNATURE_LEN as int },
                    )
                } else {
                    next.poll_again()
                }
            },
        }
    }

    /// The signature page in the reply to GET F1.
    pub open spec fn page_in(reply: Seq<u8>) -> Seq<u8> {
        overlaid(zeros(SIGNATURE_LEN as nat), reply)
    }

    /// The reply holds signature page `page`.
    pub open spec fn is_page(reply: Option<Seq<u8>>, page: int) -> bool {
        reply is Some && Self::page_in(reply->0)[2] == page
    }

    /// After the reply to GET F1 for page `page`.
    pub open spec fn after_page_reply(self, page: usize, reply: Option<Seq<u8>>) -> (
        Progress,
        Step,
    ) {
        if !Self::is_page(reply, page as int) {
            self.page_lost()
        } else {
            let next = Progress {
                pages: self.pages.update(page as int, Self::page_in(reply->0)),
                ..self
            };
            if page + 1 < SIGNATURE_PAGES {
                (
                    Progress { phase: Phase::Fetch { page: (page + 1) as usize }, ..next },
                    Step::Get { id: ID_SIGNATURE, len: SIGNATURE_LEN as int },
                )
            } else {
                next.idle()
            }
        }
    }

    /// After the reply to a GET.
    pub open spec fn after_reply(self, reply: Option<Seq<u8>>, now: int) -> (Progress, Step) {
        match self.phase {
            Phase::Reset | Phase::GiveUp => self.idle(),
            Phase::Restart => (
                Progress { phase: Phase::Settle, ..self },
                Step::Pause(RESET_SETTLE as int),
            ),
            Phase::Poll => self.after_state_reply(reply, now),
            Phase::Fetch { page } => self.after_page_reply(page, reply),
            _ => (self, Step::Done),
        }
    }

    /// The reply is the last page of a whole signature.
    pub open spec fn completes(self, reply: Option<Seq<u8>>) -> bool {
        self.phase == (Phase::Fetch { page: (SIGNATURE_PAGES - 1) as usize }) && Self::is_page(
            reply,
            SIGNATURE_PAGES - 1,
        )
    }

    /// The console's cache after the reply to a GET: the signature is cached once its last page
    /// is in.
    pub open spec fn cache_after_reply(self, cache: Cache, reply: Option<Seq<u8>>) -> Cache {
        if self.completes(reply) {
            cache.after_publish(
                self.f2,
                self.pages.update(SIGNATURE_PAGES - 1, Self::page_in(reply->0)),
            )
        } else {
            cache
        }
    }
}

impl Signer {
    pub open spec fn wf(self) -> bool {
        self@.valid()
    }

    /// No event seen yet.
    pub fn new() -> (s: Self)
        ensures
            s.wf(),
            s@ == (Progress {
                phase: Phase::Idle,
                nonce: Seq::new(NONCE_PAGES as nat, |i: int| zeros(NONCE_LEN as nat)),
                refused: false,
                attempt: 0,
                start: 0,
                f2: zeros(STATE_LEN as nat),
                seen_signing: false,
                pages: no_pages(),
            }),
    {
        let s = Signer {
            phase: Phase::Idle,
            nonce: [[0;NONCE_LEN];NONCE_PAGES],
            refused: false,
            attempt: 0,
            start: 0,
            f2: [0;STATE_LEN],
            seen_signing: false,
            pages: [[0;SIGNATURE_LEN];SIGNATURE_PAGES],
        };
        assert(s@.nonce =~= Seq::new(NONCE_PAGES as nat, |i: int| zeros(NONCE_LEN as nat))) by {
            assert forall|i: int| 0 <= i < NONCE_PAGES implies s@.nonce[i] =~= zeros(
                NONCE_LEN as nat,
            ) by {}
        }
        assert(s@.f2 =~= zeros(STATE_LEN as nat));
        assert(s@.pages =~= no_pages()) by {
            assert forall|i: int| 0 <= i < SIGNATURE_PAGES implies s@.pages[i] =~= zeros(
                SIGNATURE_LEN as nat,
            ) by {}
        }
        s
    }

    /// Another signer takes over: what the last one was doing is left, but the console's nonce is
    /// kept.
    pub fn restart(&mut self)
        requires
            old(self).wf(),
        ensures
            final(self).wf(),
            final(self)@ == (Progress { phase: Phase::Idle, ..old(self)@ }),
    {
        self.phase = Phase::Idle;
    }

    /// What has to happen next.
    pub fn awaits(&self) -> (r: Awaits)
        ensures
            r == spec_awaits(self@.phase),
    {
        match self.phase {
            Phase::Idle => Awaits::Event,
            Phase::Forward { .. } | Phase::Resend { .. } => Awaits::Sent,
            Phase::Pause | Phase::Settle | Phase::Gap { .. } | Phase::PollPause => {
                Awaits::PauseOver
            },
            Phase::Reset | Phase::Restart | Phase::Poll | Phase::Fetch { .. } | Phase::GiveUp => {
                Awaits::Reply
            },
        }
    }

    fn begin_poll(&mut self, now: u64) -> (a: Action)
        ensures
            (final(self)@, a@) == old(self)@.begin_poll(now as int),
    {
        self.phase = Phase::Poll;
        self.start = now;
        self.f2 = [0;STATE_LEN];
        self.seen_signing = false;
        self.pages = [[0;SIGNATURE_LEN];SIGNATURE_PAGES];
        assert(self.f2@ =~= zeros(STATE_LEN as nat));
        assert(self@.pages =~= no_pages()) by {
            assert forall|i: int| 0 <= i < SIGNATURE_PAGES implies self@.pages[i] =~= zeros(
                SIGNATURE_LEN as nat,
            ) by {}
        }
        Action::Get { id: ID_STATE, len: STATE_LEN }
    }

    fn give_up(&mut self) -> (a: Action)
        ensures
            (final(self)@, a@) == old(self)@.give_up(),
    {
        self.phase = Phase::GiveUp;
        Action::Get { id: ID_RESET, len: RESET_LEN }
    }

    fn page_lost(&mut self) -> (a: Action)
        ensures
            (final(self)@, a@) == old(self)@.page_lost(),
    {
        if self.attempt < SIGN_ATTEMPTS {
            self.attempt += 1;
            self.phase = Phase::Pause;
            Action::Pause(RESIGN_PAUSE)
        } else {
            self.give_up()
        }
    }

    /// Act on one console event: reset the signer, or pass a nonce page on to it.
    pub fn handle(&mut self, cmd: Cmd) -> (a: Action)
        requires
            old(self).wf(),
            spec_awaits(old(self)@.phase) is Event,
        ensures
            final(self).wf(),
            (final(self)@, a@) == old(self)@.after_event(cmd@),
    {
        match cmd {
            Cmd::Reset => {
                self.phase = Phase::Reset;
                Action::Get { id: ID_RESET, len: RESET_LEN }
            },
            Cmd::Nonce(page) => {
                let data: &[u8] = page.bytes();
                let number: Option<u8> = if data.len() > 2 {
                    Some(data[2])
                } else {
                    None
                };
                if let Some(n) = number {
                    if (n as usize) < NONCE_PAGES && data.len() == NONCE_LEN {
                        let mut copy: [u8; NONCE_LEN] = [0;NONCE_LEN];
                        overlay(&mut copy, data);
                        assert(copy@ =~= data@);
                        self.nonce[n as usize] = copy;
                        assert(self@.nonce =~= old(self)@.nonce.update(n as int, data@));
                    }
                    if n == 0 {
                        self.refused = false;
                    }
                }
                let last: bool = match number {
                    Some(n) => n == LAST_NONCE_PAGE,
                    None => false,
                };
                self.phase = Phase::Forward { last };
                assert(self@ == old(self)@.after_event(cmd@).0);
                Action::Send(page)
            },
        }
    }

    /// The signer took the nonce page (`ok`), or refused it. A page that it refused is sent again
    /// with all the others once the last one is in.
    pub fn on_sent(&mut self, ok: bool, now: u64) -> (a: Action)
        requires
            old(self).wf(),
            spec_awaits(old(self)@.phase) is Sent,
        ensures
            final(self).wf(),
            (final(self)@, a@) == old(self)@.after_sent(ok, now as int),
    {
        match self.phase {
            Phase::Forward { last } => {
                if !ok {
                    self.refused = true;
                }
                if !last {
                    self.phase = Phase::Idle;
                    return Action::Done;
                }
                let resend: bool = self.refused;
                self.refused = false;
                self.attempt = 1;
                if resend {
                    self.phase = Phase::Pause;
                    Action::Pause(RESIGN_PAUSE)
                } else {
                    self.begin_poll(now)
                }
            },
            Phase::Resend { page } => {
                if ok {
                    self.phase = Phase::Gap { page };
                    Action::Pause(NONCE_PAGE_GAP)
                } else {
                    self.phase = Phase::Idle;
                    Action::Done
                }
            },
            _ => Action::Done,
        }
    }

    fn resend(&mut self, page: usize) -> (a: Action)
        requires
            page < NONCE_PAGES,
            old(self).wf(),
        ensures
            final(self)@ == (Progress { phase: Phase::Resend { page }, ..old(self)@ }),
            a@ == Step::Send(old(self)@.nonce[page as int]),
    {
        let data: [u8; NONCE_LEN] = self.nonce[page];
        assert(data@ == self@.nonce[page as int]);
        self.phase = Phase::Resend { page };
        let packet = Packet::new(&data);
        assert(packet_bytes(data@) =~= data@);
        Action::Send(packet)
    }

    /// A pause is over.
    pub fn on_pause_over(&mut self, now: u64) -> (a: Action)
        requires
            old(self).wf(),
            spec_awaits(old(self)@.phase) is PauseOver,
            old(self)@.clock_ok(now as int),
        ensures
            final(self).wf(),
            (final(self)@, a@) == old(self)@.after_pause(now as int),
    {
        match self.phase {
            Phase::Pause => {
                self.phase = Phase::Restart;
                Action::Get { id: ID_RESET, len: RESET_LEN }
            },
            Phase::Settle => self.resend(0),
            Phase::Gap { page } => {
                if page + 1 < NONCE_PAGES {
                    self.resend(page + 1)
                } else {
                    self.begin_poll(now)
                }
            },
            Phase::PollPause => {
                if now - self.start >= SIGNER_TIMEOUT {
                    self.give_up()
                } else {
                    self.phase = Phase::Poll;
                    Action::Get { id: ID_STATE, len: STATE_LEN }
                }
            },
            _ => Action::Done,
        }
    }

    fn on_state_reply(&mut self, reply: Option<&[u8]>, now: u64) -> (a: Action)
        requires
            old(self).wf(),
            old(self)@.phase is Poll,
            now >= old(self).start,
        ensures
            final(self).wf(),
            (final(self)@, a@) == old(self)@.after_state_reply(
                match reply {
                    Some(bytes) => Some(bytes@),
                    None => None,
                },
                now as int,
            ),
    {
        if let Some(bytes) = reply {
            overlay(&mut self.f2, bytes);
            if self.f2[2] == STATE_SIGNING {
                self.seen_signing = true;
            }
            if self.f2[2] == STATE_READY && (self.seen_signing || now - self.start
                >= STALE_READY_GRACE) {
                self.phase = Phase::Fetch { page: 0 };
                return Action::Get { id: ID_SIGNATURE, len: SIGNATURE_LEN };
            }
        }
        self.phase = Phase::PollPause;
        Action::Pause(SIGNER_POLL)
    }

    fn on_page_reply(&mut self, state: &mut State, page: usize, reply: Option<&[u8]>) -> (a: Action)
        requires
            old(self).wf(),
            old(state).wf(),
            old(self)@.phase == (Phase::Fetch { page }),
        ensures
            final(self).wf(),
            final(state).wf(),
            ({
                let reply = match reply {
                    Some(bytes) => Some(bytes@),
                    None => None,
                };
                &&& (final(self)@, a@) == old(self)@.after_page_reply(page, reply)
                &&& final(state)@ == old(self)@.cache_after_reply(old(state)@, reply)
            }),
    {
        match reply {
            None => self.page_lost(),
            Some(bytes) => {
                let mut fetched: [u8; SIGNATURE_LEN] = [0;SIGNATURE_LEN];
                assert(fetched@ =~= zeros(SIGNATURE_LEN as nat));
                overlay(&mut fetched, bytes);
                assert(fetched@ == Progress::page_in(bytes@));
                if fetched[2] as usize != page {
                    return self.page_lost();
                }
                self.pages[page] = fetched;
                assert(self@.pages =~= old(self)@.pages.update(page as int, fetched@));
                if page + 1 < SIGNATURE_PAGES {
                    self.phase = Phase::Fetch { page: page + 1 };
                    assert(self.wf()) by {
                        assert forall|i: int|
                            0 <= i < page + 1 implies (#[trigger] self@.pages[i])[2] == i by {
                            if i < page {
                                assert(old(self)@.pages[i][2] == i);
                            }
                        }
                    }
                    Action::Get { id: ID_SIGNATURE, len: SIGNATURE_LEN }
                } else {
                    self.phase = Phase::Idle;
                    assert(pages_in_order(page_bytes(self.pages))) by {
                        assert forall|i: int| 0 <= i < SIGNATURE_PAGES implies (
                        #[trigger] self@.pages[i]).len() == SIGNATURE_LEN && self@.pages[i][2]
                            == i by {
                            if i < page {
                                assert(old(self)@.pages[i][2] == i);
                            }
                        }
                    }
                    publish(state, self.f2, self.pages);
                    Action::Done
                }
            },
        }
    }

    /// The reply to the GET under way, as far as it came (`None`: it failed). Once the last
    /// signature page is in, the signature is cached for the console.
    pub fn on_reply(&mut self, state: &mut State, reply: Option<&[u8]>, now: u64) -> (a: Action)
        requires
            old(self).wf(),
            old(state).wf(),
            spec_awaits(old(self)@.phase) is Reply,
            old(self)@.clock_ok(now as int),
        ensures
            final(self).wf(),
            final(state).wf(),
            ({
                let reply = match reply {
                    Some(bytes) => Some(bytes@),
                    None => None,
                };
                &&& (final(self)@, a@) == old(self)@.after_reply(reply, now as int)
                &&& final(state)@ == old(self)@.cache_after_reply(old(state)@, reply)
            }),
    {
        match self.phase {
            Phase::Reset | Phase::GiveUp => {
                self.phase = Phase::Idle;
                Action::Done
            },
            Phase::Restart => {
                self.phase = Phase::Settle;
                Action::Pause(RESET_SETTLE)
            },
            Phase::Poll => self.on_state_reply(reply, now),
            Phase::Fetch { page } => self.on_page_reply(state, page, reply),
            _ => Action::Done,
        }
    }
}

/// Every step keeps progress valid; in a valid signing run at most [`SIGN_ATTEMPTS`] signings
/// have been started.
pub proof fn law_steps_keep_progress_valid(
    p: Progress,
    event: Option<Seq<u8>>,
    ok: bool,
    reply: Option<Seq<u8>>,
    now: int,
)
    requires
        p.valid(),
    ensures
        p.phase is Idle ==> p.after_event(event).0.valid(),
        p.after_sent(ok, now).0.valid(),
        p.after_pause(now).0.valid(),
        p.after_reply(reply, now).0.valid(),
        p.signing() ==> p.attempt <= SIGN_ATTEMPTS,
{
    if let Phase::Fetch { page } = p.phase {
        let q = p.after_reply(reply, now).0;
        assert forall|i: int| 0 <= i < page && q.phase is Fetch implies (#[trigger] q.pages[i])[2]
            == i by {
            assert(p.pages[i][2] == i);
        }
    }
}

/// A nonce is signed again only because a signature page was lost, and each time counts as one
/// attempt; after [`SIGN_ATTEMPTS`] the signer is reset and the nonce given up.
pub proof fn law_attempts_counted(p: Progress, ok: bool, reply: Option<Seq<u8>>, now: int)
    requires
        p.valid(),
        p.signing(),
    ensures
        p.after_sent(ok, now).0.attempt == p.attempt,
        p.after_pause(now).0.attempt == p.attempt,
        p.after_reply(reply, now).0.attempt == p.attempt || {
            &&& p.phase matches Phase::Fetch { page } && !Progress::is_page(reply, page as int)
            &&& p.after_reply(reply, now).0.attempt == p.attempt + 1
        },
        (p.phase matches Phase::Fetch { page } && !Progress::is_page(reply, page as int)
            && p.attempt == SIGN_ATTEMPTS) ==> p.after_reply(reply, now) == p.give_up(),
{
}

/// "Ready" is believed only once "signing" has been seen since the nonce, or after
/// [`STALE_READY_GRACE`].
pub proof fn law_ready_believed_late(p: Progress, reply: Option<Seq<u8>>, now: int)
    requires
        p.valid(),
        p.phase is Poll,
    ensures
        p.after_reply(reply, now).0.phase is Fetch ==> {
            &&& reply is Some
            &&& overlaid(p.f2, reply->0)[2] == STATE_READY
            &&& p.seen_signing || now - p.start >= STALE_READY_GRACE
        },
{
}

/// Polling ends: once [`SIGNER_TIMEOUT`] is over, the signer is reset instead of polled again.
pub proof fn law_polling_times_out(p: Progress, now: int)
    requires
        p.phase is PollPause,
        now - p.start >= SIGNER_TIMEOUT,
    ensures
        p.after_pause(now) == p.give_up(),
        p.give_up().0.after_reply(None, now) == (Progress { phase: Phase::Idle, ..p }, Step::Done),
{
}

/// The cached signature changes only with the last page of a signature that came whole, every
/// page in its place; what is cached is that signature.
pub proof fn law_only_whole_signatures_cached(
    p: Progress,
    cache: Cache,
    reply: Option<Seq<u8>>,
    now: int,
)
    requires
        p.valid(),
    ensures
        p.cache_after_reply(cache, reply) != cache ==> {
            &&& p.completes(reply)
            &&& pages_in_order(p.after_reply(reply, now).0.pages)
            &&& p.cache_after_reply(cache, reply) == cache.after_publish(
                p.f2,
                p.after_reply(reply, now).0.pages,
            )
            &&& p.f2[2] == STATE_READY
        },
{
    if p.completes(reply) {
        let pages = p.after_reply(reply, now).0.pages;
        assert forall|i: int| 0 <= i < SIGNATURE_PAGES implies (#[trigger] pages[i]).len()
            == SIGNATURE_LEN && pages[i][2] == i by {
            if i < SIGNATURE_PAGES - 1 {
                assert(p.pages[i][2] == i);
            }
        }
    }
}

/// `pages` are a console's nonce, pages 0 to 4.
pub open spec fn is_nonce(pages: Seq<Seq<u8>>) -> bool {
    &&& pages.len() == NONCE_PAGES
    &&& forall|i: int|
        0 <= i < NONCE_PAGES ==> (#[trigger] pages[i]).len() == NONCE_LEN && pages[i][2] == i
}

/// One of the first `k` pages was refused.
pub open spec fn any_refused(taken: Seq<bool>, k: nat) -> bool
    decreases k,
{
    k > 0 && (!taken[k - 1] || any_refused(taken, (k - 1) as nat))
}

/// After `k` nonce pages from the console, of which the signer took those marked in `taken`.
pub open spec fn forwarded(
    p: Progress,
    pages: Seq<Seq<u8>>,
    taken: Seq<bool>,
    now: int,
    k: nat,
) -> Progress
    decreases k,
{
    if k == 0 {
        p
    } else {
        forwarded(p, pages, taken, now, (k - 1) as nat).after_event(
            Some(pages[k - 1]),
        ).0.after_sent(taken[k - 1], now).0
    }
}

/// A nonce of which the signer took every page is signed at once; one of which it refused any
/// page, the first and the last included, is sent again in full before it is signed.
pub proof fn law_refused_nonce_sent_again(
    p: Progress,
    pages: Seq<Seq<u8>>,
    taken: Seq<bool>,
    now: int,
    k: nat,
)
    requires
        p.valid(),
        p.phase is Idle,
        is_nonce(pages),
        k <= NONCE_PAGES,
    ensures
        ({
            let q = forwarded(p, pages, taken, now, k);
            &&& q.valid()
            &&& forall|i: int| 0 <= i < k ==> #[trigger] q.nonce[i] == pages[i]
            &&& 0 < k < NONCE_PAGES ==> q.phase is Idle && q.refused == any_refused(taken, k)
            &&& k == NONCE_PAGES && any_refused(taken, k) ==> q.phase is Pause && q.nonce == pages
            &&& k == NONCE_PAGES && !any_refused(taken, k) ==> q.phase is Poll && q.start == now
        }),
    decreases k,
{
    if k > 0 {
        law_refused_nonce_sent_again(p, pages, taken, now, (k - 1) as nat);
        reveal_with_fuel(any_refused, 2);
        let before = forwarded(p, pages, taken, now, (k - 1) as nat);
        let event = Some(pages[k - 1]);
        law_steps_keep_progress_valid(before, event, true, None, now);
        law_steps_keep_progress_valid(before.after_event(event).0, None, taken[k - 1], None, now);
        let q = forwarded(p, pages, taken, now, k);
        assert(pages[k - 1].len() == NONCE_LEN && pages[k - 1][2] == k - 1);
        if k == NONCE_PAGES {
            assert(q.nonce =~= pages);
        }
    }
}

/// The step after `k` nonce pages have been sent again and taken, the next pause included; pauses
/// end at the times `nows`.
pub open spec fn resent(p: Progress, nows: Seq<int>, k: nat) -> (Progress, Step)
    decreases k,
{
    if k == 0 {
        p.after_pause(nows[0])
    } else {
        let before = resent(p, nows, (k - 1) as nat).0;
        before.after_sent(true, nows[k as int]).0.after_pause(nows[k as int])
    }
}

/// Signing again sends the kept nonce pages, all of them and in order, and then polls anew.
pub proof fn law_resend_sends_every_page(p: Progress, nows: Seq<int>, k: nat)
    requires
        p.valid(),
        p.phase is Settle,
        k <= NONCE_PAGES,
    ensures
        k < NONCE_PAGES ==> resent(p, nows, k) == (
            Progress { phase: Phase::Resend { page: k as usize }, ..p },
            Step::Send(p.nonce[k as int]),
        ),
        k == NONCE_PAGES ==> resent(p, nows, k) == p.begin_poll(nows[k as int]),
    decreases k,
{
    if k > 0 {
        law_resend_sends_every_page(p, nows, (k - 1) as nat);
    }
}

/// Where the signer refused any page of a nonce, what it gets after the last page, and before it
/// is polled, is a GET of F3 (after a pause, and followed by one) and then all five pages again,
/// the first one included; once it has taken them, it is polled.
pub proof fn law_refused_nonce_goes_out_whole(
    p: Progress,
    pages: Seq<Seq<u8>>,
    taken: Seq<bool>,
    now: int,
    reply: Option<Seq<u8>>,
    nows: Seq<int>,
    k: nat,
)
    requires
        p.valid(),
        p.phase is Idle,
        is_nonce(pages),
        any_refused(taken, NONCE_PAGES as nat),
        k <= NONCE_PAGES,
    ensures
        ({
            let last = NONCE_PAGES - 1;
            let sent = forwarded(p, pages, taken, now, last as nat).after_event(
                Some(pages[last]),
            ).0.after_sent(taken[last], now);
            let reset = sent.0.after_pause(now);
            let settle = reset.0.after_reply(reply, now);
            &&& sent.0 == forwarded(p, pages, taken, now, NONCE_PAGES as nat)
            &&& sent.1 == Step::Pause(RESIGN_PAUSE as int)
            &&& reset.1 == (Step::Get { id: ID_RESET, len: RESET_LEN as int })
            &&& settle.1 == Step::Pause(RESET_SETTLE as int)
            &&& k < NONCE_PAGES ==> resent(settle.0, nows, k).1 == Step::Send(pages[k as int])
            &&& k == NONCE_PAGES ==> resent(settle.0, nows, k) == settle.0.begin_poll(
                nows[k as int],
            )
        }),
{
    law_refused_nonce_sent_again(p, pages, taken, now, NONCE_PAGES as nat);
    law_refused_nonce_sent_again(p, pages, taken, now, (NONCE_PAGES - 1) as nat);
    reveal_with_fuel(any_refused, 2);
    let q = forwarded(p, pages, taken, now, NONCE_PAGES as nat);
    let restart = q.after_pause(now).0;
    law_steps_keep_progress_valid(q, None, true, None, now);
    law_steps_keep_progress_valid(restart, None, true, reply, now);
    law_resend_sends_every_page(restart.after_reply(reply, now).0, nows, k);
}

/// Progress and cache after `k` signature pages.
pub open spec fn fetched(p: Progress, cache: Cache, replies: Seq<Seq<u8>>, now: int, k: nat) -> (
    Progress,
    Cache,
)
    decreases k,
{
    if k == 0 {
        (p, cache)
    } else {
        let (before, cached) = fetched(p, cache, replies, now, (k - 1) as nat);
        let reply = Some(replies[k - 1]);
        (before.after_reply(reply, now).0, before.cache_after_reply(cached, reply))
    }
}

/// Once the signer is ready, replies that hold its pages in order are cached as they came, and
/// the nonce is done.
pub proof fn law_whole_signature_reaches_cache(
    p: Progress,
    cache: Cache,
    replies: Seq<Seq<u8>>,
    now: int,
    k: nat,
)
    requires
        p.valid(),
        p.phase == (Phase::Fetch { page: 0 }),
        pages_in_order(replies),
        k <= SIGNATURE_PAGES,
    ensures
        k < SIGNATURE_PAGES ==> {
            let (q, c) = fetched(p, cache, replies, now, k);
            &&& c == cache
            &&& q.valid()
            &&& q.phase == (Phase::Fetch { page: k as usize })
            &&& q.f2 == p.f2
            &&& forall|i: int| 0 <= i < k ==> #[trigger] q.pages[i] == replies[i]
        },
        k == SIGNATURE_PAGES ==> {
            let (q, c) = fetched(p, cache, replies, now, k);
            &&& c == cache.after_publish(p.f2, replies)
            &&& q.phase is Idle
        },
    decreases k,
{
    if k > 0 {
        law_whole_signature_reaches_cache(p, cache, replies, now, (k - 1) as nat);
        let (before, cached) = fetched(p, cache, replies, now, (k - 1) as nat);
        let reply = replies[k - 1];
        assert(Progress::page_in(reply) =~= reply);
        law_steps_keep_progress_valid(before, None, true, Some(reply), now);
        if k == SIGNATURE_PAGES {
            assert(before.pages.update(k - 1, reply) =~= replies);
        }
    }
}

/// The console reads what the signer signed: once the signer's pages came in order and until a
/// new round starts, F2 and the `n`th GET of F1 are answered with the signer's own bytes, but for
/// the nonce id; F1 is not answered after the last page.
pub proof fn law_console_reads_signers_pages(
    p: Progress,
    cache: Cache,
    replies: Seq<Seq<u8>>,
    now: int,
    events: Seq<Event>,
)
    requires
        p.valid(),
        p.phase == (Phase::Fetch { page: 0 }),
        cache.valid(),
        pages_in_order(replies),
        forall|i: int|
            0 <= i < events.len() ==> !starts_round(#[trigger] events[i])
                && !(events[i] is Publish),
    ensures
        ({
            let relayed = fetched(p, cache, replies, now, SIGNATURE_PAGES as nat).1;
            let later = relayed.after_events(events);
            let n = page_reads(events);
            &&& later.answer(ID_STATE) == Some(with_nonce_id(p.f2, cache.nonce_id))
            &&& later.answer(ID_SIGNATURE) == (if n < SIGNATURE_PAGES {
                Some(with_nonce_id(replies[n as int], cache.nonce_id))
            } else {
                None
            })
        }),
{
    law_whole_signature_reaches_cache(p, cache, replies, now, SIGNATURE_PAGES as nat);
    law_published_signature_is_served(cache, p.f2, replies, events);
}

/// An action is told by all that it does, and progress by the bytes that the signer side holds,
/// none left out or changed.
pub proof fn law_actions_are_their_bytes(a: Action, s: Signer, i: int)
    ensures
        a matches Action::Get { id, len } ==> a@ == (Step::Get { id, len: len as int }),
        a matches Action::Send(p) ==> a@ == Step::Send(p@),
        a matches Action::Pause(t) ==> a@ == Step::Pause(t as int),
        a is Done ==> a@ is Done,
        s@.phase == s.phase,
        s@.refused == s.refused,
        s@.attempt == s.attempt,
        s@.start == s.start,
        s@.seen_signing == s.seen_signing,
        s@.f2 == s.f2@,
        s@.nonce.len() == 5,
        0 <= i < 5 ==> s@.nonce[i] == s.nonce@[i]@,
        s@.pages.len() == 19,
        0 <= i < 19 ==> s@.pages[i] == s.pages@[i]@,
{
}

/// A console event reaches the signer at once: a reset as GET F3 of 8 bytes, a nonce page as SET
/// F0 with all of its bytes. A page of 64 bytes is kept under its number (byte 2), the others and
/// everything else stay.
pub proof fn law_events_reach_signer(p: Progress, data: Seq<u8>, i: int)
    requires
        p.nonce.len() == 5,
        0 <= i < 5,
    ensures
        p.after_event(None).1 == (Step::Get { id: 0xf3, len: 8 }),
        p.after_event(None).0 == (Progress { phase: Phase::Reset, ..p }),
        p.after_event(Some(data)).1 == Step::Send(data),
        data.len() == 64 && data[2] == i ==> p.after_event(Some(data)).0.nonce[i] == data,
        !(data.len() == 64 && data[2] == i) ==> p.after_event(Some(data)).0.nonce[i] == p.nonce[i],
        p.after_event(Some(data)).0.phase matches Phase::Forward { last } && (last <==> data.len()
            > 2 && data[2] == 4),
        p.after_event(Some(data)).0.refused <==> p.refused && !(data.len() > 2 && data[2] == 0),
        p.after_event(Some(data)).0.attempt == p.attempt,
{
}

/// What follows a nonce page that the console sent: before the last page nothing; after the last
/// one, GET F2 of 16 bytes at once where no page was refused, and a pause of 300 ms before signing
/// starts over where one was. A page sent again is followed by a pause of 10 ms where it was
/// taken, and ends the run where it was not.
pub proof fn law_pages_taken_or_refused(p: Progress, ok: bool, now: int, page: usize)
    ensures
        p.phase == (Phase::Forward { last: false }) ==> {
            &&& p.after_sent(ok, now).1 is Done
            &&& p.after_sent(ok, now).0 == (Progress {
                phase: Phase::Idle,
                refused: p.refused || !ok,
                ..p
            })
        },
        p.phase == (Phase::Forward { last: true }) && ok && !p.refused ==> {
            let next = p.after_sent(ok, now);
            &&& next.1 == (Step::Get { id: 0xf2, len: 16 })
            &&& next.0.phase is Poll
            &&& next.0.start == now
            &&& next.0.attempt == 1
            &&& !next.0.seen_signing
            &&& next.0.nonce == p.nonce
        },
        p.phase == (Phase::Forward { last: true }) && (!ok || p.refused) ==> {
            let next = p.after_sent(ok, now);
            &&& next.1 == Step::Pause(300_000)
            &&& next.0.phase is Pause
            &&& next.0.attempt == 1
            &&& next.0.nonce == p.nonce
            &&& !next.0.refused
        },
        p.phase == (Phase::Resend { page }) && ok ==> p.after_sent(ok, now) == (
            Progress { phase: Phase::Gap { page }, ..p },
            Step::Pause(10_000),
        ),
        p.phase == (Phase::Resend { page }) && !ok ==> p.after_sent(ok, now) == (
            Progress { phase: Phase::Idle, ..p },
            Step::Done,
        ),
{
}

/// What follows a pause: the signer is reset (GET F3 of 8 bytes) before it signs again, then gets
/// the kept nonce pages one after the other, and is polled (GET F2 of 16 bytes) after the fifth;
/// between two polls, it is polled again until 10 s after the first, and then reset for good.
pub proof fn law_pauses_lead_on(p: Progress, now: int, page: usize)
    ensures
        p.phase is Pause ==> p.after_pause(now) == (
            Progress { phase: Phase::Restart, ..p },
            Step::Get { id: 0xf3, len: 8 },
        ),
        p.phase is Settle ==> p.after_pause(now) == (
            Progress { phase: Phase::Resend { page: 0 }, ..p },
            Step::Send(p.nonce[0]),
        ),
        p.phase == (Phase::Gap { page }) && page < 4 ==> p.after_pause(now) == (
            Progress { phase: Phase::Resend { page: (page + 1) as usize }, ..p },
            Step::Send(p.nonce[page + 1]),
        ),
        p.phase == (Phase::Gap { page }) && page >= 4 ==> {
            let next = p.after_pause(now);
            &&& next.1 == (Step::Get { id: 0xf2, len: 16 })
            &&& next.0.phase is Poll
            &&& next.0.start == now
            &&& !next.0.seen_signing
            &&& next.0.attempt == p.attempt
            &&& next.0.nonce == p.nonce
        },
        p.phase is PollPause && now - p.start < 10_000_000 ==> p.after_pause(now) == (
            Progress { phase: Phase::Poll, ..p },
            Step::Get { id: 0xf2, len: 16 },
        ),
        p.phase is PollPause && now - p.start >= 10_000_000 ==> p.after_pause(now) == (
            Progress { phase: Phase::GiveUp, ..p },
            Step::Get { id: 0xf3, len: 8 },
        ),
{
}

/// The signature is fetched (GET F1 of 64 bytes, from page 0) exactly once F2 says "ready" (byte 2
/// is 0x00) and has said "signing" (0x10) since the nonce, or half a second is over; otherwise, and
/// where the poll failed, F2 is polled again in 20 ms. Of a reply cut short, the bytes that did not
/// come are those of the reply before.
pub proof fn law_polled_until_ready(p: Progress, reply: Seq<u8>, now: int)
    requires
        p.phase is Poll,
        p.f2.len() == 16,
    ensures
        p.after_reply(None, now) == (
            Progress { phase: Phase::PollPause, ..p },
            Step::Pause(20_000),
        ),
        ({
            let next = p.after_reply(Some(reply), now);
            let state = if reply.len() > 2 {
                reply[2]
            } else {
                p.f2[2]
            };
            &&& next.0.f2.len() == 16
            &&& forall|i: int| 0 <= i < 16 && i < reply.len() ==> #[trigger] next.0.f2[i]
                == reply[i]
            &&& forall|i: int| 0 <= i < 16 && i >= reply.len() ==> #[trigger] next.0.f2[i]
                == p.f2[i]
            &&& next.0.seen_signing <==> p.seen_signing || state == 0x10
            &&& next.0.nonce == p.nonce
            &&& next.0.attempt == p.attempt
            &&& next.0.start == p.start
            &&& state == 0 && (p.seen_signing || now - p.start >= 500_000) ==> {
                &&& next.0.phase == (Phase::Fetch { page: 0 })
                &&& next.1 == (Step::Get { id: 0xf1, len: 64 })
            }
            &&& !(state == 0 && (p.seen_signing || now - p.start >= 500_000)) ==> {
                &&& next.0.phase is PollPause
                &&& next.1 == Step::Pause(20_000)
            }
        }),
{
}

/// A signature page is taken exactly where it is the one asked for, by its number (byte 2): it is
/// kept as it came and the next one is asked for, up to the 19th. Where it is another one, or none
/// came, the nonce is signed again after 300 ms, up to four times in all; after that the signer is
/// reset and the nonce given up. Of a reply cut short, the bytes that did not come are zero.
pub proof fn law_pages_checked_by_number(p: Progress, page: usize, reply: Seq<u8>, now: int)
    requires
        p.phase == (Phase::Fetch { page }),
        page < 19,
        p.pages.len() == 19,
    ensures
        ({
            let next = p.after_reply(Some(reply), now);
            let lost = p.after_reply(None, now);
            let number = if reply.len() > 2 {
                reply[2]
            } else {
                0
            };
            &&& number == page ==> {
                &&& next.0.pages[page as int].len() == 64
                &&& forall|i: int|
                    0 <= i < 64 && i < reply.len() ==> #[trigger] next.0.pages[page as int][i]
                        == reply[i]
                &&& forall|i: int|
                    0 <= i < 64 && i >= reply.len() ==> #[trigger] next.0.pages[page as int][i] == 0
                &&& forall|i: int|
                    0 <= i < 19 && i != page ==> #[trigger] next.0.pages[i] == p.pages[i]
                &&& page < 18 ==> {
                    &&& next.0.phase == (Phase::Fetch { page: (page + 1) as usize })
                    &&& next.1 == (Step::Get { id: 0xf1, len: 64 })
                }
                &&& page == 18 ==> next.0.phase is Idle && next.1 is Done
            }
            &&& number != page ==> next == lost
            &&& p.attempt < 4 ==> lost == (
                Progress { phase: Phase::Pause, attempt: p.attempt + 1, ..p },
                Step::Pause(300_000),
            )
            &&& p.attempt >= 4 ==> lost == (
                Progress { phase: Phase::GiveUp, ..p },
                Step::Get { id: 0xf3, len: 8 },
            )
        }),
{
}

/// The reply to a reset is not waited on: after the console's, and after giving up, the signer
/// side is idle; before signing again it pauses for 50 ms. No reply but that with the 19th page
/// touches the console's cache.
pub proof fn law_resets_lead_on(p: Progress, cache: Cache, reply: Option<Seq<u8>>, now: int)
    ensures
        p.phase is Reset || p.phase is GiveUp ==> p.after_reply(reply, now) == (
            Progress { phase: Phase::Idle, ..p },
            Step::Done,
        ),
        p.phase is Restart ==> p.after_reply(reply, now) == (
            Progress { phase: Phase::Settle, ..p },
            Step::Pause(50_000),
        ),
        p.phase != (Phase::Fetch { page: 18 }) || reply is None ==> p.cache_after_reply(cache, reply)
            == cache,
        (reply matches Some(bytes) && bytes.len() == 64 && bytes[2] != 18) ==> p.cache_after_reply(
            cache,
            reply,
        ) == cache,
{
}

/// The bytes that the signer sent are those that the console gets: once its 19 pages came in order
/// and until a new round starts, the `n`th GET of F1 gives 64 bytes of which each but byte 1 is
/// that of the signer's page `n`, and F2 gives the signer's F2 but for byte 1; byte 1 is the nonce
/// id of the console.
pub proof fn law_console_gets_what_signer_sent(
    p: Progress,
    cache: Cache,
    replies: Seq<Seq<u8>>,
    now: int,
    events: Seq<Event>,
)
    requires
        p.valid(),
        p.phase == (Phase::Fetch { page: 0 }),
        replies.len() == 19,
        forall|i: int|
            0 <= i < 19 ==> (#[trigger] replies[i]).len() == 64 && replies[i][2] == i,
        forall|i: int|
            0 <= i < events.len() ==> match #[trigger] events[i] {
                Event::Read(id) => id != 0xf3,
                Event::Write(id, data) => id != 0xf0,
                Event::Publish(..) => false,
                _ => true,
            },
    ensures
        ({
            let later = fetched(p, cache, replies, now, 19).1.after_events(events);
            let n = page_reads(events);
            &&& n < 19 ==> {
                &&& later.answer(0xf1) matches Some(page)
                &&& page.len() == 64
                &&& page[1] == cache.nonce_id
                &&& forall|i: int|
                    0 <= i < 64 && i != 1 ==> #[trigger] page[i] == replies[n as int][i]
            }
            &&& n >= 19 ==> later.answer(0xf1) is None
            &&& later.answer(0xf2) matches Some(state)
            &&& state.len() == 16
            &&& state[1] == cache.nonce_id
            &&& forall|i: int| 0 <= i < 16 && i != 1 ==> #[trigger] state[i] == p.f2[i]
        }),
{
    law_whole_signature_reaches_cache(p, cache, replies, now, 19);
    law_console_gets_signers_bytes(cache, p.f2, replies, events);
}

} // verus!
