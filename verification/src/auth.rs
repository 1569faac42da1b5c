//! PS4/PS5 peripheral authentication, console side: IF0 feature reports F0-F3, answered to the
//! console from a cache that the host side fills from a device that can sign.
//!
//! Report layout:
//! - F3 (GET, 7 bytes + ID): auth reset / sizes, e.g. `00 38 38 00 00 00 00`.
//! - F0 (SET, 63 + ID) x5: `F0 <nonce id> <page 0..4> 00 <56 bytes> <4 bytes>`.
//! - F2 (GET, 15 + ID): `F2 <nonce id> <0x10 signing | 0x00 ready> 00 ...`.
//! - F1 (GET, 63 + ID) x19: `F1 <nonce id> <page 0..18> 00 <56 bytes> ...`.
//!
//! The console's requests must be answered on the spot, so the relay leans on the console
//! polling F2: nonce pages go to the signer as they arrive, and until all signature pages are
//! fetched from it the console is told "signing". Only that busy F2 is made up here; everything
//! else is the signer's own bytes, the nonce id rewritten.

use crate::bytes::{overlaid, overlay};
use crate::packet::{packet_bytes, Cmd, Packet};
use crate::queue::{offered, queued_cmds, CmdQueue, QUEUE_LEN};
use crate::setup::{
    class_interface_in, class_interface_out, setup_bytes, CLASS_INTERFACE_IN, CLASS_INTERFACE_OUT,
};
use vstd::prelude::*;

verus! {

pub const ID_NONCE: u8 = 0xf0;

pub const ID_SIGNATURE: u8 = 0xf1;

pub const ID_STATE: u8 = 0xf2;

pub const ID_RESET: u8 = 0xf3;

/// Report lengths, report ID included.
pub const SIGNATURE_LEN: usize = 64;

pub const STATE_LEN: usize = 16;

pub const RESET_LEN: usize = 8;

pub const NONCE_LEN: usize = 64;

pub const LAST_NONCE_PAGE: u8 = 4;

pub const NONCE_PAGES: usize = 5;

pub const SIGNATURE_PAGES: usize = 19;

/// F2 byte 2.
pub const STATE_SIGNING: u8 = 0x10;

pub const STATE_READY: u8 = 0x00;

/// F3 given to the console until a signer's own F3 has been read.
pub const DEFAULT_RESET: [u8; RESET_LEN] = [0xf3, 0x00, 0x38, 0x38, 0x00, 0x00, 0x00, 0x00];

pub const HID_GET_REPORT: u8 = 0x01;

pub const HID_SET_REPORT: u8 = 0x09;

/// The signature cache and the events for the signer side.
pub struct State {
    /// The signer's F3 answer.
    pub reset: [u8; RESET_LEN],
    pub nonce_id: u8,
    /// Signature pages fetched and the signer's final F2 cached.
    pub ready: bool,
    pub ready_state: [u8; STATE_LEN],
    pub signature: [[u8; SIGNATURE_LEN]; SIGNATURE_PAGES],
    /// Next F1 page to hand to the console.
    pub next_page: usize,
    /// Console-side events, for the signer side to act on.
    pub cmds: CmdQueue,
}

/// The bytes that [`State`] holds.
pub struct Cache {
    pub reset: Seq<u8>,
    pub nonce_id: u8,
    pub ready: bool,
    pub ready_state: Seq<u8>,
    pub signature: Seq<Seq<u8>>,
    pub next_page: int,
    pub cmds: Seq<Option<Seq<u8>>>,
}

/// The bytes of each page.
pub open spec fn page_bytes<const N: usize>(pages: [[u8; SIGNATURE_LEN]; N]) -> Seq<Seq<u8>> {
    Seq::new(N as nat, |i: int| pages@[i]@)
}

impl View for State {
    type V = Cache;

    open spec fn view(&self) -> Cache {
        Cache {
            reset: self.reset@,
            nonce_id: self.nonce_id,
            ready: self.ready,
            ready_state: self.ready_state@,
            signature: page_bytes(self.signature),
            next_page: self.next_page as int,
            cmds: queued_cmds(self.cmds),
        }
    }
}

/// F2 while the signature is not complete: `F2 <nonce id> 10 00 ...`.
pub open spec fn busy_state(nonce_id: u8) -> Seq<u8> {
    Seq::new(
        STATE_LEN as nat,
        |i: int|
            if i == 0 {
                ID_STATE
            } else if i == 1 {
                nonce_id
            } else if i == 2 {
                STATE_SIGNING
            } else {
                0
            },
    )
}

/// A signer's report with the console's nonce id in it.
pub open spec fn with_nonce_id(report: Seq<u8>, nonce_id: u8) -> Seq<u8> {
    report.update(1, nonce_id)
}

/// `pages` are the signature pages 0 to 18, each with its number in byte 2.
pub open spec fn pages_in_order(pages: Seq<Seq<u8>>) -> bool {
    &&& pages.len() == SIGNATURE_PAGES
    &&& forall|i: int|
        0 <= i < SIGNATURE_PAGES ==> (#[trigger] pages[i]).len() == SIGNATURE_LEN && pages[i][2]
            == i
}

impl Cache {
    /// Nothing signed yet, no event pending, F3 as [`DEFAULT_RESET`].
    pub open spec fn fresh() -> Cache {
        Cache {
            reset: DEFAULT_RESET@,
            nonce_id: 0,
            ready: false,
            ready_state: Seq::new(STATE_LEN as nat, |i: int| 0u8),
            signature: Seq::new(
                SIGNATURE_PAGES as nat,
                |i: int| Seq::new(SIGNATURE_LEN as nat, |k: int| 0u8),
            ),
            next_page: 0,
            cmds: Seq::empty(),
        }
    }

    /// What every operation keeps: a signature that is offered is complete, in order, and bears
    /// the nonce id of the console's last nonce page.
    pub open spec fn valid(self) -> bool {
        &&& self.reset.len() == RESET_LEN
        &&& self.ready_state.len() == STATE_LEN
        &&& self.signature.len() == SIGNATURE_PAGES
        &&& forall|i: int|
            0 <= i < SIGNATURE_PAGES ==> (#[trigger] self.signature[i]).len() == SIGNATURE_LEN
        &&& 0 <= self.next_page <= SIGNATURE_PAGES
        &&& self.cmds.len() <= QUEUE_LEN
        &&& self.ready ==> {
            &&& self.ready_state[1] == self.nonce_id
            &&& self.ready_state[2] == STATE_READY
            &&& pages_in_order(self.signature)
            &&& forall|i: int|
                0 <= i < SIGNATURE_PAGES ==> (#[trigger] self.signature[i])[1] == self.nonce_id
        }
    }

    /// The report a GET_REPORT(Feature, `id`) is answered with, if any.
    pub open spec fn answer(self, id: u8) -> Option<Seq<u8>> {
        if id == ID_RESET {
            Some(self.reset)
        } else if id == ID_STATE {
            Some(
                if self.ready {
                    self.ready_state
                } else {
                    busy_state(self.nonce_id)
                },
            )
        } else if id == ID_SIGNATURE && self.ready && self.next_page < SIGNATURE_PAGES {
            Some(self.signature[self.next_page])
        } else {
            None
        }
    }

    /// After a GET_REPORT(Feature, `id`): F3 starts over and has the signer reset; each F1
    /// answered moves on to the next page.
    pub open spec fn after_get(self, id: u8) -> Cache {
        if id == ID_RESET {
            Cache {
                ready: false,
                next_page: 0,
                cmds: offered(self.cmds, QUEUE_LEN as nat, None),
                ..self
            }
        } else if id == ID_SIGNATURE && self.answer(id) is Some {
            Cache { next_page: self.next_page + 1, ..self }
        } else {
            self
        }
    }

    /// After a SET_REPORT(Feature, `id`): a nonce page withdraws the signature and goes to the
    /// signer.
    pub open spec fn after_set(self, id: u8, data: Seq<u8>) -> Cache {
        if id == ID_NONCE {
            Cache {
                ready: false,
                next_page: 0,
                nonce_id: if data.len() > 1 {
                    data[1]
                } else {
                    0
                },
                cmds: offered(self.cmds, QUEUE_LEN as nat, Some(packet_bytes(data))),
                ..self
            }
        } else {
            self
        }
    }

    /// After a complete signature is cached.
    pub open spec fn after_publish(self, ready_state: Seq<u8>, pages: Seq<Seq<u8>>) -> Cache {
        Cache {
            ready: true,
            next_page: 0,
            ready_state: with_nonce_id(ready_state, self.nonce_id),
            signature: Seq::new(
                SIGNATURE_PAGES as nat,
                |i: int| with_nonce_id(pages[i], self.nonce_id),
            ),
            ..self
        }
    }

    /// After a device's reply to GET F3 (`None`: it failed).
    pub open spec fn after_reset_reply(self, reply: Option<Seq<u8>>) -> Cache {
        match reply {
            Some(bytes) => Cache {
                reset: overlaid(Seq::new(RESET_LEN as nat, |i: int| 0u8), bytes),
                ..self
            },
            None => self,
        }
    }
}

impl State {
    pub open spec fn wf(self) -> bool {
        self@.valid()
    }

    pub fn new() -> (s: Self)
        ensures
            s.wf(),
            s@ == Cache::fresh(),
    {
        let s = State {
            reset: DEFAULT_RESET,
            nonce_id: 0,
            ready: false,
            ready_state: [0;STATE_LEN],
            signature: [[0;SIGNATURE_LEN];SIGNATURE_PAGES],
            next_page: 0,
            cmds: CmdQueue::new(),
        };
        assert(s@.ready_state =~= Cache::fresh().ready_state);
        assert(s@.signature =~= Cache::fresh().signature) by {
            assert forall|i: int| 0 <= i < SIGNATURE_PAGES implies s@.signature[i]
                =~= Cache::fresh().signature[i] by {}
        }
        s
    }
}

// ---- console side ----

/// GET_REPORT(Feature) for F1/F2/F3 into `buf`. `None`: not an auth report, or nothing to answer
/// with (the request is then rejected).
pub fn get_report(state: &mut State, id: u8, buf: &mut [u8]) -> (r: Option<usize>)
    requires
        old(state).wf(),
        old(state)@.answer(id) matches Some(report) ==> report.len() <= old(buf)@.len(),
    ensures
        final(state).wf(),
        final(state)@ == old(state)@.after_get(id),
        match r {
            Some(n) => {
                &&& old(state)@.answer(id) is Some
                &&& n == old(state)@.answer(id)->0.len()
                &&& final(buf)@ == overlaid(old(buf)@, old(state)@.answer(id)->0)
            },
            None => old(state)@.answer(id) is None && final(buf)@ == old(buf)@,
        },
{
    if id == ID_RESET {
        state.ready = false;
        state.next_page = 0;
        send(state, Cmd::Reset);
        overlay(buf, &state.reset);
        assert(state@ == old(state)@.after_get(id));
        Some(RESET_LEN)
    } else if id == ID_STATE {
        if state.ready {
            overlay(buf, &state.ready_state);
        } else {
            let mut report: [u8; STATE_LEN] = [0;STATE_LEN];
            report[0] = ID_STATE;
            report[1] = state.nonce_id;
            report[2] = STATE_SIGNING;
            assert(report@ =~= busy_state(state.nonce_id));
            overlay(buf, &report);
        }
        Some(STATE_LEN)
    } else if id == ID_SIGNATURE && state.ready && state.next_page < SIGNATURE_PAGES {
        let page: [u8; SIGNATURE_LEN] = state.signature[state.next_page];
        assert(page@ == state@.signature[state.next_page as int]);
        overlay(buf, &page);
        state.next_page += 1;
        assert(state@ == old(state)@.after_get(id));
        Some(SIGNATURE_LEN)
    } else {
        None
    }
}

/// SET_REPORT(Feature) F0 (report ID included). Returns false for other reports.
pub fn set_report(state: &mut State, id: u8, data: &[u8]) -> (accepted: bool)
    requires
        old(state).wf(),
    ensures
        final(state).wf(),
        accepted == (id == ID_NONCE),
        final(state)@ == old(state)@.after_set(id, data@),
{
    if id != ID_NONCE {
        return false;
    }
    state.ready = false;
    state.next_page = 0;
    state.nonce_id = if data.len() > 1 {
        data[1]
    } else {
        0
    };
    let page = Packet::new(data);
    send(state, Cmd::Nonce(page));
    assert(state@ == old(state)@.after_set(id, data@));
    true
}

/// Queue an event for the signer side; dropped when the queue is full.
fn send(state: &mut State, cmd: Cmd)
    ensures
        final(state)@ == (Cache {
            cmds: offered(old(state)@.cmds, QUEUE_LEN as nat, cmd@),
            ..old(state)@
        }),
{
    let _sent: bool = state.cmds.try_send(cmd);
}

// ---- signer side ----

/// The oldest event for the signer side.
pub fn next_cmd(state: &mut State) -> (r: Option<Cmd>)
    requires
        old(state).wf(),
    ensures
        final(state).wf(),
        match r {
            Some(cmd) => {
                &&& old(state)@.cmds.len() > 0
                &&& cmd@ == old(state)@.cmds[0]
                &&& final(state)@ == (Cache {
                    cmds: old(state)@.cmds.drop_first(),
                    ..old(state)@
                })
            },
            None => old(state)@.cmds.len() == 0 && final(state)@ == old(state)@,
        },
{
    state.cmds.try_receive()
}

/// A signer takes over: events queued while there was none are dropped (the console starts
/// over).
pub fn serve(state: &mut State)
    requires
        old(state).wf(),
    ensures
        final(state).wf(),
        final(state)@ == (Cache { cmds: Seq::empty(), ..old(state)@ }),
{
    state.cmds.clear();
}

/// The device's reply to GET F3, as far as it came, or `None` for a failed request. A device
/// that answered can sign, and the console's F3 is answered with its bytes from now on.
pub fn try_signer(state: &mut State, reply: Option<&[u8]>) -> (can_sign: bool)
    requires
        old(state).wf(),
    ensures
        final(state).wf(),
        can_sign == (reply is Some),
        final(state)@ == old(state)@.after_reset_reply(
            match reply {
                Some(bytes) => Some(bytes@),
                None => None,
            },
        ),
{
    match reply {
        Some(bytes) => {
            let mut reset: [u8; RESET_LEN] = [0;RESET_LEN];
            assert(reset@ =~= Seq::new(RESET_LEN as nat, |i: int| 0u8));
            overlay(&mut reset, bytes);
            state.reset = reset;
            true
        },
        None => false,
    }
}

/// Cache a complete signature: the signer's final F2 and its F1 pages, with the console's nonce
/// id in place of the signer's own counter. F1 and F2 carry no checksum.
pub fn publish(
    state: &mut State,
    ready_state: [u8; STATE_LEN],
    pages: [[u8; SIGNATURE_LEN]; SIGNATURE_PAGES],
)
    requires
        old(state).wf(),
        ready_state@[2] == STATE_READY,
        pages_in_order(page_bytes(pages)),
    ensures
        final(state).wf(),
        final(state)@ == old(state)@.after_publish(ready_state@, page_bytes(pages)),
{
    let nonce_id: u8 = state.nonce_id;
    let mut own_state = ready_state;
    own_state[1] = nonce_id;
    let mut own_pages = pages;
    let mut i: usize = 0;
    while i < SIGNATURE_PAGES
        invariant
            i <= SIGNATURE_PAGES,
            forall|k: int|
                0 <= k < i ==> (#[trigger] own_pages@[k])@ == with_nonce_id(pages@[k]@, nonce_id),
            forall|k: int| i <= k < SIGNATURE_PAGES ==> own_pages@[k] == pages@[k],
        decreases SIGNATURE_PAGES - i,
    {
        own_pages[i][1] = nonce_id;
        i += 1;
    }
    state.signature = own_pages;
    state.ready_state = own_state;
    state.next_page = 0;
    state.ready = true;
    proof {
        let want = old(state)@.after_publish(ready_state@, page_bytes(pages));
        assert forall|k: int| 0 <= k < SIGNATURE_PAGES implies state@.signature[k]
            == want.signature[k] by {
            assert(page_bytes(pages)[k] == pages@[k]@);
        }
        assert(state@.signature =~= want.signature);
        assert forall|k: int| 0 <= k < SIGNATURE_PAGES implies (#[trigger] state@.signature[k])[1]
            == nonce_id && state@.signature[k][2] == k && state@.signature[k].len()
            == SIGNATURE_LEN by {
            assert(page_bytes(pages)[k][2] == k);
        }
    }
}

/// SETUP of GET_REPORT(Feature, `id`) for `len` bytes on HID interface `iface`.
pub fn get_feature(iface: u16, id: u8, len: u16) -> (setup: [u8; 8])
    ensures
        setup@ == setup_bytes(CLASS_INTERFACE_IN, HID_GET_REPORT, (0x300 + id) as u16, iface, len),
{
    class_interface_in(HID_GET_REPORT, 0x300 + id as u16, iface, len)
}

/// SETUP of SET_REPORT(Feature, F0) for `len` bytes on HID interface `iface`.
pub fn set_nonce(iface: u16, len: u16) -> (setup: [u8; 8])
    ensures
        setup@ == setup_bytes(CLASS_INTERFACE_OUT, HID_SET_REPORT, 0x3f0, iface, len),
{
    class_interface_out(HID_SET_REPORT, 0x3f0, iface, len)
}

// ---- laws ----

/// The console is told "signing", with its nonce id, exactly until a whole signature is cached,
/// and "ready" from then on.
pub proof fn law_signing_until_cached(cache: Cache)
    requires
        cache.valid(),
    ensures
        cache.answer(ID_STATE) is Some,
        cache.answer(ID_STATE)->0.len() == STATE_LEN,
        cache.answer(ID_STATE)->0[1] == cache.nonce_id,
        cache.answer(ID_STATE)->0[2] == if cache.ready {
            STATE_READY
        } else {
            STATE_SIGNING
        },
        cache.after_get(ID_STATE) == cache,
{
}

/// No signature page is handed out before the whole signature is cached, nor after its last
/// page; every page handed out carries the console's nonce id and its own number.
pub proof fn law_pages_only_when_ready(cache: Cache)
    requires
        cache.valid(),
    ensures
        cache.answer(ID_SIGNATURE) is Some <==> cache.ready && cache.next_page < SIGNATURE_PAGES,
        cache.answer(ID_SIGNATURE) matches Some(page) ==> page.len() == SIGNATURE_LEN && page[1]
            == cache.nonce_id && page[2] == cache.next_page,
{
}

/// A GET of F3, like a nonce page, withdraws the signature: the console is told "signing" and
/// gets no page until another one is cached.
pub proof fn law_new_round_withdraws_signature(cache: Cache, data: Seq<u8>)
    requires
        cache.valid(),
    ensures
        cache.after_get(ID_RESET).answer(ID_SIGNATURE) is None,
        cache.after_get(ID_RESET).answer(ID_STATE) == Some(busy_state(cache.nonce_id)),
        cache.after_set(ID_NONCE, data).answer(ID_SIGNATURE) is None,
        data.len() > 1 ==> cache.after_set(ID_NONCE, data).answer(ID_STATE) == Some(
            busy_state(data[1]),
        ),
{
}

/// Every request keeps the cache valid.
pub proof fn law_requests_keep_cache_valid(cache: Cache, id: u8, data: Seq<u8>)
    requires
        cache.valid(),
    ensures
        cache.after_get(id).valid(),
        cache.after_set(id, data).valid(),
{
}

/// Events reach the signer side in the order the console caused them, the newest dropped while
/// eight are waiting.
pub proof fn law_events_queued_in_order(cache: Cache, data: Seq<u8>)
    requires
        cache.valid(),
    ensures
        cache.cmds.len() < QUEUE_LEN ==> cache.after_get(ID_RESET).cmds == cache.cmds.push(None)
            && cache.after_set(ID_NONCE, data).cmds == cache.cmds.push(Some(packet_bytes(data))),
        cache.cmds.len() == QUEUE_LEN ==> cache.after_get(ID_RESET).cmds == cache.cmds
            && cache.after_set(ID_NONCE, data).cmds == cache.cmds,
{
}

/// Polling F2 has no effect: it is always answered, the next poll with the same bytes, no event
/// is queued and the next F1 page stays the same.
pub proof fn law_polling_state_has_no_effect(cache: Cache)
    requires
        cache.valid(),
    ensures
        cache.answer(ID_STATE) is Some,
        cache.answer(ID_STATE)->0.len() == STATE_LEN,
        cache.after_get(ID_STATE).answer(ID_STATE) == cache.answer(ID_STATE),
        cache.after_get(ID_STATE).answer(ID_SIGNATURE) == cache.answer(ID_SIGNATURE),
        cache.after_get(ID_STATE).cmds == cache.cmds,
        cache.after_get(ID_STATE) == cache,
{
}

/// What can happen to a [`State`].
pub enum Event {
    /// [`get_report`].
    Read(u8),
    /// [`set_report`].
    Write(u8, Seq<u8>),
    /// [`next_cmd`].
    NextCmd,
    /// [`serve`].
    Serve,
    /// [`try_signer`].
    ResetReply(Option<Seq<u8>>),
    /// [`publish`].
    Publish(Seq<u8>, Seq<Seq<u8>>),
}

impl Cache {
    pub open spec fn after_event(self, event: Event) -> Cache {
        match event {
            Event::Read(id) => self.after_get(id),
            Event::Write(id, data) => self.after_set(id, data),
            Event::NextCmd => if self.cmds.len() > 0 {
                Cache { cmds: self.cmds.drop_first(), ..self }
            } else {
                self
            },
            Event::Serve => Cache { cmds: Seq::empty(), ..self },
            Event::ResetReply(reply) => self.after_reset_reply(reply),
            Event::Publish(ready_state, pages) => self.after_publish(ready_state, pages),
        }
    }

    /// After all of `events`, in order.
    pub open spec fn after_events(self, events: Seq<Event>) -> Cache
        decreases events.len(),
    {
        if events.len() == 0 {
            self
        } else {
            self.after_events(events.drop_last()).after_event(events.last())
        }
    }
}

/// The console sends a nonce page.
pub open spec fn is_nonce_page(event: Event) -> bool {
    event matches Event::Write(id, data) && id == ID_NONCE
}

/// A new authentication round: the console reads F3 or sends a nonce page.
pub open spec fn starts_round(event: Event) -> bool {
    event == Event::Read(ID_RESET) || is_nonce_page(event)
}

/// Reading F3 withdraws the signature until another one is cached: whatever else happens, F1 is
/// not answered, and F2 says "signing" with the console's nonce id, which only a nonce page
/// changes.
pub proof fn law_reset_withdraws_until_cached(cache: Cache, events: Seq<Event>)
    requires
        forall|i: int| 0 <= i < events.len() ==> !((#[trigger] events[i]) is Publish),
    ensures
        ({
            let later = cache.after_get(ID_RESET).after_events(events);
            &&& later.answer(ID_SIGNATURE) is None
            &&& later.answer(ID_STATE) == Some(busy_state(later.nonce_id))
            &&& (forall|i: int|
                0 <= i < events.len() ==> !is_nonce_page(#[trigger] events[i])) ==> later.nonce_id
                == cache.nonce_id
        }),
    decreases events.len(),
{
    if events.len() > 0 {
        let before = events.drop_last();
        assert forall|i: int| 0 <= i < before.len() implies !((
        #[trigger] before[i]) is Publish) by {
            assert(before[i] == events[i]);
        }
        law_reset_withdraws_until_cached(cache, before);
        if forall|i: int| 0 <= i < events.len() ==> !is_nonce_page(#[trigger] events[i]) {
            assert forall|i: int| 0 <= i < before.len() implies !is_nonce_page(
                #[trigger] before[i],
            ) by {
                assert(before[i] == events[i]);
            }
            assert(!is_nonce_page(events[events.len() - 1]));
        }
    }
}

/// How many of `events` are GETs of F1.
pub open spec fn page_reads(events: Seq<Event>) -> nat
    decreases events.len(),
{
    if events.len() == 0 {
        0
    } else {
        page_reads(events.drop_last()) + (if events.last() == Event::Read(ID_SIGNATURE) {
            1nat
        } else {
            0nat
        })
    }
}

proof fn lemma_pages_read(cache: Cache, events: Seq<Event>)
    requires
        cache.ready,
        cache.next_page == 0,
        forall|i: int|
            0 <= i < events.len() ==> !starts_round(#[trigger] events[i])
                && !(events[i] is Publish),
    ensures
        ({
            let later = cache.after_events(events);
            let n = page_reads(events);
            &&& later.ready
            &&& later.ready_state == cache.ready_state
            &&& later.signature == cache.signature
            &&& later.next_page == (if n < SIGNATURE_PAGES {
                n as int
            } else {
                SIGNATURE_PAGES as int
            })
        }),
    decreases events.len(),
{
    if events.len() > 0 {
        let before = events.drop_last();
        assert forall|i: int| 0 <= i < before.len() implies !starts_round(#[trigger] before[i])
            && !(before[i] is Publish) by {
            assert(before[i] == events[i]);
        }
        lemma_pages_read(cache, before);
        assert(!starts_round(events[events.len() - 1]));
    }
}

/// What the signer signed is what the console reads: once `ready_state` and `pages` are cached and
/// until a new round starts, F2 is the signer's own F2 and the `n`th GET of F1 (counted from 0)
/// returns the signer's page `n`, whatever happens in between; every GET after the last page is
/// not answered. Only the nonce id (byte 1) is the console's.
pub proof fn law_published_signature_is_served(
    cache: Cache,
    ready_state: Seq<u8>,
    pages: Seq<Seq<u8>>,
    events: Seq<Event>,
)
    requires
        cache.valid(),
        ready_state.len() == STATE_LEN,
        ready_state[2] == STATE_READY,
        pages_in_order(pages),
        forall|i: int|
            0 <= i < events.len() ==> !starts_round(#[trigger] events[i])
                && !(events[i] is Publish),
    ensures
        cache.after_publish(ready_state, pages).valid(),
        ({
            let later = cache.after_publish(ready_state, pages).after_events(events);
            let n = page_reads(events);
            &&& later.answer(ID_STATE) == Some(with_nonce_id(ready_state, cache.nonce_id))
            &&& later.answer(ID_SIGNATURE) == (if n < SIGNATURE_PAGES {
                Some(with_nonce_id(pages[n as int], cache.nonce_id))
            } else {
                None
            })
        }),
{
    let ready = cache.after_publish(ready_state, pages);
    assert forall|i: int| 0 <= i < SIGNATURE_PAGES implies (#[trigger] ready.signature[i]).len()
        == SIGNATURE_LEN && ready.signature[i][1] == cache.nonce_id && ready.signature[i][2]
        == i by {
        assert(pages[i].len() == SIGNATURE_LEN);
    }
    lemma_pages_read(ready, events);
}

/// A device that answers GET F3 gives the console's F3 from then on, until another one is tried;
/// one that does not answer changes nothing. The console's F1 and F2 are the same either way, now
/// and later.
pub proof fn law_reset_answer_is_signers(
    cache: Cache,
    reply: Option<Seq<u8>>,
    events: Seq<Event>,
)
    requires
        reply matches Some(bytes) ==> bytes.len() == RESET_LEN,
        forall|i: int| 0 <= i < events.len() ==> !((#[trigger] events[i]) is ResetReply),
    ensures
        ({
            let later = cache.after_reset_reply(reply).after_events(events);
            let untried = cache.after_events(events);
            &&& later.answer(ID_RESET) == (match reply {
                Some(bytes) => Some(bytes),
                None => cache.answer(ID_RESET),
            })
            &&& untried.answer(ID_RESET) == cache.answer(ID_RESET)
            &&& later.answer(ID_STATE) == untried.answer(ID_STATE)
            &&& later.answer(ID_SIGNATURE) == untried.answer(ID_SIGNATURE)
            &&& later == (Cache { reset: later.reset, ..untried })
        }),
    decreases events.len(),
{
    if events.len() > 0 {
        let before = events.drop_last();
        assert forall|i: int| 0 <= i < before.len() implies !((
        #[trigger] before[i]) is ResetReply) by {
            assert(before[i] == events[i]);
        }
        law_reset_answer_is_signers(cache, reply, before);
        assert(!(events[events.len() - 1] is ResetReply));
    } else if let Some(bytes) = reply {
        assert(overlaid(Seq::new(RESET_LEN as nat, |i: int| 0u8), bytes) =~= bytes);
    }
}

/// Giving a report the console's nonce id changes byte 1 and nothing else, whatever the report.
pub proof fn law_only_nonce_id_rewritten(report: Seq<u8>, nonce_id: u8)
    requires
        report.len() > 1,
    ensures
        with_nonce_id(report, nonce_id).len() == report.len(),
        with_nonce_id(report, nonce_id)[1] == nonce_id,
        forall|i: int|
            0 <= i < report.len() && i != 1 ==> #[trigger] with_nonce_id(report, nonce_id)[i]
                == report[i],
{
}

/// What the console reads are the signer's bytes: once `ready_state` and `pages` are cached and
/// until a new round starts, the `n`th GET of F1 (counted from 0) gives 64 bytes of which each but
/// byte 1 is that of `pages[n]`, after the 19th there is none, and F2 gives 16 bytes of which each
/// but byte 1 is that of `ready_state`; byte 1 is the nonce id of the console.
pub proof fn law_console_gets_signers_bytes(
    cache: Cache,
    ready_state: Seq<u8>,
    pages: Seq<Seq<u8>>,
    events: Seq<Event>,
)
    requires
        ready_state.len() == 16,
        pages.len() == 19,
        forall|i: int| 0 <= i < 19 ==> (#[trigger] pages[i]).len() == 64,
        forall|i: int|
            0 <= i < events.len() ==> match #[trigger] events[i] {
                Event::Read(id) => id != 0xf3,
                Event::Write(id, data) => id != 0xf0,
                Event::Publish(..) => false,
                _ => true,
            },
    ensures
        ({
            let later = cache.after_publish(ready_state, pages).after_events(events);
            let n = page_reads(events);
            &&& n < 19 ==> {
                &&& later.answer(0xf1) matches Some(page)
                &&& page.len() == 64
                &&& page[1] == cache.nonce_id
                &&& forall|i: int| 0 <= i < 64 && i != 1 ==> #[trigger] page[i] == pages[n as int][i]
            }
            &&& n >= 19 ==> later.answer(0xf1) is None
            &&& later.answer(0xf2) matches Some(state)
            &&& state.len() == 16
            &&& state[1] == cache.nonce_id
            &&& forall|i: int| 0 <= i < 16 && i != 1 ==> #[trigger] state[i] == ready_state[i]
        }),
{
    assert forall|i: int| 0 <= i < events.len() implies !starts_round(#[trigger] events[i])
        && !(events[i] is Publish) by {}
    lemma_pages_read(cache.after_publish(ready_state, pages), events);
}

/// A GET of F1 counts, and nothing else does.
pub proof fn law_page_reads_counted(events: Seq<Event>, event: Event)
    ensures
        page_reads(Seq::<Event>::empty()) == 0,
        event == Event::Read(0xf1) ==> page_reads(events.push(event)) == page_reads(events) + 1,
        event != Event::Read(0xf1) ==> page_reads(events.push(event)) == page_reads(events),
{
    assert(events.push(event).drop_last() =~= events);
}

/// Which reports are answered, and with what: F3 and F2 always, F1 exactly while a signature is
/// ready and a page is left, nothing else. A busy F2 is `f2 <nonce id> 10` and zeros.
pub proof fn law_auth_answers(cache: Cache, id: u8)
    ensures
        cache.answer(0xf3) == Some(cache.reset),
        cache.ready ==> cache.answer(0xf2) == Some(cache.ready_state),
        !cache.ready ==> (cache.answer(0xf2) matches Some(state) && {
            &&& state.len() == 16
            &&& state[0] == 0xf2
            &&& state[1] == cache.nonce_id
            &&& state[2] == 0x10
            &&& forall|i: int| 3 <= i < 16 ==> #[trigger] state[i] == 0
        }),
        cache.ready && cache.next_page < 19 ==> cache.answer(0xf1) == Some(
            cache.signature[cache.next_page],
        ),
        !cache.ready || cache.next_page >= 19 ==> cache.answer(0xf1) is None,
        id != 0xf1 && id != 0xf2 && id != 0xf3 ==> cache.answer(id) is None,
{
}

/// What reading does: F3 withdraws the signature and asks for the signer's reset, where there is
/// room for that event; F1 goes on by one page where it was answered; any other report changes
/// nothing. The nonce id, the F3 answer and the cached bytes stay in any case.
pub proof fn law_reads_by_report(cache: Cache, id: u8)
    ensures
        cache.after_get(id).nonce_id == cache.nonce_id,
        cache.after_get(id).reset == cache.reset,
        cache.after_get(id).ready_state == cache.ready_state,
        cache.after_get(id).signature == cache.signature,
        !cache.after_get(0xf3).ready,
        cache.after_get(0xf3).next_page == 0,
        cache.cmds.len() < 8 ==> cache.after_get(0xf3).cmds == cache.cmds.push(None),
        cache.cmds.len() >= 8 ==> cache.after_get(0xf3).cmds == cache.cmds,
        id != 0xf3 ==> cache.after_get(id).ready == cache.ready,
        id != 0xf3 ==> cache.after_get(id).cmds == cache.cmds,
        cache.ready && cache.next_page < 19 ==> cache.after_get(0xf1).next_page == cache.next_page
            + 1,
        !cache.ready || cache.next_page >= 19 ==> cache.after_get(0xf1) == cache,
        id != 0xf1 && id != 0xf3 ==> cache.after_get(id) == cache,
{
}

/// What writing does: a nonce page (F0) withdraws the signature, gives its byte 1 as the nonce id
/// and goes to the signer with all of its bytes, where there is room for that event; any other
/// report changes nothing.
pub proof fn law_nonce_pages_go_to_signer(cache: Cache, id: u8, data: Seq<u8>)
    requires
        data.len() <= 64,
    ensures
        !cache.after_set(0xf0, data).ready,
        cache.after_set(0xf0, data).next_page == 0,
        cache.after_set(0xf0, data).reset == cache.reset,
        data.len() > 1 ==> cache.after_set(0xf0, data).nonce_id == data[1],
        data.len() <= 1 ==> cache.after_set(0xf0, data).nonce_id == 0,
        cache.cmds.len() < 8 ==> cache.after_set(0xf0, data).cmds == cache.cmds.push(Some(data)),
        cache.cmds.len() >= 8 ==> cache.after_set(0xf0, data).cmds == cache.cmds,
        id != 0xf0 ==> cache.after_set(id, data) == cache,
{
    assert(packet_bytes(data) =~= data);
}

/// The F3 that a device answers with is kept byte by byte, zeros where it was short; nothing else
/// changes, and nothing at all where it did not answer.
pub proof fn law_signers_reset_kept(cache: Cache, reply: Seq<u8>)
    ensures
        cache.after_reset_reply(None) == cache,
        ({
            let later = cache.after_reset_reply(Some(reply));
            &&& later.reset.len() == 8
            &&& forall|i: int| 0 <= i < 8 && i < reply.len() ==> #[trigger] later.reset[i]
                == reply[i]
            &&& forall|i: int| 0 <= i < 8 && i >= reply.len() ==> #[trigger] later.reset[i] == 0
            &&& later == (Cache { reset: later.reset, ..cache })
        }),
{
}

/// At first nothing is signed and no event waits, and F3 is answered with
/// `f3 00 38 38 00 00 00 00`.
pub proof fn law_fresh_cache()
    ensures
        Cache::fresh().answer(0xf3) == Some(
            seq![0xf3u8, 0x00, 0x38, 0x38, 0x00, 0x00, 0x00, 0x00],
        ),
        Cache::fresh().answer(0xf1) is None,
        !Cache::fresh().ready,
        Cache::fresh().nonce_id == 0,
        Cache::fresh().cmds.len() == 0,
{
    assert(DEFAULT_RESET@ =~= seq![0xf3u8, 0x00, 0x38, 0x38, 0x00, 0x00, 0x00, 0x00]);
}

/// The cache is told by the bytes that the state holds, none left out or changed.
pub proof fn law_cache_is_the_states_bytes(
    state: State,
    pages: [[u8; SIGNATURE_LEN]; SIGNATURE_PAGES],
    i: int,
)
    requires
        0 <= i < 19,
    ensures
        page_bytes(pages).len() == 19,
        page_bytes(pages)[i] == pages@[i]@,
        state@.signature[i] == state.signature@[i]@,
        state@.reset == state.reset@,
        state@.nonce_id == state.nonce_id,
        state@.ready == state.ready,
        state@.ready_state == state.ready_state@,
        state@.next_page == state.next_page,
        state@.cmds == queued_cmds(state.cmds),
{
}

} // verus!
