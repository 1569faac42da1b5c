//! The bounded queues between the console side and the host side, kept in `embassy-sync`
//! channels. A queue is only touched through an exclusive reference, so its contents are a
//! function of its value.

use crate::packet::{Cmd, ControlOut, Packet};
use embassy_sync::blocking_mutex::raw::CriticalSectionRawMutex;
use embassy_sync::channel::Channel;
use vstd::prelude::*;

verus! {

pub const QUEUE_LEN: usize = 8;

/// HID++ to the console drains slowly: 20 bytes per 5 ms poll, so a long report takes several
/// polls, and a start-up burst of some 200 messages overflows 8 entries.
pub const HIDPP_IN_QUEUE_LEN: usize = 32;

/// Contents of a queue of at most `limit` messages after `m` is offered to it: a full queue
/// drops it.
pub open spec fn offered<A>(queue: Seq<A>, limit: nat, m: A) -> Seq<A> {
    if queue.len() < limit {
        queue.push(m)
    } else {
        queue
    }
}

/// A queue keeps its messages and their order: what is offered comes out after all that came
/// before it; a full queue loses the new message and nothing else, and no queue grows past its
/// limit.
pub proof fn law_queue_keeps_order<A>(queue: Seq<A>, limit: nat, m: A)
    requires
        queue.len() <= limit,
    ensures
        offered(queue, limit, m).len() <= limit,
        forall|i: int| 0 <= i < queue.len() ==> offered(queue, limit, m)[i] == queue[i],
        queue.len() < limit ==> offered(queue, limit, m).skip(queue.len() as int) == seq![m],
        queue.len() == limit ==> offered(queue, limit, m) == queue,
{
    if queue.len() < limit {
        assert(offered(queue, limit, m).skip(queue.len() as int) =~= seq![m]);
    }
}

/// Packets, up to [`QUEUE_LEN`] of them.
#[verifier::external_body]
pub struct PacketQueue {
    channel: Channel<CriticalSectionRawMutex, Packet, QUEUE_LEN>,
}

/// The packets in a queue, oldest first.
pub uninterp spec fn queued_packets(queue: PacketQueue) -> Seq<Seq<u8>>;

impl PacketQueue {
    /// `Channel::new`: an empty channel.
    #[verifier::external_body]
    pub(crate) fn new() -> (queue: Self)
        ensures
            queued_packets(queue) == Seq::<Seq<u8>>::empty(),
    {
        PacketQueue { channel: Channel::new() }
    }

    /// `Channel::try_send`: the message goes to the end of the queue; an error, and nothing
    /// stored, exactly when the channel already holds its capacity.
    #[verifier::external_body]
    pub(crate) fn try_send(&mut self, packet: Packet) -> (ok: bool)
        ensures
            ok == (queued_packets(*old(self)).len() < QUEUE_LEN),
            queued_packets(*final(self)) == offered(
                queued_packets(*old(self)),
                QUEUE_LEN as nat,
                packet@,
            ),
    {
        self.channel.try_send(packet).is_ok()
    }

    /// `Channel::try_receive`: takes the oldest message; an error exactly when there is none.
    #[verifier::external_body]
    pub(crate) fn try_receive(&mut self) -> (r: Option<Packet>)
        ensures
            match r {
                Some(p) => queued_packets(*old(self)).len() > 0 && p@ == queued_packets(
                    *old(self),
                )[0] && queued_packets(*final(self)) == queued_packets(*old(self)).drop_first(),
                None => queued_packets(*old(self)).len() == 0 && queued_packets(*final(self))
                    == queued_packets(*old(self)),
            },
    {
        self.channel.try_receive().ok()
    }
}

/// HID++ messages for the console, up to [`HIDPP_IN_QUEUE_LEN`] of them.
#[verifier::external_body]
pub struct HidppQueue {
    channel: Channel<CriticalSectionRawMutex, Packet, HIDPP_IN_QUEUE_LEN>,
}

/// The messages in a queue, oldest first.
pub uninterp spec fn queued_hidpp(queue: HidppQueue) -> Seq<Seq<u8>>;

impl HidppQueue {
    /// `Channel::new`: an empty channel.
    #[verifier::external_body]
    pub(crate) fn new() -> (queue: Self)
        ensures
            queued_hidpp(queue) == Seq::<Seq<u8>>::empty(),
    {
        HidppQueue { channel: Channel::new() }
    }

    /// `Channel::try_send`: the message goes to the end of the queue; an error, and nothing
    /// stored, exactly when the channel already holds its capacity.
    #[verifier::external_body]
    pub(crate) fn try_send(&mut self, packet: Packet) -> (ok: bool)
        ensures
            ok == (queued_hidpp(*old(self)).len() < HIDPP_IN_QUEUE_LEN),
            queued_hidpp(*final(self)) == offered(
                queued_hidpp(*old(self)),
                HIDPP_IN_QUEUE_LEN as nat,
                packet@,
            ),
    {
        self.channel.try_send(packet).is_ok()
    }

    /// `Channel::try_receive`: takes the oldest message; an error exactly when there is none.
    #[verifier::external_body]
    pub(crate) fn try_receive(&mut self) -> (r: Option<Packet>)
        ensures
            match r {
                Some(p) => queued_hidpp(*old(self)).len() > 0 && p@ == queued_hidpp(*old(self))[0]
                    && queued_hidpp(*final(self)) == queued_hidpp(*old(self)).drop_first(),
                None => queued_hidpp(*old(self)).len() == 0 && queued_hidpp(*final(self))
                    == queued_hidpp(*old(self)),
            },
    {
        self.channel.try_receive().ok()
    }
}

/// Class requests to repeat to the device behind the bridge, up to [`QUEUE_LEN`] of them.
#[verifier::external_body]
pub struct ControlQueue {
    channel: Channel<CriticalSectionRawMutex, ControlOut, QUEUE_LEN>,
}

/// The requests in a queue, oldest first.
pub uninterp spec fn queued_requests(queue: ControlQueue) -> Seq<(u8, u16, u16, Seq<u8>)>;

impl ControlQueue {
    /// `Channel::new`: an empty channel.
    #[verifier::external_body]
    pub(crate) fn new() -> (queue: Self)
        ensures
            queued_requests(queue) == Seq::<(u8, u16, u16, Seq<u8>)>::empty(),
    {
        ControlQueue { channel: Channel::new() }
    }

    /// `Channel::try_send`: the message goes to the end of the queue; an error, and nothing
    /// stored, exactly when the channel already holds its capacity.
    #[verifier::external_body]
    pub(crate) fn try_send(&mut self, msg: ControlOut) -> (ok: bool)
        ensures
            ok == (queued_requests(*old(self)).len() < QUEUE_LEN),
            queued_requests(*final(self)) == offered(
                queued_requests(*old(self)),
                QUEUE_LEN as nat,
                msg@,
            ),
    {
        self.channel.try_send(msg).is_ok()
    }

    /// `Channel::try_receive`: takes the oldest message; an error exactly when there is none.
    #[verifier::external_body]
    pub(crate) fn try_receive(&mut self) -> (r: Option<ControlOut>)
        ensures
            match r {
                Some(m) => queued_requests(*old(self)).len() > 0 && m@ == queued_requests(
                    *old(self),
                )[0] && queued_requests(*final(self)) == queued_requests(*old(self)).drop_first(),
                None => queued_requests(*old(self)).len() == 0 && queued_requests(*final(self))
                    == queued_requests(*old(self)),
            },
    {
        self.channel.try_receive().ok()
    }
}

/// Authentication commands for the signer side, up to [`QUEUE_LEN`] of them.
#[verifier::external_body]
pub struct CmdQueue {
    channel: Channel<CriticalSectionRawMutex, Cmd, QUEUE_LEN>,
}

/// The commands in a queue, oldest first.
pub uninterp spec fn queued_cmds(queue: CmdQueue) -> Seq<Option<Seq<u8>>>;

impl CmdQueue {
    /// `Channel::new`: an empty channel.
    #[verifier::external_body]
    pub(crate) fn new() -> (queue: Self)
        ensures
            queued_cmds(queue) == Seq::<Option<Seq<u8>>>::empty(),
    {
        CmdQueue { channel: Channel::new() }
    }

    /// `Channel::try_send`: the message goes to the end of the queue; an error, and nothing
    /// stored, exactly when the channel already holds its capacity.
    #[verifier::external_body]
    pub(crate) fn try_send(&mut self, cmd: Cmd) -> (ok: bool)
        ensures
            ok == (queued_cmds(*old(self)).len() < QUEUE_LEN),
            queued_cmds(*final(self)) == offered(
                queued_cmds(*old(self)),
                QUEUE_LEN as nat,
                cmd@,
            ),
    {
        self.channel.try_send(cmd).is_ok()
    }

    /// `Channel::try_receive`: takes the oldest message; an error exactly when there is none.
    #[verifier::external_body]
    pub(crate) fn try_receive(&mut self) -> (r: Option<Cmd>)
        ensures
            match r {
                Some(c) => queued_cmds(*old(self)).len() > 0 && c@ == queued_cmds(*old(self))[0]
                    && queued_cmds(*final(self)) == queued_cmds(*old(self)).drop_first(),
                None => queued_cmds(*old(self)).len() == 0 && queued_cmds(*final(self))
                    == queued_cmds(*old(self)),
            },
    {
        self.channel.try_receive().ok()
    }

    /// `Channel::clear`: nothing is left in the channel.
    #[verifier::external_body]
    pub(crate) fn clear(&mut self)
        ensures
            queued_cmds(*final(self)) == Seq::<Option<Seq<u8>>>::empty(),
    {
        self.channel.clear()
    }
}

} // verus!
