//! Messages in flight between the console side and the host side.

use vstd::prelude::*;

verus! {

/// Largest report on any endpoint.
pub const MAX_PACKET: usize = 64;

/// `data`, cut to [`MAX_PACKET`] bytes.
pub open spec fn packet_bytes(data: Seq<u8>) -> Seq<u8> {
    data.take(
        if data.len() < MAX_PACKET {
            data.len() as int
        } else {
            MAX_PACKET as int
        },
    )
}

/// One interrupt report (or HID++ message) in flight between the cores.
#[derive(Clone, Copy)]
pub struct Packet {
    len: u8,
    data: [u8; MAX_PACKET],
}

impl View for Packet {
    type V = Seq<u8>;

    closed spec fn view(&self) -> Seq<u8> {
        self.data@.take(self.len as int)
    }
}

impl Packet {
    #[verifier::type_invariant]
    spec fn fits(self) -> bool {
        self.len <= MAX_PACKET
    }

    /// Copy of `data`, truncated to [`MAX_PACKET`].
    pub fn new(data: &[u8]) -> (p: Self)
        ensures
            p@ == packet_bytes(data@),
    {
        let len: usize = if data.len() < MAX_PACKET {
            data.len()
        } else {
            MAX_PACKET
        };
        let mut copy: [u8; MAX_PACKET] = [0;MAX_PACKET];
        let mut i: usize = 0;
        while i < len
            invariant
                i <= len <= MAX_PACKET,
                len <= data@.len(),
                forall|k: int| 0 <= k < i ==> copy@[k] == data@[k],
            decreases len - i,
        {
            copy[i] = data[i];
            i += 1;
        }
        let p = Packet { len: len as u8, data: copy };
        assert(p@ =~= packet_bytes(data@));
        p
    }

    pub fn bytes(&self) -> (r: &[u8])
        ensures
            r@ == self@,
            r@.len() <= MAX_PACKET,
            packet_bytes(r@) == r@,
    {
        proof {
            use_type_invariant(self);
            assert(packet_bytes(self@) =~= self@);
        }
        &self.data[0..self.len as usize]
    }
}

/// A packet carries its bytes unchanged when they fit, none included, and their first 64
/// otherwise; a packet's own bytes make the same packet again.
pub proof fn law_packet_keeps_report(data: Seq<u8>)
    ensures
        packet_bytes(data).len() <= MAX_PACKET,
        data.len() <= MAX_PACKET ==> packet_bytes(data) == data,
        data.len() > MAX_PACKET ==> packet_bytes(data) == data.take(MAX_PACKET as int),
        data.len() == 0 ==> packet_bytes(data).len() == 0,
        packet_bytes(packet_bytes(data)) == packet_bytes(data),
{
    assert(data.len() <= MAX_PACKET ==> packet_bytes(data) =~= data);
    assert(packet_bytes(packet_bytes(data)) =~= packet_bytes(data));
}

/// A class, interface-recipient OUT control request to repeat to the device behind the bridge.
#[derive(Clone, Copy)]
pub struct ControlOut {
    pub request: u8,
    pub value: u16,
    pub index: u16,
    pub data: Packet,
}

impl View for ControlOut {
    type V = (u8, u16, u16, Seq<u8>);

    open spec fn view(&self) -> (u8, u16, u16, Seq<u8>) {
        (self.request, self.value, self.index, self.data@)
    }
}

/// Console-side events for the host side to act on.
#[derive(Clone, Copy)]
pub enum Cmd {
    /// The console read F3: reset the signer too.
    Reset,
    /// One nonce page (F0 report, ID included).
    Nonce(Packet),
}

impl View for Cmd {
    type V = Option<Seq<u8>>;

    /// The nonce page, or `None` for a reset.
    open spec fn view(&self) -> Option<Seq<u8>> {
        match self {
            Cmd::Reset => None,
            Cmd::Nonce(p) => Some(p@),
        }
    }
}

/// A packet holds the first 64 bytes of what it is made of, or all of it, each at its place.
pub proof fn law_packet_by_byte(data: Seq<u8>)
    ensures
        data.len() <= 64 ==> packet_bytes(data).len() == data.len(),
        data.len() > 64 ==> packet_bytes(data).len() == 64,
        forall|i: int|
            0 <= i < packet_bytes(data).len() ==> #[trigger] packet_bytes(data)[i] == data[i],
{
}

/// A queued request is told by all of its parts, and a queued event by its kind and bytes.
pub proof fn law_messages_are_their_parts(msg: ControlOut, cmd: Cmd)
    ensures
        msg@.0 == msg.request,
        msg@.1 == msg.value,
        msg@.2 == msg.index,
        msg@.3 == msg.data@,
        cmd is Reset ==> cmd@ is None,
        cmd matches Cmd::Nonce(page) ==> cmd@ == Some(page@),
{
}

} // verus!
