//! Configuration descriptors, taken apart by `embassy-usb-host`.

use crate::bytes::{le16, u16_from_le};
use embassy_usb_host::descriptor::{ConfigurationDescriptor, EndpointDescriptor, USBDescriptor};
use vstd::prelude::*;

verus! {

pub const CONFIGURATION: u8 = 0x02;

pub const INTERFACE: u8 = 0x04;

pub const ENDPOINT: u8 = 0x05;

/// Shortest configuration, interface and endpoint descriptors.
pub const CONFIGURATION_LEN: usize = 9;

pub const INTERFACE_LEN: usize = 9;

pub const ENDPOINT_LEN: usize = 7;

/// `buf` starts with a configuration descriptor.
pub open spec fn parses(buf: Seq<u8>) -> bool {
    buf.len() >= CONFIGURATION_LEN && buf[1] == CONFIGURATION
}

/// The lengths in a configuration descriptor lie within `buf`.
pub open spec fn lengths_ok(buf: Seq<u8>) -> bool {
    parses(buf) ==> buf[0] <= le16(buf[2], buf[3]) <= buf.len()
}

/// Whether the lengths in a configuration descriptor lie within `buf`; true also of what is no
/// configuration descriptor.
pub fn config_ok(buf: &[u8]) -> (ok: bool)
    ensures
        ok == lengths_ok(buf@),
{
    if buf.len() < CONFIGURATION_LEN || buf[1] != CONFIGURATION {
        return true;
    }
    let total: usize = u16_from_le(buf[2], buf[3]) as usize;
    buf[0] as usize <= total && total <= buf.len()
}

/// What follows the configuration descriptor's header: the interface, endpoint and other
/// descriptors.
pub open spec fn sub_descriptors(buf: Seq<u8>) -> Seq<u8> {
    buf.subrange(buf[0] as int, le16(buf[2], buf[3]) as int)
}

/// Descriptors laid end to end in `buf`, each as long as its first byte says; one of no length,
/// or that runs past the end, ends them.
pub open spec fn split(buf: Seq<u8>) -> Seq<Seq<u8>>
    decreases buf.len(),
{
    if buf.len() == 0 || buf[0] == 0 || buf[0] > buf.len() {
        Seq::empty()
    } else {
        seq![buf.take(buf[0] as int)] + split(buf.skip(buf[0] as int))
    }
}

/// Every descriptor that [`split`] gives is as long as its first byte says.
pub proof fn law_split_is_by_length(buf: Seq<u8>)
    ensures
        forall|i: int|
            0 <= i < split(buf).len() ==> (#[trigger] split(buf)[i]).len() > 0 && split(buf)[i][0]
                == split(buf)[i].len(),
    decreases buf.len(),
{
    if !(buf.len() == 0 || buf[0] == 0 || buf[0] > buf.len()) {
        let rest = split(buf.skip(buf[0] as int));
        law_split_is_by_length(buf.skip(buf[0] as int));
        assert forall|i: int| 0 <= i < split(buf).len() implies (#[trigger] split(buf)[i]).len() > 0
            && split(buf)[i][0] == split(buf)[i].len() by {
            if i > 0 {
                assert(split(buf)[i] == rest[i - 1]);
            }
        }
    }
}

/// A configuration descriptor: its header, and the descriptors that follow.
pub struct Configuration {
    pub value: u8,
    pub interfaces: u8,
    pub total_len: u16,
    pub attributes: u8,
    pub max_power: u8,
    pub descriptors: Vec<Vec<u8>>,
}

/// The bytes of each descriptor.
pub open spec fn raw(descriptors: Seq<Vec<u8>>) -> Seq<Seq<u8>> {
    Seq::new(descriptors.len(), |i: int| descriptors[i]@)
}

/// `ConfigurationDescriptor::try_from_slice` and `ConfigurationDescriptor::iter_descriptors`: an
/// error exactly where `buf` does not start with a configuration descriptor; otherwise the fields
/// of its header, and the descriptors from the end of the header to wTotalLength, split by their
/// lengths. The call indexes `buf` by both lengths, which must lie within it.
#[verifier::external_body]
pub(crate) fn parse_configuration(buf: &[u8]) -> (r: Option<Configuration>)
    requires
        lengths_ok(buf@),
    ensures
        r is Some == parses(buf@),
        r matches Some(c) ==> {
            &&& c.value == buf@[5]
            &&& c.interfaces == buf@[4]
            &&& c.total_len == le16(buf@[2], buf@[3])
            &&& c.attributes == buf@[7]
            &&& c.max_power == buf@[8]
            &&& raw(c.descriptors@) == split(sub_descriptors(buf@))
        },
{
    let cfg = ConfigurationDescriptor::try_from_slice(buf).ok()?;
    Some(Configuration {
        value: cfg.configuration_value,
        interfaces: cfg.num_interfaces,
        total_len: cfg.total_len,
        attributes: cfg.attributes,
        max_power: cfg.max_power,
        descriptors: cfg.iter_descriptors().map(|(_, d)| d.to_vec()).collect(),
    })
}

/// An endpoint of a device on the host port.
#[derive(Clone, Copy, PartialEq, Eq, Structural)]
pub struct Endpoint {
    pub address: u8,
    pub attributes: u8,
    pub max_packet_size: u16,
    pub interval: u8,
}

impl Endpoint {
    /// The endpoint that descriptor `d` describes.
    pub open spec fn of(d: Seq<u8>) -> Endpoint {
        Endpoint {
            address: d[2],
            attributes: d[3],
            max_packet_size: le16(d[4], d[5]),
            interval: d[6],
        }
    }

    pub open spec fn spec_is_in(self) -> bool {
        self.address >= 0x80
    }

    pub fn is_in(&self) -> (r: bool)
        ensures
            r == self.spec_is_in(),
    {
        self.address >= 0x80
    }

    pub open spec fn spec_is_interrupt(self) -> bool {
        self.attributes % 4 == 3
    }

    pub fn is_interrupt(&self) -> (r: bool)
        ensures
            r == self.spec_is_interrupt(),
    {
        self.attributes % 4 == 3
    }

    /// Name of the transfer type (USB 2.0, table 9-13: the low two bits of bmAttributes).
    pub open spec fn spec_transfer_name(self) -> Seq<char> {
        if self.attributes % 4 == 0 {
            "Control"@
        } else if self.attributes % 4 == 1 {
            "Isochronous"@
        } else if self.attributes % 4 == 2 {
            "Bulk"@
        } else {
            "Interrupt"@
        }
    }

    pub fn transfer_name(&self) -> (r: &'static str)
        ensures
            r@ == self.spec_transfer_name(),
    {
        match self.attributes % 4 {
            0 => "Control",
            1 => "Isochronous",
            2 => "Bulk",
            _ => "Interrupt",
        }
    }
}

/// `EndpointDescriptor::try_from_bytes`: an error where the descriptor is shorter than seven bytes
/// or than its own first byte says, or not an endpoint descriptor; otherwise its fields.
#[verifier::external_body]
pub(crate) fn parse_endpoint(d: &[u8]) -> (r: Option<Endpoint>)
    ensures
        r is Some == (d@.len() >= ENDPOINT_LEN && d@.len() >= d@[0] && d@[1] == ENDPOINT),
        r matches Some(e) ==> e == Endpoint::of(d@),
{
    let e = EndpointDescriptor::try_from_bytes(d).ok()?;
    Some(Endpoint {
        address: e.endpoint_address,
        attributes: e.attributes,
        max_packet_size: e.max_packet_size,
        interval: e.interval,
    })
}

/// A configuration descriptor is safe to take apart exactly where its header fits in its
/// wTotalLength (bytes 2 and 3) and that in the bytes there are; anything else is no configuration
/// descriptor.
pub proof fn law_lengths_lie_within(buf: Seq<u8>)
    ensures
        buf.len() >= 9 && buf[1] == 2 ==> (lengths_ok(buf) <==> buf[0] <= buf[2] + 256 * buf[3]
            <= buf.len()),
        buf.len() < 9 || buf[1] != 2 ==> lengths_ok(buf),
        parses(buf) <==> buf.len() >= 9 && buf[1] == 2,
{
}

/// The descriptors of a configuration lie end to end: put together they are what follows its
/// header, up to a descriptor of no length or one that runs past the end.
pub proof fn law_descriptors_lie_end_to_end(buf: Seq<u8>)
    ensures
        split(buf).flatten().is_prefix_of(buf),
        ({
            let rest = buf.skip(split(buf).flatten().len() as int);
            rest.len() == 0 || rest[0] == 0 || rest[0] > rest.len()
        }),
    decreases buf.len(),
{
    let all = split(buf);
    if buf.len() == 0 || buf[0] == 0 || buf[0] > buf.len() {
        assert(all.flatten() =~= Seq::<u8>::empty());
        assert(buf.skip(0) =~= buf);
    } else {
        let n = buf[0] as int;
        let rest = split(buf.skip(n));
        law_descriptors_lie_end_to_end(buf.skip(n));
        assert(all.first() == buf.take(n));
        assert(all.drop_first() =~= rest);
        let tail = rest.flatten();
        assert(all.flatten() =~= buf.take(n) + tail);
        assert(all.flatten() =~= buf.take(n + tail.len()));
        assert(buf.skip(n).skip(tail.len() as int) =~= buf.skip(n + tail.len()));
    }
}

/// What an endpoint descriptor says: address, attributes, the packet size little-endian, interval.
/// Bit 7 of the address tells IN from OUT, and the low two bits of the attributes the transfer
/// type.
pub proof fn law_endpoint_fields(d: Seq<u8>)
    ensures
        Endpoint::of(d).address == d[2],
        Endpoint::of(d).attributes == d[3],
        Endpoint::of(d).max_packet_size == d[4] + 256 * d[5],
        Endpoint::of(d).interval == d[6],
        Endpoint::of(d).spec_is_in() <==> d[2] & 0x80 != 0,
        Endpoint::of(d).spec_is_interrupt() <==> d[3] & 0x03 == 3,
        d[3] & 0x03 == 0 ==> Endpoint::of(d).spec_transfer_name() == "Control"@,
        d[3] & 0x03 == 1 ==> Endpoint::of(d).spec_transfer_name() == "Isochronous"@,
        d[3] & 0x03 == 2 ==> Endpoint::of(d).spec_transfer_name() == "Bulk"@,
        d[3] & 0x03 == 3 ==> Endpoint::of(d).spec_transfer_name() == "Interrupt"@,
{
    let a = d[2];
    let t = d[3];
    assert((a & 0x80 != 0) == (a >= 0x80) && t & 0x03 == t % 4) by (bit_vector);
}

} // verus!
