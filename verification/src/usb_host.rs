//! The devices on the host port: what each is to the bridge, how it is served, and what its
//! descriptors say.

use crate::bytes::{hi, le16, lo, u16_from_le};
use crate::descriptor::{
    law_split_is_by_length, lengths_ok, parse_configuration, parse_endpoint, parses, raw, split,
    sub_descriptors, Endpoint, ENDPOINT, ENDPOINT_LEN, INTERFACE, INTERFACE_LEN,
};
use crate::device::{address, endpoint_address, Role};
use crate::hid::{HidInterface, DESC_TYPE_HID, MAX_HID_INTERFACES};
use crate::proxy::{WHEEL_PID, WHEEL_VID};
use crate::relay::{BACKEND_PID, BACKEND_VID};
use crate::setup::{get_descriptor, setup_bytes, GET_DESCRIPTOR, STANDARD_DEVICE_IN};
use vstd::prelude::*;

verus! {

pub const CLASS_HUB: u8 = 0x09;

/// Max bytes of a string descriptor (bLength is one byte).
pub const STRING_BUF_LEN: u16 = 255;

/// LANGID where the device has no usable LANGID table (English (US)).
pub const LANGID_EN_US: u16 = 0x0409;

pub const DESC_TYPE_STRING: u8 = 0x03;

// ---- what a device is, and how it is served ----

/// What an enumerated device is to the bridge.
#[derive(Clone, Copy, PartialEq, Eq, Structural)]
pub enum Kind {
    /// The G Pro Xbox/PC (c272).
    Wheel,
    /// A c269, in the relay role.
    RelayBackend,
    Hub,
    /// Anything else: in the wheel role, a candidate signer for the console's auth.
    Other,
}

pub open spec fn kind_of(vendor: u16, product: u16, class: u8, role: Role) -> Kind {
    if vendor == WHEEL_VID && product == WHEEL_PID {
        Kind::Wheel
    } else if vendor == BACKEND_VID && product == BACKEND_PID && role == Role::Relay {
        Kind::RelayBackend
    } else if class == CLASS_HUB {
        Kind::Hub
    } else {
        Kind::Other
    }
}

/// What a device is, by the IDs and class in its device descriptor.
pub fn classify(vendor: u16, product: u16, class: u8, role: Role) -> (kind: Kind)
    ensures
        kind == kind_of(vendor, product, class, role),
{
    if vendor == WHEEL_VID && product == WHEEL_PID {
        Kind::Wheel
    } else if vendor == BACKEND_VID && product == BACKEND_PID && role == Role::Relay {
        Kind::RelayBackend
    } else if class == CLASS_HUB {
        Kind::Hub
    } else {
        Kind::Other
    }
}

/// What to do with an enumerated device, until a transfer fails.
#[derive(Clone, Copy, PartialEq, Eq, Structural)]
pub enum Service {
    /// Forward the wheel to the native-port device. No probe: it wants host software to talk to
    /// it right after SET_CONFIGURATION.
    Proxy,
    /// Probe its HID interfaces, then relay it.
    Relay,
    /// A hub, which is not served as a device.
    Nothing,
    /// Probe its HID interfaces; if it answers the auth reset report on interface `iface`, it
    /// signs the console's auth, otherwise its input reports are logged.
    Sign { iface: u16 },
    /// Probe its HID interfaces and log its input reports.
    Monitor,
}

/// The first interface that is there.
pub open spec fn first_interface(ifaces: Seq<Option<HidInterface>>) -> Option<HidInterface>
    decreases ifaces.len(),
{
    if ifaces.len() == 0 {
        None
    } else if ifaces[0] is Some {
        ifaces[0]
    } else {
        first_interface(ifaces.drop_first())
    }
}

fn find_first(ifaces: &[Option<HidInterface>; MAX_HID_INTERFACES]) -> (r: Option<HidInterface>)
    ensures
        r == first_interface(ifaces@),
{
    let mut i: usize = 0;
    assert(ifaces@.skip(0) =~= ifaces@);
    while i < MAX_HID_INTERFACES
        invariant
            i <= MAX_HID_INTERFACES,
            first_interface(ifaces@) == first_interface(ifaces@.skip(i as int)),
        decreases MAX_HID_INTERFACES - i,
    {
        assert(ifaces@.skip(i as int).drop_first() =~= ifaces@.skip(i + 1));
        if ifaces[i].is_some() {
            return ifaces[i];
        }
        i += 1;
    }
    None
}

pub fn serve_device(
    kind: Kind,
    role: Role,
    ifaces: &[Option<HidInterface>; MAX_HID_INTERFACES],
) -> (s: Service)
    ensures
        s == (match kind {
            Kind::Wheel => Service::Proxy,
            Kind::RelayBackend => Service::Relay,
            Kind::Hub => Service::Nothing,
            Kind::Other => match first_interface(ifaces@) {
                Some(iface) => if role == Role::Wheel {
                    Service::Sign { iface: iface.number as u16 }
                } else {
                    Service::Monitor
                },
                None => Service::Monitor,
            },
        }),
{
    match kind {
        Kind::Wheel => Service::Proxy,
        Kind::RelayBackend => Service::Relay,
        Kind::Hub => Service::Nothing,
        Kind::Other => match find_first(ifaces) {
            Some(iface) => if role == Role::Wheel {
                Service::Sign { iface: iface.number as u16 }
            } else {
                Service::Monitor
            },
            None => Service::Monitor,
        },
    }
}

/// The wheel is recognised in every role, and a c269 only where it is to be relayed: elsewhere it
/// is a device like any other.
pub proof fn law_devices_recognised(vendor: u16, product: u16, class: u8, role: Role)
    ensures
        vendor == WHEEL_VID && product == WHEEL_PID ==> kind_of(vendor, product, class, role)
            == Kind::Wheel,
        kind_of(vendor, product, class, role) == Kind::RelayBackend ==> role == Role::Relay,
        kind_of(vendor, product, class, role) == Kind::Hub ==> class == CLASS_HUB,
{
}

/// Address and max packet size of a device's default control pipe.
pub fn ep0(max_packet_size0: u8) -> (r: (u8, u16))
    ensures
        r.0 == address(0, true),
        r.1 == max_packet_size0,
{
    (endpoint_address(0, true), max_packet_size0 as u16)
}

// ---- names ----

/// Speed of a device.
#[derive(Clone, Copy, PartialEq, Eq, Structural)]
pub enum Speed {
    Low,
    Full,
    High,
}

pub fn speed_name(speed: Speed) -> (r: &'static str)
    ensures
        r@ == (match speed {
            Speed::Low => "low-speed"@,
            Speed::Full => "full-speed"@,
            Speed::High => "high-speed"@,
        }),
{
    match speed {
        Speed::Low => "low-speed",
        Speed::Full => "full-speed",
        Speed::High => "high-speed",
    }
}

pub open spec fn class_text(class: u8) -> Seq<char> {
    if class == 0x00 {
        "per-interface"@
    } else if class == 0x01 {
        "audio"@
    } else if class == 0x02 {
        "CDC"@
    } else if class == 0x03 {
        "HID"@
    } else if class == 0x08 {
        "mass storage"@
    } else if class == 0x09 {
        "hub"@
    } else if class == 0x0a {
        "CDC data"@
    } else if class == 0xe0 {
        "wireless"@
    } else if class == 0xef {
        "miscellaneous"@
    } else if class == 0xfe {
        "application specific"@
    } else if class == 0xff {
        "vendor specific"@
    } else {
        "other"@
    }
}

pub fn class_name(class: u8) -> (r: &'static str)
    ensures
        r@ == class_text(class),
{
    match class {
        0x00 => "per-interface",
        0x01 => "audio",
        0x02 => "CDC",
        0x03 => "HID",
        0x08 => "mass storage",
        0x09 => "hub",
        0x0a => "CDC data",
        0xe0 => "wireless",
        0xef => "miscellaneous",
        0xfe => "application specific",
        0xff => "vendor specific",
        _ => "other",
    }
}

// ---- string descriptors ----

/// SETUP of GET_DESCRIPTOR(STRING): a string descriptor takes the LANGID in wIndex (USB 2.0
/// 9.4.3).
pub fn string_request(index: u8, langid: u16) -> (setup: [u8; 8])
    ensures
        setup@ == setup_bytes(
            STANDARD_DEVICE_IN,
            GET_DESCRIPTOR,
            (256 * DESC_TYPE_STRING + index) as u16,
            langid,
            STRING_BUF_LEN,
        ),
{
    let mut setup: [u8; 8] = get_descriptor(false, DESC_TYPE_STRING, index, STRING_BUF_LEN);
    setup[4] = lo(langid);
    setup[5] = hi(langid);
    assert(setup@ =~= setup_bytes(
        STANDARD_DEVICE_IN,
        GET_DESCRIPTOR,
        (256 * DESC_TYPE_STRING + index) as u16,
        langid,
        STRING_BUF_LEN,
    ));
    setup
}

/// Length of a string descriptor (header included) that came as `reply`: the smaller of bLength
/// and the bytes received, made even; `None` where it is not a string descriptor, or one shorter
/// than its header.
pub open spec fn descriptor_len(reply: Seq<u8>) -> Option<nat> {
    if reply.len() < 2 || reply[1] != DESC_TYPE_STRING || reply[0] < 2 {
        None
    } else {
        let n = if (reply[0] as nat) < reply.len() {
            reply[0] as nat
        } else {
            reply.len()
        };
        Some((n - n % 2) as nat)
    }
}

pub fn string_len(reply: &[u8]) -> (r: Option<usize>)
    ensures
        match r {
            Some(n) => descriptor_len(reply@) == Some(n as nat),
            None => descriptor_len(reply@) is None,
        },
        r matches Some(n) ==> 2 <= n <= reply@.len() && n <= reply@[0] && n % 2 == 0,
{
    if reply.len() < 2 || reply[1] != DESC_TYPE_STRING || reply[0] < 2 {
        return None;
    }
    let n: usize = if (reply[0] as usize) < reply.len() {
        reply[0] as usize
    } else {
        reply.len()
    };
    Some(n - n % 2)
}

/// The LANGID to ask for strings in: the first of the device's table, which is string 0 (`None`:
/// it could not be read).
pub fn langid(table: Option<&[u8]>) -> (r: u16)
    ensures
        r == (match table {
            Some(reply) => match descriptor_len(reply@) {
                Some(n) => if n >= 4 {
                    le16(reply@[2], reply@[3])
                } else {
                    LANGID_EN_US
                },
                None => LANGID_EN_US,
            },
            None => LANGID_EN_US,
        }),
{
    if let Some(reply) = table {
        if let Some(n) = string_len(reply) {
            if n >= 4 {
                return u16_from_le(reply[2], reply[3]);
            }
        }
    }
    LANGID_EN_US
}

/// Stands for what is not valid UTF-16.
pub const REPLACEMENT: u32 = 0xfffd;

pub open spec fn is_surrogate(unit: u16) -> bool {
    0xd800 <= unit <= 0xdfff
}

/// A high surrogate followed by a low one.
pub open spec fn is_pair(high: u16, low: u16) -> bool {
    0xd800 <= high <= 0xdbff && 0xdc00 <= low <= 0xdfff
}

/// The characters that UTF-16 code units stand for, unpaired surrogates replaced.
pub open spec fn utf16(units: Seq<u16>) -> Seq<u32>
    decreases units.len(),
{
    if units.len() == 0 {
        Seq::empty()
    } else if units.len() > 1 && is_pair(units[0], units[1]) {
        seq![(0x10000 + (units[0] - 0xd800) * 0x400 + (units[1] - 0xdc00)) as u32] + utf16(
            units.skip(2),
        )
    } else if is_surrogate(units[0]) {
        seq![REPLACEMENT] + utf16(units.skip(1))
    } else {
        seq![units[0] as u32] + utf16(units.skip(1))
    }
}

/// The UTF-16LE code units in `data`; an odd byte at the end is left out.
pub open spec fn le_units(data: Seq<u8>) -> Seq<u16> {
    Seq::new(data.len() / 2, |i: int| le16(data[2 * i], data[2 * i + 1]))
}

/// Decode the UTF-16LE payload of a string descriptor into Unicode scalar values.
pub fn decode_string(data: &[u8]) -> (chars: Vec<u32>)
    ensures
        chars@ == utf16(le_units(data@)),
{
    let mut units: Vec<u16> = Vec::new();
    let mut k: usize = 0;
    while k < data.len() / 2
        invariant
            k <= data.len() / 2,
            units@.len() == k,
            forall|i: int| 0 <= i < k ==> units@[i] == le_units(data@)[i],
        decreases data.len() / 2 - k,
    {
        units.push(u16_from_le(data[2 * k], data[2 * k + 1]));
        k += 1;
    }
    assert(units@ =~= le_units(data@));
    let mut chars: Vec<u32> = Vec::new();
    let mut i: usize = 0;
    assert(units@.skip(0) =~= units@);
    while i < units.len()
        invariant
            i <= units.len(),
            utf16(units@) == chars@ + utf16(units@.skip(i as int)),
        decreases units.len() - i,
    {
        let ghost before = chars@;
        let ghost rest = units@.skip(i as int);
        let u: u16 = units[i];
        assert(rest[0] == u);
        if 0xd800 <= u && u <= 0xdbff && i + 1 < units.len() && 0xdc00 <= units[i + 1] && units[i
            + 1] <= 0xdfff {
            assert(rest[1] == units@[i + 1]);
            assert(rest.skip(2) =~= units@.skip(i + 2));
            chars.push(
                0x10000 + (u as u32 - 0xd800) * 0x400 + (units[i + 1] as u32 - 0xdc00),
            );
            assert(utf16(units@) =~= chars@ + utf16(units@.skip(i + 2)));
            i += 2;
        } else {
            assert(rest.len() > 1 ==> rest[1] == units@[i + 1]);
            assert(rest.skip(1) =~= units@.skip(i + 1));
            if 0xd800 <= u && u <= 0xdfff {
                chars.push(REPLACEMENT);
            } else {
                chars.push(u as u32);
            }
            assert(utf16(units@) =~= chars@ + utf16(units@.skip(i + 1)));
            i += 1;
        }
    }
    assert(units@.skip(i as int) =~= Seq::<u16>::empty());
    assert(chars@ =~= utf16(units@));
    chars
}

/// What is decoded are Unicode scalar values.
pub proof fn law_decoded_are_scalars(units: Seq<u16>)
    ensures
        forall|i: int|
            0 <= i < utf16(units).len() ==> {
                let c = #[trigger] utf16(units)[i];
                c <= 0x10ffff && !(0xd800 <= c <= 0xdfff)
            },
    decreases units.len(),
{
    if units.len() > 0 {
        let n: int = if units.len() > 1 && is_pair(units[0], units[1]) {
            2
        } else {
            1
        };
        law_decoded_are_scalars(units.skip(n));
        let rest = utf16(units.skip(n));
        assert forall|i: int| 0 <= i < utf16(units).len() implies {
            let c = #[trigger] utf16(units)[i];
            c <= 0x10ffff && !(0xd800 <= c <= 0xdfff)
        } by {
            if i > 0 {
                assert(utf16(units)[i] == rest[i - 1]);
            }
        }
    }
}

// ---- listing a configuration ----

/// One line of the listing of a configuration.
#[derive(Clone, Copy, PartialEq, Eq, Structural)]
pub enum Item {
    Configuration {
        value: u8,
        interfaces: u8,
        total_len: u16,
        attributes: u8,
        max_power_ma: u16,
    },
    Interface {
        number: u8,
        alternate: u8,
        class: u8,
        subclass: u8,
        protocol: u8,
        endpoints: u8,
    },
    Endpoint(Endpoint),
    /// A HID descriptor: its version, and the length of its first listed descriptor.
    Hid { major: u8, minor: u8, report_len: u16 },
    Other { kind: u8, len: u8 },
}

/// The first line: the configuration itself. bMaxPower counts in 2 mA.
pub open spec fn configuration_item(config: Seq<u8>) -> Item {
    Item::Configuration {
        value: config[5],
        interfaces: config[4],
        total_len: le16(config[2], config[3]),
        attributes: config[7],
        max_power_ma: (2 * config[8]) as u16,
    }
}

pub open spec fn interface_item(d: Seq<u8>) -> Item {
    Item::Interface {
        number: d[2],
        alternate: d[3],
        class: d[5],
        subclass: d[6],
        protocol: d[7],
        endpoints: d[4],
    }
}

pub open spec fn other_item(d: Seq<u8>) -> Item {
    if d[1] == DESC_TYPE_HID && d.len() >= 9 {
        Item::Hid { major: d[3], minor: d[2], report_len: le16(d[7], d[8]) }
    } else {
        Item::Other { kind: d[1], len: d[0] }
    }
}

/// A listing as far as it went: its lines, whether it is inside an interface, and whether a
/// descriptor cut short ended it.
pub struct Listed {
    pub items: Seq<Item>,
    pub in_interface: bool,
    pub bad: bool,
}

impl Listed {
    /// After one more descriptor. An endpoint outside any interface is not listed.
    pub open spec fn step(self, d: Seq<u8>) -> Listed {
        if d.len() < 2 {
            self
        } else if d[1] == INTERFACE {
            if d.len() < INTERFACE_LEN {
                Listed { bad: true, ..self }
            } else {
                Listed { items: self.items.push(interface_item(d)), in_interface: true, ..self }
            }
        } else if d[1] == ENDPOINT {
            if d.len() < ENDPOINT_LEN {
                Listed { bad: true, ..self }
            } else if self.in_interface {
                Listed { items: self.items.push(Item::Endpoint(Endpoint::of(d))), ..self }
            } else {
                self
            }
        } else {
            Listed { items: self.items.push(other_item(d)), ..self }
        }
    }

    /// After the descriptors `ds`, up to one cut short.
    pub open spec fn walk(self, ds: Seq<Seq<u8>>) -> Listed
        decreases ds.len(),
    {
        if ds.len() == 0 || self.bad {
            self
        } else {
            self.step(ds[0]).walk(ds.drop_first())
        }
    }
}

/// The listing of a configuration descriptor.
pub open spec fn listed(config: Seq<u8>) -> Listed {
    Listed { items: seq![configuration_item(config)], in_interface: false, bad: false }.walk(
        split(sub_descriptors(config)),
    )
}

/// The lines of a configuration's listing, and whether a descriptor cut short ended it.
pub struct Listing {
    pub items: Vec<Item>,
    pub bad: bool,
}

/// List one descriptor, as long as its first byte says. Returns false for one cut short.
fn list_descriptor(items: &mut Vec<Item>, in_interface: &mut bool, d: &[u8]) -> (ok: bool)
    requires
        d@.len() > 0,
        d@[0] == d@.len(),
    ensures
        (Listed { items: final(items)@, in_interface: *final(in_interface), bad: !ok }) == (Listed {
            items: old(items)@,
            in_interface: *old(in_interface),
            bad: false,
        }).step(d@),
{
    if d.len() < 2 {
        return true;
    }
    if d[1] == INTERFACE {
        if d.len() < INTERFACE_LEN {
            return false;
        }
        *in_interface = true;
        items.push(
            Item::Interface {
                number: d[2],
                alternate: d[3],
                class: d[5],
                subclass: d[6],
                protocol: d[7],
                endpoints: d[4],
            },
        );
    } else if d[1] == ENDPOINT {
        match parse_endpoint(d) {
            Some(e) => {
                if *in_interface {
                    items.push(Item::Endpoint(e));
                }
            },
            None => {
                return false;
            },
        }
    } else if d[1] == DESC_TYPE_HID && d.len() >= 9 {
        items.push(Item::Hid { major: d[3], minor: d[2], report_len: u16_from_le(d[7], d[8]) });
    } else {
        items.push(Item::Other { kind: d[1], len: d[0] });
    }
    true
}

/// List a configuration descriptor, whose lengths must lie within it
/// ([`crate::descriptor::config_ok`]). `None`: not a configuration descriptor.
pub fn list_configuration(config: &[u8]) -> (r: Option<Listing>)
    requires
        lengths_ok(config@),
    ensures
        match r {
            Some(l) => {
                &&& parses(config@)
                &&& l.items@ == listed(config@).items
                &&& l.bad == listed(config@).bad
            },
            None => !parses(config@),
        },
{
    let cfg = match parse_configuration(config) {
        Some(c) => c,
        None => {
            return None;
        },
    };
    let ghost ds = raw(cfg.descriptors@);
    let mut items: Vec<Item> = Vec::new();
    items.push(
        Item::Configuration {
            value: cfg.value,
            interfaces: cfg.interfaces,
            total_len: cfg.total_len,
            attributes: cfg.attributes,
            max_power_ma: 2 * (cfg.max_power as u16),
        },
    );
    let mut in_interface: bool = false;
    let mut bad: bool = false;
    let mut k: usize = 0;
    proof {
        law_split_is_by_length(sub_descriptors(config@));
        assert(ds.skip(0) =~= ds);
        assert(items@ =~= seq![configuration_item(config@)]);
    }
    while !bad && k < cfg.descriptors.len()
        invariant
            k <= ds.len(),
            ds == raw(cfg.descriptors@),
            forall|i: int|
                0 <= i < ds.len() ==> (#[trigger] ds[i]).len() > 0 && ds[i][0] == ds[i].len(),
            listed(config@) == (Listed { items: items@, in_interface, bad }).walk(
                ds.skip(k as int),
            ),
        decreases ds.len() - k,
    {
        let d: &Vec<u8> = &cfg.descriptors[k];
        assert(ds[k as int] == d@);
        assert(ds.skip(k as int)[0] == d@);
        assert(ds.skip(k as int).drop_first() =~= ds.skip(k + 1));
        bad = !list_descriptor(&mut items, &mut in_interface, d);
        k += 1;
    }
    Some(Listing { items, bad })
}

/// Nothing is left out of the listing but what cannot be placed: as long as no descriptor is cut
/// short, every descriptor of two bytes or more adds a line, except an endpoint outside any
/// interface.
pub proof fn law_listing_is_complete(l: Listed, d: Seq<u8>)
    requires
        !l.step(d).bad,
        d.len() >= 2,
        d[1] != ENDPOINT || l.in_interface,
    ensures
        l.step(d).items.len() == l.items.len() + 1,
        l.step(d).items.drop_last() == l.items,
{
    assert(l.step(d).items.drop_last() =~= l.items);
}

// ---- laws of what is made of a device ----

/// What a device is to the bridge: 046d:c272 is the wheel, in every role; 046d:c269 the relay's
/// backend, in that role only; of the others, those of class 9 are hubs.
pub proof fn law_kinds_by_ids(vendor: u16, product: u16, class: u8, role: Role)
    ensures
        ({
            let kind = kind_of(vendor, product, class, role);
            let wheel = vendor == 0x046d && product == 0xc272;
            let backend = vendor == 0x046d && product == 0xc269 && role == Role::Relay;
            &&& kind == Kind::Wheel <==> wheel
            &&& kind == Kind::RelayBackend <==> backend
            &&& kind == Kind::Hub <==> !wheel && !backend && class == 9
            &&& kind == Kind::Other <==> !wheel && !backend && class != 9
        }),
{
}

/// The first interface that is there is one of those listed, with none before it.
pub proof fn law_first_interface(ifaces: Seq<Option<HidInterface>>, k: int)
    ensures
        0 <= k < ifaces.len() && ifaces[k] is Some && (forall|j: int|
            0 <= j < k ==> (#[trigger] ifaces[j]) is None) ==> first_interface(ifaces) == ifaces[k],
        (forall|j: int| 0 <= j < ifaces.len() ==> (#[trigger] ifaces[j]) is None)
            ==> first_interface(ifaces) is None,
    decreases ifaces.len(),
{
    if ifaces.len() > 0 {
        let rest = ifaces.drop_first();
        law_first_interface(rest, k - 1);
        if 0 < k < ifaces.len() && (forall|j: int| 0 <= j < k ==> (#[trigger] ifaces[j]) is None) {
            assert(ifaces[0] is None);
            assert(rest[k - 1] == ifaces[k]);
            assert forall|j: int| 0 <= j < k - 1 implies (#[trigger] rest[j]) is None by {
                assert(rest[j] == ifaces[j + 1]);
            }
        }
        if forall|j: int| 0 <= j < ifaces.len() ==> (#[trigger] ifaces[j]) is None {
            assert(ifaces[0] is None);
            assert forall|j: int| 0 <= j < rest.len() implies (#[trigger] rest[j]) is None by {
                assert(rest[j] == ifaces[j + 1]);
            }
        }
    }
}

/// A string descriptor's length is the largest even number that neither its first byte nor the
/// bytes received fall short of; a reply without a header, of another type, or shorter by its first
/// byte than its header, is none.
pub proof fn law_string_length(reply: Seq<u8>, m: nat)
    ensures
        descriptor_len(reply) is Some <==> reply.len() >= 2 && reply[1] == 3 && reply[0] >= 2,
        descriptor_len(reply) matches Some(n) ==> n % 2 == 0 && n <= reply.len() && n <= reply[0],
        (descriptor_len(reply) matches Some(n) && m % 2 == 0 && m <= reply.len() && m <= reply[0])
            ==> m <= descriptor_len(reply)->0,
{
}

/// Code units are pairs of bytes, little-endian; an odd byte at the end is none.
pub proof fn law_units_by_byte(data: Seq<u8>, i: int)
    ensures
        le_units(data).len() == data.len() / 2,
        0 <= i < data.len() / 2 ==> le_units(data)[i] == data[2 * i] + 256 * data[2 * i + 1],
{
}

/// How a string is decoded, from its front: a code unit that is no surrogate stands for itself; a
/// high and a low surrogate together for one character, which they are the UTF-16 form of; a
/// surrogate alone for U+FFFD.
pub proof fn law_decoded_from_front(unit: u16, low: u16, rest: Seq<u16>)
    ensures
        utf16(Seq::empty()).len() == 0,
        unit < 0xd800 || unit > 0xdfff ==> utf16(seq![unit] + rest) == seq![unit as u32] + utf16(
            rest,
        ),
        0xd800 <= unit <= 0xdbff && 0xdc00 <= low <= 0xdfff ==> {
            let chars = utf16(seq![unit, low] + rest);
            &&& chars.len() == 1 + utf16(rest).len()
            &&& chars.skip(1) == utf16(rest)
            &&& 0x10000 <= chars[0] <= 0x10ffff
            &&& unit == 0xd800 + (chars[0] - 0x10000) / 0x400
            &&& low == 0xdc00 + (chars[0] - 0x10000) % 0x400
        },
        0xdc00 <= unit <= 0xdfff || (0xd800 <= unit <= 0xdbff && (rest.len() == 0 || rest[0]
            < 0xdc00 || rest[0] > 0xdfff)) ==> utf16(seq![unit] + rest) == seq![0xfffdu32] + utf16(
            rest,
        ),
{
    assert((seq![unit] + rest).skip(1) =~= rest);
    assert((seq![unit, low] + rest).skip(2) =~= rest);
    if 0xd800 <= unit <= 0xdbff && 0xdc00 <= low <= 0xdfff {
        let chars = utf16(seq![unit, low] + rest);
        assert(chars.skip(1) =~= utf16(rest));
    }
}

/// The listing of a configuration starts with its own line: value (byte 5), number of interfaces
/// (4), total length (2 and 3), attributes (7), and the current in mA, twice byte 8.
pub proof fn law_configuration_line(config: Seq<u8>)
    ensures
        configuration_item(config) == (Item::Configuration {
            value: config[5],
            interfaces: config[4],
            total_len: (config[2] + 256 * config[3]) as u16,
            attributes: config[7],
            max_power_ma: (config[8] + config[8]) as u16,
        }),
        listed(config) == (Listed {
            items: seq![configuration_item(config)],
            in_interface: false,
            bad: false,
        }).walk(split(config.subrange(config[0] as int, config[2] + 256 * config[3]))),
{
}

/// Each descriptor's line, by its bytes: an interface (type 4) with number, alternate setting,
/// endpoints, class, subclass and protocol; an endpoint (5) in an interface with its fields; a HID
/// descriptor (0x21) with its version and the length it lists; any other with its type and length.
/// An interface or endpoint cut short ends the listing.
pub proof fn law_descriptor_lines(l: Listed, d: Seq<u8>)
    requires
        d.len() >= 2,
    ensures
        d[1] == 4 && d.len() >= 9 ==> l.step(d) == (Listed {
            items: l.items.push(
                Item::Interface {
                    number: d[2],
                    alternate: d[3],
                    class: d[5],
                    subclass: d[6],
                    protocol: d[7],
                    endpoints: d[4],
                },
            ),
            in_interface: true,
            bad: l.bad,
        }),
        d[1] == 5 && d.len() >= 7 && l.in_interface ==> l.step(d) == (Listed {
            items: l.items.push(
                Item::Endpoint(
                    Endpoint {
                        address: d[2],
                        attributes: d[3],
                        max_packet_size: (d[4] + 256 * d[5]) as u16,
                        interval: d[6],
                    },
                ),
            ),
            ..l
        }),
        d[1] == 5 && d.len() >= 7 && !l.in_interface ==> l.step(d) == l,
        d[1] == 0x21 && d.len() >= 9 ==> l.step(d) == (Listed {
            items: l.items.push(
                Item::Hid {
                    major: d[3],
                    minor: d[2],
                    report_len: (d[7] + 256 * d[8]) as u16,
                },
            ),
            ..l
        }),
        d[1] != 4 && d[1] != 5 && !(d[1] == 0x21 && d.len() >= 9) ==> l.step(d) == (Listed {
            items: l.items.push(Item::Other { kind: d[1], len: d[0] }),
            ..l
        }),
        (d[1] == 4 && d.len() < 9) || (d[1] == 5 && d.len() < 7) ==> l.step(d) == (Listed {
            bad: true,
            ..l
        }),
{
}

/// The descriptors are listed one after the other, up to one cut short.
pub proof fn law_listing_goes_on(l: Listed, d: Seq<u8>, rest: Seq<Seq<u8>>)
    ensures
        l.walk(Seq::empty()) == l,
        !l.bad ==> l.walk(seq![d] + rest) == l.step(d).walk(rest),
        l.bad ==> l.walk(seq![d] + rest) == l,
        d.len() < 2 ==> l.step(d) == l,
{
    assert((seq![d] + rest).drop_first() =~= rest);
}

/// The classes that have a name, and "other" for the rest.
pub proof fn law_class_names(class: u8)
    ensures
        class == 0x00 ==> class_text(class) == "per-interface"@,
        class == 0x01 ==> class_text(class) == "audio"@,
        class == 0x02 ==> class_text(class) == "CDC"@,
        class == 0x03 ==> class_text(class) == "HID"@,
        class == 0x08 ==> class_text(class) == "mass storage"@,
        class == 0x09 ==> class_text(class) == "hub"@,
        class == 0x0a ==> class_text(class) == "CDC data"@,
        class == 0xe0 ==> class_text(class) == "wireless"@,
        class == 0xef ==> class_text(class) == "miscellaneous"@,
        class == 0xfe ==> class_text(class) == "application specific"@,
        class == 0xff ==> class_text(class) == "vendor specific"@,
        3 < class < 8 || 0x0a < class < 0xe0 || 0xe0 < class < 0xef || 0xef < class < 0xfe
            ==> class_text(class) == "other"@,
{
}

} // verus!
