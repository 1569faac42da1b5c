//! The SETUP packets sent to the devices behind the bridge, built by `embassy-usb-host`.

use embassy_usb_host::control::SetupPacket;
use vstd::prelude::*;

verus! {

/// A SETUP packet on the wire (USB 2.0, table 9-2).
pub open spec fn setup_bytes(kind: u8, request: u8, value: u16, index: u16, length: u16) -> Seq<
    u8,
> {
    seq![
        kind,
        request,
        (value % 256) as u8,
        (value / 256) as u8,
        (index % 256) as u8,
        (index / 256) as u8,
        (length % 256) as u8,
        (length / 256) as u8,
    ]
}

/// bmRequestType: class request to an interface, host to device.
pub const CLASS_INTERFACE_OUT: u8 = 0x21;

/// bmRequestType: class request to an interface, device to host.
pub const CLASS_INTERFACE_IN: u8 = 0xa1;

/// bmRequestType: standard request to an interface, device to host.
pub const STANDARD_INTERFACE_IN: u8 = 0x81;

/// bmRequestType: standard request to the device, device to host.
pub const STANDARD_DEVICE_IN: u8 = 0x80;

/// bmRequestType: class request to the device, device to host.
pub const CLASS_DEVICE_IN: u8 = 0xa0;

/// bRequest of GET_DESCRIPTOR.
pub const GET_DESCRIPTOR: u8 = 0x06;

/// `SetupPacket::class_interface_out`, in wire format (`SetupPacket::to_bytes`): a class
/// request to interface `index`, host to device, with the given request, value and data
/// length.
#[verifier::external_body]
pub(crate) fn class_interface_out(request: u8, value: u16, index: u16, length: u16) -> (r: [u8; 8])
    ensures
        r@ == setup_bytes(CLASS_INTERFACE_OUT, request, value, index, length),
{
    SetupPacket::class_interface_out(request, value, index, length).to_bytes()
}

/// `SetupPacket::class_interface_in`, in wire format (`SetupPacket::to_bytes`): a class
/// request to interface `index`, device to host, with the given request, value and data
/// length.
#[verifier::external_body]
pub(crate) fn class_interface_in(request: u8, value: u16, index: u16, length: u16) -> (r: [u8; 8])
    ensures
        r@ == setup_bytes(CLASS_INTERFACE_IN, request, value, index, length),
{
    SetupPacket::class_interface_in(request, value, index, length).to_bytes()
}

/// `SetupPacket::get_hid_report_descriptor`, in wire format (`SetupPacket::to_bytes`): the
/// standard GET_DESCRIPTOR request for the report descriptor (type 0x22, index 0) of an
/// interface.
#[verifier::external_body]
pub(crate) fn get_hid_report_descriptor(interface: u8, length: u16) -> (r: [u8; 8])
    ensures
        r@ == setup_bytes(
            STANDARD_INTERFACE_IN,
            GET_DESCRIPTOR,
            0x2200,
            interface as u16,
            length,
        ),
{
    SetupPacket::get_hid_report_descriptor(interface, length).to_bytes()
}

/// `SetupPacket::get_descriptor`, in wire format (`SetupPacket::to_bytes`): GET_DESCRIPTOR to
/// the device, the descriptor type in the high byte of wValue and its index in the low byte,
/// wIndex zero.
#[verifier::external_body]
pub(crate) fn get_descriptor(class: bool, desc_type: u8, index: u8, length: u16) -> (r: [u8; 8])
    ensures
        r@ == setup_bytes(
            if class {
                CLASS_DEVICE_IN
            } else {
                STANDARD_DEVICE_IN
            },
            GET_DESCRIPTOR,
            (256 * desc_type + index) as u16,
            0,
            length,
        ),
{
    SetupPacket::get_descriptor(class, desc_type, index, length).to_bytes()
}

/// A SETUP packet is eight bytes: bmRequestType, bRequest, and the three words little-endian.
pub proof fn law_setup_by_byte(kind: u8, request: u8, value: u16, index: u16, length: u16)
    ensures
        ({
            let s = setup_bytes(kind, request, value, index, length);
            &&& s.len() == 8
            &&& s[0] == kind
            &&& s[1] == request
            &&& s[2] + 256 * s[3] == value
            &&& s[4] + 256 * s[5] == index
            &&& s[6] + 256 * s[7] == length
        }),
{
}

} // verus!
