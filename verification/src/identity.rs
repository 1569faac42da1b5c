//! Report descriptors and feature reports of the two wheel identities.

use vstd::prelude::*;

verus! {

/// c269 IF0: DS4 layout (gamepad report 0x01, output 0x05, definition feature 0x03), PS auth
/// collection (feature F0-F3), joystick collection (output 0x30, feature 0x31).
pub const C269_IF0_REPORT_DESC: [u8; 193] = [
    0x05, 0x01, 0x09, 0x05, 0xa1, 0x01, 0x85, 0x01, 0x09, 0x30, 0x09, 0x31, 0x09, 0x32, 0x09, 0x35,
    0x15, 0x00, 0x26, 0xff, 0x00, 0x75, 0x08, 0x95, 0x04, 0x81, 0x02, 0x09, 0x39, 0x15, 0x00, 0x25,
    0x07, 0x35, 0x00, 0x46, 0x3b, 0x01, 0x65, 0x14, 0x75, 0x04, 0x95, 0x01, 0x81, 0x42, 0x65, 0x00,
    0x05, 0x09, 0x19, 0x01, 0x29, 0x0d, 0x15, 0x00, 0x25, 0x01, 0x75, 0x01, 0x95, 0x0d, 0x81, 0x02,
    0x06, 0x00, 0xff, 0x09, 0x20, 0x75, 0x07, 0x95, 0x01, 0x81, 0x02, 0x05, 0x01, 0x09, 0x33, 0x09,
    0x34, 0x15, 0x00, 0x26, 0xff, 0x00, 0x75, 0x08, 0x95, 0x02, 0x81, 0x02, 0x06, 0x00, 0xff, 0x09,
    0x21, 0x95, 0x36, 0x81, 0x02, 0x85, 0x05, 0x09, 0x22, 0x95, 0x1f, 0x91, 0x02, 0x85, 0x03, 0x0a,
    0x21, 0x27, 0x95, 0x2f, 0xb1, 0x02, 0xc0, 0x06, 0xf0, 0xff, 0x09, 0x40, 0xa1, 0x01, 0x85, 0xf0,
    0x09, 0x47, 0x95, 0x3f, 0xb1, 0x02, 0x85, 0xf1, 0x09, 0x48, 0x95, 0x3f, 0xb1, 0x02, 0x85, 0xf2,
    0x09, 0x49, 0x95, 0x0f, 0xb1, 0x02, 0x85, 0xf3, 0x0a, 0x01, 0x47, 0x95, 0x07, 0xb1, 0x02, 0xc0,
    0x05, 0x01, 0x09, 0x04, 0xa1, 0x01, 0x85, 0x30, 0x06, 0x01, 0xff, 0x09, 0x02, 0x95, 0x07, 0x91,
    0x02, 0x85, 0x31, 0x95, 0x7e, 0x75, 0x10, 0x05, 0x10, 0x19, 0x01, 0x2a, 0xff, 0xff, 0xb1, 0x40,
    0xc0,
];

/// c272 IF0: joystick, one 30-byte input report without report ID.
pub const C272_IF0_REPORT_DESC: [u8; 141] = [
    0x05, 0x01, 0x09, 0x04, 0xa1, 0x01, 0x09, 0x39, 0x15, 0x00, 0x25, 0x07, 0x35, 0x00, 0x46, 0x3b,
    0x01, 0x65, 0x14, 0x75, 0x04, 0x95, 0x01, 0x81, 0x42, 0x05, 0x09, 0x19, 0x01, 0x29, 0x1c, 0x65,
    0x00, 0x25, 0x01, 0x45, 0x01, 0x75, 0x01, 0x95, 0x1c, 0x81, 0x02, 0x05, 0x01, 0x09, 0x30, 0x27,
    0xff, 0xff, 0x00, 0x00, 0x47, 0xff, 0xff, 0x00, 0x00, 0x75, 0x10, 0x95, 0x01, 0x81, 0x02, 0x09,
    0x33, 0x09, 0x34, 0x09, 0x35, 0x09, 0x32, 0x09, 0x36, 0x09, 0x37, 0x65, 0x00, 0x75, 0x10, 0x95,
    0x06, 0x81, 0x02, 0x06, 0x00, 0xff, 0x25, 0x01, 0x45, 0x01, 0x19, 0x00, 0x29, 0x0f, 0x75, 0x01,
    0x95, 0x10, 0x81, 0x02, 0x05, 0x09, 0x19, 0x1d, 0x29, 0x5c, 0x65, 0x00, 0x15, 0x00, 0x25, 0x01,
    0x75, 0x01, 0x95, 0x40, 0x81, 0x02, 0x05, 0x01, 0x09, 0x31, 0x27, 0xff, 0xff, 0x00, 0x00, 0x47,
    0xff, 0xff, 0x00, 0x00, 0x65, 0x00, 0x75, 0x10, 0x95, 0x01, 0x81, 0x02, 0xc0,
];

/// IF1: HID++ short (0x10), long (0x11), very long (0x12). Identical on both wheels.
pub const HIDPP_REPORT_DESC: [u8; 84] = [
    0x06, 0x43, 0xff, 0x0a, 0x01, 0x07, 0xa1, 0x01, 0x85, 0x10, 0x75, 0x08, 0x95, 0x06, 0x15, 0x00,
    0x26, 0xff, 0x00, 0x09, 0x01, 0x81, 0x00, 0x09, 0x01, 0x91, 0x00, 0xc0, 0x06, 0x43, 0xff, 0x0a,
    0x02, 0x07, 0xa1, 0x01, 0x85, 0x11, 0x75, 0x08, 0x95, 0x13, 0x15, 0x00, 0x26, 0xff, 0x00, 0x09,
    0x02, 0x81, 0x00, 0x09, 0x02, 0x91, 0x00, 0xc0, 0x06, 0x43, 0xff, 0x0a, 0x04, 0x07, 0xa1, 0x01,
    0x85, 0x12, 0x75, 0x08, 0x95, 0x3f, 0x15, 0x00, 0x26, 0xff, 0x00, 0x09, 0x03, 0x81, 0x00, 0x09,
    0x03, 0x91, 0x00, 0xc0,
];

/// IF2: force feedback, report 0x01 in and out, ending in End Collection (0xc0).
pub const FFB_REPORT_DESC: [u8; 30] = [
    0x06, 0xfd, 0xff, 0x0a, 0x01, 0xfd, 0xa1, 0x01, 0x85, 0x01, 0x15, 0x00, 0x26, 0xff, 0x00, 0x75,
    0x08, 0x95, 0x3f, 0x09, 0x01, 0x81, 0x00, 0x95, 0x3f, 0x09, 0x01, 0x91, 0x00, 0xc0,
];

/// c269 feature 0x03, the PS4 peripheral definition report (report ID included).
pub const FEATURE_03: [u8; 48] = [
    0x03, 0x21, 0x27, 0x04, 0x10, 0x06, 0x00, 0x00, 0x00, 0x00, 0x00, 0x00, 0x00, 0x00, 0x00, 0x00,
    0x00, 0x00, 0x0d, 0x0d, 0x00, 0x00, 0x00, 0x00, 0x9d, 0x84, 0x03, 0x01, 0x00, 0x00, 0x00, 0x00,
    0x01, 0x00, 0x00, 0x00, 0x00, 0x00, 0x00, 0x00, 0x00, 0x00, 0x00, 0x00, 0x00, 0x00, 0x00, 0x00,
];

/// c269 feature 0x31 (report ID included): the serial number in UTF-16LE (a placeholder, as in
/// the string descriptor), then IF2's interface, HID and endpoint descriptors; zero after that.
pub const FEATURE_31: [u8; 253] = [
    0x31, 0x30, 0x00, 0x30, 0x00, 0x30, 0x00, 0x30, 0x00, 0x30, 0x00, 0x30, 0x00, 0x30, 0x00, 0x30,
    0x00, 0x30, 0x00, 0x30, 0x00, 0x30, 0x00, 0x30, 0x00, 0x00, 0x00, 0x00, 0x00, 0x00, 0x00, 0x00,
    0x00, 0x00, 0x00, 0x00, 0x00, 0x00, 0x00, 0x00, 0x00, 0x00, 0x00, 0x00, 0x00, 0x00, 0x00, 0x00,
    0x00, 0x00, 0x00, 0x00, 0x00, 0x00, 0x00, 0x00, 0x00, 0x00, 0x00, 0x00, 0x00, 0x00, 0x00, 0x00,
    0x00, 0x05, 0x09, 0x04, 0x02, 0x00, 0x02, 0x03, 0x00, 0x00, 0x00, 0x09, 0x21, 0x11, 0x01, 0x00,
    0x01, 0x22, 0x1e, 0x00, 0x07, 0x05, 0x82, 0x03, 0x40, 0x00, 0x01, 0x07, 0x05, 0x02, 0x03, 0x40,
    0x00, 0x01, 0x00, 0x00, 0x00, 0x00, 0x00, 0x00, 0x00, 0x00, 0x00, 0x00, 0x00, 0x00, 0x00, 0x00,
    0x00, 0x00, 0x00, 0x00, 0x00, 0x00, 0x00, 0x00, 0x00, 0x00, 0x00, 0x00, 0x00, 0x00, 0x00, 0x00,
    0x00, 0x00, 0x00, 0x00, 0x00, 0x00, 0x00, 0x00, 0x00, 0x00, 0x00, 0x00, 0x00, 0x00, 0x00, 0x00,
    0x00, 0x00, 0x00, 0x00, 0x00, 0x00, 0x00, 0x00, 0x00, 0x00, 0x00, 0x00, 0x00, 0x00, 0x00, 0x00,
    0x00, 0x00, 0x00, 0x00, 0x00, 0x00, 0x00, 0x00, 0x00, 0x00, 0x00, 0x00, 0x00, 0x00, 0x00, 0x00,
    0x00, 0x00, 0x00, 0x00, 0x00, 0x00, 0x00, 0x00, 0x00, 0x00, 0x00, 0x00, 0x00, 0x00, 0x00, 0x00,
    0x00, 0x00, 0x00, 0x00, 0x00, 0x00, 0x00, 0x00, 0x00, 0x00, 0x00, 0x00, 0x00, 0x00, 0x00, 0x00,
    0x00, 0x00, 0x00, 0x00, 0x00, 0x00, 0x00, 0x00, 0x00, 0x00, 0x00, 0x00, 0x00, 0x00, 0x00, 0x00,
    0x00, 0x00, 0x00, 0x00, 0x00, 0x00, 0x00, 0x00, 0x00, 0x00, 0x00, 0x00, 0x00, 0x00, 0x00, 0x00,
    0x00, 0x00, 0x00, 0x00, 0x00, 0x00, 0x00, 0x00, 0x00, 0x00, 0x00, 0x00, 0x00,
];

} // verus!
