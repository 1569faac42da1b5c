use rp_wheel_bridge::descriptor::Endpoint;
use rp_wheel_bridge::device::Role;
use rp_wheel_bridge::hid::HidInterface;
use rp_wheel_bridge::usb_host::{
    class_name, classify, decode_string, ep0, langid, list_configuration, serve_device, speed_name,
    string_len, string_request, Item, Kind, Service, Speed,
};

#[test]
fn devices_are_classified() {
    assert!(classify(0x046d, 0xc272, 0, Role::Wheel) == Kind::Wheel);
    assert!(classify(0x046d, 0xc272, 9, Role::Relay) == Kind::Wheel);
    assert!(classify(0x046d, 0xc269, 0, Role::Relay) == Kind::RelayBackend);
    assert!(classify(0x046d, 0xc269, 0, Role::Wheel) == Kind::Other);
    assert!(classify(0x05e3, 0x0610, 9, Role::Wheel) == Kind::Hub);
    assert!(classify(0x0f0d, 0x0162, 0, Role::Wheel) == Kind::Other);
}

#[test]
fn devices_are_served_by_kind() {
    let iface = HidInterface {
        number: 3,
        report_desc_len: 0,
        in_ep: None,
        out_ep: None,
    };
    let none = [None, None, None, None];
    let some = [None, Some(iface), None, None];
    assert!(serve_device(Kind::Wheel, Role::Wheel, &none) == Service::Proxy);
    assert!(serve_device(Kind::RelayBackend, Role::Relay, &some) == Service::Relay);
    assert!(serve_device(Kind::Hub, Role::Wheel, &none) == Service::Nothing);
    assert!(serve_device(Kind::Other, Role::Wheel, &some) == Service::Sign { iface: 3 });
    assert!(serve_device(Kind::Other, Role::Mirror, &some) == Service::Monitor);
    assert!(serve_device(Kind::Other, Role::Wheel, &none) == Service::Monitor);
}

#[test]
fn default_control_pipe() {
    assert_eq!(ep0(64), (0x80, 64));
    assert_eq!(ep0(8), (0x80, 8));
}

#[test]
fn speeds_and_classes_are_named() {
    assert_eq!(speed_name(Speed::Low), "low-speed");
    assert_eq!(speed_name(Speed::Full), "full-speed");
    assert_eq!(speed_name(Speed::High), "high-speed");
    let names = [
        (0x00, "per-interface"),
        (0x01, "audio"),
        (0x02, "CDC"),
        (0x03, "HID"),
        (0x08, "mass storage"),
        (0x09, "hub"),
        (0x0a, "CDC data"),
        (0xe0, "wireless"),
        (0xef, "miscellaneous"),
        (0xfe, "application specific"),
        (0xff, "vendor specific"),
        (0x07, "other"),
    ];
    for (class, name) in names {
        assert_eq!(class_name(class), name);
    }
}

#[test]
fn string_requests_carry_the_language() {
    assert_eq!(string_request(0, 0), [0x80, 0x06, 0x00, 0x03, 0x00, 0x00, 0xff, 0x00]);
    assert_eq!(string_request(2, 0x0409), [0x80, 0x06, 0x02, 0x03, 0x09, 0x04, 0xff, 0x00]);
}

#[test]
fn string_lengths_are_trusted_least() {
    assert_eq!(string_len(&[]), None);
    assert_eq!(string_len(&[4]), None);
    assert_eq!(string_len(&[4, 2, 0, 0]), None);
    assert_eq!(string_len(&[4, 3, 9, 4]), Some(4));
    assert_eq!(string_len(&[10, 3, 9, 4]), Some(4));
    assert_eq!(string_len(&[4, 3, 9, 4, 7, 7]), Some(4));
    assert_eq!(string_len(&[5, 3, 9, 4, 7, 7]), Some(4));
    assert_eq!(string_len(&[2, 3]), Some(2));
    assert_eq!(string_len(&[3, 3, 9, 4]), Some(2));
    // Shorter than its own header.
    assert_eq!(string_len(&[0, 3]), None);
    assert_eq!(string_len(&[1, 3]), None);
    assert_eq!(string_len(&[1, 3, 9, 4]), None);
}

#[test]
fn language_of_the_table() {
    assert_eq!(langid(Some(&[4, 3, 0x12, 0x04])), 0x0412);
    assert_eq!(langid(Some(&[2, 3, 0x12, 0x04])), 0x0409);
    assert_eq!(langid(Some(&[4, 1, 0x12, 0x04])), 0x0409);
    assert_eq!(langid(Some(&[0, 3, 0x12, 0x04])), 0x0409);
    assert_eq!(langid(None), 0x0409);
}

fn decoded(units: &[u16]) -> String {
    let bytes: Vec<u8> = units.iter().flat_map(|u| u.to_le_bytes()).collect();
    decode_string(&bytes).iter().map(|c| char::from_u32(*c).unwrap()).collect()
}

#[test]
fn strings_are_decoded() {
    let units: Vec<u16> = "PRO Racing Wheel".encode_utf16().collect();
    assert_eq!(decoded(&units), "PRO Racing Wheel");
    let units: Vec<u16> = "휠 🏎!".encode_utf16().collect();
    assert_eq!(decoded(&units), "휠 🏎!");
    // Unpaired surrogates.
    assert_eq!(decoded(&[0xd83c, 0x41]), "\u{fffd}A");
    assert_eq!(decoded(&[0xdfce, 0x41]), "\u{fffd}A");
    assert_eq!(decoded(&[0x41, 0xd83c]), "A\u{fffd}");
    assert_eq!(decoded(&[0xd83c, 0xd83c, 0xdfce]), "\u{fffd}\u{1f3ce}");
    assert_eq!(decode_string(&[0x41, 0x00, 0x42]), vec![0x41]);
    // As the standard library decodes them.
    for units in [vec![0xd800u16, 0xdc00], vec![0xdbff, 0xdfff], vec![0xdc00, 0xd800, 0x20]] {
        let want: String = char::decode_utf16(units.iter().copied())
            .map(|c| c.unwrap_or(char::REPLACEMENT_CHARACTER))
            .collect();
        assert_eq!(decoded(&units), want);
    }
}

#[test]
fn configuration_is_listed() {
    let mut c = vec![9, 2, 0, 0, 1, 1, 0, 0xc0, 100];
    c.extend_from_slice(&[7, 5, 0x88, 3, 8, 0, 1]);
    c.extend_from_slice(&[9, 4, 2, 0, 1, 3, 1, 2, 0]);
    c.extend_from_slice(&[9, 0x21, 0x11, 0x01, 0, 1, 0x22, 30, 0]);
    c.extend_from_slice(&[7, 5, 0x82, 3, 64, 0, 1]);
    c.extend_from_slice(&[3, 0x24, 7]);
    c[2] = c.len() as u8;
    let l = list_configuration(&c).unwrap();
    assert!(!l.bad);
    let want = [
        Item::Configuration {
            value: 1,
            interfaces: 1,
            total_len: c.len() as u16,
            attributes: 0xc0,
            max_power_ma: 200,
        },
        Item::Interface {
            number: 2,
            alternate: 0,
            class: 3,
            subclass: 1,
            protocol: 2,
            endpoints: 1,
        },
        Item::Hid {
            major: 1,
            minor: 0x11,
            report_len: 30,
        },
        Item::Endpoint(Endpoint {
            address: 0x82,
            attributes: 3,
            max_packet_size: 64,
            interval: 1,
        }),
        Item::Other { kind: 0x24, len: 3 },
    ];
    assert_eq!(l.items.len(), want.len());
    for (got, want) in l.items.iter().zip(want.iter()) {
        assert!(got == want);
    }
}

#[test]
fn listing_ends_at_a_bad_descriptor() {
    let c = [9, 2, 26, 0, 1, 1, 0, 0x80, 50, 8, 4, 2, 0, 1, 3, 1, 2, 9, 4, 3, 0, 1, 3, 1, 2, 0];
    let l = list_configuration(&c).unwrap();
    assert!(l.bad);
    assert_eq!(l.items.len(), 1);
    assert!(list_configuration(&[9, 4, 9, 0, 0, 0, 0, 0, 0]).is_none());
    assert!(list_configuration(&[]).is_none());
}

#[test]
fn endpoints_are_named_by_transfer_type() {
    let named = |attributes| {
        Endpoint {
            address: 0x81,
            attributes,
            max_packet_size: 64,
            interval: 1,
        }
        .transfer_name()
    };
    assert_eq!(named(0x00), "Control");
    assert_eq!(named(0x0d), "Isochronous");
    assert_eq!(named(0x02), "Bulk");
    assert_eq!(named(0x03), "Interrupt");
    assert_eq!(named(0xff), "Interrupt");
}
