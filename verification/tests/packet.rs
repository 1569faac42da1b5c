use rp_wheel_bridge::packet::{Packet, MAX_PACKET};

#[test]
fn packet_keeps_a_report() {
    let p = Packet::new(&[1, 2, 3]);
    assert_eq!(p.bytes(), &[1, 2, 3]);
    assert_eq!(Packet::new(&[]).bytes().len(), 0);
}

#[test]
fn packet_cuts_a_long_report() {
    let data: Vec<u8> = (0..100).collect();
    let p = Packet::new(&data);
    assert_eq!(p.bytes(), &data[..MAX_PACKET]);
    let full: Vec<u8> = (0..64).collect();
    assert_eq!(Packet::new(&full).bytes(), &full[..]);
}

#[test]
fn packet_of_a_packet_is_the_same() {
    let long: Vec<u8> = (0..100).collect();
    for data in [&long[..0], &long[..20], &long[..MAX_PACKET], &long[..]] {
        let p = Packet::new(data);
        assert_eq!(p.bytes(), &data[..data.len().min(MAX_PACKET)]);
        assert_eq!(Packet::new(p.bytes()).bytes(), p.bytes());
    }
}
