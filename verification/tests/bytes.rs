use rp_wheel_bridge::bytes::{
    append, copy_range, decimal_text, hex, hex_dump, hi, lo, overlay, same, u16_from_le, used_len,
};

#[test]
fn words_split_and_join() {
    assert_eq!(u16_from_le(0x34, 0x12), 0x1234);
    assert_eq!(lo(0x1234), 0x34);
    assert_eq!(hi(0x1234), 0x12);
    for w in [0u16, 1, 255, 256, 0x8000, 0xffff] {
        assert_eq!(u16_from_le(lo(w), hi(w)), w);
    }
}

#[test]
fn overlay_replaces_the_front() {
    let mut base = [9u8; 4];
    overlay(&mut base, &[1, 2]);
    assert_eq!(base, [1, 2, 9, 9]);
    overlay(&mut base, &[5, 6, 7, 8, 9, 10]);
    assert_eq!(base, [5, 6, 7, 8]);
    overlay(&mut base, &[]);
    assert_eq!(base, [5, 6, 7, 8]);
}

#[test]
fn used_len_cuts_trailing_zeros() {
    assert_eq!(used_len(&[]), 0);
    assert_eq!(used_len(&[0, 0, 0]), 0);
    assert_eq!(used_len(&[0x10, 0, 5, 0, 0]), 3);
    assert_eq!(used_len(&[0, 1]), 2);
}

#[test]
fn ranges_are_copied_and_appended() {
    assert_eq!(copy_range(&[1, 2, 3, 4], 1, 3), vec![2, 3]);
    let mut out = vec![1];
    append(&mut out, &[2, 3]);
    assert_eq!(out, vec![1, 2, 3]);
    assert!(same(&[1, 2], &[1, 2]));
    assert!(!same(&[1, 2], &[1, 3]));
    assert!(!same(&[1, 2], &[1, 2, 3]));
    assert!(same(&[], &[]));
}

#[test]
fn hex_is_lowercase_and_spaced() {
    assert_eq!(hex(&[]), b"");
    assert_eq!(hex(&[0xf3]), b"f3");
    assert_eq!(hex(&[0xf3, 0x00, 0x38, 0x0a]), b"f3 00 38 0a");
}

#[test]
fn hex_dump_has_sixteen_bytes_a_line() {
    let data: Vec<u8> = (0..18).collect();
    let lines = hex_dump(&data);
    assert_eq!(lines.len(), 2);
    assert_eq!(
        String::from_utf8(lines[0].clone()).unwrap(),
        "  0000: 00 01 02 03 04 05 06 07 08 09 0a 0b 0c 0d 0e 0f"
    );
    assert_eq!(String::from_utf8(lines[1].clone()).unwrap(), "  0010: 10 11");
    assert!(hex_dump(&[]).is_empty());
}

#[test]
fn decimal_text_has_no_leading_zeros() {
    assert_eq!(decimal_text(0), b"0");
    assert_eq!(decimal_text(7), b"7");
    assert_eq!(decimal_text(120), b"120");
    assert_eq!(decimal_text(u32::MAX), b"4294967295");
}
