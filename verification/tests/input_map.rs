use rp_wheel_bridge::input_map::{
    neutral, remap, translate, C272_LEN, FACE, ROTARY, SHOULDER,
};

/// A c272 report with everything released and the wheel centred.
fn released() -> [u8; C272_LEN] {
    let mut r = [0u8; C272_LEN];
    r[0] = 0x08;
    r[5] = 0x80;
    r[18] = 0x01;
    r
}

fn word(r: &[u8], at: usize) -> u16 {
    u16::from_le_bytes([r[at], r[at + 1]])
}

#[test]
fn neutral_report_bytes() {
    let r = neutral();
    let mut want = [0u8; 64];
    want[..6].copy_from_slice(&[0x01, 0x80, 0x80, 0x80, 0x80, 0x08]);
    want[43..51].copy_from_slice(&[0x00, 0x80, 0xff, 0xff, 0xff, 0xff, 0xff, 0xff]);
    want[52] = 0xff;
    want[53] = 0xff;
    assert_eq!(r, want);
}

#[test]
fn released_wheel_is_neutral() {
    assert_eq!(translate(&released()), neutral());
}

#[test]
fn buttons_map_one_by_one() {
    // (c272 byte, bit, c269 byte, bit)
    let table = [
        (0usize, 0x10u8, 5usize, 0x20u8),
        (0, 0x20, 5, 0x10),
        (0, 0x40, 5, 0x40),
        (0, 0x80, 5, 0x80),
        (1, 0x01, 6, 0x02),
        (1, 0x02, 6, 0x01),
        (1, 0x04, 6, 0x08),
        (1, 0x08, 6, 0x04),
        (1, 0x10, 6, 0x10),
        (1, 0x20, 6, 0x20),
        (1, 0x40, 6, 0x80),
        (1, 0x80, 6, 0x40),
        (3, 0x80, 7, 0x01),
        (3, 0x02, 54, 0x04),
        (3, 0x04, 54, 0x02),
        (3, 0x08, 54, 0x01),
        (3, 0x10, 54, 0x10),
        (3, 0x20, 54, 0x08),
        (3, 0x40, 54, 0x20),
    ];
    for (from, from_bit, to, to_bit) in table {
        let mut src = released();
        src[from] |= from_bit;
        let mut want = neutral();
        want[to] |= to_bit;
        assert_eq!(translate(&src), want, "byte {} bit {:#04x}", from, from_bit);
    }
}

#[test]
fn all_buttons_at_once() {
    let mut src = released();
    src[0] = 0xf4;
    src[1] = 0xff;
    src[2] = 0xff;
    src[3] = 0xff;
    let r = translate(&src);
    assert_eq!(r[5], 0xf4);
    assert_eq!(r[6], 0xff);
    assert_eq!(r[7], 0x01);
    assert_eq!(r[54], 0x3f);
    assert_eq!(r[8], 0);
    assert_eq!(r[9], 0);
}

#[test]
fn maps_go_bit_by_bit() {
    for map in [&FACE[..], &SHOULDER[..], &ROTARY[..], &[]] {
        assert_eq!(remap(0, map), 0);
        for a in 0..=255u8 {
            for b in [0x01, 0x12, 0xa4, 0xff] {
                assert_eq!(remap(a | b, map), remap(a, map) | remap(b, map));
            }
        }
    }
    for a in 0..=255u8 {
        assert_eq!(remap(remap(a, &SHOULDER), &SHOULDER), a);
    }
    assert_eq!(remap(0x51, &SHOULDER), 0x92);
    assert_eq!(remap(0x38, &FACE), 0x30);
    assert_eq!(remap(0x81, &ROTARY), 0);
}

#[test]
fn pressed_together_is_pressed_one_by_one() {
    let shoulder = |b: u8| {
        let mut src = released();
        src[1] = b;
        translate(&src)[6]
    };
    let rotary = |b: u8| {
        let mut src = released();
        src[3] = b;
        translate(&src)[54]
    };
    assert_eq!((shoulder(0), rotary(0)), (0, 0));
    for a in 0..=255u8 {
        for b in [0x01, 0x06, 0x50, 0xff] {
            assert_eq!(shoulder(a | b), shoulder(a) | shoulder(b));
            assert_eq!(rotary(a | b), rotary(a) | rotary(b));
        }
        assert_eq!(shoulder(shoulder(a)), a);
    }
}

#[test]
fn hat_keeps_its_nibble() {
    for hat in [0u8, 2, 4, 6, 8] {
        let mut src = released();
        src[0] = hat;
        assert_eq!(translate(&src)[5], hat);
    }
}

#[test]
fn axes_keep_or_invert_their_scale() {
    for v in [0x0000u16, 0x0001, 0x1234, 0x7fff, 0x8000, 0xfffe, 0xffff] {
        let mut src = released();
        for at in [4, 6, 8, 10] {
            src[at..at + 2].copy_from_slice(&v.to_le_bytes());
        }
        let r = translate(&src);
        assert_eq!(word(&r, 43), v);
        assert_eq!(word(&r, 45), 0xffff - v);
        assert_eq!(word(&r, 47), 0xffff - v);
        assert_eq!(word(&r, 49), 0xffff - v);
    }
}

#[test]
fn unused_bytes_do_not_leak() {
    let mut src = released();
    for i in 12..C272_LEN {
        src[i] = 0xa5;
    }
    src[2] = 0xa5;
    assert_eq!(translate(&src), neutral());
}
