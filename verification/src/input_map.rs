//! IF0 input translation: the 30-byte report of the G Pro Xbox/PC (c272) to the 64-byte
//! DS4-style report 0x01 of the PlayStation-mode G Pro (c269).

use crate::bytes::{hi, law_word_round_trip, le16, lo, u16_from_le};
use vstd::prelude::*;

verus! {

/// Length of the c272 IF0 input report (no report ID).
pub const C272_LEN: usize = 30;

/// Length of the c269 IF0 input report, report ID included.
pub const C269_LEN: usize = 64;

/// c272 byte 0 high nibble to c269 byte 5 high nibble, as (c272 bit, c269 bit) pairs: Xbox face
/// buttons at their DS4 positions (A to Cross, X to Square, B to Circle, Y to Triangle).
pub const FACE: [(u8, u8); 4] = [(0x10, 0x20), (0x20, 0x10), (0x40, 0x40), (0x80, 0x80)];

/// c272 byte 1 to c269 byte 6: gear up to R1, gear down to L1, RT to R2, LT to L2, View to Share,
/// Menu to Options, RSB to R3, LSB to L3. c272 lists each pair right side first, DS4 left first.
pub const SHOULDER: [(u8, u8); 8] = [
    (0x01, 0x02),
    (0x02, 0x01),
    (0x04, 0x08),
    (0x08, 0x04),
    (0x10, 0x10),
    (0x20, 0x20),
    (0x40, 0x80),
    (0x80, 0x40),
];

/// c272 byte 3 to c269 byte 54: right rotary CW, CCW, click, then the left one's.
pub const ROTARY: [(u8, u8); 6] = [
    (0x02, 0x04),
    (0x04, 0x02),
    (0x08, 0x01),
    (0x10, 0x10),
    (0x20, 0x08),
    (0x40, 0x20),
];

/// c272 byte 3 bit 7 (Xbox button) to c269 byte 7 bit 0 (PS button).
pub const XBOX_BUTTON: u8 = 0x80;

pub const PS_BUTTON: u8 = 0x01;

pub const REPORT_ID: u8 = 0x01;

pub const HAT_NEUTRAL: u8 = 0x08;

pub const STICK_CENTRE: u8 = 0x80;

/// The bits that `map` gives for those set in `byte`.
pub open spec fn remapped(byte: u8, map: Seq<(u8, u8)>) -> u8
    decreases map.len(),
{
    if map.len() == 0 {
        0
    } else {
        let (from, to) = map.last();
        let others = remapped(byte, map.drop_last());
        if byte & from != 0 {
            others | to
        } else {
            others
        }
    }
}

/// Move the buttons of a byte, by (bit there, bit here) pairs.
pub fn remap(byte: u8, map: &[(u8, u8)]) -> (r: u8)
    ensures
        r == remapped(byte, map@),
{
    let mut r: u8 = 0;
    let mut i: usize = 0;
    while i < map.len()
        invariant
            i <= map.len(),
            r == remapped(byte, map@.take(i as int)),
        decreases map.len() - i,
    {
        let (from, to) = map[i];
        assert(map@.take(i + 1).drop_last() =~= map@.take(i as int));
        if byte & from != 0 {
            r = r | to;
        }
        i += 1;
    }
    assert(map@.take(i as int) =~= map@);
    r
}

/// The c269 report with everything released and the wheel centred.
pub open spec fn neutral_report() -> Seq<u8> {
    Seq::new(
        C269_LEN as nat,
        |i: int|
            if i == 0 {
                REPORT_ID
            } else if i <= 4 {
                STICK_CENTRE
            } else if i == 5 {
                HAT_NEUTRAL
            } else if i == 44 {
                // Wheel 0x8000.
                0x80u8
            } else if 45 <= i < 51 || i == 52 || i == 53 {
                // Pedals released (0xffff), and an axis of unknown use.
                0xffu8
            } else {
                0u8
            },
    )
}

/// The report sent before the wheel's first report: everything released, wheel centred.
pub fn neutral() -> (r: [u8; C269_LEN])
    ensures
        r@ == neutral_report(),
{
    let mut r: [u8; C269_LEN] = [0;C269_LEN];
    r[0] = REPORT_ID;
    r[1] = STICK_CENTRE;
    r[2] = STICK_CENTRE;
    r[3] = STICK_CENTRE;
    r[4] = STICK_CENTRE;
    r[5] = HAT_NEUTRAL;
    r[44] = 0x80;
    r[45] = 0xff;
    r[46] = 0xff;
    r[47] = 0xff;
    r[48] = 0xff;
    r[49] = 0xff;
    r[50] = 0xff;
    r[52] = 0xff;
    r[53] = 0xff;
    assert(r@ =~= neutral_report());
    r
}

/// Low and high byte of the pedal at `src[i]`: c272 counts up when pressed, c269 counts down.
pub open spec fn pedal(src: Seq<u8>, i: int) -> u16 {
    (0xffff - le16(src[i], src[i + 1])) as u16
}

/// The c269 report that stands for the c272 report `src`.
pub open spec fn translated(src: Seq<u8>) -> Seq<u8> {
    Seq::new(
        C269_LEN as nat,
        |i: int|
            if i == 5 {
                (src[0] & 0x0f) | remapped(src[0], FACE@)
            } else if i == 6 {
                remapped(src[1], SHOULDER@)
            } else if i == 7 {
                if src[3] & XBOX_BUTTON != 0 {
                    PS_BUTTON
                } else {
                    0u8
                }
            } else if i == 54 {
                remapped(src[3], ROTARY@)
            } else if i == 43 || i == 44 {
                src[i - 39]
            } else if i == 45 || i == 47 || i == 49 {
                (pedal(src, i - 39) % 256) as u8
            } else if i == 46 || i == 48 || i == 50 {
                (pedal(src, i - 40) / 256) as u8
            } else {
                neutral_report()[i]
            },
    )
}

fn put_pedal(r: &mut [u8; C269_LEN], src: &[u8; C272_LEN], at: usize)
    requires
        at + 40 < C269_LEN,
        at + 1 < C272_LEN,
    ensures
        final(r)@ == old(r)@.update(at + 39, (pedal(src@, at as int) % 256) as u8).update(
            at + 40,
            (pedal(src@, at as int) / 256) as u8,
        ),
{
    let v: u16 = 0xffff - u16_from_le(src[at], src[at + 1]);
    r[at + 39] = lo(v);
    r[at + 40] = hi(v);
}

/// Translate one c272 report.
pub fn translate(src: &[u8; C272_LEN]) -> (r: [u8; C269_LEN])
    ensures
        r@ == translated(src@),
{
    let mut r: [u8; C269_LEN] = neutral();
    r[5] = (src[0] & 0x0f) | remap(src[0], &FACE);
    r[6] = remap(src[1], &SHOULDER);
    if src[3] & XBOX_BUTTON != 0 {
        r[7] = PS_BUTTON;
    }
    r[54] = remap(src[3], &ROTARY);
    // Wheel: same scale (0x0000 full left to 0xffff full right).
    r[43] = src[4];
    r[44] = src[5];
    // Accelerator, brake, clutch.
    put_pedal(&mut r, src, 6);
    put_pedal(&mut r, src, 8);
    put_pedal(&mut r, src, 10);
    assert(r@ =~= translated(src@));
    r
}

/// Bit `to` where bit `from` is set in `byte`.
spec fn bit(byte: u8, from: u8, to: u8) -> u8 {
    if byte & from != 0 {
        to
    } else {
        0
    }
}

proof fn lemma_face(b: u8)
    ensures
        remapped(b, FACE@) == bit(b, 0x10, 0x20)
                | bit(b, 0x20, 0x10)
                | bit(b, 0x40, 0x40)
                | bit(b, 0x80, 0x80),
{
    reveal_with_fuel(remapped, 5);
    assert(forall|x: u8| #[trigger] (x | 0u8) == x) by (bit_vector);
    assert(forall|x: u8| #[trigger] (0u8 | x) == x) by (bit_vector);
}

proof fn lemma_shoulder(b: u8)
    ensures
        remapped(b, SHOULDER@) == bit(b, 0x01, 0x02)
                | bit(b, 0x02, 0x01)
                | bit(b, 0x04, 0x08)
                | bit(b, 0x08, 0x04)
                | bit(b, 0x10, 0x10)
                | bit(b, 0x20, 0x20)
                | bit(b, 0x40, 0x80)
                | bit(b, 0x80, 0x40),
{
    reveal_with_fuel(remapped, 9);
    assert(forall|x: u8| #[trigger] (x | 0u8) == x) by (bit_vector);
    assert(forall|x: u8| #[trigger] (0u8 | x) == x) by (bit_vector);
}

proof fn lemma_rotary(b: u8)
    ensures
        remapped(b, ROTARY@) == bit(b, 0x02, 0x04)
                | bit(b, 0x04, 0x02)
                | bit(b, 0x08, 0x01)
                | bit(b, 0x10, 0x10)
                | bit(b, 0x20, 0x08)
                | bit(b, 0x40, 0x20),
{
    reveal_with_fuel(remapped, 7);
    assert(forall|x: u8| #[trigger] (x | 0u8) == x) by (bit_vector);
    assert(forall|x: u8| #[trigger] (0u8 | x) == x) by (bit_vector);
}

/// Remapping goes button by button: buttons pressed together give what each gives alone, and no
/// button gives none.
pub proof fn law_remapping_is_by_button(a: u8, b: u8, map: Seq<(u8, u8)>)
    ensures
        remapped(a | b, map) == remapped(a, map) | remapped(b, map),
        remapped(0, map) == 0,
    decreases map.len(),
{
    if map.len() == 0 {
        assert(0u8 | 0u8 == 0u8) by (bit_vector);
    } else {
        let (from, to) = map.last();
        let rest = map.drop_last();
        law_remapping_is_by_button(a, b, rest);
        let x = remapped(a, rest);
        let y = remapped(b, rest);
        assert(0u8 & from == 0u8) by (bit_vector);
        assert(((a | b) & from != 0) == (a & from != 0 || b & from != 0)) by (bit_vector);
        assert((x | to) | (y | to) == (x | y) | to) by (bit_vector);
        assert((x | to) | y == (x | y) | to) by (bit_vector);
        assert(x | (y | to) == (x | y) | to) by (bit_vector);
    }
}

/// The shoulder map undoes itself: left and right of each pair swapped, nothing lost.
pub proof fn law_shoulder_map_undoes_itself(byte: u8)
    ensures
        remapped(remapped(byte, SHOULDER@), SHOULDER@) == byte,
{
    let once = remapped(byte, SHOULDER@);
    let twice = remapped(once, SHOULDER@);
    lemma_shoulder(byte);
    lemma_shoulder(once);
    assert(twice == byte) by (bit_vector)
        requires
            once == bit(byte, 0x01, 0x02)
                | bit(byte, 0x02, 0x01)
                | bit(byte, 0x04, 0x08)
                | bit(byte, 0x08, 0x04)
                | bit(byte, 0x10, 0x10)
                | bit(byte, 0x20, 0x20)
                | bit(byte, 0x40, 0x80)
                | bit(byte, 0x80, 0x40),
            twice == bit(once, 0x01, 0x02)
                | bit(once, 0x02, 0x01)
                | bit(once, 0x04, 0x08)
                | bit(once, 0x08, 0x04)
                | bit(once, 0x10, 0x10)
                | bit(once, 0x20, 0x20)
                | bit(once, 0x40, 0x80)
                | bit(once, 0x80, 0x40),
    ;
}

/// Hat and face buttons: the hat keeps its nibble, and each DS4 button is pressed exactly where
/// its Xbox counterpart is (A to Cross, X to Square, B to Circle, Y to Triangle).
pub proof fn law_hat_and_face_buttons(src: Seq<u8>)
    ensures
        translated(src)[5] & 0x0f == src[0] & 0x0f,
        (translated(src)[5] & 0x20 != 0) == (src[0] & 0x10 != 0),
        (translated(src)[5] & 0x10 != 0) == (src[0] & 0x20 != 0),
        (translated(src)[5] & 0x40 != 0) == (src[0] & 0x40 != 0),
        (translated(src)[5] & 0x80 != 0) == (src[0] & 0x80 != 0),
{
    let b = src[0];
    let r = translated(src)[5];
    lemma_face(b);
    assert({
        &&& r & 0x0f == b & 0x0f
        &&& ((r & 0x20 != 0) == (b & 0x10 != 0))
        &&& ((r & 0x10 != 0) == (b & 0x20 != 0))
        &&& ((r & 0x40 != 0) == (b & 0x40 != 0))
        &&& ((r & 0x80 != 0) == (b & 0x80 != 0))
    }) by (bit_vector)
        requires
            r == (b & 0x0f) | (bit(b, 0x10, 0x20)
                | bit(b, 0x20, 0x10)
                | bit(b, 0x40, 0x40)
                | bit(b, 0x80, 0x80)),
    ;
}

/// Paddles, triggers, View, Menu and stick buttons: each is pressed exactly where its DS4
/// counterpart is.
pub proof fn law_shoulder_buttons(src: Seq<u8>)
    ensures
        (translated(src)[6] & 0x02 != 0) == (src[1] & 0x01 != 0),
        (translated(src)[6] & 0x01 != 0) == (src[1] & 0x02 != 0),
        (translated(src)[6] & 0x08 != 0) == (src[1] & 0x04 != 0),
        (translated(src)[6] & 0x04 != 0) == (src[1] & 0x08 != 0),
        (translated(src)[6] & 0x10 != 0) == (src[1] & 0x10 != 0),
        (translated(src)[6] & 0x20 != 0) == (src[1] & 0x20 != 0),
        (translated(src)[6] & 0x80 != 0) == (src[1] & 0x40 != 0),
        (translated(src)[6] & 0x40 != 0) == (src[1] & 0x80 != 0),
{
    let b = src[1];
    let r = translated(src)[6];
    lemma_shoulder(b);
    assert({
        &&& ((r & 0x02 != 0) == (b & 0x01 != 0))
        &&& ((r & 0x01 != 0) == (b & 0x02 != 0))
        &&& ((r & 0x08 != 0) == (b & 0x04 != 0))
        &&& ((r & 0x04 != 0) == (b & 0x08 != 0))
        &&& ((r & 0x10 != 0) == (b & 0x10 != 0))
        &&& ((r & 0x20 != 0) == (b & 0x20 != 0))
        &&& ((r & 0x80 != 0) == (b & 0x40 != 0))
        &&& ((r & 0x40 != 0) == (b & 0x80 != 0))
    }) by (bit_vector)
        requires
            r == bit(b, 0x01, 0x02)
                | bit(b, 0x02, 0x01)
                | bit(b, 0x04, 0x08)
                | bit(b, 0x08, 0x04)
                | bit(b, 0x10, 0x10)
                | bit(b, 0x20, 0x20)
                | bit(b, 0x40, 0x80)
                | bit(b, 0x80, 0x40),
    ;
}

/// Rotary encoders and the PS button: each bit is set exactly where its counterpart is, and
/// nothing else is.
pub proof fn law_rotary_and_ps_button(src: Seq<u8>)
    ensures
        (translated(src)[54] & 0x04 != 0) == (src[3] & 0x02 != 0),
        (translated(src)[54] & 0x02 != 0) == (src[3] & 0x04 != 0),
        (translated(src)[54] & 0x01 != 0) == (src[3] & 0x08 != 0),
        (translated(src)[54] & 0x10 != 0) == (src[3] & 0x10 != 0),
        (translated(src)[54] & 0x08 != 0) == (src[3] & 0x20 != 0),
        (translated(src)[54] & 0x20 != 0) == (src[3] & 0x40 != 0),
        translated(src)[54] & 0xc0 == 0,
        translated(src)[7] == (if src[3] & 0x80 != 0 {
            0x01u8
        } else {
            0u8
        }),
{
    let b = src[3];
    let r = translated(src)[54];
    lemma_rotary(b);
    assert({
        &&& r & 0xc0 == 0
        &&& ((r & 0x04 != 0) == (b & 0x02 != 0))
        &&& ((r & 0x02 != 0) == (b & 0x04 != 0))
        &&& ((r & 0x01 != 0) == (b & 0x08 != 0))
        &&& ((r & 0x10 != 0) == (b & 0x10 != 0))
        &&& ((r & 0x08 != 0) == (b & 0x20 != 0))
        &&& ((r & 0x20 != 0) == (b & 0x40 != 0))
    }) by (bit_vector)
        requires
            r == bit(b, 0x02, 0x04)
                | bit(b, 0x04, 0x02)
                | bit(b, 0x08, 0x01)
                | bit(b, 0x10, 0x10)
                | bit(b, 0x20, 0x08)
                | bit(b, 0x40, 0x20),
    ;
}

/// The wheel keeps its scale; a pedal is 0xffff less its c272 value.
pub proof fn law_axes(src: Seq<u8>)
    ensures
        le16(translated(src)[43], translated(src)[44]) == le16(src[4], src[5]),
        le16(translated(src)[45], translated(src)[46]) == 0xffff - le16(src[6], src[7]),
        le16(translated(src)[47], translated(src)[48]) == 0xffff - le16(src[8], src[9]),
        le16(translated(src)[49], translated(src)[50]) == 0xffff - le16(src[10], src[11]),
{
    law_word_round_trip(pedal(src, 6));
    law_word_round_trip(pedal(src, 8));
    law_word_round_trip(pedal(src, 10));
}

/// Whatever the wheel reports, the rest of the report is that of a neutral one.
pub proof fn law_rest_is_neutral(src: Seq<u8>, i: int)
    requires
        0 <= i < C269_LEN,
        !(5 <= i <= 7 || 43 <= i <= 50 || i == 54),
    ensures
        translated(src)[i] == neutral_report()[i],
{
}

/// A c272 report with everything released and the wheel centred gives the neutral report.
pub proof fn law_released_report_is_neutral(src: Seq<u8>)
    requires
        src.len() == C272_LEN,
        src[0] == 0x08,
        src[1] == 0,
        src[3] == 0,
        src[4] == 0,
        src[5] == 0x80,
        forall|i: int| 6 <= i < 12 ==> src[i] == 0,
    ensures
        translated(src) == neutral_report(),
{
    lemma_face(src[0]);
    lemma_shoulder(src[1]);
    lemma_rotary(src[3]);
    assert(forall|x: u8| #[trigger] (0u8 & x) == 0u8) by (bit_vector);
    assert(forall|x: u8| #[trigger] (x | 0u8) == x) by (bit_vector);
    assert(0x08u8 & 0x10 == 0 && 0x08u8 & 0x20 == 0 && 0x08u8 & 0x40 == 0 && 0x08u8 & 0x80 == 0
        && 0x08u8 & 0x0f == 0x08) by (bit_vector);
    assert(translated(src) =~= neutral_report());
}

/// A map gives exactly its bits: where a bit of the byte is mapped, the bit it is mapped to is set,
/// and every bit that is set comes from one.
pub proof fn law_map_gives_its_bits(byte: u8, map: Seq<(u8, u8)>, i: int, mask: u8)
    ensures
        0 <= i < map.len() && byte & map[i].0 != 0 ==> remapped(byte, map) & map[i].1 == map[i].1,
        (forall|j: int|
            0 <= j < map.len() && byte & (#[trigger] map[j]).0 != 0 ==> map[j].1 & mask == 0)
            ==> remapped(byte, map) & mask == 0,
    decreases map.len(),
{
    if map.len() == 0 {
        assert(0u8 & mask == 0) by (bit_vector);
    } else {
        let (from, to) = map.last();
        let rest = map.drop_last();
        let x = remapped(byte, rest);
        law_map_gives_its_bits(byte, rest, i, mask);
        assert((x | to) & to == to) by (bit_vector);
        assert(x & mask == 0 && to & mask == 0 ==> (x | to) & mask == 0) by (bit_vector);
        if 0 <= i < rest.len() {
            let t = map[i].1;
            assert(x & t == t ==> (x | to) & t == t) by (bit_vector);
        }
        if forall|j: int|
            0 <= j < map.len() && byte & (#[trigger] map[j]).0 != 0 ==> map[j].1 & mask == 0 {
            assert forall|j: int|
                0 <= j < rest.len() && byte & (#[trigger] rest[j]).0 != 0 implies rest[j].1 & mask
                == 0 by {
                assert(rest[j] == map[j]);
            }
            assert(map[map.len() - 1] == map.last());
        }
    }
}

/// The neutral report: ID 1, the sticks centred (0x80), no direction on the hat, no button, the
/// wheel centred (0x8000 in bytes 43 and 44), the three pedals released (0xffff), 0xff in bytes 52
/// and 53, and zero elsewhere.
pub proof fn law_neutral_report(i: int)
    ensures
        neutral_report().len() == 64,
        neutral_report()[0] == 1,
        1 <= i <= 4 ==> neutral_report()[i] == 0x80,
        neutral_report()[5] == 8,
        neutral_report()[43] + 256 * neutral_report()[44] == 0x8000,
        neutral_report()[45] + 256 * neutral_report()[46] == 0xffff,
        neutral_report()[47] + 256 * neutral_report()[48] == 0xffff,
        neutral_report()[49] + 256 * neutral_report()[50] == 0xffff,
        neutral_report()[52] == 0xff && neutral_report()[53] == 0xff,
        6 <= i < 43 || i == 51 || 54 <= i < 64 ==> neutral_report()[i] == 0,
{
}

/// The translation of a report, button by button and axis by axis, does not depend on anything
/// but its own bytes 0, 1 and 3 to 11, and is 64 bytes long with ID 1.
pub proof fn law_translation_depends_on(src: Seq<u8>, other: Seq<u8>)
    requires
        src[0] == other[0],
        src[1] == other[1],
        forall|i: int| 3 <= i < 12 ==> #[trigger] src[i] == other[i],
    ensures
        translated(src) == translated(other),
        translated(src).len() == 64,
        translated(src)[0] == 1,
{
    assert(translated(src) =~= translated(other));
}

} // verus!
