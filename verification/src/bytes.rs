//! Byte-level helpers: little-endian words, overlays, and the text forms used in log lines.

use vstd::prelude::*;

verus! {

/// Value of `bytes`, least significant byte first.
pub open spec fn le_value(bytes: Seq<u8>) -> nat
    decreases bytes.len(),
{
    if bytes.len() == 0 {
        0
    } else {
        bytes[0] as nat + 256 * le_value(bytes.drop_first())
    }
}

/// The 16-bit word with low byte `lo` and high byte `hi`.
pub open spec fn le16(lo: u8, hi: u8) -> u16 {
    (lo + 256 * hi) as u16
}

pub fn u16_from_le(lo: u8, hi: u8) -> (r: u16)
    ensures
        r == le16(lo, hi),
        r == lo + 256 * hi,
{
    (lo as u16) + 256 * (hi as u16)
}

/// Low byte of a word.
pub fn lo(word: u16) -> (r: u8)
    ensures
        r == word % 256,
{
    (word % 256) as u8
}

/// High byte of a word.
pub fn hi(word: u16) -> (r: u8)
    ensures
        r == word / 256,
{
    (word / 256) as u8
}

/// A word is rebuilt from its two bytes.
pub proof fn law_word_round_trip(word: u16)
    ensures
        le16((word % 256) as u8, (word / 256) as u8) == word,
{
}

/// `base` with its leading bytes replaced by those of `data`, as far as there is room.
pub open spec fn overlaid(base: Seq<u8>, data: Seq<u8>) -> Seq<u8> {
    Seq::new(base.len(), |i: int| if i < data.len() { data[i] } else { base[i] })
}

/// Copy `data` over the front of `base`; what does not fit is left out.
pub fn overlay(base: &mut [u8], data: &[u8])
    ensures
        final(base)@ == overlaid(old(base)@, data@),
{
    let n: usize = if data.len() < base.len() { data.len() } else { base.len() };
    let mut i: usize = 0;
    while i < n
        invariant
            i <= n,
            n <= data@.len(),
            n <= base@.len(),
            base@.len() == old(base)@.len(),
            n == data@.len() || n == base@.len(),
            forall|k: int| 0 <= k < i ==> base@[k] == data@[k],
            forall|k: int| i <= k < base@.len() ==> base@[k] == old(base)@[k],
        decreases n - i,
    {
        base[i] = data[i];
        i += 1;
    }
    assert(base@ =~= overlaid(old(base)@, data@));
}

/// Number of leading bytes of `data` up to and including the last one that is not zero.
pub open spec fn used(data: Seq<u8>) -> nat
    decreases data.len(),
{
    if data.len() == 0 {
        0
    } else if data.last() != 0 {
        data.len()
    } else {
        used(data.drop_last())
    }
}

/// What `used` leaves out is zero, and what it keeps ends in a byte that is not.
pub proof fn law_used_cuts_trailing_zeros(data: Seq<u8>)
    ensures
        used(data) <= data.len(),
        forall|i: int| used(data) <= i < data.len() ==> data[i] == 0,
        used(data) > 0 ==> data[used(data) - 1] != 0,
    decreases data.len(),
{
    if data.len() > 0 && data.last() == 0 {
        law_used_cuts_trailing_zeros(data.drop_last());
        assert forall|i: int| used(data) <= i < data.len() implies data[i] == 0 by {
            if i < data.len() - 1 {
                assert(data.drop_last()[i] == data[i]);
            }
        }
    }
}

/// Length of `data` without its trailing zero padding.
pub fn used_len(data: &[u8]) -> (n: usize)
    ensures
        n == used(data@),
        n <= data@.len(),
{
    let mut n: usize = data.len();
    assert(data@.take(n as int) =~= data@);
    while n > 0 && data[n - 1] == 0
        invariant
            n <= data@.len(),
            used(data@.take(n as int)) == used(data@),
        decreases n,
    {
        assert(data@.take(n as int).drop_last() =~= data@.take(n - 1));
        n -= 1;
    }
    assert(n > 0 ==> data@.take(n as int).last() == data@[n - 1]);
    n
}

/// Copy of `data` from `from` up to `to`.
pub fn copy_range(data: &[u8], from: usize, to: usize) -> (out: Vec<u8>)
    requires
        from <= to <= data@.len(),
    ensures
        out@ == data@.subrange(from as int, to as int),
{
    let mut out: Vec<u8> = Vec::new();
    let mut i: usize = from;
    while i < to
        invariant
            from <= i <= to,
            to <= data@.len(),
            out@ == data@.subrange(from as int, i as int),
        decreases to - i,
    {
        out.push(data[i]);
        i += 1;
        assert(data@.subrange(from as int, i as int) =~= data@.subrange(from as int, i - 1).push(
            data@[i - 1],
        ));
    }
    out
}

/// Whether the two byte strings are the same.
pub fn same(a: &[u8], b: &[u8]) -> (r: bool)
    ensures
        r == (a@ == b@),
{
    if a.len() != b.len() {
        return false;
    }
    let mut i: usize = 0;
    while i < a.len()
        invariant
            i <= a@.len(),
            a@.len() == b@.len(),
            forall|k: int| 0 <= k < i ==> a@[k] == b@[k],
        decreases a@.len() - i,
    {
        if a[i] != b[i] {
            return false;
        }
        i += 1;
    }
    assert(a@ =~= b@);
    true
}

/// Append `data` to `out`.
pub fn append(out: &mut Vec<u8>, data: &[u8])
    ensures
        final(out)@ == old(out)@ + data@,
{
    let mut i: usize = 0;
    while i < data.len()
        invariant
            i <= data@.len(),
            out@ == old(out)@ + data@.take(i as int),
        decreases data@.len() - i,
    {
        out.push(data[i]);
        i += 1;
        assert(data@.take(i as int) =~= data@.take(i - 1).push(data@[i - 1]));
        assert(out@ =~= old(out)@ + data@.take(i as int));
    }
    assert(data@.take(i as int) =~= data@);
}

// ---- text ----

/// ASCII code of a lowercase hexadecimal digit.
pub open spec fn hex_digit(n: int) -> u8 {
    if n < 10 {
        (48 + n) as u8
    } else {
        (87 + n) as u8
    }
}

/// Space-separated lowercase hex bytes.
pub open spec fn hex_text(data: Seq<u8>) -> Seq<u8> {
    Seq::new(
        if data.len() == 0 {
            0
        } else {
            (3 * data.len() - 1) as nat
        },
        |i: int|
            if i % 3 == 0 {
                hex_digit(data[i / 3] as int / 16)
            } else if i % 3 == 1 {
                hex_digit(data[i / 3] as int % 16)
            } else {
                0x20u8
            },
    )
}

fn digit(n: u8) -> (c: u8)
    requires
        n < 16,
    ensures
        c == hex_digit(n as int),
{
    if n < 10 {
        48 + n
    } else {
        87 + n
    }
}

/// The bytes of `data` as text: two lowercase hex digits each, one space between them.
pub fn hex(data: &[u8]) -> (text: Vec<u8>)
    ensures
        text@ == hex_text(data@),
{
    let mut text: Vec<u8> = Vec::new();
    let mut i: usize = 0;
    assert(text@ =~= hex_text(data@.take(0)));
    while i < data.len()
        invariant
            i <= data@.len(),
            text@ == hex_text(data@.take(i as int)),
        decreases data@.len() - i,
    {
        let ghost before = data@.take(i as int);
        let ghost after = data@.take(i + 1);
        if i > 0 {
            text.push(0x20);
        }
        let b: u8 = data[i];
        text.push(digit(b / 16));
        text.push(digit(b % 16));
        i += 1;
        proof {
            assert(after[i - 1] == b);
            assert forall|k: int| 0 <= k < text@.len() implies text@[k] == hex_text(after)[k] by {
                if k < hex_text(before).len() {
                    assert(before[k / 3] == after[k / 3]);
                    assert(hex_text(before)[k] == hex_text(after)[k]);
                } else {
                    let j = i as int - 1;
                    assert(k == 3 * j - 1 || k == 3 * j || k == 3 * j + 1);
                }
            }
            assert(text@ =~= hex_text(after));
        }
    }
    assert(data@.take(i as int) =~= data@);
    text
}

/// Hex digits of `n`, most significant first, without leading zeros.
pub open spec fn hex_digits(n: nat) -> Seq<u8>
    decreases n,
{
    if n == 0 {
        Seq::empty()
    } else {
        hex_digits(n / 16).push(hex_digit((n % 16) as int))
    }
}

/// `n` in hexadecimal, padded with zeros to at least four digits.
pub open spec fn hex_offset(n: nat) -> Seq<u8> {
    Seq::new(
        if hex_digits(n).len() >= 4 {
            0
        } else {
            (4 - hex_digits(n).len()) as nat
        },
        |i: int| 48u8,
    ) + hex_digits(n)
}

fn hex_number(n: usize) -> (text: Vec<u8>)
    ensures
        text@ == hex_digits(n as nat),
    decreases n,
{
    if n == 0 {
        return Vec::new();
    }
    let mut text: Vec<u8> = hex_number(n / 16);
    text.push(digit((n % 16) as u8));
    text
}

/// One line of a hex dump: the offset, then the bytes.
pub open spec fn dump_line(offset: nat, data: Seq<u8>) -> Seq<u8> {
    seq![0x20u8, 0x20u8] + hex_offset(offset) + seq![0x3au8, 0x20u8] + hex_text(data)
}

fn hex_dump_line(offset: usize, data: &[u8]) -> (line: Vec<u8>)
    ensures
        line@ == dump_line(offset as nat, data@),
{
    let mut line: Vec<u8> = Vec::new();
    line.push(0x20);
    line.push(0x20);
    let digits: Vec<u8> = hex_number(offset);
    let mut pad: usize = digits.len();
    let ghost padding: nat = if digits@.len() >= 4 {
        0
    } else {
        (4 - digits@.len()) as nat
    };
    while pad < 4
        invariant
            digits@.len() <= pad,
            digits@.len() >= 4 ==> pad == digits@.len(),
            digits@.len() < 4 ==> pad <= 4,
            line@ == seq![0x20u8, 0x20u8] + Seq::new((pad - digits@.len()) as nat, |i: int| 48u8),
        decreases 4 - pad,
    {
        line.push(48);
        pad += 1;
        assert(line@ =~= seq![0x20u8, 0x20u8] + Seq::new(
            (pad - digits@.len()) as nat,
            |i: int| 48u8,
        ));
    }
    assert(Seq::new((pad - digits@.len()) as nat, |i: int| 48u8) =~= Seq::new(
        padding,
        |i: int| 48u8,
    ));
    append(&mut line, &digits);
    line.push(0x3a);
    line.push(0x20);
    let text: Vec<u8> = hex(data);
    append(&mut line, &text);
    assert(line@ =~= dump_line(offset as nat, data@));
    line
}

/// Part `k` of `data` when it is cut into 16-byte lines.
pub open spec fn dump_chunk(data: Seq<u8>, k: int) -> Seq<u8> {
    data.subrange(
        16 * k,
        if 16 * k + 16 <= data.len() {
            16 * k + 16
        } else {
            data.len() as int
        },
    )
}

/// Hex dump of `data`, sixteen bytes a line.
pub fn hex_dump(data: &[u8]) -> (lines: Vec<Vec<u8>>)
    ensures
        lines@.len() == (data@.len() + 15) / 16,
        forall|k: int|
            0 <= k < lines@.len() ==> #[trigger] lines@[k]@ == dump_line(
                (16 * k) as nat,
                dump_chunk(data@, k),
            ),
{
    let mut lines: Vec<Vec<u8>> = Vec::new();
    let mut at: usize = 0;
    while at < data.len()
        invariant
            at <= data@.len(),
            at < data@.len() ==> at == 16 * lines@.len(),
            at == data@.len() ==> lines@.len() == (data@.len() + 15) / 16,
            forall|k: int|
                0 <= k < lines@.len() ==> #[trigger] lines@[k]@ == dump_line(
                    (16 * k) as nat,
                    dump_chunk(data@, k),
                ),
        decreases data@.len() - at,
    {
        let to: usize = if data.len() - at >= 16 {
            at + 16
        } else {
            data.len()
        };
        let chunk: Vec<u8> = copy_range(data, at, to);
        assert(chunk@ =~= dump_chunk(data@, lines@.len() as int));
        let line: Vec<u8> = hex_dump_line(at, &chunk);
        lines.push(line);
        at = to;
    }
    lines
}

/// Decimal digits of `n`, most significant first, without leading zeros.
pub open spec fn decimal_digits(n: nat) -> Seq<u8>
    decreases n,
{
    if n == 0 {
        Seq::empty()
    } else {
        decimal_digits(n / 10).push((48 + n % 10) as u8)
    }
}

/// `n` in decimal.
pub open spec fn decimal(n: nat) -> Seq<u8> {
    if n == 0 {
        seq![48u8]
    } else {
        decimal_digits(n)
    }
}

fn decimal_number(n: u32) -> (text: Vec<u8>)
    ensures
        text@ == decimal_digits(n as nat),
    decreases n,
{
    if n == 0 {
        return Vec::new();
    }
    let mut text: Vec<u8> = decimal_number(n / 10);
    text.push(48 + (n % 10) as u8);
    text
}

/// `n` in decimal.
pub fn decimal_text(n: u32) -> (text: Vec<u8>)
    ensures
        text@ == decimal(n as nat),
{
    if n == 0 {
        let mut zero: Vec<u8> = Vec::new();
        zero.push(48);
        assert(zero@ =~= seq![48u8]);
        zero
    } else {
        decimal_number(n)
    }
}

/// A 32-bit number has at most ten decimal digits.
pub proof fn law_decimal_length(n: u32)
    ensures
        1 <= decimal(n as nat).len() <= 10,
{
    reveal_with_fuel(decimal_digits, 11);
}

/// A little-endian word or value weighs each byte by its place.
pub proof fn law_bytes_weigh_by_place(bytes: Seq<u8>, lo: u8, hi: u8)
    ensures
        le16(lo, hi) == lo + 256 * hi,
        bytes.len() == 0 ==> le_value(bytes) == 0,
        bytes.len() == 1 ==> le_value(bytes) == bytes[0],
        bytes.len() == 2 ==> le_value(bytes) == bytes[0] + 256 * bytes[1],
        bytes.len() == 3 ==> le_value(bytes) == bytes[0] + 256 * bytes[1] + 65536 * bytes[2],
        bytes.len() == 4 ==> le_value(bytes) == bytes[0] + 256 * bytes[1] + 65536 * bytes[2]
            + 16777216 * bytes[3],
{
    reveal_with_fuel(le_value, 5);
}

/// An overlay changes no length: the bytes that there are replace those at their places, the
/// others stay.
pub proof fn law_overlay_by_byte(base: Seq<u8>, data: Seq<u8>)
    ensures
        overlaid(base, data).len() == base.len(),
        forall|i: int|
            0 <= i < base.len() && i < data.len() ==> #[trigger] overlaid(base, data)[i] == data[i],
        forall|i: int|
            0 <= i < base.len() && i >= data.len() ==> #[trigger] overlaid(base, data)[i]
                == base[i],
{
}

/// What a hexadecimal digit stands for; -1 for what is none.
pub open spec fn digit_value(c: u8) -> int {
    if 0x30 <= c <= 0x39 {
        c - 0x30
    } else if 0x61 <= c <= 0x66 {
        c - 0x61 + 10
    } else {
        -1
    }
}

/// Hex text reads back: two digits for each byte, the high one first, and a space between two
/// bytes.
pub proof fn law_hex_reads_back(data: Seq<u8>)
    ensures
        data.len() == 0 ==> hex_text(data).len() == 0,
        data.len() > 0 ==> hex_text(data).len() == 3 * data.len() - 1,
        forall|i: int|
            0 <= i < data.len() ==> {
                &&& 0 <= digit_value(hex_text(data)[3 * i]) < 16
                &&& 0 <= digit_value(hex_text(data)[3 * i + 1]) < 16
                &&& 16 * digit_value(hex_text(data)[3 * i]) + digit_value(hex_text(data)[3 * i + 1])
                    == #[trigger] data[i]
                &&& i + 1 < data.len() ==> hex_text(data)[3 * i + 2] == 0x20
            },
{
    assert forall|i: int| 0 <= i < data.len() implies {
        &&& 0 <= digit_value(hex_text(data)[3 * i]) < 16
        &&& 0 <= digit_value(hex_text(data)[3 * i + 1]) < 16
        &&& 16 * digit_value(hex_text(data)[3 * i]) + digit_value(hex_text(data)[3 * i + 1])
            == #[trigger] data[i]
        &&& i + 1 < data.len() ==> hex_text(data)[3 * i + 2] == 0x20
    } by {
        assert((3 * i) / 3 == i && (3 * i + 1) / 3 == i && (3 * i) % 3 == 0 && (3 * i + 1) % 3 == 1
            && (3 * i + 2) % 3 == 2);
    }
}

/// The number that digits in base `base` stand for, most significant first.
pub open spec fn number_value(text: Seq<u8>, base: nat) -> int
    decreases text.len(),
{
    if text.len() == 0 {
        0
    } else {
        number_value(text.drop_last(), base) * base + digit_value(text.last())
    }
}

proof fn lemma_hex_digits(n: nat)
    ensures
        number_value(hex_digits(n), 16) == n,
        forall|i: int|
            0 <= i < hex_digits(n).len() ==> 0 <= digit_value(#[trigger] hex_digits(n)[i]) < 16,
        n > 0 ==> hex_digits(n).len() > 0 && hex_digits(n)[0] != 0x30,
    decreases n,
{
    if n > 0 {
        let before = hex_digits(n / 16);
        lemma_hex_digits(n / 16);
        assert(hex_digits(n).drop_last() =~= before);
        assert(n == n / 16 * 16 + n % 16);
        assert(digit_value(hex_digit((n % 16) as int)) == n % 16);
    }
}

proof fn lemma_zeros_weigh_nothing(pad: nat, text: Seq<u8>, base: nat)
    ensures
        number_value(Seq::new(pad, |i: int| 48u8) + text, base) == number_value(text, base),
    decreases pad + text.len(),
{
    let zeros = Seq::new(pad, |i: int| 48u8);
    if text.len() > 0 {
        lemma_zeros_weigh_nothing(pad, text.drop_last(), base);
        assert((zeros + text).drop_last() =~= zeros + text.drop_last());
    } else if pad > 0 {
        lemma_zeros_weigh_nothing((pad - 1) as nat, text, base);
        assert((zeros + text).drop_last() =~= Seq::new((pad - 1) as nat, |i: int| 48u8) + text);
        assert(0 * base == 0) by (nonlinear_arith);
    } else {
        assert(zeros + text =~= text);
    }
}

/// A line of a hex dump: two spaces, the offset in at least four hexadecimal digits and no more
/// than it needs, a colon and a space, and the bytes.
pub proof fn law_dump_line_reads_back(offset: nat, data: Seq<u8>)
    ensures
        ({
            let line = dump_line(offset, data);
            let n = hex_offset(offset).len() as int;
            let number = line.subrange(2, 2 + n);
            &&& line.len() == n + 4 + hex_text(data).len()
            &&& line[0] == 0x20 && line[1] == 0x20
            &&& n >= 4
            &&& n > 4 ==> number[0] != 0x30
            &&& number_value(number, 16) == offset
            &&& forall|i: int| 0 <= i < n ==> 0 <= digit_value(#[trigger] number[i]) < 16
            &&& line[2 + n] == 0x3a && line[3 + n] == 0x20
            &&& line.skip(4 + n) == hex_text(data)
        }),
{
    let line = dump_line(offset, data);
    let number = hex_offset(offset);
    let digits = hex_digits(offset);
    let pad: nat = if digits.len() >= 4 {
        0
    } else {
        (4 - digits.len()) as nat
    };
    lemma_hex_digits(offset);
    lemma_zeros_weigh_nothing(pad, digits, 16);
    assert(number =~= Seq::new(pad, |i: int| 48u8) + digits);
    assert(line.subrange(2, 2 + number.len() as int) =~= number);
    assert(line.skip(4 + number.len() as int) =~= hex_text(data));
    assert forall|i: int| 0 <= i < number.len() implies 0 <= digit_value(#[trigger] number[i])
        < 16 by {
        if i >= pad {
            assert(number[i] == digits[i - pad]);
        }
    }
}

/// The lines of a hex dump hold all of the data and nothing else: byte `i` stands in line `i / 16`
/// at place `i % 16`, and every line but the last is full.
pub proof fn law_dump_holds_every_byte(data: Seq<u8>, i: int)
    requires
        0 <= i < data.len(),
    ensures
        i / 16 < (data.len() + 15) / 16,
        i % 16 < dump_chunk(data, i / 16).len() <= 16,
        dump_chunk(data, i / 16)[i % 16] == data[i],
        16 * (i / 16) + 16 <= data.len() ==> dump_chunk(data, i / 16).len() == 16,
{
}

proof fn lemma_decimal_digits(n: nat)
    ensures
        number_value(decimal_digits(n), 10) == n,
        forall|i: int|
            0 <= i < decimal_digits(n).len() ==> 0x30 <= #[trigger] decimal_digits(n)[i] <= 0x39,
        n > 0 ==> decimal_digits(n).len() > 0 && decimal_digits(n)[0] != 0x30,
    decreases n,
{
    if n > 0 {
        lemma_decimal_digits(n / 10);
        assert(decimal_digits(n).drop_last() =~= decimal_digits(n / 10));
        assert(n == n / 10 * 10 + n % 10);
    }
}

/// A decimal number reads back, and has no leading zero.
pub proof fn law_decimal_reads_back(n: nat)
    ensures
        number_value(decimal(n), 10) == n,
        forall|i: int| 0 <= i < decimal(n).len() ==> 0x30 <= #[trigger] decimal(n)[i] <= 0x39,
        n > 0 ==> decimal(n)[0] != 0x30,
{
    lemma_decimal_digits(n);
    if n == 0 {
        reveal_with_fuel(number_value, 2);
    }
}

} // verus!
