//! Log records on their way to a UART.
//!
//! Both cores log. Each record is formatted on the logging core and put into a pipe whole or not
//! at all, so lines from the two cores never interleave; from the pipe they go into the UART's
//! transmit buffer. Logging never blocks: when the pipe is full the record is dropped, and the
//! number of dropped records is reported in front of the next one that fits.

use crate::bytes::{
    decimal, decimal_text, law_decimal_length, law_decimal_reads_back, number_value, overlaid,
};
use embassy_sync::blocking_mutex::raw::CriticalSectionRawMutex;
use embassy_sync::pipe::Pipe;
use vstd::prelude::*;
use vstd::string::StringSliceAdditionalSpecFns;

verus! {

pub const BAUDRATE: u32 = 921_600;

/// Log bytes buffered between the logging cores and the UART. Sized for the bursty descriptor
/// dump.
pub const PIPE_LEN: usize = 4096;

/// Longest formatted record; longer ones are truncated. Fits a 64-byte report in hex with its
/// prefix.
pub const LINE_LEN: usize = 320;

/// Longest notice of dropped records.
pub const NOTICE_LEN: usize = 40;

/// Line ending.
pub const EOL_LEN: usize = 2;

pub open spec fn eol() -> Seq<u8> {
    seq![0x0du8, 0x0a]
}

/// Fixed-size line; text past the end is cut off, leaving room for the line ending.
pub struct LineBuf<const N: usize> {
    buf: [u8; N],
    len: usize,
}

impl<const N: usize> View for LineBuf<N> {
    type V = Seq<u8>;

    closed spec fn view(&self) -> Seq<u8> {
        self.buf@.take(self.len as int)
    }
}

/// As much of `text` as a line of `limit` bytes still takes after `line`, the line ending left
/// room for.
pub open spec fn cut(line: Seq<u8>, text: Seq<u8>, limit: nat) -> Seq<u8> {
    if line.len() + text.len() + EOL_LEN <= limit {
        text
    } else {
        text.take(limit - EOL_LEN - line.len())
    }
}

impl<const N: usize> LineBuf<N> {
    #[verifier::type_invariant]
    spec fn fits(self) -> bool {
        self.len <= N
    }

    pub fn new() -> (line: Self)
        ensures
            line@ == Seq::<u8>::empty(),
    {
        let line = LineBuf { buf: [0;N], len: 0 };
        assert(line@ =~= Seq::<u8>::empty());
        line
    }

    fn put(&mut self, text: &[u8])
        requires
            old(self)@.len() + text@.len() <= N,
        ensures
            final(self)@ == old(self)@ + text@,
    {
        proof {
            use_type_invariant(&*self);
        }
        let len: usize = self.len;
        let mut buf: [u8; N] = self.buf;
        let mut i: usize = 0;
        while i < text.len()
            invariant
                i <= text.len(),
                len + text@.len() <= N,
                buf@.take(len as int) == old(self)@,
                forall|k: int| 0 <= k < i ==> buf@[len + k] == text@[k],
            decreases text.len() - i,
        {
            let ghost before = buf@;
            buf[len + i] = text[i];
            assert(buf@.take(len as int) =~= before.take(len as int));
            i += 1;
        }
        assert(buf@.take(len + i) =~= old(self)@ + text@);
        *self = LineBuf { buf, len: len + text.len() };
    }

    /// Append text, as much of it as fits.
    pub fn write_str(&mut self, s: &str)
        requires
            old(self)@.len() + EOL_LEN <= N,
        ensures
            final(self)@ == old(self)@ + cut(old(self)@, s.spec_bytes(), N as nat),
            final(self)@.len() + EOL_LEN <= N,
    {
        proof {
            use_type_invariant(&*self);
        }
        self.write_bytes(s.as_bytes());
    }

    /// Append text, as much of it as fits.
    pub fn write_bytes(&mut self, text: &[u8])
        requires
            old(self)@.len() + EOL_LEN <= N,
        ensures
            final(self)@ == old(self)@ + cut(old(self)@, text@, N as nat),
            final(self)@.len() + EOL_LEN <= N,
    {
        proof {
            use_type_invariant(&*self);
        }
        let room: usize = N - EOL_LEN - self.len;
        if text.len() <= room {
            self.put(text);
        } else {
            self.put(&text[0..room]);
            assert(text@.subrange(0, room as int) =~= text@.take(room as int));
        }
    }

    /// Append the line ending.
    pub fn end_line(&mut self)
        requires
            old(self)@.len() + EOL_LEN <= N,
        ensures
            final(self)@ == old(self)@ + eol(),
    {
        let end: [u8; EOL_LEN] = [0x0d, 0x0a];
        assert(end@ =~= eol());
        self.put(&end);
    }

    pub fn bytes(&self) -> (r: &[u8])
        ensures
            r@ == self@,
            r@.len() <= N,
    {
        proof {
            use_type_invariant(self);
        }
        &self.buf[0..self.len]
    }
}

// ---- the pipe ----

/// Bytes on their way to the UART, up to [`PIPE_LEN`] of them.
#[verifier::external_body]
pub struct LogPipe {
    pipe: Pipe<CriticalSectionRawMutex, PIPE_LEN>,
}

/// The bytes in a pipe, oldest first.
pub uninterp spec fn piped(pipe: LogPipe) -> Seq<u8>;

impl LogPipe {
    /// `Pipe::new`: an empty pipe.
    #[verifier::external_body]
    pub(crate) fn new() -> (pipe: Self)
        ensures
            piped(pipe) == Seq::<u8>::empty(),
    {
        LogPipe { pipe: Pipe::new() }
    }

    /// `Pipe::free_capacity`: the bytes that the pipe can still take, out of its capacity.
    #[verifier::external_body]
    pub(crate) fn free_capacity(&self) -> (n: usize)
        ensures
            n == PIPE_LEN - piped(*self).len(),
    {
        self.pipe.free_capacity()
    }

    /// `Pipe::try_write`: an error exactly when the pipe is full; otherwise some bytes from the
    /// front of `data` go to the end of the pipe, at least one where there is one, and their
    /// number is returned. How many at a time is left open: the pipe does not write across its
    /// wraparound.
    #[verifier::external_body]
    pub(crate) fn try_write(&mut self, data: &[u8]) -> (r: Option<usize>)
        ensures
            r is None == (piped(*old(self)).len() == PIPE_LEN),
            r is None ==> piped(*final(self)) == piped(*old(self)),
            r matches Some(n) ==> {
                &&& n <= data@.len()
                &&& n <= PIPE_LEN - piped(*old(self)).len()
                &&& data@.len() > 0 ==> n > 0
                &&& piped(*final(self)) == piped(*old(self)) + data@.take(n as int)
            },
    {
        self.pipe.try_write(data).ok()
    }

    /// `Pipe::try_read`: an error exactly when the pipe is empty; otherwise bytes from its front
    /// are moved into `chunk`, at least one where `chunk` has room, and their number is returned.
    #[verifier::external_body]
    pub(crate) fn try_read(&mut self, chunk: &mut [u8]) -> (r: Option<usize>)
        ensures
            r is None == (piped(*old(self)).len() == 0),
            r is None ==> piped(*final(self)) == piped(*old(self)),
            r is None ==> final(chunk)@ == old(chunk)@,
            r matches Some(n) ==> {
                &&& n <= old(chunk)@.len()
                &&& n <= piped(*old(self)).len()
                &&& old(chunk)@.len() > 0 ==> n > 0
                &&& final(chunk)@ == overlaid(old(chunk)@, piped(*old(self)).take(n as int))
                &&& piped(*final(self)) == piped(*old(self)).skip(n as int)
            },
    {
        self.pipe.try_read(chunk).ok()
    }
}

/// Write all of `data`, which the pipe has room for.
fn push(pipe: &mut LogPipe, data: &[u8])
    requires
        piped(*old(pipe)).len() + data@.len() <= PIPE_LEN,
    ensures
        piped(*final(pipe)) == piped(*old(pipe)) + data@,
{
    let mut at: usize = 0;
    assert(data@.take(0) =~= Seq::<u8>::empty());
    assert(piped(*pipe) =~= piped(*old(pipe)) + data@.take(0));
    while at < data.len()
        invariant
            at <= data.len(),
            piped(*old(pipe)).len() + data@.len() <= PIPE_LEN,
            piped(*pipe) == piped(*old(pipe)) + data@.take(at as int),
        decreases data.len() - at,
    {
        let rest: &[u8] = &data[at..data.len()];
        match pipe.try_write(rest) {
            Some(n) => {
                assert(data@.take(at as int) + rest@.take(n as int) =~= data@.take(at + n));
                assert(piped(*pipe) =~= piped(*old(pipe)) + data@.take(at + n));
                at += n;
            },
            None => {
                return;
            },
        }
    }
    assert(data@.take(at as int) =~= data@);
}

// ---- the logger ----

/// The pipe, and how many records were dropped since the last one that made it into it.
pub struct Logger {
    pub pipe: LogPipe,
    pub dropped: u32,
}

/// The text after a number of dropped records: ` log records dropped]`.
pub open spec fn dropped_text() -> Seq<u8> {
    seq![
        0x20u8, 0x6c, 0x6f, 0x67, 0x20, 0x72, 0x65, 0x63, 0x6f, 0x72, 0x64, 0x73, 0x20, 0x64, 0x72,
        0x6f, 0x70, 0x70, 0x65, 0x64, 0x5d,
    ]
}

/// The line that reports dropped records: `[<n> log records dropped]`; nothing if there were none.
pub open spec fn notice(dropped: u32) -> Seq<u8> {
    if dropped == 0 {
        Seq::empty()
    } else {
        seq![0x5bu8] + decimal(dropped as nat) + dropped_text() + eol()
    }
}

/// The pipe's contents and the number of dropped records.
pub struct Log {
    pub bytes: Seq<u8>,
    pub dropped: u32,
}

impl View for Logger {
    type V = Log;

    open spec fn view(&self) -> Log {
        Log { bytes: piped(self.pipe), dropped: self.dropped }
    }
}

impl Log {
    /// The record and the notice before it fit.
    pub open spec fn takes(self, line: Seq<u8>) -> bool {
        self.bytes.len() + notice(self.dropped).len() + line.len() <= PIPE_LEN
    }

    /// After a record: it goes in whole, behind the notice of those dropped before, or it is
    /// dropped and counted.
    pub open spec fn after_record(self, line: Seq<u8>) -> Log {
        if self.takes(line) {
            Log { bytes: self.bytes + notice(self.dropped) + line, dropped: 0 }
        } else {
            Log {
                dropped: if self.dropped == u32::MAX {
                    u32::MAX
                } else {
                    (self.dropped + 1) as u32
                },
                ..self
            }
        }
    }

    pub open spec fn valid(self) -> bool {
        self.bytes.len() <= PIPE_LEN
    }
}

/// The text of a record as a line: cut off where it is too long, and ended.
pub open spec fn line_of(text: Seq<u8>) -> Seq<u8> {
    cut(Seq::empty(), text, LINE_LEN as nat) + eol()
}

fn make_notice(dropped: u32) -> (line: LineBuf<NOTICE_LEN>)
    ensures
        line@ == notice(dropped),
{
    let mut line: LineBuf<NOTICE_LEN> = LineBuf::new();
    if dropped != 0 {
        let open: [u8; 1] = [0x5b];
        let close: [u8; 21] = [
            0x20, 0x6c, 0x6f, 0x67, 0x20, 0x72, 0x65, 0x63, 0x6f, 0x72, 0x64, 0x73, 0x20, 0x64,
            0x72, 0x6f, 0x70, 0x70, 0x65, 0x64, 0x5d,
        ];
        let number = decimal_text(dropped);
        proof {
            law_decimal_length(dropped);
            assert(close@ =~= dropped_text());
            assert(open@ =~= seq![0x5bu8]);
        }
        line.write_bytes(&open);
        line.write_bytes(&number);
        line.write_bytes(&close);
        line.end_line();
        assert(line@ =~= notice(dropped));
    }
    line
}

impl Logger {
    pub fn new() -> (l: Self)
        ensures
            l@ == (Log { bytes: Seq::empty(), dropped: 0 }),
            l@.valid(),
    {
        Logger { pipe: LogPipe::new(), dropped: 0 }
    }

    /// Put a formatted line into the pipe, whole or not at all.
    pub fn log(&mut self, line: &LineBuf<LINE_LEN>)
        requires
            old(self)@.valid(),
        ensures
            final(self)@.valid(),
            final(self)@ == old(self)@.after_record(line@),
    {
        let dropped: u32 = self.dropped;
        let note = make_notice(dropped);
        let text: &[u8] = line.bytes();
        if self.pipe.free_capacity() < note.bytes().len() + text.len() {
            self.dropped = dropped.saturating_add(1);
            return;
        }
        push(&mut self.pipe, note.bytes());
        push(&mut self.pipe, text);
        self.dropped = 0;
    }

    /// Format `text` as a line and log it.
    pub fn log_text(&mut self, text: &str)
        requires
            old(self)@.valid(),
        ensures
            final(self)@.valid(),
            final(self)@ == old(self)@.after_record(line_of(text.spec_bytes())),
    {
        let mut line: LineBuf<LINE_LEN> = LineBuf::new();
        line.write_str(text);
        line.end_line();
        assert(line@ =~= line_of(text.spec_bytes()));
        self.log(&line);
    }

    /// Move bytes from the pipe into `chunk`, for the UART. Returns their number, 0 if there are
    /// none.
    pub fn drain(&mut self, chunk: &mut [u8]) -> (n: usize)
        requires
            old(self)@.valid(),
        ensures
            final(self)@.valid(),
            n <= old(chunk)@.len(),
            n <= old(self)@.bytes.len(),
            (n > 0) == (old(self)@.bytes.len() > 0 && old(chunk)@.len() > 0),
            final(chunk)@ == overlaid(old(chunk)@, old(self)@.bytes.take(n as int)),
            final(self)@ == (Log { bytes: old(self)@.bytes.skip(n as int), ..old(self)@ }),
    {
        match self.pipe.try_read(chunk) {
            Some(n) => n,
            None => {
                assert(overlaid(old(chunk)@, old(self)@.bytes.take(0)) =~= old(chunk)@);
                assert(old(self)@.bytes.skip(0) =~= old(self)@.bytes);
                0
            },
        }
    }
}

/// Records go in whole or not at all, in order: what was in the pipe stays in front, and a record
/// that does not fit leaves the pipe as it was.
pub proof fn law_records_whole_or_dropped(log: Log, line: Seq<u8>)
    requires
        log.valid(),
    ensures
        log.after_record(line).valid(),
        log.after_record(line).bytes == log.bytes || log.after_record(line).bytes == log.bytes
            + notice(log.dropped) + line,
        log.takes(line) ==> log.after_record(line).bytes.skip(
            (log.bytes.len() + notice(log.dropped).len()) as int,
        ) == line,
{
    if log.takes(line) {
        assert(log.after_record(line).bytes.skip(
            (log.bytes.len() + notice(log.dropped).len()) as int,
        ) =~= line);
    }
}

/// A line is never longer than [`LINE_LEN`] and always ends in its line ending; before that it
/// holds the record's text, as far as there is room.
pub proof fn law_lines_fit(text: Seq<u8>)
    ensures
        line_of(text).len() <= LINE_LEN,
        line_of(text).skip(line_of(text).len() - EOL_LEN) == eol(),
        line_of(text).take(line_of(text).len() - EOL_LEN).is_prefix_of(text),
        text.len() + EOL_LEN <= LINE_LEN ==> line_of(text) == text + eol(),
{
    let line = line_of(text);
    assert(line.skip(line.len() - EOL_LEN) =~= eol());
    assert(line.take(line.len() - EOL_LEN) =~= text.take(line.len() - EOL_LEN));
}

/// The log after `n` records `line`, none of which fits.
pub open spec fn after_dropped(log: Log, line: Seq<u8>, n: nat) -> Log
    decreases n,
{
    if n == 0 {
        log
    } else {
        after_dropped(log, line, (n - 1) as nat).after_record(line)
    }
}

/// Dropped records are counted until one fits, and the number stands in front of that one: after
/// `n` records were dropped, the next that fits comes behind a notice of `n` more than before.
pub proof fn law_dropped_records_reported(log: Log, line: Seq<u8>, n: nat, next: Seq<u8>)
    requires
        log.valid(),
        log.dropped + n <= u32::MAX,
        log.bytes.len() + line.len() > PIPE_LEN,
    ensures
        after_dropped(log, line, n) == (Log { dropped: (log.dropped + n) as u32, ..log }),
        after_dropped(log, line, n).takes(next) ==> after_dropped(log, line, n).after_record(next)
            == (Log { bytes: log.bytes + notice((log.dropped + n) as u32) + next, dropped: 0 }),
    decreases n,
{
    if n > 0 {
        law_dropped_records_reported(log, line, (n - 1) as nat, next);
    }
}

/// The log is told by the bytes in the pipe and the number of dropped records.
pub proof fn law_log_is_what_logger_holds(logger: Logger)
    ensures
        logger@.bytes == piped(logger.pipe),
        logger@.dropped == logger.dropped,
{
}

/// A record that fits with the notice before it goes into the pipe of 4096 bytes, behind all that
/// is there and behind the notice, byte by byte, and the count of dropped ones starts over. One
/// that does not fit leaves the pipe as it is and is counted, up to the end of the counter.
pub proof fn law_record_by_byte(log: Log, line: Seq<u8>, i: int)
    ensures
        ({
            let after = log.after_record(line);
            let at = log.bytes.len() + notice(log.dropped).len();
            &&& at + line.len() <= 4096 ==> {
                &&& after.bytes.len() == at + line.len()
                &&& 0 <= i < log.bytes.len() ==> after.bytes[i] == log.bytes[i]
                &&& 0 <= i < notice(log.dropped).len() ==> after.bytes[log.bytes.len() + i]
                    == notice(log.dropped)[i]
                &&& 0 <= i < line.len() ==> after.bytes[at + i] == line[i]
                &&& after.dropped == 0
            }
            &&& at + line.len() > 4096 ==> {
                &&& after.bytes == log.bytes
                &&& log.dropped < 0xffff_ffff ==> after.dropped == log.dropped + 1
                &&& log.dropped == 0xffff_ffff ==> after.dropped == log.dropped
            }
        }),
{
}

/// The notice of dropped records is a line of its own, `[<number> log records dropped]`, where
/// there are any, and nothing where there are none.
pub proof fn law_notice_by_byte(dropped: u32)
    ensures
        notice(0).len() == 0,
        dropped > 0 ==> {
            let line = notice(dropped);
            let n = line.len() as int;
            &&& n >= 25
            &&& line[0] == 0x5b
            &&& number_value(line.subrange(1, n - 23), 10) == dropped
            &&& line.subrange(n - 23, n) == seq![
                0x20u8, 0x6c, 0x6f, 0x67, 0x20, 0x72, 0x65, 0x63, 0x6f, 0x72, 0x64, 0x73, 0x20,
                0x64, 0x72, 0x6f, 0x70, 0x70, 0x65, 0x64, 0x5d, 0x0d, 0x0a,
            ]
        },
{
    if dropped > 0 {
        let line = notice(dropped);
        let n = line.len() as int;
        law_decimal_reads_back(dropped as nat);
        law_decimal_length(dropped);
        assert(line.subrange(1, n - 23) =~= decimal(dropped as nat));
        assert(line.subrange(n - 23, n) =~= seq![
            0x20u8, 0x6c, 0x6f, 0x67, 0x20, 0x72, 0x65, 0x63, 0x6f, 0x72, 0x64, 0x73, 0x20, 0x64,
            0x72, 0x6f, 0x70, 0x70, 0x65, 0x64, 0x5d, 0x0d, 0x0a,
        ]);
    }
}

/// A record's line is its text, cut off after 318 bytes, and the line ending `0d 0a`. In general, a
/// line takes as much text as leaves room for its ending.
pub proof fn law_line_by_byte(text: Seq<u8>, line: Seq<u8>, limit: nat, i: int)
    requires
        line.len() + 2 <= limit,
    ensures
        ({
            let n = if text.len() <= 318 {
                text.len() as int
            } else {
                318
            };
            &&& line_of(text).len() == n + 2
            &&& 0 <= i < n ==> line_of(text)[i] == text[i]
            &&& line_of(text)[n] == 0x0d
            &&& line_of(text)[n + 1] == 0x0a
        }),
        ({
            let room = limit - 2 - line.len();
            let n = if text.len() <= room {
                text.len() as int
            } else {
                room
            };
            &&& cut(line, text, limit).len() == n
            &&& 0 <= i < n ==> cut(line, text, limit)[i] == text[i]
        }),
{
}

} // verus!
