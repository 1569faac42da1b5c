use rp_wheel_bridge::uart_log::{LineBuf, Logger, LINE_LEN, PIPE_LEN};

/// Everything in the log's pipe.
fn drained(log: &mut Logger) -> String {
    let mut all = vec![];
    let mut chunk = [0u8; 64];
    loop {
        let n = log.drain(&mut chunk);
        if n == 0 {
            return String::from_utf8(all).unwrap();
        }
        all.extend_from_slice(&chunk[..n]);
    }
}

#[test]
fn lines_are_ended() {
    let mut line = LineBuf::<16>::new();
    line.write_str("ab");
    line.write_str("c");
    line.end_line();
    assert_eq!(line.bytes(), b"abc\r\n");
}

#[test]
fn long_lines_are_cut() {
    let mut line = LineBuf::<8>::new();
    line.write_str("abcd");
    line.write_str("efghij");
    line.write_str("klm");
    assert_eq!(line.bytes(), b"abcdef");
    line.end_line();
    assert_eq!(line.bytes(), b"abcdef\r\n");
}

#[test]
fn records_come_out_in_order() {
    let mut log = Logger::new();
    log.log_text("one");
    log.log_text("two");
    assert_eq!(drained(&mut log), "one\r\ntwo\r\n");
    assert_eq!(drained(&mut log), "");
}

#[test]
fn long_record_is_cut_to_a_line() {
    let mut log = Logger::new();
    let text = "x".repeat(1000);
    log.log_text(&text);
    let out = drained(&mut log);
    assert_eq!(out.len(), LINE_LEN);
    assert_eq!(out, format!("{}\r\n", "x".repeat(LINE_LEN - 2)));
}

#[test]
fn dropped_records_are_reported() {
    let mut log = Logger::new();
    // Twelve full lines fit, with 256 bytes left.
    let text = "y".repeat(LINE_LEN - 2);
    for _ in 0..12 {
        log.log_text(&text);
    }
    assert_eq!(log.dropped, 0);
    for _ in 0..3 {
        log.log_text(&text);
    }
    assert_eq!(log.dropped, 3);
    // A short record fits, behind the notice.
    log.log_text("short");
    assert_eq!(log.dropped, 0);
    let out = drained(&mut log);
    let end = "[3 log records dropped]\r\nshort\r\n";
    assert_eq!(out.len(), 12 * LINE_LEN + end.len());
    assert!(out.ends_with(end));
    assert!(out.len() <= PIPE_LEN);
    log.log_text("after");
    assert_eq!(drained(&mut log), "after\r\n");
}

#[test]
fn records_wrap_around_the_pipe() {
    let mut log = Logger::new();
    let mut chunk = [0u8; 64];
    for i in 0..100 {
        let text = format!("{} {}", i, "z".repeat(200));
        log.log_text(&text);
        let mut got = vec![];
        while got.len() < text.len() + 2 {
            let n = log.drain(&mut chunk);
            assert!(n > 0);
            got.extend_from_slice(&chunk[..n]);
        }
        assert_eq!(got, format!("{}\r\n", text).as_bytes());
    }
}

#[test]
fn full_pipe_counts_at_most_u32_max() {
    let mut log = Logger::new();
    let text = "w".repeat(LINE_LEN - 2);
    for _ in 0..12 {
        log.log_text(&text);
    }
    log.dropped = u32::MAX - 1;
    log.log_text(&text);
    assert_eq!(log.dropped, u32::MAX);
    log.log_text(&text);
    assert_eq!(log.dropped, u32::MAX);
    log.log_text("v");
    assert!(drained(&mut log).ends_with("[4294967295 log records dropped]\r\nv\r\n"));
}
