use rp_wheel_bridge::auth::{get_report, set_report, State, ID_NONCE, ID_SIGNATURE, ID_STATE};
use rp_wheel_bridge::packet::{Cmd, Packet};
use rp_wheel_bridge::signer::{Action, Awaits, Signer};

fn nonce_page(page: u8) -> [u8; 64] {
    let mut d = [page.wrapping_add(0x30); 64];
    d[0] = ID_NONCE;
    d[1] = 7;
    d[2] = page;
    d
}

fn state_reply(state: u8) -> [u8; 16] {
    let mut r = [0u8; 16];
    r[0] = ID_STATE;
    r[1] = 0x13;
    r[2] = state;
    r
}

fn page_reply(page: u8) -> [u8; 64] {
    let mut r = [0x11u8; 64];
    r[0] = ID_SIGNATURE;
    r[1] = 0x13;
    r[2] = page;
    r
}

fn assert_get(a: Action, want_id: u8, want_len: usize) {
    match a {
        Action::Get { id, len } => {
            assert_eq!(id, want_id);
            assert_eq!(len, want_len);
        }
        _ => panic!("no GET"),
    }
}

fn assert_pause(a: Action, want: u64) {
    match a {
        Action::Pause(t) => assert_eq!(t, want),
        _ => panic!("no pause"),
    }
}

fn assert_send(a: Action, want: &[u8]) {
    match a {
        Action::Send(p) => assert_eq!(p.bytes(), want),
        _ => panic!("no SET"),
    }
}

/// Forward the console's nonce; `refused` pages are not taken. Returns what comes after the last.
fn forward_nonce(s: &mut Signer, refused: &[u8], now: u64) -> Action {
    let mut last = Action::Done;
    for page in 0..5 {
        let a = s.handle(Cmd::Nonce(Packet::new(&nonce_page(page))));
        assert_send(a, &nonce_page(page));
        assert!(s.awaits() == Awaits::Sent);
        last = s.on_sent(!refused.contains(&page), now);
        if page < 4 {
            assert!(matches!(last, Action::Done));
            assert!(s.awaits() == Awaits::Event);
        }
    }
    last
}

/// Answer the pages from `from` on; the last action.
fn fetch(s: &mut Signer, state: &mut State, from: u8, now: u64) -> Action {
    let mut a = Action::Done;
    for page in from..19 {
        assert!(s.awaits() == Awaits::Reply);
        a = s.on_reply(state, Some(&page_reply(page)), now);
        if page < 18 {
            assert!(matches!(a, Action::Get { id: 0xf1, len: 64 }));
        }
    }
    a
}

#[test]
fn whole_round_reaches_the_console() {
    let mut state = State::new();
    let mut s = Signer::new();
    set_report(&mut state, ID_NONCE, &nonce_page(0));
    assert_get(forward_nonce(&mut s, &[], 1000), 0xf2, 16);
    // Signing, then ready.
    assert_pause(s.on_reply(&mut state, Some(&state_reply(0x10)), 2000), 20_000);
    assert_get(s.on_pause_over(22_000), 0xf2, 16);
    assert_get(s.on_reply(&mut state, Some(&state_reply(0x00)), 23_000), 0xf1, 64);
    assert!(matches!(fetch(&mut s, &mut state, 0, 24_000), Action::Done));
    assert!(s.awaits() == Awaits::Event);

    let mut buf = [0u8; 64];
    assert_eq!(get_report(&mut state, ID_STATE, &mut buf), Some(16));
    assert_eq!(buf[..3], [0xf2, 7, 0x00]);
    for page in 0..19 {
        let mut want = page_reply(page);
        want[1] = 7;
        assert_eq!(get_report(&mut state, ID_SIGNATURE, &mut buf), Some(64));
        assert_eq!(buf, want);
    }
    assert_eq!(get_report(&mut state, ID_SIGNATURE, &mut buf), None);
}

#[test]
fn stale_ready_is_not_believed() {
    let mut state = State::new();
    let mut s = Signer::new();
    forward_nonce(&mut s, &[], 0);
    // Ready at once, without having been seen signing: polled on.
    assert_pause(s.on_reply(&mut state, Some(&state_reply(0x00)), 10), 20_000);
    assert_get(s.on_pause_over(20_010), 0xf2, 16);
    assert_pause(s.on_reply(&mut state, Some(&state_reply(0x00)), 499_999), 20_000);
    assert_get(s.on_pause_over(499_999), 0xf2, 16);
    // Half a second after the nonce it is.
    assert_get(s.on_reply(&mut state, Some(&state_reply(0x00)), 500_000), 0xf1, 64);
}

#[test]
fn refused_page_is_sent_again_with_the_others() {
    for refused in 0..5u8 {
        let mut state = State::new();
        let mut s = Signer::new();
        assert_pause(forward_nonce(&mut s, &[refused], 0), 300_000);
        assert_get(s.on_pause_over(300_000), 0xf3, 8);
        assert_pause(s.on_reply(&mut state, None, 310_000), 50_000);
        let mut a = s.on_pause_over(360_000);
        for page in 0..5 {
            assert_send(a, &nonce_page(page));
            assert_pause(s.on_sent(true, 361_000), 10_000);
            a = s.on_pause_over(371_000);
        }
        assert_get(a, 0xf2, 16);
    }
}

#[test]
fn refusal_of_an_earlier_nonce_is_forgotten() {
    let mut s = Signer::new();
    // Page 3 of one nonce is refused and the console starts over.
    s.handle(Cmd::Nonce(Packet::new(&nonce_page(3))));
    assert!(matches!(s.on_sent(false, 0), Action::Done));
    assert_get(forward_nonce(&mut s, &[], 0), 0xf2, 16);
}

#[test]
fn refusal_while_sending_again_gives_up() {
    let mut state = State::new();
    let mut s = Signer::new();
    forward_nonce(&mut s, &[2], 0);
    s.on_pause_over(0);
    s.on_reply(&mut state, Some(&[0xf3]), 0);
    assert_send(s.on_pause_over(0), &nonce_page(0));
    assert!(matches!(s.on_sent(false, 0), Action::Done));
    assert!(s.awaits() == Awaits::Event);
}

#[test]
fn lost_page_signs_again_four_times() {
    let mut state = State::new();
    let mut s = Signer::new();
    forward_nonce(&mut s, &[], 0);
    s.on_reply(&mut state, Some(&state_reply(0x10)), 0);
    s.on_pause_over(0);
    assert_get(s.on_reply(&mut state, Some(&state_reply(0x00)), 0), 0xf1, 64);
    for attempt in 1..4 {
        // The signer skipped a page.
        assert_get(s.on_reply(&mut state, Some(&page_reply(0)), 0), 0xf1, 64);
        let a = s.on_reply(&mut state, Some(&page_reply(2)), 0);
        assert_pause(a, 300_000);
        assert_eq!(s.attempt, attempt + 1);
        assert_get(s.on_pause_over(0), 0xf3, 8);
        assert_pause(s.on_reply(&mut state, Some(&[0xf3]), 0), 50_000);
        s.on_pause_over(0);
        for _ in 0..5 {
            s.on_sent(true, 0);
            s.on_pause_over(0);
        }
        s.on_reply(&mut state, Some(&state_reply(0x10)), 0);
        s.on_pause_over(0);
        assert_get(s.on_reply(&mut state, Some(&state_reply(0x00)), 0), 0xf1, 64);
    }
    // The fourth loss resets the signer and ends the round.
    assert_get(s.on_reply(&mut state, None, 0), 0xf3, 8);
    assert!(matches!(s.on_reply(&mut state, None, 0), Action::Done));
    assert!(!state.ready);
}

#[test]
fn signer_that_never_gets_ready_is_reset() {
    let mut state = State::new();
    let mut s = Signer::new();
    forward_nonce(&mut s, &[], 1_000_000);
    assert_pause(s.on_reply(&mut state, Some(&state_reply(0x10)), 10_999_999), 20_000);
    assert_get(s.on_pause_over(10_999_999), 0xf2, 16);
    assert_pause(s.on_reply(&mut state, None, 11_000_000), 20_000);
    assert_get(s.on_pause_over(11_000_000), 0xf3, 8);
    assert!(matches!(s.on_reply(&mut state, Some(&[0xf3]), 11_000_000), Action::Done));
}

#[test]
fn console_reset_resets_the_signer() {
    let mut state = State::new();
    let mut s = Signer::new();
    assert_get(s.handle(Cmd::Reset), 0xf3, 8);
    assert!(s.awaits() == Awaits::Reply);
    assert!(matches!(s.on_reply(&mut state, None, 0), Action::Done));
}

#[test]
fn short_replies_keep_what_was_there() {
    let mut state = State::new();
    let mut s = Signer::new();
    forward_nonce(&mut s, &[], 0);
    s.on_reply(&mut state, Some(&state_reply(0x10)), 0);
    s.on_pause_over(0);
    // Two bytes of a state report: the state byte is still "signing".
    assert_pause(s.on_reply(&mut state, Some(&[0xf2, 0x13]), 0), 20_000);
    s.on_pause_over(0);
    assert_get(s.on_reply(&mut state, Some(&state_reply(0x00)), 0), 0xf1, 64);
    // A short page 0 is padded with zeros, also in its number.
    assert_get(s.on_reply(&mut state, Some(&[0xf1, 0x13]), 0), 0xf1, 64);
    assert_eq!(s.pages[0][..3], [0xf1, 0x13, 0x00]);
}

#[test]
fn new_signer_is_blank() {
    let s = Signer::new();
    assert!(s.awaits() == Awaits::Event);
    assert_eq!((s.refused, s.attempt, s.start, s.seen_signing), (false, 0, 0, false));
    assert_eq!(s.nonce, [[0u8; 64]; 5]);
    assert_eq!(s.f2, [0u8; 16]);
    assert_eq!(s.pages, [[0u8; 64]; 19]);
}
