use rp_wheel_bridge::auth::{
    get_feature, get_report, next_cmd, publish, serve, set_nonce, set_report, try_signer, State,
    ID_NONCE, ID_RESET, ID_SIGNATURE, ID_STATE, SIGNATURE_PAGES,
};
use rp_wheel_bridge::packet::Cmd;

fn get(state: &mut State, id: u8) -> Option<Vec<u8>> {
    let mut buf = [0xeeu8; 64];
    get_report(state, id, &mut buf).map(|n| buf[..n].to_vec())
}

fn nonce_page(id: u8, page: u8) -> [u8; 64] {
    let mut d = [0x5au8; 64];
    d[0] = ID_NONCE;
    d[1] = id;
    d[2] = page;
    d
}

fn signature(own_id: u8) -> [[u8; 64]; 19] {
    let mut pages = [[0u8; 64]; 19];
    for (i, p) in pages.iter_mut().enumerate() {
        p[0] = ID_SIGNATURE;
        p[1] = own_id;
        p[2] = i as u8;
        p[10] = 0x40 + i as u8;
    }
    pages
}

#[test]
fn reset_is_answered_by_default() {
    let mut s = State::new();
    assert_eq!(
        get(&mut s, ID_RESET).unwrap(),
        vec![0xf3, 0x00, 0x38, 0x38, 0x00, 0x00, 0x00, 0x00]
    );
    assert!(matches!(next_cmd(&mut s), Some(Cmd::Reset)));
    assert!(next_cmd(&mut s).is_none());
}

#[test]
fn reset_is_answered_with_the_signers() {
    let mut s = State::new();
    assert!(!try_signer(&mut s, None));
    assert!(try_signer(&mut s, Some(&[0xf3, 1, 2, 3, 4, 5, 6, 7])));
    assert_eq!(get(&mut s, ID_RESET).unwrap(), vec![0xf3, 1, 2, 3, 4, 5, 6, 7]);
    // What did not come of a short reply is zero.
    assert!(try_signer(&mut s, Some(&[0xf3, 9])));
    assert_eq!(get(&mut s, ID_RESET).unwrap(), vec![0xf3, 9, 0, 0, 0, 0, 0, 0]);
}

#[test]
fn signing_until_cached_then_pages_in_order() {
    let mut s = State::new();
    assert!(set_report(&mut s, ID_NONCE, &nonce_page(7, 0)));
    let mut busy = vec![0u8; 16];
    busy[0] = 0xf2;
    busy[1] = 7;
    busy[2] = 0x10;
    assert_eq!(get(&mut s, ID_STATE).unwrap(), busy);
    assert!(get(&mut s, ID_SIGNATURE).is_none());

    let mut f2 = [0u8; 16];
    f2[0] = 0xf2;
    f2[1] = 0x13;
    f2[5] = 0x77;
    publish(&mut s, f2, signature(0x13));

    let mut ready = f2.to_vec();
    ready[1] = 7;
    assert_eq!(get(&mut s, ID_STATE).unwrap(), ready);
    let want = signature(7);
    for page in want.iter().take(SIGNATURE_PAGES) {
        assert_eq!(get(&mut s, ID_SIGNATURE).unwrap(), page.to_vec());
    }
    assert!(get(&mut s, ID_SIGNATURE).is_none());
    // Still ready: only a new round withdraws the signature.
    assert_eq!(get(&mut s, ID_STATE).unwrap(), ready);
}

#[test]
fn new_round_withdraws_the_signature() {
    let mut s = State::new();
    publish(&mut s, [0u8; 16], signature(0));
    assert!(get(&mut s, ID_SIGNATURE).is_some());
    assert!(set_report(&mut s, ID_NONCE, &nonce_page(2, 0)));
    assert!(get(&mut s, ID_SIGNATURE).is_none());
    assert_eq!(get(&mut s, ID_STATE).unwrap()[..3], [0xf2, 2, 0x10]);

    publish(&mut s, [0u8; 16], signature(0));
    get(&mut s, ID_RESET);
    assert!(get(&mut s, ID_SIGNATURE).is_none());
    assert_eq!(get(&mut s, ID_STATE).unwrap()[2], 0x10);
}

#[test]
fn other_reports_are_not_auth() {
    let mut s = State::new();
    assert!(get(&mut s, 0x03).is_none());
    assert!(get(&mut s, ID_NONCE).is_none());
    assert!(!set_report(&mut s, 0x05, &[5, 1, 2]));
    assert!(next_cmd(&mut s).is_none());
}

#[test]
fn events_come_in_order_and_the_ninth_is_dropped() {
    let mut s = State::new();
    for page in 0..9 {
        assert!(set_report(&mut s, ID_NONCE, &nonce_page(1, page)));
    }
    for page in 0..8 {
        match next_cmd(&mut s) {
            Some(Cmd::Nonce(p)) => assert_eq!(p.bytes(), &nonce_page(1, page)),
            _ => panic!("no nonce page"),
        }
    }
    assert!(next_cmd(&mut s).is_none());
}

#[test]
fn short_nonce_page_has_no_id() {
    let mut s = State::new();
    assert!(set_report(&mut s, ID_NONCE, &[0xf0]));
    assert_eq!(get(&mut s, ID_STATE).unwrap()[1], 0);
    match next_cmd(&mut s) {
        Some(Cmd::Nonce(p)) => assert_eq!(p.bytes(), &[0xf0]),
        _ => panic!("no nonce page"),
    }
}

#[test]
fn new_signer_starts_with_no_events() {
    let mut s = State::new();
    set_report(&mut s, ID_NONCE, &nonce_page(1, 0));
    get(&mut s, ID_RESET);
    serve(&mut s);
    assert!(next_cmd(&mut s).is_none());
}

#[test]
fn auth_setups() {
    assert_eq!(
        get_feature(3, ID_SIGNATURE, 64),
        [0xa1, 0x01, 0xf1, 0x03, 0x03, 0x00, 0x40, 0x00]
    );
    assert_eq!(
        set_nonce(0, 64),
        [0x21, 0x09, 0xf0, 0x03, 0x00, 0x00, 0x40, 0x00]
    );
}

#[test]
fn polling_state_changes_nothing() {
    let mut s = State::new();
    set_report(&mut s, ID_NONCE, &nonce_page(5, 0));
    assert!(next_cmd(&mut s).is_some());
    assert_eq!(get(&mut s, ID_STATE), get(&mut s, ID_STATE));
    assert!(next_cmd(&mut s).is_none());
    publish(&mut s, [0u8; 16], signature(0));
    get(&mut s, ID_SIGNATURE);
    let first = get(&mut s, ID_STATE).unwrap();
    assert_eq!(first.len(), 16);
    assert_eq!(get(&mut s, ID_STATE).unwrap(), first);
    assert_eq!(get(&mut s, ID_SIGNATURE).unwrap(), signature(5)[1].to_vec());
    assert!(next_cmd(&mut s).is_none());
}

#[test]
fn pages_go_on_between_state_reads() {
    let mut s = State::new();
    set_report(&mut s, ID_NONCE, &nonce_page(9, 0));
    publish(&mut s, [0u8; 16], signature(1));
    for page in signature(9) {
        assert_eq!(get(&mut s, ID_SIGNATURE).unwrap(), page.to_vec());
        assert_eq!(get(&mut s, ID_STATE).unwrap()[..3], [0, 9, 0]);
        serve(&mut s);
    }
    for _ in 0..3 {
        assert!(get(&mut s, ID_SIGNATURE).is_none());
        get(&mut s, ID_STATE);
    }
}

#[test]
fn reset_withdraws_until_the_next_signature() {
    let mut s = State::new();
    set_report(&mut s, ID_NONCE, &nonce_page(4, 0));
    publish(&mut s, [0u8; 16], signature(1));
    get(&mut s, ID_SIGNATURE);
    get(&mut s, ID_RESET);
    serve(&mut s);
    try_signer(&mut s, None);
    for _ in 0..3 {
        assert!(get(&mut s, ID_SIGNATURE).is_none());
        assert_eq!(get(&mut s, ID_STATE).unwrap()[..3], [0xf2, 4, 0x10]);
    }
    publish(&mut s, [0u8; 16], signature(1));
    assert_eq!(get(&mut s, ID_SIGNATURE).unwrap(), signature(4)[0].to_vec());
}

#[test]
fn trying_a_signer_leaves_the_signature() {
    let mut s = State::new();
    publish(&mut s, [0u8; 16], signature(0));
    get(&mut s, ID_SIGNATURE);
    assert!(!try_signer(&mut s, None));
    assert_eq!(get(&mut s, ID_SIGNATURE).unwrap(), signature(0)[1].to_vec());
    assert!(try_signer(&mut s, Some(&[0xf3, 1, 2, 3, 4, 5, 6, 7])));
    assert_eq!(get(&mut s, ID_STATE).unwrap(), vec![0u8; 16]);
    assert_eq!(get(&mut s, ID_SIGNATURE).unwrap(), signature(0)[2].to_vec());
    assert_eq!(get(&mut s, ID_RESET).unwrap(), vec![0xf3, 1, 2, 3, 4, 5, 6, 7]);
    assert!(!try_signer(&mut s, None));
    set_report(&mut s, ID_NONCE, &nonce_page(4, 0));
    publish(&mut s, [0u8; 16], signature(0));
    assert_eq!(get(&mut s, ID_RESET).unwrap(), vec![0xf3, 1, 2, 3, 4, 5, 6, 7]);
}
