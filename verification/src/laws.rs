//! What the operations do, call by call: each law is about any call of the operations that it names,
//! whatever its arguments, and says of the bytes that go in and those that come out how they relate.

use crate::auth::{
    get_feature, get_report, law_auth_answers, law_nonce_pages_go_to_signer, law_reads_by_report,
    law_signers_reset_kept, next_cmd, page_bytes, publish, serve, set_nonce, set_report, try_signer,
    State,
};
use crate::device;
use crate::device::{
    control_in, control_out, ffb_output, if0_output, law_auth_reports_answered,
    law_backend_reports_queued_whole, law_class_requests_go_where_they_belong,
    law_force_packet_queued_whole, law_output_report_queued_whole, law_port_is_what_device_holds,
    law_sent_reports_counted, mirror_c272, next_ffb, next_ffb_output, next_hidpp, next_if0_output,
    next_input, next_request, ps5, push_ffb, push_hidpp, push_input, relay_c269, waits_for_backend,
    Device, InReply, OutReply, Port, Profile, Recipient, Request, RequestType, Role,
};
use crate::hid::{report_desc_request, set_idle, watch, HidInterface, Watch};
use crate::hub;
use crate::hub::{
    law_failed_attempt_starts_next, law_port_up_by_bits, law_requests_name_their_port, Enumeration,
    ResetError,
};
use crate::input_map::{
    law_axes, law_hat_and_face_buttons, law_neutral_report, law_rotary_and_ps_button, translate,
};
use crate::pace::counted;
use crate::packet::{law_messages_are_their_parts, packet_bytes, Cmd, ControlOut, Packet};
use crate::proxy;
use crate::proxy::{
    ffb_report, hidpp_long_setup, hidpp_short_setup, idle_failed, keep_polling,
    law_rev_command_by_byte, law_rev_command_recognised, law_wheel_gets_every_byte,
    law_wheel_messages, on_status, repeat_setup, rev_lights, slow_ffb, FfbNote, Liveness, Link,
    TransferError,
};
use crate::relay;
use crate::relay::{written, Backend, OutPath};
use crate::signer;
use crate::signer::Signer;
use crate::uart_log::Logger;
use crate::usb_host::{
    langid, law_first_interface, serve_device, string_request, Kind, Service,
};
use crate::wake::{Recording, Replay};
use vstd::prelude::*;

verus! {

// ---- authentication ----

/// Reading an auth report: F3 gives the signer's F3, F2 the signer's F2 or `f2 <nonce id> 10` and
/// zeros while there is none, F1 the next page of a signature that is ready, byte by byte; the rest
/// of the buffer stays. Nothing else is answered.
pub proof fn law_get_report_bytes(
    state: &mut State,
    id: u8,
    buf: &mut [u8],
    r: Option<usize>,
    i: int,
)
    requires
        old(state).wf(),
        old(buf)@.len() >= 64,
        call_ensures(get_report, (state, id, buf), r),
        0 <= i < old(buf)@.len(),
    ensures
        final(buf)@.len() == old(buf)@.len(),
        id == 0xf3 ==> r == Some(8usize) && (i < 8 ==> final(buf)@[i] == old(state).reset@[i]),
        id == 0xf2 ==> r == Some(16usize),
        id == 0xf2 && old(state).ready && i < 16 ==> final(buf)@[i] == old(state).ready_state@[i],
        id == 0xf2 && !old(state).ready && i < 16 ==> final(buf)@[i] == (if i == 0 {
            0xf2u8
        } else if i == 1 {
            old(state).nonce_id
        } else if i == 2 {
            0x10u8
        } else {
            0u8
        }),
        id == 0xf1 && old(state).ready && old(state).next_page < 19 ==> r == Some(64usize) && (i < 64
            ==> final(buf)@[i] == old(state).signature@[old(state).next_page as int]@[i]),
        id == 0xf1 && (!old(state).ready || old(state).next_page >= 19) ==> r is None,
        id != 0xf1 && id != 0xf2 && id != 0xf3 ==> r is None,
        r matches Some(n) ==> (i >= n ==> final(buf)@[i] == old(buf)@[i]),
        r is None ==> final(buf)@ == old(buf)@,
{
    law_auth_answers(old(state)@, id);
    if id == 0xf1 && old(state).ready && old(state).next_page < 19 {
        assert(old(state)@.signature[old(state).next_page as int]
            == old(state).signature@[old(state).next_page as int]@);
    }
}

/// Reading an auth report moves on as the console expects: F3 withdraws the signature and has the
/// signer reset, an F1 that was answered makes the next page the next one, and nothing else has an
/// effect. The nonce id and the cached bytes stay.
pub proof fn law_get_report_moves_on(
    state: &mut State,
    id: u8,
    buf: &mut [u8],
    r: Option<usize>,
    page: int,
)
    requires
        call_ensures(get_report, (state, id, buf), r),
        0 <= page < 19,
    ensures
        final(state).nonce_id == old(state).nonce_id,
        final(state).reset@ == old(state).reset@,
        final(state).ready_state@ == old(state).ready_state@,
        final(state).signature@[page]@ == old(state).signature@[page]@,
        id == 0xf3 ==> !final(state).ready && final(state).next_page == 0,
        id == 0xf3 && old(state)@.cmds.len() < 8 ==> final(state)@.cmds == old(state)@.cmds.push(
            None,
        ),
        id != 0xf3 ==> final(state).ready == old(state).ready && final(state)@.cmds == old(
            state,
        )@.cmds,
        id == 0xf1 && r is Some ==> final(state).next_page == old(state).next_page + 1,
        id == 0xf1 && r is None ==> final(state).next_page == old(state).next_page,
        id != 0xf1 && id != 0xf3 ==> final(state).next_page == old(state).next_page,
{
    law_reads_by_report(old(state)@, id);
    law_auth_answers(old(state)@, id);
    assert(final(state)@.signature[page] == final(state).signature@[page]@);
    assert(old(state)@.signature[page] == old(state).signature@[page]@);
}

/// A nonce page of at most 64 bytes goes to the signer with all of its bytes, its byte 1 is the
/// nonce id from then on, and the signature is withdrawn; no other report is taken, or changes
/// anything.
pub proof fn law_set_report_bytes(state: &mut State, id: u8, data: &[u8], accepted: bool)
    requires
        call_ensures(set_report, (state, id, data), accepted),
        data@.len() <= 64,
    ensures
        accepted <==> id == 0xf0,
        id == 0xf0 ==> !final(state).ready && final(state).next_page == 0,
        id == 0xf0 && data@.len() > 1 ==> final(state).nonce_id == data@[1],
        id == 0xf0 && old(state)@.cmds.len() < 8 ==> final(state)@.cmds == old(state)@.cmds.push(
            Some(data@),
        ),
        id == 0xf0 && old(state)@.cmds.len() >= 8 ==> final(state)@.cmds == old(state)@.cmds,
        final(state).reset@ == old(state).reset@,
        id != 0xf0 ==> final(state)@ == old(state)@,
{
    law_nonce_pages_go_to_signer(old(state)@, id, data@);
}

/// Caching a signature keeps every byte of it but byte 1 of each report, which is the nonce id of
/// the console; the signature is then ready, from its first page on.
pub proof fn law_publish_keeps_bytes(
    state: &mut State,
    ready_state: [u8; 16],
    pages: [[u8; 64]; 19],
    page: int,
    i: int,
)
    requires
        call_ensures(publish, (state, ready_state, pages), ()),
        0 <= page < 19,
        0 <= i < 64,
    ensures
        final(state).ready,
        final(state).next_page == 0,
        final(state).nonce_id == old(state).nonce_id,
        final(state).reset@ == old(state).reset@,
        final(state)@.cmds == old(state)@.cmds,
        i != 1 ==> final(state).signature@[page]@[i] == pages@[page]@[i],
        final(state).signature@[page]@[1] == old(state).nonce_id,
        i < 16 && i != 1 ==> final(state).ready_state@[i] == ready_state@[i],
        final(state).ready_state@[1] == old(state).nonce_id,
{
    assert(final(state)@.signature[page] == final(state).signature@[page]@);
    assert(page_bytes(pages)[page] == pages@[page]@);
}

/// From the signer to the console: once a signature is cached, the console's first GET of F1 gives
/// the first page, 64 bytes of which each but byte 1 is the signer's.
pub proof fn law_published_page_is_read(
    state: &mut State,
    ready_state: [u8; 16],
    pages: [[u8; 64]; 19],
    later: &mut State,
    buf: &mut [u8],
    r: Option<usize>,
    i: int,
)
    requires
        call_ensures(publish, (state, ready_state, pages), ()),
        *old(later) == *final(state),
        old(buf)@.len() >= 64,
        call_ensures(get_report, (later, 0xf1u8, buf), r),
        0 <= i < 64,
    ensures
        r == Some(64usize),
        i != 1 ==> final(buf)@[i] == pages@[0]@[i],
        final(buf)@[1] == old(state).nonce_id,
{
    law_publish_keeps_bytes(state, ready_state, pages, 0, i);
    law_get_report_bytes(later, 0xf1, buf, r, i);
    law_get_report_bytes(later, 0xf1, buf, r, 1);
}

/// A device can sign exactly where it answered GET F3; its answer is then the console's F3, byte by
/// byte, zeros where it was short. Nothing else changes.
pub proof fn law_try_signer_bytes(
    state: &mut State,
    reply: Option<&[u8]>,
    can_sign: bool,
    page: int,
    i: int,
)
    requires
        call_ensures(try_signer, (state, reply), can_sign),
        0 <= page < 19,
        0 <= i < 8,
    ensures
        can_sign <==> reply is Some,
        reply matches Some(bytes) ==> final(state).reset@[i] == (if i < bytes@.len() {
            bytes@[i]
        } else {
            0u8
        }),
        reply is None ==> final(state).reset@ == old(state).reset@,
        final(state).ready == old(state).ready,
        final(state).next_page == old(state).next_page,
        final(state).nonce_id == old(state).nonce_id,
        final(state).ready_state@ == old(state).ready_state@,
        final(state).signature@[page]@ == old(state).signature@[page]@,
        final(state)@.cmds == old(state)@.cmds,
{
    if let Some(bytes) = reply {
        law_signers_reset_kept(old(state)@, bytes@);
    }
    assert(final(state)@.signature[page] == final(state).signature@[page]@);
    assert(old(state)@.signature[page] == old(state).signature@[page]@);
}

/// Events come out oldest first, one at a time, and a signer that takes over starts with none.
pub proof fn law_events_come_in_order(
    state: &mut State,
    cmd: Option<Cmd>,
    other: &mut State,
)
    requires
        call_ensures(next_cmd, (state,), cmd),
        call_ensures(serve, (other,), ()),
    ensures
        old(state)@.cmds.len() == 0 <==> cmd is None,
        cmd is Some ==> final(state)@.cmds.len() == old(state)@.cmds.len() - 1,
        cmd == Some(Cmd::Reset) ==> old(state)@.cmds[0] is None,
        (cmd matches Some(Cmd::Nonce(page))) ==> old(state)@.cmds[0] is Some,
        forall|k: int|
            cmd is Some && 0 <= k < old(state)@.cmds.len() - 1 ==> #[trigger] final(state)@.cmds[k]
                == old(state)@.cmds[k + 1],
        final(state).ready == old(state).ready,
        final(state).nonce_id == old(state).nonce_id,
        final(state).next_page == old(state).next_page,
        final(other)@.cmds.len() == 0,
        final(other).ready == old(other).ready,
        final(other).nonce_id == old(other).nonce_id,
{
}

/// The requests to the signer, byte by byte: GET_REPORT is `a1 01 <id> 03 <interface> <length>`, SET
/// of a nonce page `21 09 f0 03 <interface> <length>`, the last two as little-endian words.
pub proof fn law_signer_requests(
    iface: u16,
    id: u8,
    len: u16,
    get: [u8; 8],
    set: [u8; 8],
)
    requires
        call_ensures(get_feature, (iface, id, len), get),
        call_ensures(set_nonce, (iface, len), set),
    ensures
        get@[0] == 0xa1 && get@[1] == 0x01 && get@[2] == id && get@[3] == 0x03,
        get@[4] + 256 * get@[5] == iface,
        get@[6] + 256 * get@[7] == len,
        set@[0] == 0x21 && set@[1] == 0x09 && set@[2] == 0xf0 && set@[3] == 0x03,
        set@[4] + 256 * set@[5] == iface,
        set@[6] + 256 * set@[7] == len,
{
}

/// A packet holds the bytes it is made of, up to 64, and gives them back.
pub proof fn law_packet_gives_back(data: &[u8], p: Packet, bytes: &[u8], i: int)
    requires
        call_ensures(Packet::new, (data,), p),
        call_ensures(Packet::bytes, (&p,), bytes),
    ensures
        data@.len() <= 64 ==> bytes@ == data@,
        data@.len() > 64 ==> bytes@.len() == 64,
        0 <= i < 64 && i < data@.len() ==> bytes@[i] == data@[i],
{
    assert(data@.len() <= 64 ==> packet_bytes(data@) =~= data@);
}

// ---- hub ----

/// A new device's port is reset at once: SET_FEATURE (`23 03 04 00`) with the port's number as the
/// hub counts, one more than as counted here, in bytes 4 and 5.
pub proof fn law_new_device_reset(port: u8, now: u64, r: (Enumeration, hub::Action))
    requires
        port < 255,
        call_ensures(Enumeration::new, (port, now), r),
    ensures
        r.0.port == port,
        r.0.attempt == 1,
        r.0.start == now,
        r.0.stage is Request,
        r.0.error is None,
        r.1 matches hub::Action::Out(s) && {
            &&& s@[0] == 0x23 && s@[1] == 0x03 && s@[2] == 4 && s@[3] == 0
            &&& s@[4] + 256 * s@[5] == port + 1
            &&& s@[6] == 0 && s@[7] == 0
        },
{
    law_requests_name_their_port(r.0, r.0, now);
}

/// Once the reset was taken, the port's own status is read: GET_STATUS (`a3 00 00 00`) of four
/// bytes with the port's number; a pause in the polling ends with the same request.
pub proof fn law_port_status_read(
    e: &mut Enumeration,
    now: u64,
    a: hub::Action,
    polled: &mut Enumeration,
    b: hub::Action,
)
    requires
        old(e).valid(),
        old(e).stage is Request,
        call_ensures(Enumeration::on_out, (e, true, now), a),
        old(polled).valid(),
        old(polled).stage is Poll,
        call_ensures(Enumeration::on_wait_over, (polled,), b),
    ensures
        final(e).stage is Status,
        final(e).port == old(e).port,
        final(e).start == old(e).start,
        final(e).attempt == old(e).attempt,
        a matches hub::Action::In(s) && {
            &&& s@[0] == 0xa3 && s@[1] == 0 && s@[2] == 0 && s@[3] == 0
            &&& s@[4] + 256 * s@[5] == old(e).port + 1
            &&& s@[6] == 4 && s@[7] == 0
        },
        final(polled).stage is Status,
        final(polled).port == old(polled).port,
        final(polled).start == old(polled).start,
        final(polled).attempt == old(polled).attempt,
        b matches hub::Action::In(s) && {
            &&& s@[0] == 0xa3 && s@[1] == 0 && s@[2] == 0 && s@[3] == 0
            &&& s@[4] + 256 * s@[5] == old(polled).port + 1
            &&& s@[6] == 4 && s@[7] == 0
        },
{
    law_requests_name_their_port(*old(e), *old(polled), now);
    law_requests_name_their_port(*old(polled), *old(e), now);
}

/// A status that says enabled (byte 0, bit 1) and reset over (byte 2, bit 4) has that port's change
/// cleared (`23 01 14 00`); any other is asked for again after 5 ms, for half a second.
pub proof fn law_port_status_answered(
    e: &mut Enumeration,
    reply: &[u8],
    now: u64,
    a: hub::Action,
)
    requires
        old(e).valid(),
        old(e).stage is Status,
        old(e).start <= now,
        call_ensures(Enumeration::on_status, (e, Some(reply), now), a),
    ensures
        final(e).port == old(e).port,
        reply@.len() > 2 && reply@[0] & 0x02 != 0 && reply@[2] & 0x10 != 0 ==> final(e).stage is Clear
            && (a matches hub::Action::Out(s) && {
            &&& s@[0] == 0x23 && s@[1] == 0x01 && s@[2] == 20 && s@[3] == 0
            &&& s@[4] + 256 * s@[5] == old(e).port + 1
            &&& s@[6] == 0 && s@[7] == 0
        }),
        !(reply@.len() > 2 && reply@[0] & 0x02 != 0 && reply@[2] & 0x10 != 0) && now - old(e).start
            < 500_000 ==> final(e).stage is Poll && a == hub::Action::Wait(5_000),
        !(reply@.len() > 2 && reply@[0] & 0x02 != 0 && reply@[2] & 0x10 != 0) && now - old(e).start
            >= 500_000 ==> final(e).error == Some(ResetError::TimedOut) && (old(e).attempt == 4 <==> a
            is GiveUp),
{
    law_requests_name_their_port(*old(e), *old(e), now);
    law_port_up_by_bits(reply@);
    law_failed_attempt_starts_next(*old(e), Some(ResetError::TimedOut), now);
}

// ---- the console's side ----

/// The console's GET_REPORT of an auth report on IF0 gets the bytes of the auth state, but in the
/// mirror: F3 the signer's F3, F2 its F2, F1 the next page of a signature that is ready.
pub proof fn law_console_reads_auth_reports(
    dev: &mut Device,
    req: &Request,
    r: Option<InReply>,
    id: u8,
    i: int,
)
    requires
        old(dev).wf(),
        old(dev).profile.role != Role::Mirror,
        req.request_type == RequestType::Class,
        req.recipient == Recipient::Interface,
        req.request == 1,
        req.value == 0x300 + id,
        req.index == 0,
        0 <= i < 64,
        call_ensures(control_in, (dev, req), r),
    ensures
        id == 0xf3 ==> (r matches Some(InReply::Accepted(data)) && data@.len() == 8 && (i < 8
            ==> data@[i] == old(dev).auth.reset@[i])),
        id == 0xf2 && old(dev).auth.ready ==> (r matches Some(InReply::Accepted(data)) && data@.len()
            == 16 && (i < 16 ==> data@[i] == old(dev).auth.ready_state@[i])),
        id == 0xf2 && !old(dev).auth.ready ==> (r matches Some(InReply::Accepted(data)) && data@.len()
            == 16 && data@[0] == 0xf2 && data@[1] == old(dev).auth.nonce_id && data@[2] == 0x10 && (3
            <= i < 16 ==> data@[i] == 0)),
        id == 0xf1 && old(dev).auth.ready && old(dev).auth.next_page < 19 ==> (r matches Some(
            InReply::Accepted(data),
        ) && data@.len() == 64 && data@[i] == old(dev).auth.signature@[old(
            dev,
        ).auth.next_page as int]@[i]) && final(dev).auth.next_page == old(dev).auth.next_page + 1,
{
    let cache = old(dev).auth@;
    law_auth_reports_answered(old(dev)@, old(dev).profile, *req, id);
    law_auth_answers(cache, id);
    law_reads_by_report(cache, id);
    assert(final(dev)@.auth == final(dev).auth@);
    if id == 0xf1 && old(dev).auth.ready && old(dev).auth.next_page < 19 {
        assert(cache.signature[old(dev).auth.next_page as int] == old(dev).auth.signature@[old(
            dev,
        ).auth.next_page as int]@);
    }
}

/// A class request of the console with at most 64 bytes that is for the backend is, behind those
/// that wait, the next that the backend's side takes: with its request, value, index and bytes.
pub proof fn law_request_reaches_backend(
    dev: &mut Device,
    req: &Request,
    data: &[u8],
    reply: Option<OutReply>,
    later: &mut Device,
    msg: Option<ControlOut>,
)
    requires
        old(dev).wf(),
        req.request_type == RequestType::Class,
        req.recipient == Recipient::Interface,
        data@.len() <= 64,
        req.request == 9 && req.index == 1 || old(dev).profile.role == Role::Mirror || (old(
            dev,
        ).profile.role == Role::Relay && !(req.request == 9 && req.value == 0x3f0 && req.index == 0)),
        old(dev)@.control_out.len() == 0,
        call_ensures(control_out, (dev, req, data), reply),
        *old(later) == *final(dev),
        call_ensures(next_request, (later,), msg),
    ensures
        reply == Some(OutReply::Accepted),
        msg matches Some(m) && {
            &&& m.request == req.request
            &&& m.value == req.value
            &&& m.index == req.index
            &&& m.data@ == data@
        },
{
    law_class_requests_go_where_they_belong(old(dev)@, old(dev).profile, *req, data@);
    law_messages_are_their_parts(msg->0, Cmd::Reset);
}

/// A force feedback packet of the console with at most 64 bytes is, behind those that wait, the
/// next that the wheel's side takes, with all of its bytes.
pub proof fn law_force_packet_goes_on(
    dev: &mut Device,
    data: &[u8],
    now: u64,
    gap: Option<u64>,
    later: &mut Device,
    packet: Option<Packet>,
)
    requires
        old(dev).wf(),
        data@.len() <= 64,
        old(dev)@.ffb_out.len() == 0,
        call_ensures(ffb_output, (dev, data, now), gap),
        *old(later) == *final(dev),
        call_ensures(next_ffb_output, (later,), packet),
    ensures
        packet matches Some(p) && p@ == data@,
        final(dev).stats.ffb_received == counted(old(dev).stats.ffb_received),
        final(dev).stats.dropped == old(dev).stats.dropped,
{
    law_force_packet_queued_whole(old(dev)@, data@, now);
    law_port_is_what_device_holds(*old(dev), InReply::Rejected);
    law_port_is_what_device_holds(*final(dev), InReply::Rejected);
}

/// So is an IF0 output report, but in the mirror, where none is passed on. One that differs from
/// the last tells how often that one was repeated.
pub proof fn law_output_report_goes_on(
    dev: &mut Device,
    data: &[u8],
    changed: Option<u32>,
    later: &mut Device,
    packet: Option<Packet>,
)
    requires
        old(dev).wf(),
        data@.len() <= 64,
        old(dev)@.if0_out.len() == 0,
        call_ensures(if0_output, (dev, data), changed),
        *old(later) == *final(dev),
        call_ensures(next_if0_output, (later,), packet),
    ensures
        old(dev).profile.role != Role::Mirror ==> (packet matches Some(p) && p@ == data@),
        old(dev).profile.role == Role::Mirror ==> packet is None,
        data@ == old(dev).if0_last@ ==> changed is None,
        data@ != old(dev).if0_last@ ==> changed == Some(old(dev).if0_repeats),
        final(dev).if0_last@ == data@,
{
    law_output_report_queued_whole(old(dev)@, old(dev).profile, data@);
    assert(packet_bytes(data@) =~= data@);
    law_port_is_what_device_holds(*old(dev), InReply::Rejected);
    law_port_is_what_device_holds(*final(dev), InReply::Rejected);
}

/// What the backend's side hands over is, behind what waits, the next that the console gets on the
/// same path, with all of its bytes.
pub proof fn law_backend_packets_go_on(
    dev: &mut Device,
    packet: Packet,
    i: &mut Device,
    input: Option<Packet>,
    hidpp_dev: &mut Device,
    h: &mut Device,
    message: Option<Packet>,
    ffb_dev: &mut Device,
    f: &mut Device,
    force: Option<Packet>,
)
    requires
        old(dev).wf(),
        old(dev)@.input_in.len() == 0,
        call_ensures(push_input, (dev, packet), ()),
        *old(i) == *final(dev),
        call_ensures(next_input, (i,), input),
        old(hidpp_dev)@.hidpp_in.len() == 0,
        call_ensures(push_hidpp, (hidpp_dev, packet), ()),
        *old(h) == *final(hidpp_dev),
        call_ensures(next_hidpp, (h,), message),
        old(ffb_dev)@.ffb_in.len() == 0,
        call_ensures(push_ffb, (ffb_dev, packet), ()),
        *old(f) == *final(ffb_dev),
        call_ensures(next_ffb, (f,), force),
    ensures
        input matches Some(p) && p@ == packet@,
        message matches Some(p) && p@ == packet@,
        force matches Some(p) && p@ == packet@,
{
    law_backend_reports_queued_whole(old(dev)@, packet@);
    law_backend_reports_queued_whole(old(hidpp_dev)@, packet@);
    law_backend_reports_queued_whole(old(ffb_dev)@, packet@);
}

/// The counters read are those that were counted, and start over at zero: read again at once, all
/// of them are zero.
pub proof fn law_counters_read_once(
    dev: &mut Device,
    stats: device::Stats,
    later: &mut Device,
    again: device::Stats,
)
    requires
        old(dev).wf(),
        call_ensures(device::take_stats, (dev,), stats),
        *old(later) == *final(dev),
        call_ensures(device::take_stats, (later,), again),
    ensures
        stats == old(dev).stats,
        again.input_sent == 0,
        again.hidpp_sent == 0,
        again.hidpp_set_report == 0,
        again.ffb_sent == 0,
        again.ffb_received == 0,
        again.dropped == 0,
{
    law_sent_reports_counted(stats, 0);
}

/// Who the bridge is on the bus: 046d:c269 release 33.00 (200 mA) for the console, with the wheel or
/// another c269 behind it; 046d:c272 release 33.09 (100 mA) in the mirror. Only the relay stays
/// off the bus until the device behind it is there.
pub proof fn law_identities(
    wheel: Profile,
    relay: Profile,
    mirror: Profile,
    role: Role,
    wait: bool,
)
    requires
        call_ensures(ps5, (), wheel),
        call_ensures(relay_c269, (), relay),
        call_ensures(mirror_c272, (), mirror),
        call_ensures(waits_for_backend, (role,), wait),
    ensures
        wheel.role == Role::Wheel && relay.role == Role::Relay && mirror.role == Role::Mirror,
        wheel.vid == 0x046d && relay.vid == 0x046d && mirror.vid == 0x046d,
        wheel.pid == 0xc269 && relay.pid == 0xc269 && mirror.pid == 0xc272,
        wheel.release == 0x3300 && relay.release == 0x3300 && mirror.release == 0x3309,
        wheel.max_power_ma == 200 && relay.max_power_ma == 200 && mirror.max_power_ma == 100,
        wheel.max_packet_size_0 == 64 && relay.max_packet_size_0 == 64 && mirror.max_packet_size_0
            == 64,
        wheel.usb_version == 0x0200 && relay.usb_version == 0x0200 && mirror.usb_version == 0x0200,
        wheel.self_powered && relay.self_powered && mirror.self_powered,
        !wheel.remote_wakeup && !relay.remote_wakeup && !mirror.remote_wakeup,
        wait <==> role == Role::Relay,
{
}

// ---- the wheel's side ----

/// An LED command of the console (at least four bytes, `30 f8 12`) becomes a request to the wheel's
/// LED feature where that is known, whatever the command's length: `11 ff <index> 6b 00 01 00 0a 00
/// <level>` and zeros, the level twice the number of bits set in the low five of byte 3. Nothing
/// else does.
pub proof fn law_led_command_sent(link: &Link, report: &[u8], r: Option<[u8; 20]>, i: int)
    requires
        call_ensures(rev_lights, (link, report), r),
    ensures
        r is Some <==> link.led is Some && report@.len() >= 4 && report@[0] == 0x30 && report@[1]
            == 0xf8 && report@[2] == 0x12,
        r matches Some(msg) ==> {
            let m = report@[3] as int;
            &&& msg@[0] == 0x11 && msg@[1] == 0xff && Some(msg@[2]) == link.led && msg@[3] == 0x6b
            &&& msg@[4] == 0 && msg@[5] == 1 && msg@[6] == 0 && msg@[7] == 0x0a && msg@[8] == 0
            &&& msg@[9] == 2 * (m % 2 + m / 2 % 2 + m / 4 % 2 + m / 8 % 2 + m / 16 % 2)
            &&& 10 <= i < 20 ==> msg@[i] == 0
        },
{
    law_rev_command_recognised(report@);
    if let Some(msg) = r {
        law_rev_command_by_byte(link.led->0, msg@[9]);
    }
}

/// The report written to the wheel for a force feedback packet is 64 bytes: the packet's own, and
/// zeros.
pub proof fn law_wheel_report_by_byte(
    link: &mut Link,
    packet: &Packet,
    now: u64,
    r: ([u8; 64], Option<u32>),
    i: int,
)
    requires
        packet@.len() <= 64,
        0 <= i < 64,
        call_ensures(ffb_report, (link, packet, now), r),
    ensures
        i < packet@.len() ==> r.0@[i] == packet@[i],
        i >= packet@.len() ==> r.0@[i] == 0,
        packet@.len() >= 5 && packet@[4] != 1 ==> r.1 == Some(old(link).ffb_out_log.skipped),
{
    law_wheel_gets_every_byte(packet@);
}

/// What the wheel sends goes to the console as it is: force feedback always, HID++ but for the
/// bridge's own answers.
pub proof fn law_wheel_packets_go_on(
    link: &mut Link,
    dev: &mut Device,
    packet: Packet,
    now: u64,
    note: FfbNote,
    other: &mut Link,
    hidpp_dev: &mut Device,
    forwarded: bool,
)
    requires
        old(dev)@.ffb_in.len() < 8,
        call_ensures(proxy::on_ffb, (link, dev, packet, now), note),
        old(hidpp_dev)@.hidpp_in.len() < 32,
        call_ensures(proxy::on_hidpp, (other, hidpp_dev, packet), forwarded),
    ensures
        final(dev)@.ffb_in == old(dev)@.ffb_in.push(packet@),
        final(dev)@.stats == old(dev)@.stats,
        final(link).stats.ffb == counted(old(link).stats.ffb),
        final(link).ffb_gap.last == Some(now),
        forwarded <==> !old(other).waking && (old(hidpp_dev).profile.role == Role::Mirror
            || packet@.len() < 4 || packet@[3] & 0x0f != 0x0b),
        forwarded ==> final(hidpp_dev)@.hidpp_in == old(hidpp_dev)@.hidpp_in.push(packet@),
        !forwarded ==> final(hidpp_dev)@ == old(hidpp_dev)@,
        final(other).stats.hidpp == counted(old(other).stats.hidpp),
{
    law_wheel_messages(*old(other), old(hidpp_dev).profile.role, packet@);
}

/// A repeated request is `21 <request> <value> <index> <length>`, all words little-endian; a HID++
/// short request `21 09 10 02 01 00 07 00`, a long one `21 09 11 02 01 00 14 00`.
pub proof fn law_wheel_requests(
    msg: &ControlOut,
    repeat: [u8; 8],
    short: [u8; 8],
    long: [u8; 8],
)
    requires
        msg.data@.len() <= 64,
        call_ensures(repeat_setup, (msg,), repeat),
        call_ensures(hidpp_short_setup, (), short),
        call_ensures(hidpp_long_setup, (), long),
    ensures
        repeat@[0] == 0x21 && repeat@[1] == msg.request,
        repeat@[2] + 256 * repeat@[3] == msg.value,
        repeat@[4] + 256 * repeat@[5] == msg.index,
        repeat@[6] + 256 * repeat@[7] == msg.data@.len(),
        short@ == seq![0x21u8, 0x09, 0x10, 0x02, 0x01, 0x00, 0x07, 0x00],
        long@ == seq![0x21u8, 0x09, 0x11, 0x02, 0x01, 0x00, 0x14, 0x00],
{
    assert(short@ =~= seq![0x21u8, 0x09, 0x10, 0x02, 0x01, 0x00, 0x07, 0x00]);
    assert(long@ =~= seq![0x21u8, 0x09, 0x11, 0x02, 0x01, 0x00, 0x14, 0x00]);
}

/// Polling goes on 50 ms after any failure but a detach; a SET_IDLE that was refused is no failure;
/// a packet is slow where it took over 20 ms, and by exactly what it took; a change of the wheel's
/// answer to GET_STATUS is told once.
pub proof fn law_transfer_outcomes(
    e: TransferError,
    pause: Option<u64>,
    idle: bool,
    taken: u64,
    written: u64,
    slow: Option<u64>,
    responding: &mut bool,
    ok: bool,
    live: Liveness,
)
    requires
        taken <= written,
        call_ensures(keep_polling, (e,), pause),
        call_ensures(idle_failed, (Err(e),), idle),
        call_ensures(slow_ffb, (taken, written), slow),
        call_ensures(on_status, (responding, ok), live),
    ensures
        pause is None <==> e == TransferError::Disconnected || e == TransferError::Canceled,
        pause is Some ==> pause == Some(50_000u64),
        idle <==> e != TransferError::Stall,
        slow is Some <==> written > taken + 20_000,
        slow matches Some(t) ==> taken + t == written,
        *final(responding) == ok,
        live is Unchanged <==> *old(responding) == ok,
        live is StoppedResponding <==> *old(responding) && !ok,
        live is RespondingAgain <==> !*old(responding) && ok,
{
}

/// What a c269 behind the bridge sends goes to the console as it came, on the same path; each is
/// counted.
pub proof fn law_relayed_packets_go_on(
    backend: &mut Backend,
    dev: &mut Device,
    packet: Packet,
    second: &mut Backend,
    hidpp_dev: &mut Device,
    third: &mut Backend,
    ffb_dev: &mut Device,
    now: u64,
    log: Option<u32>,
)
    requires
        old(dev)@.input_in.len() < 8,
        call_ensures(relay::on_input, (backend, dev, packet), ()),
        old(hidpp_dev)@.hidpp_in.len() < 32,
        call_ensures(relay::on_hidpp, (second, hidpp_dev, packet), ()),
        old(ffb_dev)@.ffb_in.len() < 8,
        call_ensures(relay::on_ffb, (third, ffb_dev, packet, now), log),
    ensures
        final(dev)@ == (Port { input_in: old(dev)@.input_in.push(packet@), ..old(dev)@ }),
        final(hidpp_dev)@ == (Port {
            hidpp_in: old(hidpp_dev)@.hidpp_in.push(packet@),
            ..old(hidpp_dev)@
        }),
        final(ffb_dev)@ == (Port {
            ffb_in: old(ffb_dev)@.ffb_in.push(packet@),
            ..old(ffb_dev)@
        }),
        final(backend).stats.input == counted(old(backend).stats.input),
        final(second).stats.hidpp == counted(old(second).stats.hidpp),
        final(third).stats.ffb == counted(old(third).stats.ffb),
{
}

/// A packet that reached the backend is counted on its own path, and a failure ends the path and
/// counts nothing; so with a HID++ request that was repeated.
pub proof fn law_relayed_packets_counted(
    backend: &mut Backend,
    path: OutPath,
    ok: bool,
    more: bool,
    other: &mut Backend,
    msg: &ControlOut,
)
    requires
        call_ensures(written, (backend, path, ok), more),
        call_ensures(relay::request_repeated, (other, msg, ok), ()),
    ensures
        more == ok,
        !ok ==> *final(backend) == *old(backend) && *final(other) == *old(other),
        ok && path is If0 ==> final(backend).stats.if0_written == counted(
            old(backend).stats.if0_written,
        ) && final(backend).stats.ffb_written == old(backend).stats.ffb_written,
        ok && path is Ffb ==> final(backend).stats.ffb_written == counted(
            old(backend).stats.ffb_written,
        ) && final(backend).stats.if0_written == old(backend).stats.if0_written,
        ok && msg.request == 9 && msg.index == 1 ==> final(other).stats.hidpp_written == counted(
            old(other).stats.hidpp_written,
        ),
        !(msg.request == 9 && msg.index == 1) ==> *final(other) == *old(other),
{
}

/// What the console is told of the wheel's report: the wheel's angle as it is, each pedal counted
/// down from 0xffff, the hat as it is; each of the four face buttons where its counterpart is
/// pressed, and the PS button for the Xbox button.
pub proof fn law_translated_report_by_axis(src: &[u8; 30], r: [u8; 64])
    requires
        call_ensures(translate, (src,), r),
    ensures
        r@[43] == src@[4] && r@[44] == src@[5],
        r@[45] + 256 * r@[46] + src@[6] + 256 * src@[7] == 0xffff,
        r@[47] + 256 * r@[48] + src@[8] + 256 * src@[9] == 0xffff,
        r@[49] + 256 * r@[50] + src@[10] + 256 * src@[11] == 0xffff,
        r@[5] & 0x0f == src@[0] & 0x0f,
        (r@[5] & 0x20 != 0) == (src@[0] & 0x10 != 0),
        (r@[5] & 0x10 != 0) == (src@[0] & 0x20 != 0),
        (r@[5] & 0x40 != 0) == (src@[0] & 0x40 != 0),
        (r@[5] & 0x80 != 0) == (src@[0] & 0x80 != 0),
        (r@[7] == 1) == (src@[3] & 0x80 != 0),
        r@[0] == 1,
{
    law_axes(src@);
    law_hat_and_face_buttons(src@);
    law_rotary_and_ps_button(src@);
    law_neutral_report(0);
}

// ---- the signer's side ----

/// A reset of the console is passed on as GET F3 of 8 bytes; a nonce page goes to the signer as it
/// came. A signer that takes over keeps the console's nonce.
pub proof fn law_console_events_passed_on(
    s: &mut Signer,
    page: Packet,
    reset: signer::Action,
    t: &mut Signer,
    sent: signer::Action,
    other: &mut Signer,
    k: int,
)
    requires
        call_ensures(Signer::handle, (s, Cmd::Reset), reset),
        call_ensures(Signer::handle, (t, Cmd::Nonce(page)), sent),
        call_ensures(Signer::restart, (other,), ()),
        0 <= k < 5,
    ensures
        reset matches signer::Action::Get { id, len } && id == 0xf3 && len == 8,
        sent matches signer::Action::Send(p) && p@ == page@,
        final(other)@.nonce[k] == old(other)@.nonce[k],
        final(other)@.refused == old(other)@.refused,
        final(other).phase is Idle,
{
}

// ---- enumeration ----

/// How a device is served: the wheel is proxied, a c269 relayed, a hub not at all; any other device
/// signs for the console with its first HID interface, in the wheel role, and is only watched
/// otherwise.
pub proof fn law_devices_served(
    kind: Kind,
    role: Role,
    ifaces: &[Option<HidInterface>; 4],
    s: Service,
    k: int,
)
    requires
        call_ensures(serve_device, (kind, role, ifaces), s),
        0 <= k < 4,
        ifaces@[k] is Some,
        forall|j: int| 0 <= j < k ==> (#[trigger] ifaces@[j]) is None,
    ensures
        kind == Kind::Wheel <==> s is Proxy,
        kind == Kind::RelayBackend <==> s is Relay,
        kind == Kind::Hub <==> s is Nothing,
        kind == Kind::Other && role == Role::Wheel ==> (s matches Service::Sign { iface } && iface
            == ifaces@[k]->0.number),
        kind == Kind::Other && role != Role::Wheel ==> s is Monitor,
{
    law_first_interface(ifaces@, k);
}

/// The requests of the enumeration, byte by byte: a string descriptor `80 06 <index> 03 <langid> ff
/// 00`; a report descriptor `81 06 00 22 <interface> 00 <length>`, of at most 512 bytes; SET_IDLE
/// `21 0a 00 00 <interface> 00 00`.
pub proof fn law_enumeration_requests(
    index: u8,
    langid: u16,
    string: [u8; 8],
    iface: &HidInterface,
    report: ([u8; 8], u16),
    number: u16,
    idle: [u8; 8],
)
    requires
        call_ensures(string_request, (index, langid), string),
        call_ensures(report_desc_request, (iface,), report),
        call_ensures(set_idle, (number,), idle),
    ensures
        string@[0] == 0x80 && string@[1] == 6 && string@[2] == index && string@[3] == 3,
        string@[4] + 256 * string@[5] == langid,
        string@[6] == 255 && string@[7] == 0,
        report.0@[0] == 0x81 && report.0@[1] == 6 && report.0@[2] == 0 && report.0@[3] == 0x22,
        report.0@[4] == iface.number && report.0@[5] == 0,
        report.0@[6] + 256 * report.0@[7] == report.1,
        iface.report_desc_len <= 512 ==> report.1 == iface.report_desc_len,
        iface.report_desc_len > 512 ==> report.1 == 512,
        idle@[0] == 0x21 && idle@[1] == 0x0a && idle@[2] == 0 && idle@[3] == 0,
        idle@[4] + 256 * idle@[5] == number,
        idle@[6] == 0 && idle@[7] == 0,
{
}

/// Strings are asked for in the first language of the device's table (bytes 2 and 3 of a string
/// descriptor of at least four bytes), and in US English where there is none.
pub proof fn law_language_asked_for(reply: &[u8], r: u16, none: u16)
    requires
        call_ensures(langid, (Some(reply),), r),
        call_ensures(langid, (None::<&[u8]>,), none),
    ensures
        reply@.len() >= 4 && reply@[1] == 3 && reply@[0] >= 4 ==> r == reply@[2] + 256 * reply@[3],
        !(reply@.len() >= 4 && reply@[1] == 3 && reply@[0] >= 4) ==> r == 0x0409,
        none == 0x0409,
{
}

/// An interface's reports are watched where it has an IN endpoint with packets of at most 64 bytes.
pub proof fn law_watched_endpoints(iface: Option<HidInterface>, w: Watch)
    requires
        call_ensures(watch, (iface,), w),
    ensures
        iface is None ==> w is Nothing,
        iface matches Some(i) ==> {
            &&& i.in_ep is None ==> w is Nothing
            &&& i.in_ep matches Some(e) ==> (e.max_packet_size <= 64 ==> w == Watch::At(e))
            &&& i.in_ep matches Some(e) ==> (e.max_packet_size > 64 ==> w == Watch::Unsupported(
                e.max_packet_size,
            ))
        },
{
}

// ---- the log ----

/// What the UART gets is what was logged, oldest first: the bytes moved are the first of those that
/// wait, and the others stay.
pub proof fn law_log_drained_in_order(
    logger: &mut Logger,
    chunk: &mut [u8],
    n: usize,
    i: int,
)
    requires
        old(logger)@.valid(),
        call_ensures(Logger::drain, (logger, chunk), n),
    ensures
        n <= old(chunk)@.len() && n <= old(logger)@.bytes.len(),
        n == 0 <==> old(logger)@.bytes.len() == 0 || old(chunk)@.len() == 0,
        0 <= i < n ==> final(chunk)@[i] == old(logger)@.bytes[i],
        n <= i < old(chunk)@.len() ==> final(chunk)@[i] == old(chunk)@[i],
        final(logger)@.bytes.len() == old(logger)@.bytes.len() - n,
        0 <= i < final(logger)@.bytes.len() ==> final(logger)@.bytes[i] == old(logger)@.bytes[i + n],
        final(logger)@.dropped == old(logger)@.dropped,
{
    if 0 <= i < n {
        assert(old(logger)@.bytes.take(n as int)[i] == old(logger)@.bytes[i]);
    }
}

/// A recording is replayed in order, each request after its pause (in the recording in ms, here in
/// microseconds), whether or not the one before went through; failures are counted.
pub proof fn law_recording_replayed(
    replay: &mut Replay,
    recording: &Recording,
    r: Option<(u64, [u8; 7])>,
    ok: bool,
)
    requires
        call_ensures(Replay::request, (&*old(replay), recording), r),
        old(replay).next < recording@.len(),
        call_ensures(Replay::on_sent, (replay, recording, ok), ()),
    ensures
        r matches Some(next) && next.0 == 1000 * recording@[old(replay).next as int].0 && next.1
            == recording@[old(replay).next as int].1,
        final(replay).next == old(replay).next + 1,
        ok ==> final(replay).failed == old(replay).failed,
        !ok ==> final(replay).failed == counted(old(replay).failed),
{
}

} // verus!
