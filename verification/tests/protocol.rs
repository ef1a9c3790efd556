//! End-to-end tests of the CTAPHID framer and the command handlers.

use softfido::auth::{Outcome, PendingAction};
use softfido::ctaphid::{frame_message, Parser};
use softfido::usb::{Device, UrbOutcome, URB};

/// Decode an INIT+CONT packet stream back into (cid, cmd, payload).
fn assemble(frames: &[Vec<u8>]) -> (u32, u8, Vec<u8>) {
    let f = &frames[0];
    assert_eq!(f.len(), 64);
    let cid = u32::from_le_bytes([f[0], f[1], f[2], f[3]]);
    assert!(f[4] >= 0x80, "not an INIT packet");
    let cmd = f[4] - 0x80;
    let bcnt = (f[5] as usize) * 256 + (f[6] as usize);
    let mut payload: Vec<u8> = Vec::new();
    payload.extend_from_slice(&f[7..64.min(7 + bcnt)]);
    let mut seq = 0u8;
    let mut k = 1;
    while payload.len() < bcnt {
        let c = &frames[k];
        assert_eq!(c.len(), 64);
        assert_eq!(u32::from_le_bytes([c[0], c[1], c[2], c[3]]), cid);
        assert_eq!(c[4], seq);
        let want = (bcnt - payload.len()).min(59);
        payload.extend_from_slice(&c[5..5 + want]);
        seq += 1;
        k += 1;
    }
    assert_eq!(k, frames.len(), "extra frames");
    payload.truncate(bcnt);
    (cid, cmd, payload)
}

/// Pull every ready frame out of the framer.
fn drain(p: &mut Parser) -> Vec<Vec<u8>> {
    let mut out = Vec::new();
    while let Some(f) = p.next_frame() {
        out.push(f);
    }
    out
}

/// Allocate a channel through a broadcast INIT and return its id.
fn open_channel(p: &mut Parser) -> u32 {
    let nonce = [0xA0u8, 0xA1, 0xA2, 0xA3, 0xA4, 0xA5, 0xA6, 0xA7];
    let frames = frame_message(0xFFFF_FFFF, 0x06, &nonce);
    p.handle_packet(&frames[0]);
    let reply = drain(p);
    let (cid, cmd, payload) = assemble(&reply);
    assert_eq!(cid, 0xFFFF_FFFF);
    assert_eq!(cmd, 0x06);
    assert_eq!(&payload[0..8], &nonce);
    u32::from_le_bytes([payload[8], payload[9], payload[10], payload[11]])
}

fn send_message(p: &mut Parser, cid: u32, cmd: u8, payload: &[u8]) {
    for f in frame_message(cid, cmd, payload) {
        p.handle_packet(&f);
    }
}

#[test]
fn test_init_on_broadcast() {
    // CID=FFFFFFFF, CMD=0x86, BCNT=8, nonce 11..88; the reply repeats the
    // nonce, then a fresh CID, protover 2, version triple, capflags 0x05.
    let mut p = Parser::new();
    let mut pkt = vec![0xFFu8, 0xFF, 0xFF, 0xFF, 0x86, 0x00, 0x08];
    pkt.extend_from_slice(&[0x11, 0x22, 0x33, 0x44, 0x55, 0x66, 0x77, 0x88]);
    pkt.resize(64, 0);
    p.handle_packet(&pkt);
    let reply = drain(&mut p);
    let (cid, cmd, payload) = assemble(&reply);
    assert_eq!(cid, 0xFFFF_FFFF);
    assert_eq!(cmd, 0x06);
    assert_eq!(payload.len(), 17);
    assert_eq!(&payload[0..8], &[0x11, 0x22, 0x33, 0x44, 0x55, 0x66, 0x77, 0x88]);
    let new_cid = u32::from_le_bytes([payload[8], payload[9], payload[10], payload[11]]);
    assert!(new_cid != 0 && new_cid != 0xFFFF_FFFF);
    assert_eq!(payload[12], 2); // protocol version
    assert_eq!(payload[16], 0x05); // WINK | CBOR
}

#[test]
fn test_ping_round_trip_short() {
    let mut p = Parser::new();
    let cid = open_channel(&mut p);
    let payload = [0xDEu8, 0xAD, 0xBE, 0xEF];
    send_message(&mut p, cid, 0x01, &payload);
    let (rcid, rcmd, rp) = assemble(&drain(&mut p));
    assert_eq!((rcid, rcmd), (cid, 0x01));
    assert_eq!(rp, payload);
}

#[test]
fn test_ping_round_trip_long() {
    // A payload spanning one INIT and several CONT packets.
    let mut p = Parser::new();
    let cid = open_channel(&mut p);
    let payload: Vec<u8> = (0..500u32).map(|i| (i % 251) as u8).collect();
    send_message(&mut p, cid, 0x01, &payload);
    let (rcid, rcmd, rp) = assemble(&drain(&mut p));
    assert_eq!((rcid, rcmd), (cid, 0x01));
    assert_eq!(rp, payload);
}

#[test]
fn test_ping_round_trip_max() {
    // The largest message: 7609 bytes.
    let mut p = Parser::new();
    let cid = open_channel(&mut p);
    let payload: Vec<u8> = (0..7609u32).map(|i| (i % 241) as u8).collect();
    send_message(&mut p, cid, 0x01, &payload);
    let (rcid, rcmd, rp) = assemble(&drain(&mut p));
    assert_eq!((rcid, rcmd), (cid, 0x01));
    assert_eq!(rp, payload);
}

#[test]
fn test_wrong_seq_aborts_message() {
    let mut p = Parser::new();
    let cid = open_channel(&mut p);
    let payload: Vec<u8> = vec![7u8; 200];
    let frames = frame_message(cid, 0x01, &payload);
    p.handle_packet(&frames[0]);
    // Inject the second continuation first: SEQ 1 instead of 0.
    p.handle_packet(&frames[2]);
    let (rcid, rcmd, rp) = assemble(&drain(&mut p));
    assert_eq!((rcid, rcmd), (cid, 0x3F)); // ERROR
    assert_eq!(rp, vec![0x04]); // ERR_INVALID_SEQ
    // The message was abandoned: the correct continuation is now spurious
    // and ignored.
    p.handle_packet(&frames[1]);
    assert!(p.next_frame().is_none());
}

#[test]
fn test_channel_isolation() {
    // Two PINGs on two channels, interleaved packet by packet, each get
    // their own payload back.
    let mut p = Parser::new();
    let cid_a = open_channel(&mut p);
    let cid_b = open_channel(&mut p);
    assert_ne!(cid_a, cid_b);
    let pay_a: Vec<u8> = vec![0xAA; 150];
    let pay_b: Vec<u8> = vec![0xBB; 150];
    let fa = frame_message(cid_a, 0x01, &pay_a);
    let fb = frame_message(cid_b, 0x01, &pay_b);
    assert_eq!(fa.len(), fb.len());
    // Interleave, finishing A first.
    for k in 0..fa.len() {
        p.handle_packet(&fa[k]);
        if k + 1 < fb.len() {
            p.handle_packet(&fb[k]);
        }
    }
    p.handle_packet(&fb[fb.len() - 1]);
    let all = drain(&mut p);
    let n = fa.len();
    let (ra_cid, ra_cmd, ra) = assemble(&all[0..n]);
    let (rb_cid, rb_cmd, rb) = assemble(&all[n..]);
    assert_eq!((ra_cid, ra_cmd), (cid_a, 0x01));
    assert_eq!(ra, pay_a);
    assert_eq!((rb_cid, rb_cmd), (cid_b, 0x01));
    assert_eq!(rb, pay_b);
}

#[test]
fn test_wink_and_unknown_command() {
    let mut p = Parser::new();
    let cid = open_channel(&mut p);
    send_message(&mut p, cid, 0x08, &[]);
    let (rcid, rcmd, rp) = assemble(&drain(&mut p));
    assert_eq!((rcid, rcmd, rp.len()), (cid, 0x08, 0));
    // LOCK is not implemented and counts as unknown.
    send_message(&mut p, cid, 0x04, &[5]);
    let (_, ecmd, ep) = assemble(&drain(&mut p));
    assert_eq!(ecmd, 0x3F);
    assert_eq!(ep, vec![0x01]); // ERR_INVALID_CMD
}

#[test]
fn test_reserved_and_unknown_cid() {
    let mut p = Parser::new();
    // CID 0 answers on broadcast with ERR_INVALID_CID.
    let mut pkt = vec![0u8, 0, 0, 0, 0x81, 0x00, 0x00];
    pkt.resize(64, 0);
    p.handle_packet(&pkt);
    let (rcid, rcmd, rp) = assemble(&drain(&mut p));
    assert_eq!((rcid, rcmd), (0xFFFF_FFFF, 0x3F));
    assert_eq!(rp, vec![0x0B]);
    // A never-allocated channel is refused too.
    let mut pkt2 = vec![0x99u8, 0x00, 0x00, 0x00, 0x81, 0x00, 0x00];
    pkt2.resize(64, 0);
    p.handle_packet(&pkt2);
    let (rcid2, rcmd2, rp2) = assemble(&drain(&mut p));
    assert_eq!((rcid2, rcmd2), (0x99, 0x3F));
    assert_eq!(rp2, vec![0x0B]);
}

#[test]
fn test_u2f_version() {
    // MSG payload 00 03 00 00 00 00 00 00 00 replies "U2F_V2" + 9000.
    let mut p = Parser::new();
    let cid = open_channel(&mut p);
    send_message(&mut p, cid, 0x03, &[0, 3, 0, 0, 0, 0, 0, 0, 0]);
    let (rcid, rcmd, rp) = assemble(&drain(&mut p));
    assert_eq!((rcid, rcmd), (cid, 0x03));
    assert_eq!(rp, vec![0x55, 0x32, 0x46, 0x5F, 0x56, 0x32, 0x90, 0x00]);
}

#[test]
fn test_u2f_unknown_ins_and_bad_length() {
    let mut p = Parser::new();
    let cid = open_channel(&mut p);
    send_message(&mut p, cid, 0x03, &[0, 0x44, 0, 0]);
    let (_, _, rp) = assemble(&drain(&mut p));
    assert_eq!(rp, vec![0x6D, 0x00]); // SW_INS_NOT_SUPPORTED
    // REGISTER with a short data field.
    send_message(&mut p, cid, 0x03, &[0, 1, 0, 0, 7, 1, 2, 3, 4, 5, 6, 7]);
    let (_, _, rp2) = assemble(&drain(&mut p));
    assert_eq!(rp2, vec![0x67, 0x00]); // SW_WRONG_LENGTH
}

#[test]
fn test_u2f_counter_monotonic() {
    // Two AUTHENTICATE rounds: each successful reply carries a counter
    // strictly greater than the one before.
    let mut p = Parser::new();
    let cid = open_channel(&mut p);
    let mut apdu = vec![0u8, 2, 0x03, 0, 0, 0, 97];
    apdu.extend_from_slice(&[0x11; 32]); // challenge
    apdu.extend_from_slice(&[0x22; 32]); // application
    apdu.push(32); // key handle length
    apdu.extend_from_slice(&[0x33; 32]); // key handle
    let mut counters = Vec::new();
    for _ in 0..2 {
        send_message(&mut p, cid, 0x03, &apdu);
        assert!(p.next_frame().is_none(), "waiting on prompt and key store");
        assert!(matches!(
            p.pending.as_ref().unwrap().action,
            PendingAction::U2fSign { .. }
        ));
        p.resolve(Outcome::U2fSigned { signature: vec![9u8; 70] });
        let (_, rcmd, rp) = assemble(&drain(&mut p));
        assert_eq!(rcmd, 0x03);
        assert_eq!(rp[0], 1); // user presence
        let c = u32::from_be_bytes([rp[1], rp[2], rp[3], rp[4]]);
        counters.push(c);
        assert_eq!(&rp[rp.len() - 2..], &[0x90, 0x00]);
    }
    assert!(counters[1] > counters[0]);
}

#[test]
fn test_u2f_register_reply_shape() {
    let mut p = Parser::new();
    let cid = open_channel(&mut p);
    let mut apdu = vec![0u8, 1, 0, 0, 0, 0, 64];
    apdu.extend_from_slice(&[0x11; 32]);
    apdu.extend_from_slice(&[0x22; 32]);
    send_message(&mut p, cid, 0x03, &apdu);
    assert!(matches!(
        p.pending.as_ref().unwrap().action,
        PendingAction::U2fRegister { .. }
    ));
    p.resolve(Outcome::U2fRegistered {
        public_key: vec![4u8; 65],
        key_handle: vec![0x77; 40],
        certificate: vec![0x88; 100],
        signature: vec![0x99; 70],
    });
    let (_, rcmd, rp) = assemble(&drain(&mut p));
    assert_eq!(rcmd, 0x03);
    assert_eq!(rp[0], 0x05);
    assert_eq!(rp[66], 40); // key handle length
    assert_eq!(rp.len(), 1 + 65 + 1 + 40 + 100 + 70 + 2);
    assert_eq!(&rp[rp.len() - 2..], &[0x90, 0x00]);
}

#[test]
fn test_u2f_register_declined() {
    let mut p = Parser::new();
    let cid = open_channel(&mut p);
    let mut apdu = vec![0u8, 1, 0, 0, 0, 0, 64];
    apdu.extend_from_slice(&[0x11; 64]);
    send_message(&mut p, cid, 0x03, &apdu);
    p.resolve(Outcome::Denied);
    let (_, _, rp) = assemble(&drain(&mut p));
    assert_eq!(rp, vec![0x69, 0x85]); // SW_CONDITIONS_NOT_SATISFIED
}

#[test]
fn test_channel_busy_while_pending() {
    let mut p = Parser::new();
    let cid_a = open_channel(&mut p);
    let cid_b = open_channel(&mut p);
    let mut apdu = vec![0u8, 1, 0, 0, 0, 0, 64];
    apdu.extend_from_slice(&[0x11; 64]);
    send_message(&mut p, cid_a, 0x03, &apdu);
    // A second command while the prompt is outstanding is refused.
    send_message(&mut p, cid_b, 0x10, &[0x04]);
    let (rcid, rcmd, rp) = assemble(&drain(&mut p));
    assert_eq!((rcid, rcmd), (cid_b, 0x3F));
    assert_eq!(rp, vec![0x06]); // ERR_CHANNEL_BUSY
}

#[test]
fn test_cancel_makecredential() {
    // Start MakeCredential, cancel it on the same channel: the reply is a
    // CBOR response with status CTAP2_ERR_KEEPALIVE_CANCEL (0x2D).
    let mut p = Parser::new();
    let cid = open_channel(&mut p);
    // {1: h'41..', 2: {"id": "example.com"}, 3: {"id": h'55'},
    //  4: [{"alg": -7, "type": "public-key"}]}
    let mut params = vec![0x01u8]; // MakeCredential
    params.push(0xA4);
    params.extend_from_slice(&[0x01, 0x58, 0x20]);
    params.extend_from_slice(&[0x41; 32]);
    params.extend_from_slice(&[0x02, 0xA1, 0x62, 0x69, 0x64, 0x6B]);
    params.extend_from_slice(b"example.com");
    params.extend_from_slice(&[0x03, 0xA1, 0x62, 0x69, 0x64, 0x41, 0x55]);
    params.extend_from_slice(&[0x04, 0x81, 0xA2, 0x63, 0x61, 0x6C, 0x67, 0x26]);
    params.extend_from_slice(&[0x64, 0x74, 0x79, 0x70, 0x65, 0x6A]);
    params.extend_from_slice(b"public-key");
    send_message(&mut p, cid, 0x10, &params);
    assert!(matches!(
        p.pending.as_ref().unwrap().action,
        PendingAction::MakeCredential { .. }
    ));
    assert!(p.next_frame().is_none(), "still waiting on the prompt");
    // Keepalives flow while the prompt is open.
    p.keepalive();
    let (kcid, kcmd, kp) = assemble(&drain(&mut p));
    assert_eq!((kcid, kcmd), (cid, 0x3B));
    assert_eq!(kp, vec![0x02]);
    // CANCEL on the same channel.
    send_message(&mut p, cid, 0x11, &[]);
    assert!(p.pending.as_ref().unwrap().cancelled);
    p.resolve(Outcome::Denied); // whatever the prompt later says
    let (rcid, rcmd, rp) = assemble(&drain(&mut p));
    assert_eq!((rcid, rcmd), (cid, 0x10));
    assert_eq!(rp, vec![0x2D]);
    // The cancelled command minted nothing: its counter value is released.
    assert_eq!(p.auth.counter, 0);
}

#[test]
fn test_pin_lockout() {
    // Three wrong PINs block getPINToken until reboot; the eighth wrong
    // PIN over reboots blocks it for good.
    let mut p = Parser::new();
    let cid = open_channel(&mut p);
    p.auth.pin_set = true;
    // {1: 1, 2: 5}: getPINToken, protocol 1.
    let req = [0x06u8, 0xA2, 0x01, 0x01, 0x02, 0x05];
    let mut statuses = Vec::new();
    for _ in 0..3 {
        send_message(&mut p, cid, 0x10, &req);
        p.resolve(Outcome::PinChecked { correct: false, pin_token: vec![] });
        let (_, _, rp) = assemble(&drain(&mut p));
        statuses.push(rp[0]);
    }
    assert_eq!(statuses, vec![0x31, 0x31, 0x34]);
    // The fourth attempt is refused before the key store is asked.
    send_message(&mut p, cid, 0x10, &req);
    let (_, _, rp) = assemble(&drain(&mut p));
    assert_eq!(rp, vec![0x34]); // ERR_PIN_AUTH_BLOCKED
    assert!(p.pending.is_none());
    // Simulated reboots: the per-boot counter clears, retries persist.
    loop {
        p.auth.consecutive_wrong = 0;
        send_message(&mut p, cid, 0x10, &req);
        if p.pending.is_some() {
            p.resolve(Outcome::PinChecked { correct: false, pin_token: vec![] });
            let (_, _, rp) = assemble(&drain(&mut p));
            if rp[0] == 0x32 {
                break; // ERR_PIN_BLOCKED: the retry budget is gone
            }
            assert!(rp[0] == 0x31 || rp[0] == 0x34);
        } else {
            panic!("pre-check refused before retries ran out");
        }
    }
    assert_eq!(p.auth.pin_retries, 0);
    // Blocked for good, even after another reboot.
    p.auth.consecutive_wrong = 0;
    send_message(&mut p, cid, 0x10, &req);
    let (_, _, rp) = assemble(&drain(&mut p));
    assert_eq!(rp, vec![0x32]);
}

#[test]
fn test_pin_token_success_resets_budget() {
    let mut p = Parser::new();
    let cid = open_channel(&mut p);
    p.auth.pin_set = true;
    p.auth.pin_retries = 5;
    p.auth.consecutive_wrong = 2;
    let req = [0x06u8, 0xA2, 0x01, 0x01, 0x02, 0x05];
    send_message(&mut p, cid, 0x10, &req);
    p.resolve(Outcome::PinChecked { correct: true, pin_token: vec![0x5A; 16] });
    let (_, rcmd, rp) = assemble(&drain(&mut p));
    assert_eq!(rcmd, 0x10);
    // {2: h'5A...'}
    assert_eq!(rp[0], 0x00);
    assert_eq!(&rp[1..4], &[0xA1, 0x02, 0x50]);
    assert_eq!(&rp[4..20], &[0x5A; 16]);
    assert_eq!(p.auth.pin_retries, 8);
    assert_eq!(p.auth.consecutive_wrong, 0);
}

#[test]
fn test_get_retries() {
    let mut p = Parser::new();
    let cid = open_channel(&mut p);
    p.auth.pin_set = true;
    p.auth.pin_retries = 6;
    // {1: 1, 2: 1}: getRetries.
    send_message(&mut p, cid, 0x10, &[0x06, 0xA2, 0x01, 0x01, 0x02, 0x01]);
    let (_, _, rp) = assemble(&drain(&mut p));
    assert_eq!(rp, vec![0x00, 0xA1, 0x03, 0x06]);
}

#[test]
fn test_ctap2_get_next_assertion_not_allowed() {
    let mut p = Parser::new();
    let cid = open_channel(&mut p);
    send_message(&mut p, cid, 0x10, &[0x08]);
    let (_, _, rp) = assemble(&drain(&mut p));
    assert_eq!(rp, vec![0x30]); // CTAP2_ERR_NOT_ALLOWED
    send_message(&mut p, cid, 0x10, &[0x40]);
    let (_, _, rp2) = assemble(&drain(&mut p));
    assert_eq!(rp2, vec![0x01]); // CTAP1_ERR_INVALID_COMMAND
}

#[test]
fn test_device_endpoints() {
    // The device routes EP2 OUT into the framer and EP1 IN out of it.
    let mut dev = Device::new();
    let nonce = [1u8, 2, 3, 4, 5, 6, 7, 8];
    let frames = frame_message(0xFFFF_FFFF, 0x06, &nonce);
    dev.ep2_host2dev(&frames[0]);
    let reply = dev.ep1_dev2host().expect("an INIT reply is ready");
    assert_eq!(reply.len(), 64);
    assert_eq!(&reply[0..4], &[0xFF, 0xFF, 0xFF, 0xFF]);
    assert_eq!(reply[4], 0x86);
    assert!(dev.ep1_dev2host().is_none(), "EP1 parks when idle");
}

#[test]
fn test_urb_routing() {
    let mut dev = Device::new();
    // EP0 IN: the device descriptor.
    let get_dev = URB {
        endpoint: 0,
        dev_to_host: true,
        transfer_buffer: vec![0x80, 0x06, 0x00, 0x01, 0x00, 0x00, 0x12, 0x00],
    };
    match dev.handle_urb(&get_dev) {
        UrbOutcome::Data(v) => assert_eq!(v.len(), 18),
        _ => panic!("GetDescriptor answers with data"),
    }
    // EP1 IN parks while nothing is queued.
    let ep1 = URB { endpoint: 1, dev_to_host: true, transfer_buffer: vec![] };
    assert!(matches!(dev.handle_urb(&ep1), UrbOutcome::Park));
    assert!(!dev.ep1_ready());
    // EP2 OUT wakes it.
    let frames = frame_message(0xFFFF_FFFF, 0x06, &[8u8; 8]);
    let ep2 = URB { endpoint: 2, dev_to_host: false, transfer_buffer: frames[0].clone() };
    assert!(matches!(dev.handle_urb(&ep2), UrbOutcome::Ack));
    assert!(dev.ep1_ready());
    match dev.handle_urb(&ep1) {
        UrbOutcome::Data(v) => assert_eq!(v.len(), 64),
        _ => panic!("a frame is ready"),
    }
    // An unknown endpoint stalls.
    let bad = URB { endpoint: 3, dev_to_host: true, transfer_buffer: vec![] };
    assert!(matches!(dev.handle_urb(&bad), UrbOutcome::Stall));
}
