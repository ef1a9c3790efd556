//! CTAP2 command flows through the framer: parameter decoding, pending
//! actions, outcome handling, and error statuses.

use softfido::auth::{Outcome, PendingAction};
use softfido::ctaphid::{frame_message, Parser};

fn assemble(frames: &[Vec<u8>]) -> (u32, u8, Vec<u8>) {
    let f = &frames[0];
    let cid = u32::from_le_bytes([f[0], f[1], f[2], f[3]]);
    assert!(f[4] >= 0x80);
    let cmd = f[4] - 0x80;
    let bcnt = (f[5] as usize) * 256 + (f[6] as usize);
    let mut payload: Vec<u8> = Vec::new();
    payload.extend_from_slice(&f[7..64.min(7 + bcnt)]);
    let mut seq = 0u8;
    let mut k = 1;
    while payload.len() < bcnt {
        let c = &frames[k];
        assert_eq!(c[4], seq);
        let want = (bcnt - payload.len()).min(59);
        payload.extend_from_slice(&c[5..5 + want]);
        seq += 1;
        k += 1;
    }
    (cid, cmd, payload)
}

fn drain(p: &mut Parser) -> Vec<Vec<u8>> {
    let mut out = Vec::new();
    while let Some(f) = p.next_frame() {
        out.push(f);
    }
    out
}

fn open_channel(p: &mut Parser) -> u32 {
    let frames = frame_message(0xFFFF_FFFF, 0x06, &[9, 9, 9, 9, 9, 9, 9, 9]);
    p.handle_packet(&frames[0]);
    let (_, _, payload) = assemble(&drain(p));
    u32::from_le_bytes([payload[8], payload[9], payload[10], payload[11]])
}

fn send_cbor(p: &mut Parser, cid: u32, payload: &[u8]) {
    for f in frame_message(cid, 0x10, payload) {
        p.handle_packet(&f);
    }
}

/// A well-formed MakeCredential request: clientDataHash, rp, user and
/// pubKeyCredParams, with `extra` appended as further map entries.
fn mc_request(map_len: u8, extra: &[u8]) -> Vec<u8> {
    let mut params = vec![0x01u8, 0xA0 + map_len];
    params.extend_from_slice(&[0x01, 0x58, 0x20]);
    params.extend_from_slice(&[0x41; 32]);
    params.extend_from_slice(&[0x02, 0xA1, 0x62, 0x69, 0x64, 0x6B]);
    params.extend_from_slice(b"example.com");
    params.extend_from_slice(&[0x03, 0xA1, 0x62, 0x69, 0x64, 0x41, 0x55]);
    params.extend_from_slice(&[0x04, 0x81, 0xA2, 0x63, 0x61, 0x6C, 0x67, 0x26]);
    params.extend_from_slice(&[0x64, 0x74, 0x79, 0x70, 0x65, 0x6A]);
    params.extend_from_slice(b"public-key");
    params.extend_from_slice(extra);
    params
}

#[test]
fn test_make_credential_missing_parameter() {
    let mut p = Parser::new();
    let cid = open_channel(&mut p);
    // {2: {"id": "x"}} without a clientDataHash.
    send_cbor(&mut p, cid, &[0x01, 0xA1, 0x02, 0xA1, 0x62, 0x69, 0x64, 0x61, 0x78]);
    let (_, _, rp) = assemble(&drain(&mut p));
    assert_eq!(rp, vec![0x14]); // CTAP2_ERR_MISSING_PARAMETER
}

#[test]
fn test_client_pin_wrong_protocol() {
    let mut p = Parser::new();
    let cid = open_channel(&mut p);
    // {1: 2, 2: 5}: protocol 2 is not offered.
    send_cbor(&mut p, cid, &[0x06, 0xA2, 0x01, 0x02, 0x02, 0x05]);
    let (_, _, rp) = assemble(&drain(&mut p));
    assert_eq!(rp, vec![0x02]); // CTAP1_ERR_INVALID_PARAMETER
}

#[test]
fn test_reset_clears_pin_state() {
    let mut p = Parser::new();
    let cid = open_channel(&mut p);
    p.auth.pin_set = true;
    p.auth.pin_retries = 2;
    p.auth.consecutive_wrong = 3;
    send_cbor(&mut p, cid, &[0x07]);
    assert!(matches!(p.pending.as_ref().unwrap().action, PendingAction::Reset));
    p.resolve(Outcome::ResetDone);
    let (_, _, rp) = assemble(&drain(&mut p));
    assert_eq!(rp, vec![0x00]);
    assert!(!p.auth.pin_set);
    assert_eq!(p.auth.pin_retries, 8);
    assert_eq!(p.auth.consecutive_wrong, 0);
}

#[test]
fn test_reset_out_of_window() {
    let mut p = Parser::new();
    let cid = open_channel(&mut p);
    send_cbor(&mut p, cid, &[0x07]);
    p.resolve(Outcome::NotAllowed);
    let (_, _, rp) = assemble(&drain(&mut p));
    assert_eq!(rp, vec![0x30]); // CTAP2_ERR_NOT_ALLOWED
}

#[test]
fn test_key_agreement_reply() {
    let mut p = Parser::new();
    let cid = open_channel(&mut p);
    send_cbor(&mut p, cid, &[0x06, 0xA2, 0x01, 0x01, 0x02, 0x02]);
    assert!(matches!(
        p.pending.as_ref().unwrap().action,
        PendingAction::GetKeyAgreement
    ));
    p.resolve(Outcome::KeyAgreement { x: vec![0x11; 32], y: vec![0x22; 32] });
    let (_, _, rp) = assemble(&drain(&mut p));
    // {1: {1: 2, 3: -25, -1: 1, -2: x, -3: y}}
    assert_eq!(
        &rp[0..14],
        &[0x00, 0xA1, 0x01, 0xA5, 0x01, 0x02, 0x03, 0x38, 0x18, 0x20, 0x01, 0x21, 0x58, 0x20]
    );
    assert_eq!(&rp[14..46], &[0x11; 32]);
    assert_eq!(&rp[46..49], &[0x22, 0x58, 0x20]);
    assert_eq!(&rp[49..81], &[0x22; 32]);
}

#[test]
fn test_get_assertion_flow() {
    let mut p = Parser::new();
    let cid = open_channel(&mut p);
    // {1: "example.com", 2: h'CC..', 3: [{"id": h'AABB', "type": "public-key"}]}
    let mut req = vec![0x02u8, 0xA3, 0x01, 0x6B];
    req.extend_from_slice(b"example.com");
    req.extend_from_slice(&[0x02, 0x58, 0x20]);
    req.extend_from_slice(&[0xCC; 32]);
    req.extend_from_slice(&[0x03, 0x81, 0xA2, 0x62, 0x69, 0x64, 0x42, 0xAA, 0xBB]);
    req.extend_from_slice(&[0x64, 0x74, 0x79, 0x70, 0x65, 0x6A]);
    req.extend_from_slice(b"public-key");
    send_cbor(&mut p, cid, &req);
    match &p.pending.as_ref().unwrap().action {
        PendingAction::GetAssertion { rp_id, client_data_hash, credential_ids, .. } => {
            assert_eq!(rp_id, b"example.com");
            assert_eq!(client_data_hash, &vec![0xCC; 32]);
            assert_eq!(credential_ids, &vec![vec![0xAA, 0xBB]]);
        },
        _ => panic!("expected a GetAssertion action"),
    }
    p.resolve(Outcome::AssertionSigned {
        credential_id: vec![0xAA, 0xBB],
        auth_data: vec![0x77; 37],
        signature: vec![0x88; 70],
    });
    let (_, rcmd, rp) = assemble(&drain(&mut p));
    assert_eq!(rcmd, 0x10);
    // {1: {"id": h'AABB', "type": "public-key"}, 2: authData, 3: sig}
    assert_eq!(&rp[0..7], &[0x00, 0xA3, 0x01, 0xA2, 0x62, 0x69, 0x64]);
    assert_eq!(&rp[7..10], &[0x42, 0xAA, 0xBB]);
}

#[test]
fn test_get_assertion_without_allow_list() {
    let mut p = Parser::new();
    let cid = open_channel(&mut p);
    let mut req = vec![0x02u8, 0xA2, 0x01, 0x6B];
    req.extend_from_slice(b"example.com");
    req.extend_from_slice(&[0x02, 0x58, 0x20]);
    req.extend_from_slice(&[0xCC; 32]);
    send_cbor(&mut p, cid, &req);
    let (_, _, rp) = assemble(&drain(&mut p));
    assert_eq!(rp, vec![0x2E]); // CTAP2_ERR_NO_CREDENTIALS
}

#[test]
fn test_set_pin_flow() {
    let mut p = Parser::new();
    let cid = open_channel(&mut p);
    send_cbor(&mut p, cid, &[0x06, 0xA2, 0x01, 0x01, 0x02, 0x03]);
    assert!(matches!(
        p.pending.as_ref().unwrap().action,
        PendingAction::SetPin { change: false, .. }
    ));
    p.resolve(Outcome::PinSet { ok: true });
    let (_, _, rp) = assemble(&drain(&mut p));
    assert_eq!(rp, vec![0x00]);
    assert!(p.auth.pin_set);
}

#[test]
fn test_u2f_check_only() {
    let mut p = Parser::new();
    let cid = open_channel(&mut p);
    let mut apdu = vec![0u8, 2, 0x07, 0, 0, 0, 67];
    apdu.extend_from_slice(&[0x11; 32]);
    apdu.extend_from_slice(&[0x22; 32]);
    apdu.push(2);
    apdu.extend_from_slice(&[0xAA, 0xBB]);
    for f in frame_message(cid, 0x03, &apdu) {
        p.handle_packet(&f);
    }
    assert!(matches!(
        p.pending.as_ref().unwrap().action,
        PendingAction::U2fCheckOnly { .. }
    ));
    p.resolve(Outcome::U2fChecked { valid: true });
    let (_, _, rp) = assemble(&drain(&mut p));
    assert_eq!(rp, vec![0x69, 0x85]); // a valid handle answers "test-of-user-presence required"
    for f in frame_message(cid, 0x03, &apdu) {
        p.handle_packet(&f);
    }
    p.resolve(Outcome::U2fChecked { valid: false });
    let (_, _, rp2) = assemble(&drain(&mut p));
    assert_eq!(rp2, vec![0x6A, 0x80]); // SW_WRONG_DATA
}

#[test]
fn test_init_resync_on_allocated_channel() {
    let mut p = Parser::new();
    let cid = open_channel(&mut p);
    // Begin a message, then resynchronize with INIT on the same channel.
    let frames = frame_message(cid, 0x01, &vec![1u8; 200]);
    p.handle_packet(&frames[0]);
    let nonce = [3u8, 1, 4, 1, 5, 9, 2, 6];
    for f in frame_message(cid, 0x06, &nonce) {
        p.handle_packet(&f);
    }
    let (rcid, rcmd, rp) = assemble(&drain(&mut p));
    assert_eq!((rcid, rcmd), (cid, 0x06));
    assert_eq!(&rp[0..8], &nonce);
    assert_eq!(u32::from_le_bytes([rp[8], rp[9], rp[10], rp[11]]), cid);
    // The aborted PING is gone: its continuation is ignored.
    p.handle_packet(&frames[1]);
    assert!(p.next_frame().is_none());
}

#[test]
fn test_init_with_bad_nonce_length() {
    let mut p = Parser::new();
    // BCNT 7 on a broadcast INIT is refused.
    let mut pkt = vec![0xFFu8, 0xFF, 0xFF, 0xFF, 0x86, 0x00, 0x07];
    pkt.extend_from_slice(&[1, 2, 3, 4, 5, 6, 7]);
    pkt.resize(64, 0);
    p.handle_packet(&pkt);
    let (rcid, rcmd, rp) = assemble(&drain(&mut p));
    assert_eq!((rcid, rcmd), (0xFFFF_FFFF, 0x3F));
    assert_eq!(rp, vec![0x03]); // ERR_INVALID_LEN
}

#[test]
fn test_oversize_message_refused() {
    let mut p = Parser::new();
    let cid = open_channel(&mut p);
    // BCNT 7610 exceeds the largest message a channel may carry.
    let mut pkt = cid.to_le_bytes().to_vec();
    pkt.push(0x81); // PING
    pkt.push(0x1D);
    pkt.push(0xBA);
    pkt.resize(64, 0);
    p.handle_packet(&pkt);
    let (rcid, rcmd, rp) = assemble(&drain(&mut p));
    assert_eq!((rcid, rcmd), (cid, 0x3F));
    assert_eq!(rp, vec![0x03]); // ERR_INVALID_LEN
}

#[test]
fn test_declined_authenticate_releases_counter() {
    let mut p = Parser::new();
    let cid = open_channel(&mut p);
    let mut apdu = vec![0u8, 2, 0x03, 0, 0, 0, 97];
    apdu.extend_from_slice(&[0x11; 32]);
    apdu.extend_from_slice(&[0x22; 32]);
    apdu.push(32);
    apdu.extend_from_slice(&[0x33; 32]);
    // Declined prompt: SW_CONDITIONS_NOT_SATISFIED, counter unchanged.
    for f in frame_message(cid, 0x03, &apdu) {
        p.handle_packet(&f);
    }
    p.resolve(Outcome::Denied);
    let (_, _, rp) = assemble(&drain(&mut p));
    assert_eq!(rp, vec![0x69, 0x85]);
    assert_eq!(p.auth.counter, 0);
    // The next successful AUTHENTICATE reuses the released value.
    for f in frame_message(cid, 0x03, &apdu) {
        p.handle_packet(&f);
    }
    p.resolve(Outcome::U2fSigned { signature: vec![9u8; 70] });
    let (_, _, rp2) = assemble(&drain(&mut p));
    assert_eq!(u32::from_be_bytes([rp2[1], rp2[2], rp2[3], rp2[4]]), 1);
    assert_eq!(p.auth.counter, 1);
}

#[test]
fn test_auth_data_builders() {
    let ad =
        softfido::ctap2::attested_auth_data(&[0xAB; 32], 0x41, 5, &[1, 2, 3], &[0xA5]).unwrap();
    assert_eq!(&ad[0..32], &[0xAB; 32]);
    assert_eq!(ad[32], 0x41);
    assert_eq!(&ad[33..37], &[0, 0, 0, 5]);
    assert_eq!(&ad[37..53], &softfido::ctap2::aaguid()[..]);
    assert_eq!(&ad[53..55], &[0, 3]);
    assert_eq!(&ad[55..58], &[1, 2, 3]);
    assert_eq!(ad[58], 0xA5);
    assert_eq!(ad.len(), 59);
    let aad = softfido::ctap2::assertion_auth_data(&[0xCD; 32], 0x01, 9).unwrap();
    assert_eq!(aad.len(), 37);
    assert_eq!(aad[32], 0x01);
    assert_eq!(&aad[33..37], &[0, 0, 0, 9]);
    assert!(softfido::ctap2::assertion_auth_data(&[0xCD; 31], 0x01, 9).is_none());
}

#[test]
fn test_make_credential_requires_user_and_params() {
    // {1: h'..', 2: {"id": "x"}} without user or pubKeyCredParams.
    let mut p = Parser::new();
    let cid = open_channel(&mut p);
    let mut req = vec![0x01u8, 0xA2, 0x01, 0x58, 0x20];
    req.extend_from_slice(&[0x41; 32]);
    req.extend_from_slice(&[0x02, 0xA1, 0x62, 0x69, 0x64, 0x61, 0x78]);
    send_cbor(&mut p, cid, &req);
    let (_, _, rp) = assemble(&drain(&mut p));
    assert_eq!(rp, vec![0x14]); // CTAP2_ERR_MISSING_PARAMETER
}

#[test]
fn test_make_credential_excluded() {
    // An excludeList entry that this authenticator minted answers
    // CTAP2_ERR_CREDENTIAL_EXCLUDED after user presence.
    let mut p = Parser::new();
    let cid = open_channel(&mut p);
    let mut excl = vec![0x05u8, 0x81, 0xA2, 0x62, 0x69, 0x64, 0x42, 0xAA, 0xBB];
    excl.extend_from_slice(&[0x64, 0x74, 0x79, 0x70, 0x65, 0x6A]);
    excl.extend_from_slice(b"public-key");
    send_cbor(&mut p, cid, &mc_request(5, &excl));
    match &p.pending.as_ref().unwrap().action {
        PendingAction::MakeCredential { exclude_ids, pin_auth, .. } => {
            assert_eq!(exclude_ids, &vec![vec![0xAA, 0xBB]]);
            assert!(pin_auth.is_none());
        },
        _ => panic!("expected a MakeCredential action"),
    }
    p.resolve(Outcome::CredentialExcluded);
    let (_, _, rp) = assemble(&drain(&mut p));
    assert_eq!(rp, vec![0x19]); // CTAP2_ERR_CREDENTIAL_EXCLUDED
    assert_eq!(p.auth.counter, 0, "nothing was minted");
}

#[test]
fn test_make_credential_pin_required() {
    // With a PIN set, a request without pinAuth is refused.
    let mut p = Parser::new();
    let cid = open_channel(&mut p);
    p.auth.pin_set = true;
    send_cbor(&mut p, cid, &mc_request(4, &[]));
    let (_, _, rp) = assemble(&drain(&mut p));
    assert_eq!(rp, vec![0x36]); // CTAP2_ERR_PIN_REQUIRED
    assert!(p.pending.is_none());
    // With pinAuth supplied, the request goes pending carrying it.
    let mut pa = vec![0x08u8, 0x50];
    pa.extend_from_slice(&[0x77; 16]);
    send_cbor(&mut p, cid, &mc_request(5, &pa));
    match &p.pending.as_ref().unwrap().action {
        PendingAction::MakeCredential { pin_auth, .. } => {
            assert_eq!(pin_auth.as_ref().unwrap(), &vec![0x77; 16]);
        },
        _ => panic!("expected a MakeCredential action"),
    }
    p.resolve(Outcome::PinAuthInvalid);
    let (_, _, rp2) = assemble(&drain(&mut p));
    assert_eq!(rp2, vec![0x33]); // CTAP2_ERR_PIN_AUTH_INVALID
}

#[test]
fn test_busy_refuses_other_channels() {
    // While a command awaits the prompt, every request on another
    // channel is refused with ERR_CHANNEL_BUSY.
    let mut p = Parser::new();
    let cid_a = open_channel(&mut p);
    let cid_b = open_channel(&mut p);
    let mut apdu = vec![0u8, 1, 0, 0, 0, 0, 64];
    apdu.extend_from_slice(&[0x11; 64]);
    for f in frame_message(cid_a, 0x03, &apdu) {
        p.handle_packet(&f);
    }
    assert!(p.pending.is_some());
    for f in frame_message(cid_b, 0x01, &[7, 7, 7]) {
        p.handle_packet(&f);
    }
    let (rcid, rcmd, rp) = assemble(&drain(&mut p));
    assert_eq!((rcid, rcmd), (cid_b, 0x3F));
    assert_eq!(rp, vec![0x06]); // ERR_CHANNEL_BUSY
    assert!(p.pending.is_some(), "the waiting command is untouched");
}

#[test]
fn test_init_resync_aborts_pending() {
    // INIT on the waiting channel aborts the pending command and
    // releases its reserved counter.
    let mut p = Parser::new();
    let cid = open_channel(&mut p);
    let mut apdu = vec![0u8, 2, 0x03, 0, 0, 0, 97];
    apdu.extend_from_slice(&[0x11; 32]);
    apdu.extend_from_slice(&[0x22; 32]);
    apdu.push(32);
    apdu.extend_from_slice(&[0x33; 32]);
    for f in frame_message(cid, 0x03, &apdu) {
        p.handle_packet(&f);
    }
    assert!(p.pending.is_some());
    assert_eq!(p.auth.counter, 1);
    let nonce = [8u8, 7, 6, 5, 4, 3, 2, 1];
    for f in frame_message(cid, 0x06, &nonce) {
        p.handle_packet(&f);
    }
    assert!(p.pending.is_none(), "the waiting command was aborted");
    assert_eq!(p.auth.counter, 0, "its reserved counter was released");
    let (rcid, rcmd, rp) = assemble(&drain(&mut p));
    assert_eq!((rcid, rcmd), (cid, 0x06));
    assert_eq!(&rp[0..8], &nonce);
    assert_eq!(u32::from_le_bytes([rp[8], rp[9], rp[10], rp[11]]), cid);
}

#[test]
fn test_backend_failure_statuses() {
    // A key-store failure answers the transport's failure status.
    let mut p = Parser::new();
    let cid = open_channel(&mut p);
    send_cbor(&mut p, cid, &mc_request(4, &[]));
    p.resolve(Outcome::Failed);
    let (_, rcmd, rp) = assemble(&drain(&mut p));
    assert_eq!((rcmd, rp), (0x10, vec![0x7F])); // CTAP2_ERR_OTHER
    let mut apdu = vec![0u8, 1, 0, 0, 0, 0, 64];
    apdu.extend_from_slice(&[0x11; 64]);
    for f in frame_message(cid, 0x03, &apdu) {
        p.handle_packet(&f);
    }
    p.resolve(Outcome::Failed);
    let (_, rcmd2, rp2) = assemble(&drain(&mut p));
    assert_eq!((rcmd2, rp2), (0x03, vec![0x6F, 0x00])); // SW_EXECUTION_ERROR
}

#[test]
fn test_prompt_timeout_statuses() {
    // A timed-out prompt maps to ERR_KEEPALIVE_CANCEL for CTAP2 and to
    // SW_CONDITIONS_NOT_SATISFIED for U2F; the reserved counter returns.
    let mut p = Parser::new();
    let cid = open_channel(&mut p);
    send_cbor(&mut p, cid, &mc_request(4, &[]));
    assert_eq!(p.auth.counter, 1);
    p.resolve(Outcome::TimedOut);
    let (_, _, rp) = assemble(&drain(&mut p));
    assert_eq!(rp, vec![0x2D]);
    assert_eq!(p.auth.counter, 0);
    let mut apdu = vec![0u8, 1, 0, 0, 0, 0, 64];
    apdu.extend_from_slice(&[0x22; 64]);
    for f in frame_message(cid, 0x03, &apdu) {
        p.handle_packet(&f);
    }
    p.resolve(Outcome::TimedOut);
    let (_, _, rp2) = assemble(&drain(&mut p));
    assert_eq!(rp2, vec![0x69, 0x85]);
}

#[test]
fn test_oversize_signature_fallback() {
    // A signature too large for one message answers SW_EXECUTION_ERROR.
    let mut p = Parser::new();
    let cid = open_channel(&mut p);
    let mut apdu = vec![0u8, 2, 0x03, 0, 0, 0, 97];
    apdu.extend_from_slice(&[0x11; 32]);
    apdu.extend_from_slice(&[0x22; 32]);
    apdu.push(32);
    apdu.extend_from_slice(&[0x33; 32]);
    for f in frame_message(cid, 0x03, &apdu) {
        p.handle_packet(&f);
    }
    p.resolve(Outcome::U2fSigned { signature: vec![9u8; 7603] });
    let (_, _, rp) = assemble(&drain(&mut p));
    assert_eq!(rp, vec![0x6F, 0x00]);
}
