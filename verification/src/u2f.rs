//! The U2F (CTAP1) command handler: REGISTER, AUTHENTICATE and VERSION,
//! carried as ISO7816 APDUs inside CTAPHID MSG payloads.

use vstd::prelude::*;
use crate::auth::{AuthState, PendingAction, Step};
use crate::ctaphid::extend_from_range;

verus! {

pub const U2F_REGISTER: u8 = 0x01;
pub const U2F_AUTHENTICATE: u8 = 0x02;
pub const U2F_VERSION: u8 = 0x03;

/// AUTHENTICATE control byte: report whether the key handle is ours.
pub const AUTH_CHECK_ONLY: u8 = 0x07;
/// AUTHENTICATE control byte: require user presence, then sign.
pub const AUTH_ENFORCE: u8 = 0x03;
/// AUTHENTICATE control byte: sign without requiring user presence.
pub const AUTH_DONT_ENFORCE: u8 = 0x08;

pub const SW_NO_ERROR: u16 = 0x9000;
pub const SW_CONDITIONS_NOT_SATISFIED: u16 = 0x6985;
pub const SW_WRONG_DATA: u16 = 0x6A80;
pub const SW_WRONG_LENGTH: u16 = 0x6700;
pub const SW_INCORRECT_P1P2: u16 = 0x6A86;
pub const SW_INS_NOT_SUPPORTED: u16 = 0x6D00;
/// Status word for key-store failures (no precise diagnosis).
pub const SW_EXECUTION_ERROR: u16 = 0x6F00;

/// An ISO7816 status word as its two big-endian bytes.
pub open spec fn spec_sw(sw: u16) -> Seq<u8> {
    seq![(sw / 256) as u8, (sw % 256) as u8]
}

/// A 32-bit value as four big-endian bytes.
pub open spec fn spec_u32_be(x: u32) -> Seq<u8> {
    seq![
        (x / 0x1000000) as u8,
        ((x % 0x1000000) / 0x10000) as u8,
        ((x % 0x10000) / 0x100) as u8,
        (x % 0x100) as u8,
    ]
}

pub fn u32_be_bytes(x: u32) -> (r: Vec<u8>)
    ensures
        r@ == spec_u32_be(x),
{
    let mut r: Vec<u8> = Vec::new();
    r.push((x / 0x1000000) as u8);
    r.push(((x % 0x1000000) / 0x10000) as u8);
    r.push(((x % 0x10000) / 0x100) as u8);
    r.push((x % 0x100) as u8);
    proof {
        assert(r@ =~= spec_u32_be(x));
    }
    r
}

pub fn push_sw(v: &mut Vec<u8>, sw: u16)
    ensures
        final(v)@ == old(v)@ + spec_sw(sw),
{
    v.push((sw / 256) as u8);
    v.push((sw % 256) as u8);
    proof {
        assert(v@ =~= old(v)@ + spec_sw(sw));
    }
}

pub fn sw_reply(sw: u16) -> (r: Vec<u8>)
    ensures
        r@ == spec_sw(sw),
{
    let mut v: Vec<u8> = Vec::new();
    push_sw(&mut v, sw);
    proof {
        assert(v@ =~= spec_sw(sw));
    }
    v
}

// ------------------------------------------------------------------
// APDU decoding.
// ------------------------------------------------------------------

/// A decoded command APDU (header and data field; Le is tolerated and
/// dropped).
pub struct Apdu {
    pub cla: u8,
    pub ins: u8,
    pub p1: u8,
    pub p2: u8,
    pub data: Vec<u8>,
}

/// The APDU grammar: a 4-byte header, then either no body, a short body
/// `Lc:1 | data`, or an extended body `00 | Lc:2 | data`.  Trailing Le
/// bytes are permitted.
pub open spec fn spec_parse_apdu(msg: Seq<u8>) -> Option<(u8, u8, u8, u8, Seq<u8>)> {
    if msg.len() < 4 {
        None
    } else if msg.len() == 4 {
        Some((msg[0], msg[1], msg[2], msg[3], Seq::empty()))
    } else if msg.len() >= 7 && msg[4] == 0 {
        let lc = (msg[5] as int) * 256 + (msg[6] as int);
        if msg.len() >= 7 + lc {
            Some((msg[0], msg[1], msg[2], msg[3], msg.subrange(7, 7 + lc)))
        } else {
            None
        }
    } else {
        let lc = msg[4] as int;
        if msg.len() >= 5 + lc {
            Some((msg[0], msg[1], msg[2], msg[3], msg.subrange(5, 5 + lc)))
        } else {
            None
        }
    }
}

pub fn parse_apdu(msg: &[u8]) -> (r: Option<Apdu>)
    ensures
        match r {
            Some(a) => spec_parse_apdu(msg@) == Some((a.cla, a.ins, a.p1, a.p2, a.data@)),
            None => spec_parse_apdu(msg@) is None,
        },
{
    if msg.len() < 4 {
        return None;
    }
    let cla = msg[0];
    let ins = msg[1];
    let p1 = msg[2];
    let p2 = msg[3];
    if msg.len() == 4 {
        return Some(Apdu { cla, ins, p1, p2, data: Vec::new() });
    }
    if msg.len() >= 7 && msg[4] == 0 {
        let lc: usize = (msg[5] as usize) * 256 + (msg[6] as usize);
        if msg.len() >= 7 + lc {
            let mut data: Vec<u8> = Vec::new();
            extend_from_range(&mut data, msg, 7, 7 + lc);
            return Some(Apdu { cla, ins, p1, p2, data });
        }
        return None;
    }
    let lc: usize = msg[4] as usize;
    if msg.len() >= 5 + lc {
        let mut data: Vec<u8> = Vec::new();
        extend_from_range(&mut data, msg, 5, 5 + lc);
        return Some(Apdu { cla, ins, p1, p2, data });
    }
    None
}

// ------------------------------------------------------------------
// Command dispatch.
// ------------------------------------------------------------------

pub open spec fn spec_version_reply() -> Seq<u8> {
    seq![0x55u8, 0x32, 0x46, 0x5F, 0x56, 0x32, 0x90, 0x00]
}

/// One AUTHENTICATE signing step: the counter moves up by exactly one and
/// the rest of the state is untouched; `counter` is the value that is
/// signed and returned.
pub open spec fn spec_sign_step(pre: AuthState, post: AuthState, counter: u32) -> bool {
    &&& post.counter == pre.counter + 1
    &&& counter == post.counter
    &&& post.pin_retries == pre.pin_retries
    &&& post.consecutive_wrong == pre.consecutive_wrong
    &&& post.pin_set == pre.pin_set
}

/// The data signed by AUTHENTICATE: application parameter, user-presence
/// byte, big-endian counter, then the challenge parameter.
pub open spec fn spec_sign_data(app: Seq<u8>, up: u8, counter: u32, challenge: Seq<u8>) -> Seq<u8> {
    app + seq![up] + spec_u32_be(counter) + challenge
}

/// What `handle_msg` does, as a relation between the state before, the
/// state after, and the step handed back.
pub open spec fn spec_msg_step(pre: AuthState, msg: Seq<u8>, post: AuthState, r: Step) -> bool {
    match spec_parse_apdu(msg) {
        None => post == pre && (r matches Step::Reply(v) && v@ == spec_sw(SW_WRONG_LENGTH)),
        Some((cla, ins, p1, p2, data)) => {
            if ins == U2F_VERSION {
                post == pre && (r matches Step::Reply(v) && v@ == spec_version_reply())
            } else if ins == U2F_REGISTER {
                if data.len() == 64 {
                    post == pre && (r matches Step::Pending(a)
                        && (a matches PendingAction::U2fRegister { challenge, application }
                        && challenge@ == data.take(32) && application@ == data.skip(32)))
                } else {
                    post == pre && (r matches Step::Reply(v) && v@ == spec_sw(SW_WRONG_LENGTH))
                }
            } else if ins == U2F_AUTHENTICATE {
                if data.len() >= 65 && data[64] == data.len() - 65 {
                    if p1 == AUTH_CHECK_ONLY {
                        post == pre && (r matches Step::Pending(a)
                            && (a matches PendingAction::U2fCheckOnly { key_handle, application }
                            && key_handle@ == data.skip(65)
                            && application@ == data.subrange(32, 64)))
                    } else if p1 == AUTH_ENFORCE || p1 == AUTH_DONT_ENFORCE {
                        if pre.counter == u32::MAX {
                            post == pre && (r matches Step::Reply(v)
                                && v@ == spec_sw(SW_EXECUTION_ERROR))
                        } else {
                            let up: u8 = if p1 == AUTH_ENFORCE { 1 } else { 0 };
                            &&& spec_sign_step(pre, post, post.counter)
                            &&& (r matches Step::Pending(a)
                                && (a matches PendingAction::U2fSign {
                                key_handle,
                                application,
                                sign_data,
                                user_presence,
                                counter,
                            }
                                && key_handle@ == data.skip(65)
                                && application@ == data.subrange(32, 64)
                                && user_presence == up
                                && counter == post.counter
                                && sign_data@ == spec_sign_data(
                                data.subrange(32, 64),
                                up,
                                post.counter,
                                data.take(32),
                            )))
                        }
                    } else {
                        post == pre && (r matches Step::Reply(v) && v@ == spec_sw(
                            SW_INCORRECT_P1P2,
                        ))
                    }
                } else {
                    post == pre && (r matches Step::Reply(v) && v@ == spec_sw(SW_WRONG_LENGTH))
                }
            } else {
                post == pre && (r matches Step::Reply(v) && v@ == spec_sw(SW_INS_NOT_SUPPORTED))
            }
        },
    }
}

/// U2F counter monotonicity: across any two AUTHENTICATE signing steps,
/// later one after earlier one (the counter never moves down in between),
/// the counter returned by the second is strictly greater than the one
/// returned by the first.
pub proof fn lemma_counter_monotonic(
    s0: AuthState,
    s1: AuthState,
    s2: AuthState,
    s3: AuthState,
    c1: u32,
    c2: u32,
)
    requires
        spec_sign_step(s0, s1, c1),
        s2.counter >= s1.counter,
        spec_sign_step(s2, s3, c2),
    ensures
        c2 > c1,
{
}

/// Releasing a reserved counter undoes exactly the reservation: after a
/// signing step reserved `c`, the released value is the counter from
/// before the request was parsed.  So a declined, timed-out or cancelled
/// AUTHENTICATE leaves the counter unchanged end to end.
pub proof fn lemma_release_restores_counter(pre: AuthState, mid: AuthState, c: u32)
    requires
        spec_sign_step(pre, mid, c),
    ensures
        (if c >= 1 { (c - 1) as u32 } else { 0u32 }) == pre.counter,
{
}

/// Handle one U2F MSG payload.  VERSION and malformed requests are
/// answered at once; REGISTER and AUTHENTICATE become pending actions for
/// the prompt and the key store.  The signature counter moves exactly when
/// a signing step starts, and never moves down.
pub fn handle_msg(auth: &mut AuthState, msg: &[u8]) -> (r: Step)
    requires
        old(auth).wf(),
    ensures
        final(auth).wf(),
        final(auth).counter >= old(auth).counter,
        spec_msg_step(*old(auth), msg@, *final(auth), r),
{
    let parsed = parse_apdu(msg);
    let a = match parsed {
        Some(a) => a,
        None => {
            return Step::Reply(sw_reply(SW_WRONG_LENGTH));
        },
    };
    if a.ins == U2F_VERSION {
        let mut v: Vec<u8> = Vec::new();
        v.push(0x55);
        v.push(0x32);
        v.push(0x46);
        v.push(0x5F);
        v.push(0x56);
        v.push(0x32);
        v.push(0x90);
        v.push(0x00);
        proof {
            assert(v@ =~= spec_version_reply());
        }
        Step::Reply(v)
    } else if a.ins == U2F_REGISTER {
        if a.data.len() == 64 {
            let mut challenge: Vec<u8> = Vec::new();
            extend_from_range(&mut challenge, a.data.as_slice(), 0, 32);
            let mut application: Vec<u8> = Vec::new();
            extend_from_range(&mut application, a.data.as_slice(), 32, 64);
            proof {
                assert(challenge@ =~= a.data@.take(32));
                assert(application@ =~= a.data@.skip(32));
            }
            Step::Pending(PendingAction::U2fRegister { challenge, application })
        } else {
            Step::Reply(sw_reply(SW_WRONG_LENGTH))
        }
    } else if a.ins == U2F_AUTHENTICATE {
        if a.data.len() >= 65 && (a.data[64] as usize) == a.data.len() - 65 {
            let mut application: Vec<u8> = Vec::new();
            extend_from_range(&mut application, a.data.as_slice(), 32, 64);
            let mut key_handle: Vec<u8> = Vec::new();
            extend_from_range(&mut key_handle, a.data.as_slice(), 65, a.data.len());
            proof {
                assert(application@ =~= a.data@.subrange(32, 64));
                assert(key_handle@ =~= a.data@.skip(65));
            }
            if a.p1 == AUTH_CHECK_ONLY {
                Step::Pending(PendingAction::U2fCheckOnly { key_handle, application })
            } else if a.p1 == AUTH_ENFORCE || a.p1 == AUTH_DONT_ENFORCE {
                if auth.counter == u32::MAX {
                    Step::Reply(sw_reply(SW_EXECUTION_ERROR))
                } else {
                    auth.counter = auth.counter + 1;
                    let up: u8 = if a.p1 == AUTH_ENFORCE {
                        1
                    } else {
                        0
                    };
                    let mut sign_data: Vec<u8> = Vec::new();
                    extend_from_range(&mut sign_data, a.data.as_slice(), 32, 64);
                    sign_data.push(up);
                    let counter_bytes = u32_be_bytes(auth.counter);
                    extend_from_range(&mut sign_data, counter_bytes.as_slice(), 0, 4);
                    extend_from_range(&mut sign_data, a.data.as_slice(), 0, 32);
                    proof {
                        assert(counter_bytes@.subrange(0, 4) =~= spec_u32_be(auth.counter));
                        assert(sign_data@ =~= spec_sign_data(
                            a.data@.subrange(32, 64),
                            up,
                            auth.counter,
                            a.data@.take(32),
                        ));
                    }
                    Step::Pending(
                        PendingAction::U2fSign {
                            key_handle,
                            application,
                            sign_data,
                            user_presence: up,
                            counter: auth.counter,
                        },
                    )
                }
            } else {
                Step::Reply(sw_reply(SW_INCORRECT_P1P2))
            }
        } else {
            Step::Reply(sw_reply(SW_WRONG_LENGTH))
        }
    } else {
        Step::Reply(sw_reply(SW_INS_NOT_SUPPORTED))
    }
}

// ------------------------------------------------------------------
// Reply builders for resolved pending actions.
// ------------------------------------------------------------------

/// The REGISTER success reply: reserved byte 0x05, the 65-byte public key,
/// the key-handle length and bytes, the attestation certificate, the
/// signature, then SW_NO_ERROR.
pub open spec fn spec_register_response(
    public_key: Seq<u8>,
    key_handle: Seq<u8>,
    certificate: Seq<u8>,
    signature: Seq<u8>,
) -> Seq<u8> {
    seq![0x05u8] + public_key + seq![key_handle.len() as u8] + key_handle + certificate + signature
        + spec_sw(SW_NO_ERROR)
}

/// Build the REGISTER success reply; `None` when the key store handed back
/// values of impossible sizes.
pub fn register_response(
    public_key: &[u8],
    key_handle: &[u8],
    certificate: &[u8],
    signature: &[u8],
) -> (r: Option<Vec<u8>>)
    ensures
        match r {
            Some(v) => v@ == spec_register_response(public_key@, key_handle@, certificate@, signature@)
                && v@.len() <= crate::ctaphid::MAX_MSG_LEN && public_key@.len() == 65
                && key_handle@.len() <= 255 && 69 + key_handle@.len() + certificate@.len()
                + signature@.len() <= crate::ctaphid::MAX_MSG_LEN,
            None => public_key@.len() != 65 || key_handle@.len() > 255 || 69 + key_handle@.len()
                + certificate@.len() + signature@.len() > crate::ctaphid::MAX_MSG_LEN,
        },
{
    if public_key.len() != 65 || key_handle.len() > 255 {
        return None;
    }
    if certificate.len() > crate::ctaphid::MAX_MSG_LEN
        || signature.len() > crate::ctaphid::MAX_MSG_LEN {
        return None;
    }
    if 69 + key_handle.len() + certificate.len() + signature.len()
        > crate::ctaphid::MAX_MSG_LEN {
        return None;
    }
    let mut v: Vec<u8> = Vec::new();
    v.push(0x05);
    extend_from_range(&mut v, public_key, 0, public_key.len());
    v.push(key_handle.len() as u8);
    extend_from_range(&mut v, key_handle, 0, key_handle.len());
    extend_from_range(&mut v, certificate, 0, certificate.len());
    extend_from_range(&mut v, signature, 0, signature.len());
    push_sw(&mut v, SW_NO_ERROR);
    proof {
        assert(public_key@.subrange(0, public_key@.len() as int) =~= public_key@);
        assert(key_handle@.subrange(0, key_handle@.len() as int) =~= key_handle@);
        assert(certificate@.subrange(0, certificate@.len() as int) =~= certificate@);
        assert(signature@.subrange(0, signature@.len() as int) =~= signature@);
        assert(v@ =~= spec_register_response(
            public_key@,
            key_handle@,
            certificate@,
            signature@,
        ));
    }
    Some(v)
}

/// The AUTHENTICATE success reply: user-presence byte, big-endian counter,
/// signature, then SW_NO_ERROR.
pub open spec fn spec_authenticate_response(up: u8, counter: u32, signature: Seq<u8>) -> Seq<u8> {
    seq![up] + spec_u32_be(counter) + signature + spec_sw(SW_NO_ERROR)
}

/// Build the AUTHENTICATE success reply; `None` when the signature is too
/// large for one CTAPHID message.
pub fn authenticate_response(up: u8, counter: u32, signature: &[u8]) -> (r: Option<Vec<u8>>)
    ensures
        match r {
            Some(v) => v@ == spec_authenticate_response(up, counter, signature@) && v@.len()
                <= crate::ctaphid::MAX_MSG_LEN,
            None => 7 + signature@.len() > crate::ctaphid::MAX_MSG_LEN,
        },
{
    if signature.len() > crate::ctaphid::MAX_MSG_LEN - 7 {
        return None;
    }
    let mut v: Vec<u8> = Vec::new();
    v.push(up);
    let counter_bytes = u32_be_bytes(counter);
    extend_from_range(&mut v, counter_bytes.as_slice(), 0, 4);
    extend_from_range(&mut v, signature, 0, signature.len());
    push_sw(&mut v, SW_NO_ERROR);
    proof {
        assert(counter_bytes@.subrange(0, 4) =~= spec_u32_be(counter));
        assert(signature@.subrange(0, signature@.len() as int) =~= signature@);
        assert(v@ =~= spec_authenticate_response(up, counter, signature@));
    }
    Some(v)
}

} // verus!
