//! The CTAP2 command handler: GetInfo, MakeCredential, GetAssertion,
//! ClientPIN and Reset.  A payload is one command byte followed by CBOR
//! parameters; a reply is one status byte followed by CBOR.

use vstd::prelude::*;
use crate::auth::{AuthState, PendingAction, Step, MAX_CONSECUTIVE_WRONG, MAX_PIN_RETRIES};
use crate::cbor::{
    find_text_key, find_uint_key, push_bstr, read_bstr, read_hdr, read_tstr, read_uint,
    skip_value, spec_bstr_at, spec_cred_ids, spec_find_text_key, spec_find_uint_key,
    spec_read_hdr, spec_tstr_at, spec_uint_at, MAJOR_ARRAY, MAJOR_BSTR,
};
use crate::ctaphid::frame_views;
use crate::ctaphid::extend_from_range;

verus! {

pub const CTAP2_MAKE_CREDENTIAL: u8 = 0x01;
pub const CTAP2_GET_ASSERTION: u8 = 0x02;
pub const CTAP2_GET_INFO: u8 = 0x04;
pub const CTAP2_CLIENT_PIN: u8 = 0x06;
pub const CTAP2_RESET: u8 = 0x07;
pub const CTAP2_GET_NEXT_ASSERTION: u8 = 0x08;

pub const CTAP2_OK: u8 = 0x00;
pub const ERR_INVALID_COMMAND: u8 = 0x01;
pub const ERR_INVALID_PARAMETER: u8 = 0x02;
pub const ERR_INVALID_LENGTH: u8 = 0x03;
pub const ERR_INVALID_CBOR: u8 = 0x12;
pub const ERR_MISSING_PARAMETER: u8 = 0x14;
pub const ERR_CREDENTIAL_EXCLUDED: u8 = 0x19;
pub const ERR_OPERATION_DENIED: u8 = 0x27;
pub const ERR_KEEPALIVE_CANCEL: u8 = 0x2D;
pub const ERR_NO_CREDENTIALS: u8 = 0x2E;
pub const ERR_NOT_ALLOWED: u8 = 0x30;
pub const ERR_PIN_INVALID: u8 = 0x31;
pub const ERR_PIN_BLOCKED: u8 = 0x32;
pub const ERR_PIN_AUTH_INVALID: u8 = 0x33;
pub const ERR_PIN_AUTH_BLOCKED: u8 = 0x34;
pub const ERR_PIN_NOT_SET: u8 = 0x35;
pub const ERR_PIN_REQUIRED: u8 = 0x36;
pub const ERR_OTHER: u8 = 0x7F;

/// ClientPIN subcommands.
pub const PIN_GET_RETRIES: u64 = 1;
pub const PIN_GET_KEY_AGREEMENT: u64 = 2;
pub const PIN_SET_PIN: u64 = 3;
pub const PIN_CHANGE_PIN: u64 = 4;
pub const PIN_GET_PIN_TOKEN: u64 = 5;

/// The fixed 16-byte authenticator model identifier.
pub open spec fn spec_aaguid() -> Seq<u8> {
    seq![
        0x53u8, 0x6F, 0x66, 0x74, 0x46, 0x49, 0x44, 0x4F, 0x20, 0x76, 0x69, 0x72, 0x74, 0x2E,
        0x30, 0x31,
    ]
}

pub fn aaguid() -> (r: Vec<u8>)
    ensures
        r@ == spec_aaguid(),
{
    let v: Vec<u8> = vec![
        0x53u8, 0x6F, 0x66, 0x74, 0x46, 0x49, 0x44, 0x4F, 0x20, 0x76, 0x69, 0x72, 0x74, 0x2E,
        0x30, 0x31,
    ];
    proof {
        assert(v@ =~= spec_aaguid());
    }
    v
}

/// The GetInfo reply: status 0x00, then a CBOR map with versions
/// ["U2F_V2", "FIDO_2_0"], extensions [], the AAGUID, the options
/// {rk: false, up: true, uv: false, clientPin}, maxMsgSize 1200 and
/// pinProtocols [1].
pub open spec fn spec_get_info(pin_set: bool) -> Seq<u8> {
    seq![
        0x00u8, 0xA6,
        // 0x01: versions ["U2F_V2", "FIDO_2_0"]
        0x01, 0x82, 0x66, 0x55, 0x32, 0x46, 0x5F, 0x56, 0x32, 0x68, 0x46, 0x49, 0x44, 0x4F, 0x5F,
        0x32, 0x5F, 0x30,
        // 0x02: extensions []
        0x02, 0x80,
        // 0x03: AAGUID
        0x03, 0x50,
    ] + spec_aaguid() + seq![
        // 0x04: options {rk: false, up: true, uv: false, clientPin}
        0x04u8, 0xA4, 0x62, 0x72, 0x6B, 0xF4, 0x62, 0x75, 0x70, 0xF5, 0x62, 0x75, 0x76, 0xF4,
        0x69, 0x63, 0x6C, 0x69, 0x65, 0x6E, 0x74, 0x50, 0x69, 0x6E,
        (if pin_set { 0xF5u8 } else { 0xF4u8 }),
        // 0x05: maxMsgSize 1200
        0x05, 0x19, 0x04, 0xB0,
        // 0x06: pinProtocols [1]
        0x06, 0x81, 0x01,
    ]
}

pub fn get_info_response(pin_set: bool) -> (r: Vec<u8>)
    ensures
        r@ == spec_get_info(pin_set),
        r@.len() <= crate::ctaphid::MAX_MSG_LEN,
{
    let v: Vec<u8> = vec![
        0x00u8, 0xA6, 0x01, 0x82, 0x66, 0x55, 0x32, 0x46, 0x5F, 0x56, 0x32, 0x68, 0x46, 0x49,
        0x44, 0x4F, 0x5F, 0x32, 0x5F, 0x30, 0x02, 0x80, 0x03, 0x50, 0x53, 0x6F, 0x66, 0x74, 0x46,
        0x49, 0x44, 0x4F, 0x20, 0x76, 0x69, 0x72, 0x74, 0x2E, 0x30, 0x31, 0x04, 0xA4, 0x62, 0x72,
        0x6B, 0xF4, 0x62, 0x75, 0x70, 0xF5, 0x62, 0x75, 0x76, 0xF4, 0x69, 0x63, 0x6C, 0x69, 0x65,
        0x6E, 0x74, 0x50, 0x69, 0x6E,
        (if pin_set { 0xF5u8 } else { 0xF4u8 }),
        0x05, 0x19, 0x04, 0xB0, 0x06, 0x81, 0x01,
    ];
    proof {
        assert(v@ =~= spec_get_info(pin_set));
    }
    v
}

// ------------------------------------------------------------------
// The PIN lockout machine.
// ------------------------------------------------------------------

/// Whether getPINToken may even reach the key store, and with which
/// status it is refused otherwise.
pub open spec fn spec_token_precheck(s: AuthState) -> Option<u8> {
    if !s.pin_set {
        Some(ERR_PIN_NOT_SET)
    } else if s.pin_retries == 0 {
        Some(ERR_PIN_BLOCKED)
    } else if s.consecutive_wrong >= MAX_CONSECUTIVE_WRONG {
        Some(ERR_PIN_AUTH_BLOCKED)
    } else {
        None
    }
}

/// One completed PIN check: a correct PIN restores the retry budget and
/// clears the per-boot counter; a wrong one burns a retry, counts towards
/// the per-boot lockout, and reports the resulting status.
pub open spec fn spec_pin_check_step(
    pre: AuthState,
    post: AuthState,
    correct: bool,
    status: u8,
) -> bool {
    &&& post.counter == pre.counter
    &&& post.pin_set == pre.pin_set
    &&& if correct {
        &&& post.pin_retries == MAX_PIN_RETRIES
        &&& post.consecutive_wrong == 0
        &&& status == CTAP2_OK
    } else {
        &&& post.pin_retries == if pre.pin_retries > 0 {
            (pre.pin_retries - 1) as u8
        } else {
            0u8
        }
        &&& post.consecutive_wrong == if pre.consecutive_wrong < MAX_CONSECUTIVE_WRONG {
            (pre.consecutive_wrong + 1) as u8
        } else {
            pre.consecutive_wrong
        }
        &&& status == if post.pin_retries == 0 {
            ERR_PIN_BLOCKED
        } else if post.consecutive_wrong >= MAX_CONSECUTIVE_WRONG {
            ERR_PIN_AUTH_BLOCKED
        } else {
            ERR_PIN_INVALID
        }
    }
}

/// Record the result of a PIN check and compute the status to report.
pub fn apply_pin_check(auth: &mut AuthState, correct: bool) -> (status: u8)
    requires
        old(auth).wf(),
    ensures
        final(auth).wf(),
        spec_pin_check_step(*old(auth), *final(auth), correct, status),
{
    if correct {
        auth.pin_retries = MAX_PIN_RETRIES;
        auth.consecutive_wrong = 0;
        CTAP2_OK
    } else {
        if auth.pin_retries > 0 {
            auth.pin_retries = auth.pin_retries - 1;
        }
        if auth.consecutive_wrong < MAX_CONSECUTIVE_WRONG {
            auth.consecutive_wrong = auth.consecutive_wrong + 1;
        }
        if auth.pin_retries == 0 {
            ERR_PIN_BLOCKED
        } else if auth.consecutive_wrong >= MAX_CONSECUTIVE_WRONG {
            ERR_PIN_AUTH_BLOCKED
        } else {
            ERR_PIN_INVALID
        }
    }
}

/// PIN lockout, per power cycle: with a full retry budget, three wrong
/// PINs in a row leave the authenticator refusing getPINToken with
/// ERR_PIN_AUTH_BLOCKED (retries remain, so a reboot unblocks it).
pub proof fn lemma_pin_auth_lockout(
    s0: AuthState,
    s1: AuthState,
    s2: AuthState,
    s3: AuthState,
    st1: u8,
    st2: u8,
    st3: u8,
)
    requires
        s0.pin_set,
        s0.consecutive_wrong == 0,
        s0.pin_retries > 3,
        spec_pin_check_step(s0, s1, false, st1),
        spec_pin_check_step(s1, s2, false, st2),
        spec_pin_check_step(s2, s3, false, st3),
    ensures
        st3 == ERR_PIN_AUTH_BLOCKED,
        spec_token_precheck(s3) == Some(ERR_PIN_AUTH_BLOCKED),
{
}

/// PIN lockout, persistent: when the last retry is burnt (the eighth
/// wrong PIN over any number of power cycles), the check itself and every
/// later getPINToken report ERR_PIN_BLOCKED.
pub proof fn lemma_pin_hard_block(pre: AuthState, post: AuthState, status: u8)
    requires
        pre.pin_set,
        pre.pin_retries == 1,
        spec_pin_check_step(pre, post, false, status),
    ensures
        status == ERR_PIN_BLOCKED,
        spec_token_precheck(post) == Some(ERR_PIN_BLOCKED),
{
}

// ------------------------------------------------------------------
// Command dispatch.
// ------------------------------------------------------------------

/// A reply that is a bare status byte.
pub open spec fn spec_status_only(r: Step, status: u8) -> bool {
    r matches Step::Reply(v) && v@ == seq![status]
}

/// The getRetries reply: {0x03: retries}.
pub open spec fn spec_retries_reply(n: u8) -> Seq<u8>
    recommends
        n < 24,
{
    seq![0x00u8, 0xA1, 0x03, n]
}

/// The UTF-8 bytes of the map key "id".
pub open spec fn spec_id_key() -> Seq<u8> {
    seq![0x69u8, 0x64]
}

/// The decoded excludeList (key 5): absent means no exclusions; a
/// present list must be an array of at most 64 entries whose "id"
/// values decode.
pub open spec fn spec_exclude_ids(payload: Seq<u8>) -> Option<Seq<Seq<u8>>> {
    match spec_find_uint_key(payload, 1, 5) {
        None => Some(Seq::empty()),
        Some(lp) => match spec_read_hdr(payload, lp) {
            None => None,
            Some((m, n, cp)) => if m == MAJOR_ARRAY && n <= 64 {
                spec_cred_ids(payload, cp, n as int)
            } else {
                None
            },
        },
    }
}

/// The decoded optional pinAuth parameter under `key`: the outer `None`
/// marks an ill-typed value, the inner option its absence.
pub open spec fn spec_pin_auth(payload: Seq<u8>, key: nat) -> Option<Option<Seq<u8>>> {
    match spec_find_uint_key(payload, 1, key) {
        None => Some(None),
        Some(pp) => match spec_bstr_at(payload, pp) {
            None => None,
            Some(b) => Some(Some(b)),
        },
    }
}

/// MakeCredential decoding: each parse-failure status exactly when its
/// parameter is missing or ill-typed; a well-formed request must become
/// the pending action carrying the decoded clientDataHash and rp.id and
/// a freshly reserved counter.
#[verifier::opaque]
pub open spec fn spec_mc_step(pre: AuthState, payload: Seq<u8>, post: AuthState, r: Step) -> bool {
    match spec_find_uint_key(payload, 1, 1) {
        None => post == pre && spec_status_only(r, ERR_MISSING_PARAMETER),
        Some(ch_pos) => match spec_bstr_at(payload, ch_pos) {
            None => post == pre && spec_status_only(r, ERR_INVALID_CBOR),
            Some(ch) => match spec_find_uint_key(payload, 1, 2) {
                None => post == pre && spec_status_only(r, ERR_MISSING_PARAMETER),
                Some(rp_pos) => match spec_find_text_key(payload, rp_pos, spec_id_key()) {
                    None => post == pre && spec_status_only(r, ERR_MISSING_PARAMETER),
                    Some(id_pos) => match spec_tstr_at(payload, id_pos) {
                        None => post == pre && spec_status_only(r, ERR_INVALID_CBOR),
                        Some(rp) => if spec_find_uint_key(payload, 1, 3) is None {
                            // user is required
                            post == pre && spec_status_only(r, ERR_MISSING_PARAMETER)
                        } else if spec_find_uint_key(payload, 1, 4) is None {
                            // pubKeyCredParams is required
                            post == pre && spec_status_only(r, ERR_MISSING_PARAMETER)
                        } else {
                            match spec_exclude_ids(payload) {
                                None => post == pre && spec_status_only(r, ERR_INVALID_CBOR),
                                Some(excl) => match spec_pin_auth(payload, 8) {
                                    None => post == pre && spec_status_only(r, ERR_INVALID_CBOR),
                                    Some(pa) => if pre.pin_set && pa is None {
                                        post == pre && spec_status_only(r, ERR_PIN_REQUIRED)
                                    } else if pre.counter == u32::MAX {
                                        post == pre && spec_status_only(r, ERR_OTHER)
                                    } else {
                                        &&& crate::u2f::spec_sign_step(pre, post, post.counter)
                                        &&& (r matches Step::Pending(a) && (a
                                            matches PendingAction::MakeCredential {
                                            client_data_hash,
                                            rp_id,
                                            exclude_ids,
                                            pin_auth,
                                            sign_counter,
                                        } && client_data_hash@ == ch && rp_id@ == rp
                                            && frame_views(exclude_ids@) == excl && (match pa {
                                            None => pin_auth is None,
                                            Some(b) => pin_auth matches Some(v) && v@ == b,
                                        }) && sign_counter == post.counter))
                                    },
                                },
                            }
                        },
                    },
                },
            },
        },
    }
}

/// GetAssertion decoding: rpId, clientDataHash and the allowList ids are
/// decoded exactly; an absent or empty allowList answers
/// ERR_NO_CREDENTIALS, and a well-formed request must become the pending
/// action carrying every decoded credential id in order.
#[verifier::opaque]
pub open spec fn spec_ga_step(pre: AuthState, payload: Seq<u8>, post: AuthState, r: Step) -> bool {
    match spec_find_uint_key(payload, 1, 1) {
        None => post == pre && spec_status_only(r, ERR_MISSING_PARAMETER),
        Some(rp_pos) => match spec_tstr_at(payload, rp_pos) {
            None => post == pre && spec_status_only(r, ERR_INVALID_CBOR),
            Some(rp) => match spec_find_uint_key(payload, 1, 2) {
                None => post == pre && spec_status_only(r, ERR_MISSING_PARAMETER),
                Some(ch_pos) => match spec_bstr_at(payload, ch_pos) {
                    None => post == pre && spec_status_only(r, ERR_INVALID_CBOR),
                    Some(ch) => match spec_find_uint_key(payload, 1, 3) {
                        None => post == pre && spec_status_only(r, ERR_NO_CREDENTIALS),
                        Some(list_pos) => match spec_read_hdr(payload, list_pos) {
                            None => post == pre && spec_status_only(r, ERR_INVALID_CBOR),
                            Some((m, n, cp)) => if m != MAJOR_ARRAY || n > 64 {
                                post == pre && spec_status_only(r, ERR_INVALID_CBOR)
                            } else if n == 0 {
                                post == pre && spec_status_only(r, ERR_NO_CREDENTIALS)
                            } else {
                                match spec_cred_ids(payload, cp, n as int) {
                                    None => post == pre && spec_status_only(r, ERR_INVALID_CBOR),
                                    Some(ids) => match spec_pin_auth(payload, 6) {
                                        None => post == pre && spec_status_only(
                                            r,
                                            ERR_INVALID_CBOR,
                                        ),
                                        Some(pa) => if pre.pin_set && pa is None {
                                            post == pre && spec_status_only(r, ERR_PIN_REQUIRED)
                                        } else if pre.counter == u32::MAX {
                                            post == pre && spec_status_only(r, ERR_OTHER)
                                        } else {
                                            &&& crate::u2f::spec_sign_step(pre, post, post.counter)
                                            &&& (r matches Step::Pending(a) && (a
                                                matches PendingAction::GetAssertion {
                                                rp_id,
                                                client_data_hash,
                                                credential_ids,
                                                pin_auth,
                                                sign_counter,
                                            } && rp_id@ == rp && client_data_hash@ == ch
                                                && frame_views(credential_ids@) == ids && (match pa {
                                                None => pin_auth is None,
                                                Some(b) => pin_auth matches Some(v) && v@ == b,
                                            }) && sign_counter == post.counter))
                                        },
                                    },
                                }
                            },
                        },
                    },
                },
            },
        },
    }
}

/// ClientPIN decoding: the protocol and subcommand integers are decoded
/// exactly; getRetries and the getPINToken pre-check answer at once, the
/// key-store subcommands become pending actions carrying the raw CBOR
/// parameters.
#[verifier::opaque]
pub open spec fn spec_client_pin_step(
    pre: AuthState,
    payload: Seq<u8>,
    post: AuthState,
    r: Step,
) -> bool {
    match spec_find_uint_key(payload, 1, 1) {
        None => post == pre && spec_status_only(r, ERR_MISSING_PARAMETER),
        Some(pp) => match spec_uint_at(payload, pp) {
            None => post == pre && spec_status_only(r, ERR_INVALID_CBOR),
            Some(proto) => if proto != 1 {
                post == pre && spec_status_only(r, ERR_INVALID_PARAMETER)
            } else {
                match spec_find_uint_key(payload, 1, 2) {
                    None => post == pre && spec_status_only(r, ERR_MISSING_PARAMETER),
                    Some(sp) => match spec_uint_at(payload, sp) {
                        None => post == pre && spec_status_only(r, ERR_INVALID_CBOR),
                        Some(sub) => if sub == 1 {
                            post == pre && (r matches Step::Reply(v) && v@ == spec_retries_reply(
                                pre.pin_retries,
                            ))
                        } else if sub == 2 {
                            post == pre && (r matches Step::Pending(a) && a is GetKeyAgreement)
                        } else if sub == 3 {
                            post == pre && (r matches Step::Pending(a) && (a
                                matches PendingAction::SetPin { params, change } && params@
                                == payload.skip(1) && !change))
                        } else if sub == 4 {
                            post == pre && (r matches Step::Pending(a) && (a
                                matches PendingAction::SetPin { params, change } && params@
                                == payload.skip(1) && change))
                        } else if sub == 5 {
                            match spec_token_precheck(pre) {
                                Some(st) => post == pre && spec_status_only(r, st),
                                None => post == pre && (r matches Step::Pending(a) && (a
                                    matches PendingAction::GetPinToken { params } && params@
                                    == payload.skip(1))),
                            }
                        } else {
                            post == pre && spec_status_only(r, ERR_INVALID_PARAMETER)
                        },
                    },
                }
            },
        },
    }
}

/// What `handle_cbor` does.  Parse-independent commands are pinned down
/// exactly; for commands whose parameters arrive as CBOR, the branch
/// relations above tie every error status to its parse condition and
/// force a well-formed request into the pending action that carries the
/// decoded parameters.
pub open spec fn spec_cbor_step(pre: AuthState, payload: Seq<u8>, post: AuthState, r: Step) -> bool {
    &&& (r matches Step::Reply(v) ==> v@.len() <= crate::ctaphid::MAX_MSG_LEN)
    &&& if payload.len() == 0 {
        post == pre && spec_status_only(r, ERR_INVALID_LENGTH)
    } else {
        let cmd = payload[0];
        if cmd == CTAP2_GET_INFO {
            post == pre && (r matches Step::Reply(v) && v@ == spec_get_info(pre.pin_set))
        } else if cmd == CTAP2_GET_NEXT_ASSERTION {
            post == pre && spec_status_only(r, ERR_NOT_ALLOWED)
        } else if cmd == CTAP2_RESET {
            post == pre && (r matches Step::Pending(a) && a is Reset)
        } else if cmd == CTAP2_MAKE_CREDENTIAL {
            spec_mc_step(pre, payload, post, r)
        } else if cmd == CTAP2_GET_ASSERTION {
            spec_ga_step(pre, payload, post, r)
        } else if cmd == CTAP2_CLIENT_PIN {
            spec_client_pin_step(pre, payload, post, r)
        } else {
            post == pre && spec_status_only(r, ERR_INVALID_COMMAND)
        }
    }
}

fn status_reply(status: u8) -> (r: Vec<u8>)
    ensures
        r@ == seq![status],
{
    let mut v: Vec<u8> = Vec::new();
    v.push(status);
    proof {
        assert(v@ =~= seq![status]);
    }
    v
}

/// Copy the CBOR parameter bytes (everything after the command byte).
fn param_bytes(payload: &[u8]) -> (r: Vec<u8>)
    requires
        payload@.len() >= 1,
    ensures
        r@ == payload@.skip(1),
{
    let mut v: Vec<u8> = Vec::new();
    extend_from_range(&mut v, payload, 1, payload.len());
    proof {
        assert(v@ =~= payload@.skip(1));
    }
    v
}

/// Collect the "id" byte strings of `count` credential-descriptor
/// entries starting at `start`.
#[verifier::loop_isolation(false)]
fn read_cred_ids(payload: &[u8], start: usize, count: usize) -> (r: Option<Vec<Vec<u8>>>)
    requires
        start <= payload@.len(),
    ensures
        match r {
            Some(v) => spec_cred_ids(payload@, start as int, count as int) == Some(
                frame_views(v@),
            ),
            None => spec_cred_ids(payload@, start as int, count as int) is None,
        },
{
    let ghost all_ids = spec_cred_ids(payload@, start as int, count as int);
    let mut ids: Vec<Vec<u8>> = Vec::new();
    let mut item_pos = start;
    let mut i: usize = 0;
    let mut id_key: Vec<u8> = Vec::new();
    id_key.push(0x69);
    id_key.push(0x64);
    proof {
        assert(id_key@ =~= spec_id_key());
        assert(frame_views(ids@) =~= Seq::<Seq<u8>>::empty());
    }
    while i < count
        invariant
            item_pos <= payload@.len(),
            i <= count,
            match spec_cred_ids(payload@, item_pos as int, (count - i) as int) {
                Some(rest) => all_ids == Some(frame_views(ids@) + rest),
                None => all_ids is None,
            },
        decreases count - i,
    {
        let cid_pos = match find_text_key(payload, item_pos, id_key.as_slice()) {
            Some(p) => p,
            None => {
                return None;
            },
        };
        let cred_id = match read_bstr(payload, cid_pos) {
            Some((v, _)) => v,
            None => {
                return None;
            },
        };
        let next = match skip_value(payload, item_pos) {
            Some(p) => p,
            None => {
                return None;
            },
        };
        let ghost ids_before = ids@;
        let ghost id_view = cred_id@;
        ids.push(cred_id);
        proof {
            assert(frame_views(ids@) =~= frame_views(ids_before).push(id_view));
            match spec_cred_ids(payload@, next as int, (count - i - 1) as int) {
                Some(rest) => {
                    assert(spec_cred_ids(payload@, item_pos as int, (count - i) as int) == Some(
                        seq![id_view] + rest,
                    ));
                    assert(frame_views(ids_before) + (seq![id_view] + rest) =~= frame_views(ids@)
                        + rest);
                },
                None => {
                    assert(spec_cred_ids(payload@, item_pos as int, (count - i) as int) is None);
                },
            }
        }
        item_pos = next;
        i = i + 1;
    }
    proof {
        assert(spec_cred_ids(payload@, item_pos as int, 0) == Some(Seq::<Seq<u8>>::empty()));
        assert(frame_views(ids@) + Seq::<Seq<u8>>::empty() =~= frame_views(ids@));
    }
    Some(ids)
}

/// Decode the optional pinAuth byte string under the map key `key`.
fn read_pin_auth(payload: &[u8], key: u64) -> (r: Option<Option<Vec<u8>>>)
    ensures
        match r {
            Some(pa) => (match pa {
                Some(v) => spec_pin_auth(payload@, key as nat) == Some(Some(v@)),
                None => spec_pin_auth(payload@, key as nat) matches Some(q) && q is None,
            }),
            None => spec_pin_auth(payload@, key as nat) is None,
        },
{
    match find_uint_key(payload, 1, key) {
        None => Some(None),
        Some(pp) => match read_bstr(payload, pp) {
            Some((v, _)) => Some(Some(v)),
            None => None,
        },
    }
}

/// Decode and dispatch one MakeCredential request.
fn handle_make_credential(auth: &mut AuthState, payload: &[u8]) -> (r: Step)
    requires
        old(auth).wf(),
        payload@.len() >= 1,
    ensures
        final(auth).wf(),
        final(auth).counter >= old(auth).counter,
        spec_mc_step(*old(auth), payload@, *final(auth), r),
        r matches Step::Reply(v) ==> v@.len() <= crate::ctaphid::MAX_MSG_LEN,
{
    proof {
        reveal(spec_mc_step);
    }
    let ch_pos = match find_uint_key(payload, 1, 1) {
        Some(p) => p,
        None => {
            return Step::Reply(status_reply(ERR_MISSING_PARAMETER));
        },
    };
    let client_data_hash = match read_bstr(payload, ch_pos) {
        Some((v, _)) => v,
        None => {
            return Step::Reply(status_reply(ERR_INVALID_CBOR));
        },
    };
    let rp_pos = match find_uint_key(payload, 1, 2) {
        Some(p) => p,
        None => {
            return Step::Reply(status_reply(ERR_MISSING_PARAMETER));
        },
    };
    let mut id_key: Vec<u8> = Vec::new();
    id_key.push(0x69);
    id_key.push(0x64);
    proof {
        assert(id_key@ =~= spec_id_key());
    }
    let id_pos = match find_text_key(payload, rp_pos, id_key.as_slice()) {
        Some(p) => p,
        None => {
            return Step::Reply(status_reply(ERR_MISSING_PARAMETER));
        },
    };
    let rp_id = match read_tstr(payload, id_pos) {
        Some((v, _)) => v,
        None => {
            return Step::Reply(status_reply(ERR_INVALID_CBOR));
        },
    };
    if find_uint_key(payload, 1, 3).is_none() {
        // The user entity is required.
        return Step::Reply(status_reply(ERR_MISSING_PARAMETER));
    }
    if find_uint_key(payload, 1, 4).is_none() {
        // pubKeyCredParams is required.
        return Step::Reply(status_reply(ERR_MISSING_PARAMETER));
    }
    let exclude_ids: Vec<Vec<u8>> = match find_uint_key(payload, 1, 5) {
        None => {
            let none_listed: Vec<Vec<u8>> = Vec::new();
            proof {
                assert(frame_views(none_listed@) =~= Seq::<Seq<u8>>::empty());
            }
            none_listed
        },
        Some(lp) => {
            let (m, n, cp) = match read_hdr(payload, lp) {
                Some(h) => h,
                None => {
                    return Step::Reply(status_reply(ERR_INVALID_CBOR));
                },
            };
            if m != MAJOR_ARRAY || n > 64 {
                return Step::Reply(status_reply(ERR_INVALID_CBOR));
            }
            match read_cred_ids(payload, cp, n as usize) {
                Some(v) => v,
                None => {
                    return Step::Reply(status_reply(ERR_INVALID_CBOR));
                },
            }
        },
    };
    let pin_auth = match read_pin_auth(payload, 8) {
        Some(pa) => pa,
        None => {
            return Step::Reply(status_reply(ERR_INVALID_CBOR));
        },
    };
    if auth.pin_set && pin_auth.is_none() {
        return Step::Reply(status_reply(ERR_PIN_REQUIRED));
    }
    if auth.counter == u32::MAX {
        return Step::Reply(status_reply(ERR_OTHER));
    }
    auth.counter = auth.counter + 1;
    Step::Pending(
        PendingAction::MakeCredential {
            client_data_hash,
            rp_id,
            exclude_ids,
            pin_auth,
            sign_counter: auth.counter,
        },
    )
}

/// Decode and dispatch one GetAssertion request.
#[verifier::loop_isolation(false)]
#[verifier::rlimit(50)]
fn handle_get_assertion(auth: &mut AuthState, payload: &[u8]) -> (r: Step)
    requires
        old(auth).wf(),
        payload@.len() >= 1,
    ensures
        final(auth).wf(),
        final(auth).counter >= old(auth).counter,
        spec_ga_step(*old(auth), payload@, *final(auth), r),
        r matches Step::Reply(v) ==> v@.len() <= crate::ctaphid::MAX_MSG_LEN,
{
    proof {
        reveal(spec_ga_step);
    }
    let rp_pos = match find_uint_key(payload, 1, 1) {
        Some(p) => p,
        None => {
            return Step::Reply(status_reply(ERR_MISSING_PARAMETER));
        },
    };
    let rp_id = match read_tstr(payload, rp_pos) {
        Some((v, _)) => v,
        None => {
            return Step::Reply(status_reply(ERR_INVALID_CBOR));
        },
    };
    let ch_pos = match find_uint_key(payload, 1, 2) {
        Some(p) => p,
        None => {
            return Step::Reply(status_reply(ERR_MISSING_PARAMETER));
        },
    };
    let client_data_hash = match read_bstr(payload, ch_pos) {
        Some((v, _)) => v,
        None => {
            return Step::Reply(status_reply(ERR_INVALID_CBOR));
        },
    };
    let list_pos = match find_uint_key(payload, 1, 3) {
        Some(p) => p,
        None => {
            return Step::Reply(status_reply(ERR_NO_CREDENTIALS));
        },
    };
    let (list_major, list_n, item_pos) = match read_hdr(payload, list_pos) {
        Some(h) => h,
        None => {
            return Step::Reply(status_reply(ERR_INVALID_CBOR));
        },
    };
    if list_major != MAJOR_ARRAY || list_n > 64 {
        return Step::Reply(status_reply(ERR_INVALID_CBOR));
    }
    if list_n == 0 {
        return Step::Reply(status_reply(ERR_NO_CREDENTIALS));
    }
    let credential_ids = match read_cred_ids(payload, item_pos, list_n as usize) {
        Some(v) => v,
        None => {
            return Step::Reply(status_reply(ERR_INVALID_CBOR));
        },
    };
    let pin_auth = match read_pin_auth(payload, 6) {
        Some(pa) => pa,
        None => {
            return Step::Reply(status_reply(ERR_INVALID_CBOR));
        },
    };
    if auth.pin_set && pin_auth.is_none() {
        return Step::Reply(status_reply(ERR_PIN_REQUIRED));
    }
    if auth.counter == u32::MAX {
        return Step::Reply(status_reply(ERR_OTHER));
    }
    auth.counter = auth.counter + 1;
    Step::Pending(
        PendingAction::GetAssertion {
            rp_id,
            client_data_hash,
            credential_ids,
            pin_auth,
            sign_counter: auth.counter,
        },
    )
}

/// Decode and dispatch one ClientPIN request.
fn handle_client_pin(auth: &mut AuthState, payload: &[u8]) -> (r: Step)
    requires
        old(auth).wf(),
        payload@.len() >= 1,
    ensures
        final(auth).wf(),
        final(auth).counter >= old(auth).counter,
        spec_client_pin_step(*old(auth), payload@, *final(auth), r),
        r matches Step::Reply(v) ==> v@.len() <= crate::ctaphid::MAX_MSG_LEN,
{
    proof {
        reveal(spec_client_pin_step);
    }
    let proto_pos = match find_uint_key(payload, 1, 1) {
        Some(p) => p,
        None => {
            return Step::Reply(status_reply(ERR_MISSING_PARAMETER));
        },
    };
    let proto = match read_uint(payload, proto_pos) {
        Some((n, _)) => n,
        None => {
            return Step::Reply(status_reply(ERR_INVALID_CBOR));
        },
    };
    if proto != 1 {
        return Step::Reply(status_reply(ERR_INVALID_PARAMETER));
    }
    let sub_pos = match find_uint_key(payload, 1, 2) {
        Some(p) => p,
        None => {
            return Step::Reply(status_reply(ERR_MISSING_PARAMETER));
        },
    };
    let sub = match read_uint(payload, sub_pos) {
        Some((n, _)) => n,
        None => {
            return Step::Reply(status_reply(ERR_INVALID_CBOR));
        },
    };
    if sub == PIN_GET_RETRIES {
        let mut v: Vec<u8> = Vec::new();
        v.push(0x00);
        v.push(0xA1);
        v.push(0x03);
        v.push(auth.pin_retries);
        proof {
            assert(v@ =~= spec_retries_reply(auth.pin_retries));
        }
        Step::Reply(v)
    } else if sub == PIN_GET_KEY_AGREEMENT {
        Step::Pending(PendingAction::GetKeyAgreement)
    } else if sub == PIN_SET_PIN {
        Step::Pending(PendingAction::SetPin { params: param_bytes(payload), change: false })
    } else if sub == PIN_CHANGE_PIN {
        Step::Pending(PendingAction::SetPin { params: param_bytes(payload), change: true })
    } else if sub == PIN_GET_PIN_TOKEN {
        if !auth.pin_set {
            Step::Reply(status_reply(ERR_PIN_NOT_SET))
        } else if auth.pin_retries == 0 {
            Step::Reply(status_reply(ERR_PIN_BLOCKED))
        } else if auth.consecutive_wrong >= MAX_CONSECUTIVE_WRONG {
            Step::Reply(status_reply(ERR_PIN_AUTH_BLOCKED))
        } else {
            Step::Pending(PendingAction::GetPinToken { params: param_bytes(payload) })
        }
    } else {
        Step::Reply(status_reply(ERR_INVALID_PARAMETER))
    }
}

/// Handle one CTAP2 CBOR payload.  GetInfo and malformed requests are
/// answered at once; MakeCredential, GetAssertion, ClientPIN key
/// operations and Reset become pending actions for the prompt and the key
/// store.
pub fn handle_cbor(auth: &mut AuthState, payload: &[u8]) -> (r: Step)
    requires
        old(auth).wf(),
    ensures
        final(auth).wf(),
        final(auth).counter >= old(auth).counter,
        spec_cbor_step(*old(auth), payload@, *final(auth), r),
{
    if payload.len() == 0 {
        return Step::Reply(status_reply(ERR_INVALID_LENGTH));
    }
    let cmd = payload[0];
    if cmd == CTAP2_GET_INFO {
        Step::Reply(get_info_response(auth.pin_set))
    } else if cmd == CTAP2_GET_NEXT_ASSERTION {
        Step::Reply(status_reply(ERR_NOT_ALLOWED))
    } else if cmd == CTAP2_RESET {
        Step::Pending(PendingAction::Reset)
    } else if cmd == CTAP2_MAKE_CREDENTIAL {
        handle_make_credential(auth, payload)
    } else if cmd == CTAP2_GET_ASSERTION {
        handle_get_assertion(auth, payload)
    } else if cmd == CTAP2_CLIENT_PIN {
        handle_client_pin(auth, payload)
    } else {
        Step::Reply(status_reply(ERR_INVALID_COMMAND))
    }
}

// ------------------------------------------------------------------
// Reply builders for resolved pending actions.
// ------------------------------------------------------------------

/// The MakeCredential success reply: {1: "packed", 2: authData,
/// 3: {"alg": -7, "sig": signature, "x5c": [certificate]}}.
pub open spec fn spec_make_credential_response(
    auth_data: Seq<u8>,
    signature: Seq<u8>,
    certificate: Seq<u8>,
) -> Seq<u8> {
    seq![0x00u8, 0xA3, 0x01, 0x66, 0x70, 0x61, 0x63, 0x6B, 0x65, 0x64, 0x02]
        + crate::cbor::spec_hdr(MAJOR_BSTR, auth_data.len()) + auth_data + seq![
        0x03u8, 0xA3, 0x63, 0x61, 0x6C, 0x67, 0x26, 0x63, 0x73, 0x69, 0x67,
    ] + crate::cbor::spec_hdr(MAJOR_BSTR, signature.len()) + signature + seq![
        0x63u8, 0x78, 0x35, 0x63, 0x81,
    ] + crate::cbor::spec_hdr(MAJOR_BSTR, certificate.len()) + certificate
}

/// Build the MakeCredential success reply; `None` when the pieces cannot
/// fit one CTAPHID message.
pub fn make_credential_response(auth_data: &[u8], signature: &[u8], certificate: &[u8]) -> (r:
    Option<Vec<u8>>)
    ensures
        match r {
            Some(v) => v@ == spec_make_credential_response(auth_data@, signature@, certificate@)
                && v@.len() <= crate::ctaphid::MAX_MSG_LEN && auth_data@.len() + signature@.len()
                + certificate@.len() + 36 <= crate::ctaphid::MAX_MSG_LEN,
            None => auth_data@.len() + signature@.len() + certificate@.len() + 36
                > crate::ctaphid::MAX_MSG_LEN,
        },
{
    if auth_data.len() > crate::ctaphid::MAX_MSG_LEN || signature.len()
        > crate::ctaphid::MAX_MSG_LEN || certificate.len() > crate::ctaphid::MAX_MSG_LEN {
        return None;
    }
    if auth_data.len() + signature.len() + certificate.len() + 36 > crate::ctaphid::MAX_MSG_LEN {
        return None;
    }
    let mut v: Vec<u8> = vec![0x00u8, 0xA3, 0x01, 0x66, 0x70, 0x61, 0x63, 0x6B, 0x65, 0x64, 0x02];
    push_bstr(&mut v, auth_data);
    let tail: Vec<u8> = vec![0x03u8, 0xA3, 0x63, 0x61, 0x6C, 0x67, 0x26, 0x63, 0x73, 0x69, 0x67];
    extend_from_range(&mut v, tail.as_slice(), 0, tail.len());
    push_bstr(&mut v, signature);
    let tail2: Vec<u8> = vec![0x63u8, 0x78, 0x35, 0x63, 0x81];
    extend_from_range(&mut v, tail2.as_slice(), 0, tail2.len());
    push_bstr(&mut v, certificate);
    proof {
        assert(tail@.subrange(0, tail@.len() as int) =~= tail@);
        assert(tail2@.subrange(0, tail2@.len() as int) =~= tail2@);
        assert(v@ =~= spec_make_credential_response(auth_data@, signature@, certificate@));
    }
    Some(v)
}

/// The GetAssertion success reply: {1: {"id": credentialId,
/// "type": "public-key"}, 2: authData, 3: signature}.
pub open spec fn spec_get_assertion_response(
    credential_id: Seq<u8>,
    auth_data: Seq<u8>,
    signature: Seq<u8>,
) -> Seq<u8> {
    seq![0x00u8, 0xA3, 0x01, 0xA2, 0x62, 0x69, 0x64]
        + crate::cbor::spec_hdr(MAJOR_BSTR, credential_id.len()) + credential_id + seq![
        0x64u8, 0x74, 0x79, 0x70, 0x65, 0x6A, 0x70, 0x75, 0x62, 0x6C, 0x69, 0x63, 0x2D, 0x6B,
        0x65, 0x79, 0x02,
    ] + crate::cbor::spec_hdr(MAJOR_BSTR, auth_data.len()) + auth_data + seq![0x03u8]
        + crate::cbor::spec_hdr(MAJOR_BSTR, signature.len()) + signature
}

/// Build the GetAssertion success reply; `None` when the pieces cannot
/// fit one CTAPHID message.
pub fn get_assertion_response(credential_id: &[u8], auth_data: &[u8], signature: &[u8]) -> (r:
    Option<Vec<u8>>)
    ensures
        match r {
            Some(v) => v@ == spec_get_assertion_response(credential_id@, auth_data@, signature@)
                && v@.len() <= crate::ctaphid::MAX_MSG_LEN && credential_id@.len()
                + auth_data@.len() + signature@.len() + 36 <= crate::ctaphid::MAX_MSG_LEN,
            None => credential_id@.len() + auth_data@.len() + signature@.len() + 36
                > crate::ctaphid::MAX_MSG_LEN,
        },
{
    if credential_id.len() > crate::ctaphid::MAX_MSG_LEN || auth_data.len()
        > crate::ctaphid::MAX_MSG_LEN || signature.len() > crate::ctaphid::MAX_MSG_LEN {
        return None;
    }
    if credential_id.len() + auth_data.len() + signature.len() + 36
        > crate::ctaphid::MAX_MSG_LEN {
        return None;
    }
    let mut v: Vec<u8> = vec![0x00u8, 0xA3, 0x01, 0xA2, 0x62, 0x69, 0x64];
    push_bstr(&mut v, credential_id);
    let mid: Vec<u8> = vec![
        0x64u8, 0x74, 0x79, 0x70, 0x65, 0x6A, 0x70, 0x75, 0x62, 0x6C, 0x69, 0x63, 0x2D, 0x6B,
        0x65, 0x79, 0x02,
    ];
    extend_from_range(&mut v, mid.as_slice(), 0, mid.len());
    push_bstr(&mut v, auth_data);
    v.push(0x03);
    push_bstr(&mut v, signature);
    proof {
        assert(mid@.subrange(0, mid@.len() as int) =~= mid@);
        assert(v@ =~= spec_get_assertion_response(credential_id@, auth_data@, signature@));
    }
    Some(v)
}

/// The getKeyAgreement reply: {1: COSE_Key {1: 2, 3: -25, -1: 1, -2: x,
/// -3: y}} for a P-256 point.
pub open spec fn spec_key_agreement_response(x: Seq<u8>, y: Seq<u8>) -> Seq<u8>
    recommends
        x.len() == 32,
        y.len() == 32,
{
    seq![
        0x00u8, 0xA1, 0x01, 0xA5, 0x01, 0x02, 0x03, 0x38, 0x18, 0x20, 0x01, 0x21, 0x58, 0x20,
    ] + x + seq![0x22u8, 0x58, 0x20] + y
}

/// Build the getKeyAgreement reply; `None` unless both coordinates are
/// 32 bytes.
pub fn key_agreement_response(x: &[u8], y: &[u8]) -> (r: Option<Vec<u8>>)
    ensures
        match r {
            Some(v) => v@ == spec_key_agreement_response(x@, y@) && x@.len() == 32 && y@.len()
                == 32 && v@.len() <= crate::ctaphid::MAX_MSG_LEN,
            None => x@.len() != 32 || y@.len() != 32,
        },
{
    if x.len() != 32 || y.len() != 32 {
        return None;
    }
    let mut v: Vec<u8> = vec![
        0x00u8, 0xA1, 0x01, 0xA5, 0x01, 0x02, 0x03, 0x38, 0x18, 0x20, 0x01, 0x21, 0x58, 0x20,
    ];
    extend_from_range(&mut v, x, 0, x.len());
    v.push(0x22);
    v.push(0x58);
    v.push(0x20);
    extend_from_range(&mut v, y, 0, y.len());
    proof {
        assert(x@.subrange(0, x@.len() as int) =~= x@);
        assert(y@.subrange(0, y@.len() as int) =~= y@);
        assert(v@ =~= spec_key_agreement_response(x@, y@));
    }
    Some(v)
}

/// Authenticator data for a freshly minted credential, per the CTAP2
/// layout: rpIdHash(32) | flags(1) | signCount(4 BE) | AAGUID(16) |
/// credentialIdLength(2 BE) | credentialId | credentialPublicKey.
pub open spec fn spec_attested_auth_data(
    rp_id_hash: Seq<u8>,
    flags: u8,
    counter: u32,
    credential_id: Seq<u8>,
    cose_key: Seq<u8>,
) -> Seq<u8> {
    rp_id_hash + seq![flags] + crate::u2f::spec_u32_be(counter) + spec_aaguid() + seq![
        (credential_id.len() / 256) as u8,
        (credential_id.len() % 256) as u8,
    ] + credential_id + cose_key
}

/// Build the authenticator data carrying an attested credential; `None`
/// unless the rpIdHash is 32 bytes and everything fits one message.
pub fn attested_auth_data(
    rp_id_hash: &[u8],
    flags: u8,
    counter: u32,
    credential_id: &[u8],
    cose_key: &[u8],
) -> (r: Option<Vec<u8>>)
    ensures
        match r {
            Some(v) => v@ == spec_attested_auth_data(
                rp_id_hash@,
                flags,
                counter,
                credential_id@,
                cose_key@,
            ) && rp_id_hash@.len() == 32 && v@.len() <= crate::ctaphid::MAX_MSG_LEN,
            None => rp_id_hash@.len() != 32 || credential_id@.len() > 0xFFFF || 55
                + credential_id@.len() + cose_key@.len() > crate::ctaphid::MAX_MSG_LEN,
        },
{
    if rp_id_hash.len() != 32 || credential_id.len() > 0xFFFF {
        return None;
    }
    if cose_key.len() > crate::ctaphid::MAX_MSG_LEN || 55 + credential_id.len() + cose_key.len()
        > crate::ctaphid::MAX_MSG_LEN {
        return None;
    }
    let mut v: Vec<u8> = Vec::new();
    extend_from_range(&mut v, rp_id_hash, 0, rp_id_hash.len());
    v.push(flags);
    let counter_bytes = crate::u2f::u32_be_bytes(counter);
    extend_from_range(&mut v, counter_bytes.as_slice(), 0, 4);
    let guid = aaguid();
    extend_from_range(&mut v, guid.as_slice(), 0, guid.len());
    v.push((credential_id.len() / 256) as u8);
    v.push((credential_id.len() % 256) as u8);
    extend_from_range(&mut v, credential_id, 0, credential_id.len());
    extend_from_range(&mut v, cose_key, 0, cose_key.len());
    proof {
        assert(rp_id_hash@.subrange(0, rp_id_hash@.len() as int) =~= rp_id_hash@);
        assert(counter_bytes@.subrange(0, 4) =~= crate::u2f::spec_u32_be(counter));
        assert(guid@.subrange(0, guid@.len() as int) =~= spec_aaguid());
        assert(credential_id@.subrange(0, credential_id@.len() as int) =~= credential_id@);
        assert(cose_key@.subrange(0, cose_key@.len() as int) =~= cose_key@);
        assert(v@ =~= spec_attested_auth_data(
            rp_id_hash@,
            flags,
            counter,
            credential_id@,
            cose_key@,
        ));
    }
    Some(v)
}

/// Authenticator data for an assertion: rpIdHash(32) | flags(1) |
/// signCount(4 BE).
pub open spec fn spec_assertion_auth_data(rp_id_hash: Seq<u8>, flags: u8, counter: u32) -> Seq<
    u8,
> {
    rp_id_hash + seq![flags] + crate::u2f::spec_u32_be(counter)
}

/// Build the 37-byte assertion authenticator data; `None` unless the
/// rpIdHash is 32 bytes.
pub fn assertion_auth_data(rp_id_hash: &[u8], flags: u8, counter: u32) -> (r: Option<Vec<u8>>)
    ensures
        match r {
            Some(v) => v@ == spec_assertion_auth_data(rp_id_hash@, flags, counter) && v@.len()
                == 37,
            None => rp_id_hash@.len() != 32,
        },
{
    if rp_id_hash.len() != 32 {
        return None;
    }
    let mut v: Vec<u8> = Vec::new();
    extend_from_range(&mut v, rp_id_hash, 0, rp_id_hash.len());
    v.push(flags);
    let counter_bytes = crate::u2f::u32_be_bytes(counter);
    extend_from_range(&mut v, counter_bytes.as_slice(), 0, 4);
    proof {
        assert(rp_id_hash@.subrange(0, rp_id_hash@.len() as int) =~= rp_id_hash@);
        assert(counter_bytes@.subrange(0, 4) =~= crate::u2f::spec_u32_be(counter));
        assert(v@ =~= spec_assertion_auth_data(rp_id_hash@, flags, counter));
    }
    Some(v)
}

/// The getPINToken reply: {2: pinToken}.
pub open spec fn spec_pin_token_response(token: Seq<u8>) -> Seq<u8> {
    seq![0x00u8, 0xA1, 0x02] + crate::cbor::spec_hdr(MAJOR_BSTR, token.len()) + token
}

/// Build the getPINToken reply; `None` when the token is too large.
pub fn pin_token_response(token: &[u8]) -> (r: Option<Vec<u8>>)
    ensures
        match r {
            Some(v) => v@ == spec_pin_token_response(token@) && v@.len()
                <= crate::ctaphid::MAX_MSG_LEN,
            None => token@.len() + 6 > crate::ctaphid::MAX_MSG_LEN,
        },
{
    if token.len() > crate::ctaphid::MAX_MSG_LEN - 6 {
        return None;
    }
    let mut v: Vec<u8> = vec![0x00u8, 0xA1, 0x02];
    push_bstr(&mut v, token);
    proof {
        assert(v@ =~= spec_pin_token_response(token@));
    }
    Some(v)
}

} // verus!
