//! The CTAPHID framing layer: 64-byte packet codec, message framing, the
//! channel table, and command dispatch.
//!
//! A message (cid, cmd, payload) travels as one INIT packet
//! `CID:4 | CMD|0x80:1 | BCNTH:1 | BCNTL:1 | DATA<=57` followed by
//! continuation packets `CID:4 | SEQ:1 | DATA<=59`, each padded with zeros
//! to 64 bytes.  The CID is carried as a 4-byte little-endian value.

use vstd::prelude::*;
use vstd::bytes::*;
use vstd::slice::slice_subrange;
use crate::auth::{spec_release, spec_reserved_counter, AuthState, Outcome, PendingAction, Step};

verus! {

pub const PACKET_SIZE: usize = 64;
/// Payload bytes carried by an INIT packet.
pub const INIT_DATA: usize = 57;
/// Payload bytes carried by a CONT packet.
pub const CONT_DATA: usize = 59;
/// Largest message: 57 + 128 * 59 bytes.
pub const MAX_MSG_LEN: usize = 7609;

pub const CTAPHID_PING: u8 = 0x01;
pub const CTAPHID_MSG: u8 = 0x03;
pub const CTAPHID_LOCK: u8 = 0x04;
pub const CTAPHID_INIT: u8 = 0x06;
pub const CTAPHID_WINK: u8 = 0x08;
pub const CTAPHID_CBOR: u8 = 0x10;
pub const CTAPHID_CANCEL: u8 = 0x11;
pub const CTAPHID_KEEPALIVE: u8 = 0x3B;
pub const CTAPHID_ERROR: u8 = 0x3F;

pub const ERR_INVALID_CMD: u8 = 0x01;
pub const ERR_INVALID_LEN: u8 = 0x03;
pub const ERR_INVALID_SEQ: u8 = 0x04;
pub const ERR_CHANNEL_BUSY: u8 = 0x06;
pub const ERR_INVALID_CID: u8 = 0x0B;

/// The broadcast channel: carries INIT only.
pub const BROADCAST_CID: u32 = 0xFFFF_FFFF;
/// CID 0 is reserved and never allocated.
pub const RESERVED_CID: u32 = 0;

/// Capability flags of the INIT reply: WINK (0x01) and CBOR (0x04).
pub const CAPABILITIES: u8 = 0x05;
pub const PROTOCOL_VERSION: u8 = 2;
pub const DEVICE_VERSION_MAJOR: u8 = 0;
pub const DEVICE_VERSION_MINOR: u8 = 0;
pub const DEVICE_VERSION_BUILD: u8 = 1;

/// KEEPALIVE status byte: waiting for user presence.
pub const KEEPALIVE_TUP_NEEDED: u8 = 0x02;

// ------------------------------------------------------------------
// Packet and frame shapes, as sequences of bytes.
// ------------------------------------------------------------------

pub open spec fn spec_zeros(n: nat) -> Seq<u8> {
    Seq::new(n, |i: int| 0u8)
}

/// A packet head padded with zeros to the full 64 bytes.
pub open spec fn spec_pad64(s: Seq<u8>) -> Seq<u8>
    recommends
        s.len() <= 64,
{
    s + spec_zeros((64 - s.len()) as nat)
}

pub open spec fn spec_cid_bytes(cid: u32) -> Seq<u8> {
    spec_u32_to_le_bytes(cid)
}

/// The INIT packet of a message: at most the first 57 payload bytes.
pub open spec fn spec_init_frame(cid: u32, cmd: u8, msg: Seq<u8>) -> Seq<u8>
    recommends
        cmd < 0x80,
        msg.len() <= MAX_MSG_LEN,
{
    spec_pad64(
        spec_cid_bytes(cid) + seq![
            (cmd + 0x80) as u8,
            (msg.len() / 256) as u8,
            (msg.len() % 256) as u8,
        ] + if msg.len() <= INIT_DATA { msg } else { msg.take(INIT_DATA as int) },
    )
}

/// The CONT packets carrying `rest`, numbered from `seqno`.
pub open spec fn spec_cont_frames(cidb: Seq<u8>, seqno: u8, rest: Seq<u8>) -> Seq<Seq<u8>>
    decreases rest.len(),
{
    if rest.len() == 0 {
        Seq::empty()
    } else if rest.len() <= CONT_DATA {
        seq![spec_pad64(cidb + seq![seqno] + rest)]
    } else {
        seq![spec_pad64(cidb + seq![seqno] + rest.take(CONT_DATA as int))]
            + spec_cont_frames(cidb, (seqno + 1) as u8, rest.skip(CONT_DATA as int))
    }
}

/// The full packet stream for one message.
pub open spec fn spec_frames(cid: u32, cmd: u8, msg: Seq<u8>) -> Seq<Seq<u8>>
    recommends
        cmd < 0x80,
        msg.len() <= MAX_MSG_LEN,
{
    if msg.len() <= INIT_DATA {
        seq![spec_init_frame(cid, cmd, msg)]
    } else {
        seq![spec_init_frame(cid, cmd, msg)]
            + spec_cont_frames(spec_cid_bytes(cid), 0, msg.skip(INIT_DATA as int))
    }
}

/// The views of a vector of frames.
pub open spec fn frame_views(s: Seq<Vec<u8>>) -> Seq<Seq<u8>> {
    s.map_values(|v: Vec<u8>| v@)
}

// ------------------------------------------------------------------
// Reading packets.
// ------------------------------------------------------------------

pub open spec fn spec_packet_cid(p: Seq<u8>) -> u32
    recommends
        p.len() == 64,
{
    spec_u32_from_le_bytes(p.subrange(0, 4))
}

pub open spec fn spec_is_init_packet(p: Seq<u8>) -> bool
    recommends
        p.len() == 64,
{
    p[4] >= 0x80
}

pub open spec fn spec_packet_cmd(p: Seq<u8>) -> u8
    recommends
        p.len() == 64,
        spec_is_init_packet(p),
{
    (p[4] - 0x80) as u8
}

pub open spec fn spec_packet_seq(p: Seq<u8>) -> u8
    recommends
        p.len() == 64,
        !spec_is_init_packet(p),
{
    p[4]
}

pub open spec fn spec_packet_bcnt(p: Seq<u8>) -> int
    recommends
        p.len() == 64,
        spec_is_init_packet(p),
{
    (p[5] as int) * 256 + (p[6] as int)
}

// ------------------------------------------------------------------
// Reassembling a packet stream (the host's view of a reply).
// ------------------------------------------------------------------

/// Collect `need` payload bytes from CONT packets with ascending sequence
/// numbers on the channel `cidb`.
pub open spec fn spec_collect(frames: Seq<Seq<u8>>, cidb: Seq<u8>, seqno: u8, need: int) -> Option<
    Seq<u8>,
>
    decreases frames.len(),
{
    if need <= 0 {
        if frames.len() == 0 {
            Some(Seq::empty())
        } else {
            None
        }
    } else if frames.len() == 0 {
        None
    } else {
        let f = frames[0];
        let take = if need <= CONT_DATA { need } else { CONT_DATA as int };
        if f.len() == 64 && f.subrange(0, 4) == cidb && f[4] == seqno {
            match spec_collect(frames.skip(1), cidb, (seqno + 1) as u8, need - take) {
                Some(rest) => Some(f.subrange(5, 5 + take) + rest),
                None => None,
            }
        } else {
            None
        }
    }
}

/// Decode a complete packet stream back into (cid, cmd, payload).
pub open spec fn spec_assemble(frames: Seq<Seq<u8>>) -> Option<(u32, u8, Seq<u8>)> {
    if frames.len() == 0 || frames[0].len() != 64 || !spec_is_init_packet(frames[0]) {
        None
    } else {
        let f = frames[0];
        let cid = spec_packet_cid(f);
        let cmd = spec_packet_cmd(f);
        let bcnt = spec_packet_bcnt(f);
        if bcnt <= INIT_DATA {
            if frames.len() == 1 {
                Some((cid, cmd, f.subrange(7, 7 + bcnt)))
            } else {
                None
            }
        } else {
            match spec_collect(frames.skip(1), f.subrange(0, 4), 0, bcnt - INIT_DATA) {
                Some(rest) => Some((cid, cmd, f.subrange(7, 7 + INIT_DATA) + rest)),
                None => None,
            }
        }
    }
}

// ------------------------------------------------------------------
// Building the packet stream.
// ------------------------------------------------------------------

/// Append `src[start..end]` to `dst`.
pub fn extend_from_range(dst: &mut Vec<u8>, src: &[u8], start: usize, end: usize)
    requires
        start <= end <= src@.len(),
    ensures
        final(dst)@ == old(dst)@ + src@.subrange(start as int, end as int),
{
    let mut i: usize = start;
    while i < end
        invariant
            start <= i <= end <= src@.len(),
            dst@ == old(dst)@ + src@.subrange(start as int, i as int),
        decreases end - i,
    {
        dst.push(src[i]);
        proof {
            assert(dst@ =~= old(dst)@ + src@.subrange(start as int, i + 1 as int));
        }
        i = i + 1;
    }
}

/// Pad a packet head with zeros to the full packet size.
fn pad_to_packet(v: &mut Vec<u8>)
    requires
        old(v)@.len() <= 64,
    ensures
        final(v)@ == spec_pad64(old(v)@),
{
    while v.len() < PACKET_SIZE
        invariant
            old(v)@.len() <= v@.len() <= 64,
            v@ == old(v)@ + spec_zeros((v@.len() - old(v)@.len()) as nat),
        decreases 64 - v@.len(),
    {
        v.push(0);
        proof {
            assert(v@ =~= old(v)@ + spec_zeros((v@.len() - old(v)@.len()) as nat));
        }
    }
    proof {
        assert(v@ =~= spec_pad64(old(v)@));
    }
}

/// Split a message into its INIT + CONT packet stream.
pub fn frame_message(cid: u32, cmd: u8, msg: &[u8]) -> (r: Vec<Vec<u8>>)
    requires
        cmd < 0x80,
        msg@.len() <= MAX_MSG_LEN,
    ensures
        frame_views(r@) == spec_frames(cid, cmd, msg@),
        forall|i: int| 0 <= i < r@.len() ==> (#[trigger] r@[i])@.len() == 64,
{
    let ghost target = spec_frames(cid, cmd, msg@);
    let n = msg.len();
    let mut r: Vec<Vec<u8>> = Vec::new();

    let mut f: Vec<u8> = u32_to_le_bytes(cid);
    f.push(cmd + 0x80);
    f.push((n / 256) as u8);
    f.push((n % 256) as u8);
    let head = if n <= INIT_DATA {
        n
    } else {
        INIT_DATA
    };
    extend_from_range(&mut f, msg, 0, head);
    pad_to_packet(&mut f);
    proof {
        assert(f@ =~= spec_init_frame(cid, cmd, msg@));
    }
    r.push(f);

    let mut off: usize = head;
    let mut seqno: u8 = 0;
    proof {
        assert(frame_views(r@) =~= seq![spec_init_frame(cid, cmd, msg@)]);
        if n > INIT_DATA {
            assert(frame_views(r@) + spec_cont_frames(spec_cid_bytes(cid), 0, msg@.skip(57))
                =~= target);
        } else {
            assert(frame_views(r@) =~= target);
        }
    }
    while off < n
        invariant
            msg@.len() == n <= MAX_MSG_LEN,
            off < n ==> off == INIT_DATA + CONT_DATA * (seqno as int),
            off < n ==> frame_views(r@) + spec_cont_frames(
                spec_cid_bytes(cid),
                seqno,
                msg@.skip(off as int),
            ) =~= target,
            off >= n ==> frame_views(r@) =~= target,
            forall|i: int| 0 <= i < r@.len() ==> (#[trigger] r@[i])@.len() == 64,
        decreases n - off,
    {
        let ghost rest = msg@.skip(off as int);
        let mut g: Vec<u8> = u32_to_le_bytes(cid);
        g.push(seqno);
        let take = if n - off <= CONT_DATA {
            n - off
        } else {
            CONT_DATA
        };
        extend_from_range(&mut g, msg, off, off + take);
        pad_to_packet(&mut g);
        proof {
            if n - off <= CONT_DATA {
                assert(msg@.subrange(off as int, (off + take) as int) =~= rest);
                assert(g@ =~= spec_pad64(spec_cid_bytes(cid) + seq![seqno] + rest));
            } else {
                assert(msg@.subrange(off as int, (off + take) as int) =~= rest.take(
                    CONT_DATA as int,
                ));
                assert(g@ =~= spec_pad64(
                    spec_cid_bytes(cid) + seq![seqno] + rest.take(CONT_DATA as int),
                ));
            }
        }
        let ghost r_before = r@;
        r.push(g);
        proof {
            assert(frame_views(r@) =~= frame_views(r_before).push(g@));
            if n - off <= CONT_DATA {
                assert(spec_cont_frames(spec_cid_bytes(cid), seqno, rest) =~= seq![g@]);
                assert(frame_views(r@) =~= target);
            } else {
                assert(spec_cont_frames(spec_cid_bytes(cid), seqno, rest) =~= seq![g@]
                    + spec_cont_frames(
                    spec_cid_bytes(cid),
                    (seqno + 1) as u8,
                    rest.skip(CONT_DATA as int),
                ));
                assert(rest.skip(CONT_DATA as int) =~= msg@.skip((off + CONT_DATA) as int));
                assert(frame_views(r@) + spec_cont_frames(
                    spec_cid_bytes(cid),
                    (seqno + 1) as u8,
                    msg@.skip((off + CONT_DATA) as int),
                ) =~= target);
            }
        }
        if take == CONT_DATA {
            seqno = seqno + 1;
        }
        off = off + take;
    }
    r
}

// ------------------------------------------------------------------
// The framing round trip: decoding the stream the framer builds gives
// back exactly the message that went in.
// ------------------------------------------------------------------

proof fn lemma_collect_round_trip(cidb: Seq<u8>, seqno: u8, rest: Seq<u8>)
    requires
        cidb.len() == 4,
        rest.len() >= 1,
        rest.len() <= CONT_DATA * (128 - seqno as int),
    ensures
        spec_collect(spec_cont_frames(cidb, seqno, rest), cidb, seqno, rest.len() as int)
            == Some(rest),
    decreases rest.len(),
{
    let frames = spec_cont_frames(cidb, seqno, rest);
    if rest.len() <= CONT_DATA {
        let f = spec_pad64(cidb + seq![seqno] + rest);
        assert(frames =~= seq![f]);
        assert(f.len() == 64);
        assert(f.subrange(0, 4) =~= cidb);
        assert(f[4] == seqno);
        assert(frames.skip(1) =~= Seq::<Seq<u8>>::empty());
        assert(f.subrange(5, 5 + rest.len() as int) =~= rest);
        assert(spec_collect(frames.skip(1), cidb, (seqno + 1) as u8, 0) == Some(
            Seq::<u8>::empty(),
        ));
        assert(f.subrange(5, 5 + rest.len() as int) + Seq::<u8>::empty() =~= rest);
        assert(spec_collect(frames, cidb, seqno, rest.len() as int) == Some(rest));
    } else {
        let f = spec_pad64(cidb + seq![seqno] + rest.take(CONT_DATA as int));
        let tail = rest.skip(CONT_DATA as int);
        assert(seqno < 127) by {
            assert(rest.len() > CONT_DATA);
            assert(CONT_DATA * (128 - seqno as int) > CONT_DATA);
        }
        lemma_collect_round_trip(cidb, (seqno + 1) as u8, tail);
        assert(frames =~= seq![f] + spec_cont_frames(cidb, (seqno + 1) as u8, tail));
        assert(f.len() == 64);
        assert(f.subrange(0, 4) =~= cidb);
        assert(f[4] == seqno);
        assert(frames.skip(1) =~= spec_cont_frames(cidb, (seqno + 1) as u8, tail));
        assert(f.subrange(5, 5 + CONT_DATA as int) =~= rest.take(CONT_DATA as int));
        assert(spec_collect(frames, cidb, seqno, rest.len() as int) == Some(
            rest.take(CONT_DATA as int) + tail,
        ));
        assert(rest.take(CONT_DATA as int) + tail =~= rest);
    }
}

/// PING round trip: a PING payload framed by the authenticator decodes
/// on the host to exactly the payload that was sent; together with the
/// dispatch contract (the PING reply frames are the frames of the
/// request payload on the same channel), the echo is byte-exact.
pub proof fn lemma_ping_round_trip(cid: u32, payload: Seq<u8>)
    requires
        1 <= payload.len() <= MAX_MSG_LEN,
    ensures
        spec_assemble(spec_frames(cid, CTAPHID_PING, payload)) == Some(
            (cid, CTAPHID_PING, payload),
        ),
{
    lemma_frames_round_trip(cid, CTAPHID_PING, payload);
}

/// Framing round trip: the packet stream built for (cid, cmd, msg)
/// decodes back to exactly (cid, cmd, msg).
pub proof fn lemma_frames_round_trip(cid: u32, cmd: u8, msg: Seq<u8>)
    requires
        cmd < 0x80,
        msg.len() <= MAX_MSG_LEN,
    ensures
        spec_assemble(spec_frames(cid, cmd, msg)) == Some((cid, cmd, msg)),
{
    let frames = spec_frames(cid, cmd, msg);
    let f = spec_init_frame(cid, cmd, msg);
    lemma_auto_spec_u32_to_from_le_bytes();
    assert(f.subrange(0, 4) =~= spec_cid_bytes(cid));
    assert(spec_packet_cid(f) == cid);
    assert(f[4] == cmd + 0x80);
    assert(spec_is_init_packet(f));
    assert(spec_packet_cmd(f) == cmd);
    assert(f[5] == (msg.len() / 256) as u8);
    assert(f[6] == (msg.len() % 256) as u8);
    assert(spec_packet_bcnt(f) == msg.len()) by {
        assert(msg.len() / 256 < 256);
        vstd::arithmetic::div_mod::lemma_fundamental_div_mod(msg.len() as int, 256);
    }
    if msg.len() <= INIT_DATA {
        assert(frames =~= seq![f]);
        assert(f.subrange(7, 7 + msg.len() as int) =~= msg);
    } else {
        let rest = msg.skip(INIT_DATA as int);
        assert(rest.len() <= CONT_DATA * 128);
        lemma_collect_round_trip(spec_cid_bytes(cid), 0, rest);
        assert(frames.skip(1) =~= spec_cont_frames(spec_cid_bytes(cid), 0, rest));
        assert(f.subrange(0, 4) =~= spec_cid_bytes(cid));
        assert(spec_collect(frames.skip(1), f.subrange(0, 4), 0, rest.len() as int) == Some(rest));
        assert(f.subrange(7, 7 + INIT_DATA as int) =~= msg.take(INIT_DATA as int));
        assert(msg.take(INIT_DATA as int) + rest =~= msg);
    }
}

// ------------------------------------------------------------------
// The framer: channel table, assembly state, send queue, pending work.
// ------------------------------------------------------------------

/// A message being assembled on one channel.
pub struct Assembly {
    pub cmd: u8,
    pub bcnt: u16,
    pub data: Vec<u8>,
    pub next_seq: u8,
}

impl Assembly {
    pub open spec fn wf(self) -> bool {
        &&& self.cmd < 0x80
        &&& self.bcnt <= MAX_MSG_LEN
        &&& self.data@.len() == INIT_DATA + CONT_DATA * (self.next_seq as int)
        &&& self.data@.len() < self.bcnt
    }
}

/// One allocated CTAPHID channel.
pub struct Channel {
    pub cid: u32,
    pub assembly: Option<Assembly>,
}

impl Channel {
    pub open spec fn wf(self) -> bool {
        &&& self.cid != RESERVED_CID
        &&& self.cid != BROADCAST_CID
        &&& match self.assembly {
            Some(a) => a.wf(),
            None => true,
        }
    }
}

/// A command waiting on the prompt or the key store.
pub struct PendingRequest {
    pub cid: u32,
    pub cancelled: bool,
    pub action: PendingAction,
}

/// Which transport carries the reply of an action: U2F actions answer as
/// MSG with a status word, the rest as CBOR with a status byte.
pub open spec fn spec_action_is_u2f(a: PendingAction) -> bool {
    ||| a matches PendingAction::U2fRegister { .. }
    ||| a matches PendingAction::U2fSign { .. }
    ||| a matches PendingAction::U2fCheckOnly { .. }
}

fn action_is_u2f(a: &PendingAction) -> (r: bool)
    ensures
        r == spec_action_is_u2f(*a),
{
    match a {
        PendingAction::U2fRegister { .. } => true,
        PendingAction::U2fSign { .. } => true,
        PendingAction::U2fCheckOnly { .. } => true,
        _ => false,
    }
}

fn reserved_counter(a: &PendingAction) -> (r: Option<u32>)
    ensures
        r == spec_reserved_counter(*a),
{
    match a {
        PendingAction::U2fSign { counter, .. } => Some(*counter),
        PendingAction::MakeCredential { sign_counter, .. } => Some(*sign_counter),
        PendingAction::GetAssertion { sign_counter, .. } => Some(*sign_counter),
        _ => None,
    }
}

pub open spec fn sq_wf(sq: Seq<Vec<u8>>) -> bool {
    forall|i: int| 0 <= i < sq.len() ==> (#[trigger] sq[i])@.len() == 64
}

/// The CTAPHID framer.
pub struct Parser {
    pub channels: Vec<Channel>,
    pub next_cid: u32,
    pub send_queue: Vec<Vec<u8>>,
    pub pending: Option<PendingRequest>,
    pub auth: AuthState,
}

/// The frames appended beyond a queue prefix.
pub open spec fn spec_appended_from(pre_sq: Seq<Vec<u8>>, post_sq: Seq<Vec<u8>>) -> Seq<Seq<u8>> {
    frame_views(post_sq.skip(pre_sq.len() as int))
}

/// The frames this step appended to the send queue.
pub open spec fn spec_appended(pre: Parser, post: Parser) -> Seq<Seq<u8>> {
    spec_appended_from(pre.send_queue@, post.send_queue@)
}

/// The step only framed a reply (cid, cmd, msg) onto the queue.
pub open spec fn spec_replied(pre_sq: Seq<Vec<u8>>, post: Parser, cid: u32, cmd: u8, msg: Seq<u8>) -> bool {
    &&& pre_sq.is_prefix_of(post.send_queue@)
    &&& spec_appended_from(pre_sq, post.send_queue@) == spec_frames(cid, cmd, msg)
}

/// The step framed one ERROR code and left all other state alone.
pub open spec fn spec_state_kept_replied(pre: Parser, post: Parser, cid: u32, code: u8) -> bool {
    &&& post.channels == pre.channels
    &&& post.next_cid == pre.next_cid
    &&& post.pending == pre.pending
    &&& post.auth == pre.auth
    &&& spec_replied(pre.send_queue@, post, cid, CTAPHID_ERROR, seq![code])
}

/// The INIT reply payload: the 8-byte nonce, the channel id, protocol
/// version 2, the device version triple, and the capability flags.
pub open spec fn spec_init_payload(nonce: Seq<u8>, cid: u32) -> Seq<u8> {
    nonce + spec_cid_bytes(cid) + seq![
        PROTOCOL_VERSION,
        DEVICE_VERSION_MAJOR,
        DEVICE_VERSION_MINOR,
        DEVICE_VERSION_BUILD,
        CAPABILITIES,
    ]
}

/// How a handler step lands in the framer: a reply is framed on the
/// wire command; a pending action parks with its channel.
pub open spec fn spec_step_applied(
    pre_sq: Seq<Vec<u8>>,
    pre_pending: Option<PendingRequest>,
    post: Parser,
    cid: u32,
    wire_cmd: u8,
    step: Step,
) -> bool {
    match step {
        Step::Reply(v) => {
            &&& post.pending == pre_pending
            &&& spec_replied(pre_sq, post, cid, wire_cmd, v@)
        },
        Step::Pending(a) => {
            &&& post.send_queue@ == pre_sq
            &&& (post.pending matches Some(p) && p.cid == cid && !p.cancelled && p.action == a)
        },
    }
}

/// Dispatching one complete message (cid, cmd, payload): exactly what
/// lands in the send queue, the pending slot and the authenticator state
/// for every command.  While a command is awaiting the prompt the framer
/// is busy: CANCEL still reaches it, an INIT on the waiting channel
/// aborts it (releasing its reserved counter) and resynchronizes, and
/// every other request is refused with ERR_CHANNEL_BUSY.  (Dispatch
/// never touches the channel table; its callers say so.)
pub open spec fn spec_dispatch_step(
    pre_sq: Seq<Vec<u8>>,
    pre_pending: Option<PendingRequest>,
    pre_auth: AuthState,
    post: Parser,
    cid: u32,
    cmd: u8,
    payload: Seq<u8>,
) -> bool {
    if cmd == CTAPHID_CANCEL {
        post.send_queue@ == pre_sq && post.auth == pre_auth && (match pre_pending {
            Some(p) => if p.cid == cid {
                post.pending == Some(
                    (PendingRequest { cid: p.cid, cancelled: true, action: p.action }),
                )
            } else {
                post.pending == pre_pending
            },
            None => post.pending == pre_pending,
        })
    } else {
        match pre_pending {
            Some(p) => if cmd == CTAPHID_INIT && p.cid == cid && payload.len() == 8 {
                // Same-channel resynchronization: abort the waiting command.
                &&& post.pending is None
                &&& post.auth == spec_release(pre_auth, p.action)
                &&& spec_replied(pre_sq, post, cid, CTAPHID_INIT, spec_init_payload(payload, cid))
            } else if cmd == CTAPHID_INIT && p.cid == cid {
                post.pending == pre_pending && post.auth == pre_auth && spec_replied(
                    pre_sq,
                    post,
                    cid,
                    CTAPHID_ERROR,
                    seq![ERR_INVALID_LEN],
                )
            } else {
                post.pending == pre_pending && post.auth == pre_auth && spec_replied(
                    pre_sq,
                    post,
                    cid,
                    CTAPHID_ERROR,
                    seq![ERR_CHANNEL_BUSY],
                )
            },
            None => if cmd == CTAPHID_PING {
                post.pending == pre_pending && post.auth == pre_auth && spec_replied(
                    pre_sq,
                    post,
                    cid,
                    CTAPHID_PING,
                    payload,
                )
            } else if cmd == CTAPHID_WINK {
                post.pending == pre_pending && post.auth == pre_auth && spec_replied(
                    pre_sq,
                    post,
                    cid,
                    CTAPHID_WINK,
                    Seq::<u8>::empty(),
                )
            } else if cmd == CTAPHID_INIT {
                post.pending == pre_pending && post.auth == pre_auth && (if payload.len() == 8 {
                    spec_replied(pre_sq, post, cid, CTAPHID_INIT, spec_init_payload(payload, cid))
                } else {
                    spec_replied(pre_sq, post, cid, CTAPHID_ERROR, seq![ERR_INVALID_LEN])
                })
            } else if cmd == CTAPHID_MSG {
                exists|step: Step|
                    #[trigger] crate::u2f::spec_msg_step(pre_auth, payload, post.auth, step)
                        && spec_step_applied(pre_sq, pre_pending, post, cid, CTAPHID_MSG, step)
            } else if cmd == CTAPHID_CBOR {
                exists|step: Step|
                    #[trigger] crate::ctap2::spec_cbor_step(pre_auth, payload, post.auth, step)
                        && spec_step_applied(pre_sq, pre_pending, post, cid, CTAPHID_CBOR, step)
            } else {
                post.pending == pre_pending && post.auth == pre_auth && spec_replied(
                    pre_sq,
                    post,
                    cid,
                    CTAPHID_ERROR,
                    seq![ERR_INVALID_CMD],
                )
            },
        }
    }
}

/// An INIT packet on an allocated channel: abort whatever was in flight
/// on it (same-channel restart is legal), then start or complete the new
/// message.
pub open spec fn spec_allocated_init_step(
    pre: Parser,
    post: Parser,
    p: Seq<u8>,
    cid: u32,
    j: int,
) -> bool {
    let cmd = spec_packet_cmd(p);
    let bcnt = spec_packet_bcnt(p);
    &&& post.channels@.len() == pre.channels@.len()
    &&& post.channels@[j].cid == cid
    &&& if bcnt > MAX_MSG_LEN {
        &&& post.channels@[j].assembly is None
        &&& post.next_cid == pre.next_cid
        &&& post.pending == pre.pending
        &&& post.auth == pre.auth
        &&& spec_replied(pre.send_queue@, post, cid, CTAPHID_ERROR, seq![ERR_INVALID_LEN])
    } else if bcnt <= INIT_DATA {
        &&& post.channels@[j].assembly is None
        &&& post.next_cid == pre.next_cid
        &&& spec_dispatch_step(
            pre.send_queue@,
            pre.pending,
            pre.auth,
            post,
            cid,
            cmd,
            p.subrange(7, 7 + bcnt),
        )
    } else {
        &&& post.send_queue == pre.send_queue
        &&& post.next_cid == pre.next_cid
        &&& post.pending == pre.pending
        &&& post.auth == pre.auth
        &&& (post.channels@[j].assembly matches Some(b) && b.cmd == cmd && b.bcnt == bcnt
            && b.next_seq == 0 && b.data@ == p.subrange(7, 64))
    }
}

/// A CONT packet against the open assembly `a`: wrong sequence numbers
/// abandon the message with ERROR(ERR_INVALID_SEQ); the right one appends
/// its chunk, and the chunk that completes the message dispatches it.
pub open spec fn spec_cont_step(
    pre: Parser,
    post: Parser,
    p: Seq<u8>,
    cid: u32,
    j: int,
    a: Assembly,
) -> bool {
    let remaining = a.bcnt - a.data@.len();
    let chunk = p.subrange(
        5,
        5 + if remaining <= CONT_DATA { remaining } else { CONT_DATA as int },
    );
    &&& post.channels@.len() == pre.channels@.len()
    &&& post.channels@[j].cid == cid
    &&& if a.next_seq != spec_packet_seq(p) {
        &&& post.channels@[j].assembly is None
        &&& post.next_cid == pre.next_cid
        &&& post.pending == pre.pending
        &&& post.auth == pre.auth
        &&& spec_replied(pre.send_queue@, post, cid, CTAPHID_ERROR, seq![ERR_INVALID_SEQ])
    } else if remaining <= CONT_DATA {
        &&& post.channels@[j].assembly is None
        &&& post.next_cid == pre.next_cid
        &&& spec_dispatch_step(
            pre.send_queue@,
            pre.pending,
            pre.auth,
            post,
            cid,
            a.cmd,
            a.data@ + chunk,
        )
    } else {
        &&& post.send_queue == pre.send_queue
        &&& post.next_cid == pre.next_cid
        &&& post.pending == pre.pending
        &&& post.auth == pre.auth
        &&& (post.channels@[j].assembly matches Some(b) && b.cmd == a.cmd && b.bcnt == a.bcnt
            && b.next_seq == a.next_seq + 1 && b.data@ == a.data@ + chunk)
    }
}

/// What one packet does to the channel it addresses.
pub open spec fn spec_allocated_step(pre: Parser, post: Parser, p: Seq<u8>, cid: u32, j: int) -> bool {
    if spec_is_init_packet(p) {
        spec_allocated_init_step(pre, post, p, cid, j)
    } else {
        match pre.channels@[j].assembly {
            // A continuation with no message in flight is ignored.
            None => {
                &&& post.channels@ == pre.channels@
                &&& post.send_queue == pre.send_queue
                &&& post.next_cid == pre.next_cid
                &&& post.pending == pre.pending
                &&& post.auth == pre.auth
            },
            Some(a) => spec_cont_step(pre, post, p, cid, j, a),
        }
    }
}

/// A packet on the broadcast channel: INIT with an 8-byte nonce
/// allocates a fresh channel; anything else is an error on broadcast.
/// Allocation opens no transaction, so it stays available while a
/// command waits on the prompt.
pub open spec fn spec_broadcast_step(pre: Parser, post: Parser, p: Seq<u8>) -> bool {
    if spec_is_init_packet(p) && spec_packet_cmd(p) == CTAPHID_INIT {
        if spec_packet_bcnt(p) == 8 {
            if pre.next_cid < BROADCAST_CID - 1 {
                &&& post.channels@ == pre.channels@.push(
                    (Channel { cid: pre.next_cid, assembly: None }),
                )
                &&& post.next_cid == pre.next_cid + 1
                &&& post.pending == pre.pending
                &&& post.auth == pre.auth
                &&& spec_replied(
                    pre.send_queue@,
                    post,
                    BROADCAST_CID,
                    CTAPHID_INIT,
                    spec_init_payload(p.subrange(7, 15), pre.next_cid),
                )
            } else {
                spec_state_kept_replied(pre, post, BROADCAST_CID, ERR_INVALID_CID)
            }
        } else {
            spec_state_kept_replied(pre, post, BROADCAST_CID, ERR_INVALID_LEN)
        }
    } else {
        spec_state_kept_replied(pre, post, BROADCAST_CID, ERR_INVALID_CID)
    }
}

/// A packet on an ordinary channel id: unallocated ids are refused;
/// allocated ones take the assembly/dispatch step above.
pub open spec fn spec_channel_step(pre: Parser, post: Parser, p: Seq<u8>, cid: u32) -> bool {
    &&& ((forall|j: int|
        0 <= j < pre.channels@.len() ==> (#[trigger] pre.channels@[j]).cid != cid)
        ==> spec_state_kept_replied(pre, post, cid, ERR_INVALID_CID))
    &&& (forall|j: int|
        0 <= j < pre.channels@.len() && (#[trigger] pre.channels@[j]).cid == cid
            ==> spec_allocated_step(pre, post, p, cid, j))
}

/// The framer's whole packet-level transition: input assembly and
/// command dispatch for one 64-byte packet, channel by channel.
pub open spec fn spec_packet_step(pre: Parser, post: Parser, p: Seq<u8>) -> bool {
    let cid = spec_packet_cid(p);
    &&& pre.send_queue@.is_prefix_of(post.send_queue@)
    &&& post.next_cid >= pre.next_cid
    &&& post.channels@.len() >= pre.channels@.len()
    &&& forall|j: int|
        0 <= j < pre.channels@.len() && (#[trigger] pre.channels@[j]).cid != cid
            ==> post.channels@[j] == pre.channels@[j]
    &&& (cid == RESERVED_CID ==> spec_state_kept_replied(pre, post, BROADCAST_CID, ERR_INVALID_CID))
    &&& (cid == BROADCAST_CID ==> spec_broadcast_step(pre, post, p))
    &&& (cid != RESERVED_CID && cid != BROADCAST_CID ==> spec_channel_step(pre, post, p, cid))
}

impl Parser {
    pub open spec fn wf(self) -> bool {
        &&& forall|i: int| 0 <= i < self.channels@.len() ==> (#[trigger] self.channels@[i]).wf()
        &&& forall|i: int, j: int|
            0 <= i < self.channels@.len() && 0 <= j < self.channels@.len() && i != j ==> (
            #[trigger] self.channels@[i]).cid != (#[trigger] self.channels@[j]).cid
        &&& forall|i: int|
            0 <= i < self.channels@.len() ==> (#[trigger] self.channels@[i]).cid < self.next_cid
        &&& 0 < self.next_cid < BROADCAST_CID
        &&& sq_wf(self.send_queue@)
        &&& self.auth.wf()
    }

    pub fn new() -> (r: Parser)
        ensures
            r.wf(),
            r.channels@.len() == 0,
            r.send_queue@.len() == 0,
            r.pending is None,
            r.next_cid == 1,
            r.auth.counter == 0,
            r.auth.pin_retries == crate::auth::MAX_PIN_RETRIES,
            r.auth.consecutive_wrong == 0,
            !r.auth.pin_set,
    {
        Parser {
            channels: Vec::new(),
            next_cid: 1,
            send_queue: Vec::new(),
            pending: None,
            auth: AuthState::new(),
        }
    }

    fn find_channel(&self, cid: u32) -> (r: Option<usize>)
        ensures
            match r {
                Some(i) => i < self.channels@.len() && self.channels@[i as int].cid == cid,
                None => forall|i: int|
                    0 <= i < self.channels@.len() ==> (#[trigger] self.channels@[i]).cid != cid,
            },
    {
        let mut i: usize = 0;
        while i < self.channels.len()
            invariant
                i <= self.channels@.len(),
                forall|j: int| 0 <= j < i ==> (#[trigger] self.channels@[j]).cid != cid,
            decreases self.channels@.len() - i,
        {
            if self.channels[i].cid == cid {
                return Some(i);
            }
            i = i + 1;
        }
        None
    }

    /// Frame a reply and append its packets to the send queue.
    fn enqueue_message(&mut self, cid: u32, cmd: u8, msg: &[u8])
        requires
            cmd < 0x80,
            msg@.len() <= MAX_MSG_LEN,
            sq_wf(old(self).send_queue@),
        ensures
            sq_wf(final(self).send_queue@),
            final(self).channels == old(self).channels,
            final(self).next_cid == old(self).next_cid,
            final(self).pending == old(self).pending,
            final(self).auth == old(self).auth,
            old(self).send_queue@.is_prefix_of(final(self).send_queue@),
            spec_appended(*old(self), *final(self)) == spec_frames(cid, cmd, msg@),
    {
        let ghost pre_sq = self.send_queue@;
        let mut frames = frame_message(cid, cmd, msg);
        let ghost all = spec_frames(cid, cmd, msg@);
        let ghost done: int = 0;
        while frames.len() > 0
            invariant
                sq_wf(self.send_queue@),
                forall|i: int| 0 <= i < frames@.len() ==> (#[trigger] frames@[i])@.len() == 64,
                self.send_queue@.len() == pre_sq.len() + done,
                pre_sq.is_prefix_of(self.send_queue@),
                frame_views(self.send_queue@.skip(pre_sq.len() as int)) + frame_views(frames@)
                    =~= all,
                self.channels == old(self).channels,
                self.next_cid == old(self).next_cid,
                self.pending == old(self).pending,
                self.auth == old(self).auth,
            decreases frames@.len(),
        {
            let ghost frames_before = frames@;
            let ghost sq_before = self.send_queue@;
            let f = frames.remove(0);
            self.send_queue.push(f);
            proof {
                done = done + 1;
                assert(frames@ =~= frames_before.skip(1));
                assert(self.send_queue@ =~= sq_before.push(self.send_queue@.last()));
                assert(frame_views(self.send_queue@.skip(pre_sq.len() as int)) =~= frame_views(
                    sq_before.skip(pre_sq.len() as int),
                ).push(frames_before[0]@));
                assert(frame_views(frames_before) =~= seq![frames_before[0]@] + frame_views(
                    frames@,
                ));
                assert(frame_views(self.send_queue@.skip(pre_sq.len() as int)) + frame_views(
                    frames@,
                ) =~= all);
            }
        }
        proof {
            assert(frame_views(frames@) =~= Seq::<Seq<u8>>::empty());
            assert(frame_views(self.send_queue@.skip(pre_sq.len() as int)) =~= all);
        }
    }

    /// Push one small error code reply.
    fn enqueue_error(&mut self, cid: u32, code: u8)
        requires
            sq_wf(old(self).send_queue@),
        ensures
            sq_wf(final(self).send_queue@),
            final(self).channels == old(self).channels,
            final(self).next_cid == old(self).next_cid,
            final(self).pending == old(self).pending,
            final(self).auth == old(self).auth,
            old(self).send_queue@.is_prefix_of(final(self).send_queue@),
            spec_appended(*old(self), *final(self)) == spec_frames(
                cid,
                CTAPHID_ERROR,
                seq![code],
            ),
    {
        let mut msg: Vec<u8> = Vec::new();
        msg.push(code);
        proof {
            assert(msg@ =~= seq![code]);
        }
        self.enqueue_message(cid, CTAPHID_ERROR, msg.as_slice());
    }

    /// Dispatch one complete message.  PING, WINK, INIT and unknown
    /// commands answer at once; MSG and CBOR run the command handlers;
    /// CANCEL flags the pending request of this channel.
    #[verifier::rlimit(50)]
    pub fn dispatch_message(&mut self, cid: u32, cmd: u8, payload: &[u8])
        requires
            old(self).wf(),
            cmd < 0x80,
            payload@.len() <= MAX_MSG_LEN,
        ensures
            final(self).wf(),
            final(self).channels == old(self).channels,
            final(self).next_cid == old(self).next_cid,
            old(self).send_queue@.is_prefix_of(final(self).send_queue@),
            spec_dispatch_step(
                old(self).send_queue@,
                old(self).pending,
                old(self).auth,
                *final(self),
                cid,
                cmd,
                payload@,
            ),
    {
        if cmd == CTAPHID_CANCEL {
            let was = self.pending.take();
            match was {
                Some(p) => {
                    if p.cid == cid {
                        self.pending = Some(
                            PendingRequest { cid: p.cid, cancelled: true, action: p.action },
                        );
                    } else {
                        self.pending = Some(p);
                    }
                },
                None => {},
            }
            return ;
        }
        if self.pending.is_some() {
            // A command is awaiting the prompt: the framer is busy.
            let pending_cid = match &self.pending {
                Some(p) => p.cid,
                None => 0,
            };
            if cmd == CTAPHID_INIT && pending_cid == cid && payload.len() == 8 {
                // Same-channel resynchronization aborts the waiting command.
                let p = self.pending.take().unwrap();
                let reserved = reserved_counter(&p.action);
                self.release_counter(reserved);
                self.enqueue_init_reply(cid, cid, payload);
            } else if cmd == CTAPHID_INIT && pending_cid == cid {
                self.enqueue_error(cid, ERR_INVALID_LEN);
            } else {
                self.enqueue_error(cid, ERR_CHANNEL_BUSY);
            }
            return ;
        }
        if cmd == CTAPHID_PING {
            self.enqueue_message(cid, CTAPHID_PING, payload);
        } else if cmd == CTAPHID_WINK {
            let empty: Vec<u8> = Vec::new();
            self.enqueue_message(cid, CTAPHID_WINK, empty.as_slice());
        } else if cmd == CTAPHID_INIT {
            if payload.len() == 8 {
                self.enqueue_init_reply(cid, cid, payload);
            } else {
                self.enqueue_error(cid, ERR_INVALID_LEN);
            }
        } else if cmd == CTAPHID_MSG {
            {
                let step = crate::u2f::handle_msg(&mut self.auth, payload);
                let ghost gstep = step;
                match step {
                    Step::Reply(v) => {
                        self.enqueue_message(cid, CTAPHID_MSG, v.as_slice());
                    },
                    Step::Pending(a) => {
                        self.pending = Some(
                            PendingRequest { cid, cancelled: false, action: a },
                        );
                    },
                }
                proof {
                    assert(crate::u2f::spec_msg_step(
                        old(self).auth,
                        payload@,
                        self.auth,
                        gstep,
                    ));
                    assert(spec_step_applied(old(self).send_queue@, old(self).pending, *self, cid, CTAPHID_MSG, gstep));
                }
            }
        } else if cmd == CTAPHID_CBOR {
            {
                let step = crate::ctap2::handle_cbor(&mut self.auth, payload);
                let ghost gstep = step;
                match step {
                    Step::Reply(v) => {
                        self.enqueue_message(cid, CTAPHID_CBOR, v.as_slice());
                    },
                    Step::Pending(a) => {
                        self.pending = Some(
                            PendingRequest { cid, cancelled: false, action: a },
                        );
                    },
                }
                proof {
                    assert(crate::ctap2::spec_cbor_step(
                        old(self).auth,
                        payload@,
                        self.auth,
                        gstep,
                    ));
                    assert(spec_step_applied(old(self).send_queue@, old(self).pending, *self, cid, CTAPHID_CBOR, gstep));
                }
            }
        } else {
            self.enqueue_error(cid, ERR_INVALID_CMD);
        }
    }

    /// Frame the INIT reply: the nonce, the channel id `new_cid`, the
    /// protocol and device versions and the capability flags, on the
    /// channel `frame_cid`.
    fn enqueue_init_reply(&mut self, frame_cid: u32, new_cid: u32, nonce: &[u8])
        requires
            nonce@.len() == 8,
            sq_wf(old(self).send_queue@),
        ensures
            sq_wf(final(self).send_queue@),
            final(self).channels == old(self).channels,
            final(self).next_cid == old(self).next_cid,
            final(self).pending == old(self).pending,
            final(self).auth == old(self).auth,
            old(self).send_queue@.is_prefix_of(final(self).send_queue@),
            spec_appended(*old(self), *final(self)) == spec_frames(
                frame_cid,
                CTAPHID_INIT,
                spec_init_payload(nonce@, new_cid),
            ),
    {
        let mut reply: Vec<u8> = Vec::new();
        extend_from_range(&mut reply, nonce, 0, 8);
        let cid_bytes = u32_to_le_bytes(new_cid);
        extend_from_range(&mut reply, cid_bytes.as_slice(), 0, 4);
        reply.push(PROTOCOL_VERSION);
        reply.push(DEVICE_VERSION_MAJOR);
        reply.push(DEVICE_VERSION_MINOR);
        reply.push(DEVICE_VERSION_BUILD);
        reply.push(CAPABILITIES);
        proof {
            assert(nonce@.subrange(0, 8) =~= nonce@);
            assert(cid_bytes@.subrange(0, 4) =~= spec_cid_bytes(new_cid));
            assert(reply@ =~= spec_init_payload(nonce@, new_cid));
        }
        self.enqueue_message(frame_cid, CTAPHID_INIT, reply.as_slice());
    }
}

impl Parser {
    /// Allocate a fresh channel id; `None` when the 32-bit space is used
    /// up.
    fn alloc_channel(&mut self) -> (r: Option<u32>)
        requires
            old(self).wf(),
        ensures
            final(self).wf(),
            final(self).send_queue == old(self).send_queue,
            final(self).pending == old(self).pending,
            final(self).auth == old(self).auth,
            match r {
                Some(cid) => cid == old(self).next_cid && final(self).next_cid == old(self).next_cid
                    + 1 && final(self).channels@ == old(self).channels@.push(
                    (Channel { cid: old(self).next_cid, assembly: None }),
                ),
                None => *final(self) == *old(self) && old(self).next_cid >= BROADCAST_CID - 1,
            },
    {
        if self.next_cid >= BROADCAST_CID - 1 {
            return None;
        }
        let cid = self.next_cid;
        self.next_cid = self.next_cid + 1;
        self.channels.push(Channel { cid, assembly: None });
        Some(cid)
    }

    /// Take one ready frame for EP1 IN; `None` parks the request.
    pub fn next_frame(&mut self) -> (r: Option<Vec<u8>>)
        requires
            old(self).wf(),
        ensures
            final(self).wf(),
            final(self).channels == old(self).channels,
            final(self).next_cid == old(self).next_cid,
            final(self).pending == old(self).pending,
            final(self).auth == old(self).auth,
            match r {
                Some(f) => old(self).send_queue@.len() > 0 && f == old(self).send_queue@[0]
                    && final(self).send_queue@ == old(self).send_queue@.skip(1) && f@.len() == 64,
                None => old(self).send_queue@.len() == 0 && final(self).send_queue == old(self).send_queue,
            },
    {
        if self.send_queue.len() > 0 {
            let f = self.send_queue.remove(0);
            proof {
                assert(self.send_queue@ =~= old(self).send_queue@.skip(1));
            }
            Some(f)
        } else {
            None
        }
    }

    /// Emit a KEEPALIVE frame on the channel of the outstanding request,
    /// if any.
    pub fn keepalive(&mut self)
        requires
            old(self).wf(),
        ensures
            final(self).wf(),
            final(self).channels == old(self).channels,
            final(self).next_cid == old(self).next_cid,
            final(self).pending == old(self).pending,
            final(self).auth == old(self).auth,
            old(self).send_queue@.is_prefix_of(final(self).send_queue@),
            match old(self).pending {
                Some(p) => spec_appended(*old(self), *final(self)) == spec_frames(
                    p.cid,
                    CTAPHID_KEEPALIVE,
                    seq![KEEPALIVE_TUP_NEEDED],
                ),
                None => final(self).send_queue == old(self).send_queue,
            },
    {
        let cid = match &self.pending {
            Some(p) => p.cid,
            None => {
                return ;
            },
        };
        let mut msg: Vec<u8> = Vec::new();
        msg.push(KEEPALIVE_TUP_NEEDED);
        proof {
            assert(msg@ =~= seq![KEEPALIVE_TUP_NEEDED]);
        }
        self.enqueue_message(cid, CTAPHID_KEEPALIVE, msg.as_slice());
    }

    /// Feed one 64-byte packet from EP2 OUT through the channel table.
    pub fn handle_packet(&mut self, pkt: &[u8])
        requires
            old(self).wf(),
            pkt@.len() == 64,
        ensures
            final(self).wf(),
            spec_packet_step(*old(self), *final(self), pkt@),
    {
        let cid = u32_from_le_bytes(slice_subrange(pkt, 0, 4));
        proof {
            assert(cid == spec_packet_cid(pkt@));
        }
        if cid == RESERVED_CID {
            self.enqueue_error(BROADCAST_CID, ERR_INVALID_CID);
            return ;
        }
        if cid == BROADCAST_CID {
            if pkt[4] == CTAPHID_INIT + 0x80 {
                let bcnt: usize = (pkt[5] as usize) * 256 + (pkt[6] as usize);
                if bcnt == 8 {
                    match self.alloc_channel() {
                        Some(new_cid) => {
                            let mut reply: Vec<u8> = Vec::new();
                            extend_from_range(&mut reply, pkt, 7, 15);
                            let cid_bytes = u32_to_le_bytes(new_cid);
                            extend_from_range(&mut reply, cid_bytes.as_slice(), 0, 4);
                            reply.push(PROTOCOL_VERSION);
                            reply.push(DEVICE_VERSION_MAJOR);
                            reply.push(DEVICE_VERSION_MINOR);
                            reply.push(DEVICE_VERSION_BUILD);
                            reply.push(CAPABILITIES);
                            proof {
                                assert(cid_bytes@.subrange(0, 4) =~= spec_cid_bytes(new_cid));
                                assert(reply@ =~= spec_init_payload(
                                    pkt@.subrange(7, 15),
                                    new_cid,
                                ));
                            }
                            self.enqueue_message(BROADCAST_CID, CTAPHID_INIT, reply.as_slice());
                        },
                        None => {
                            self.enqueue_error(BROADCAST_CID, ERR_INVALID_CID);
                        },
                    }
                } else {
                    self.enqueue_error(BROADCAST_CID, ERR_INVALID_LEN);
                }
            } else {
                self.enqueue_error(BROADCAST_CID, ERR_INVALID_CID);
            }
            return ;
        }
        let i = match self.find_channel(cid) {
            Some(i) => i,
            None => {
                self.enqueue_error(cid, ERR_INVALID_CID);
                return ;
            },
        };
        if pkt[4] >= 0x80 {
            // INIT packet: replaces any message in flight on this channel.
            let cmd = pkt[4] - 0x80;
            let bcnt: usize = (pkt[5] as usize) * 256 + (pkt[6] as usize);
            if bcnt > MAX_MSG_LEN {
                self.channels[i].assembly = None;
                self.enqueue_error(cid, ERR_INVALID_LEN);
            } else if bcnt <= INIT_DATA {
                self.channels[i].assembly = None;
                let mut payload: Vec<u8> = Vec::new();
                extend_from_range(&mut payload, pkt, 7, 7 + bcnt);
                proof {
                    assert(payload@ =~= pkt@.subrange(7, 7 + bcnt as int));
                }
                self.dispatch_message(cid, cmd, payload.as_slice());
            } else {
                let mut data: Vec<u8> = Vec::new();
                extend_from_range(&mut data, pkt, 7, 64);
                proof {
                    assert(data@ =~= pkt@.subrange(7, 64));
                }
                self.channels[i].assembly = Some(
                    Assembly { cmd, bcnt: bcnt as u16, data, next_seq: 0 },
                );
            }
            proof {
                assert forall|j: int|
                    0 <= j < old(self).channels@.len() && (#[trigger] old(self).channels@[j]).cid == cid implies spec_allocated_step(
                    *old(self),
                    *self,
                    pkt@,
                    cid,
                    j,
                ) by {
                    if j != i as int {
                        assert(old(self).channels@[j].cid != old(self).channels@[i as int].cid);
                    }
                }
            }
        } else {
            // CONT packet.
            let seqno = pkt[4];
            if self.channels[i].assembly.is_some() {
                let mut a = self.channels[i].assembly.take().unwrap();
                if a.next_seq != seqno {
                    self.enqueue_error(cid, ERR_INVALID_SEQ);
                } else {
                    let have = a.data.len();
                    let remaining = (a.bcnt as usize) - have;
                    let take_n = if remaining <= CONT_DATA {
                        remaining
                    } else {
                        CONT_DATA
                    };
                    extend_from_range(&mut a.data, pkt, 5, 5 + take_n);
                    if a.data.len() == a.bcnt as usize {
                        self.dispatch_message(cid, a.cmd, a.data.as_slice());
                    } else {
                        a.next_seq = a.next_seq + 1;
                        self.channels[i].assembly = Some(a);
                    }
                }
            }
            // A continuation with no open message is ignored.
            proof {
                assert forall|j: int|
                    0 <= j < old(self).channels@.len() && (#[trigger] old(self).channels@[j]).cid == cid implies spec_allocated_step(
                    *old(self),
                    *self,
                    pkt@,
                    cid,
                    j,
                ) by {
                    if j != i as int {
                        assert(old(self).channels@[j].cid != old(self).channels@[i as int].cid);
                    }
                }
            }
        }
    }
}

/// Whether the outcome is of a kind the action can produce: the generic
/// prompt/backend verdicts fit every action, a success payload only its
/// own action.
pub open spec fn spec_outcome_fits(a: PendingAction, o: Outcome) -> bool {
    ||| o matches Outcome::Denied
    ||| o matches Outcome::TimedOut
    ||| o matches Outcome::NotAllowed
    ||| o matches Outcome::Failed
    ||| o matches Outcome::NoCredentials
    ||| o matches Outcome::CredentialExcluded
    ||| o matches Outcome::PinAuthInvalid
    ||| (a matches PendingAction::U2fRegister { .. } && o matches Outcome::U2fRegistered { .. })
    ||| (a matches PendingAction::U2fSign { .. } && o matches Outcome::U2fSigned { .. })
    ||| (a matches PendingAction::U2fCheckOnly { .. } && o matches Outcome::U2fChecked { .. })
    ||| (a matches PendingAction::MakeCredential { .. } && o
        matches Outcome::CredentialMinted { .. })
    ||| (a matches PendingAction::GetAssertion { .. } && o
        matches Outcome::AssertionSigned { .. })
    ||| (a matches PendingAction::GetKeyAgreement && o matches Outcome::KeyAgreement { .. })
    ||| (a matches PendingAction::SetPin { .. } && o matches Outcome::PinSet { .. })
    ||| (a matches PendingAction::GetPinToken { .. } && o matches Outcome::PinChecked { .. })
    ||| (a matches PendingAction::Reset && o matches Outcome::ResetDone)
}

impl Parser {
    /// Give back the counter value a pending action reserved: nothing was
    /// signed, so the counter returns to its value from before the
    /// request was parsed.
    fn release_counter(&mut self, reserved: Option<u32>)
        ensures
            final(self).channels == old(self).channels,
            final(self).next_cid == old(self).next_cid,
            final(self).send_queue == old(self).send_queue,
            final(self).pending == old(self).pending,
            final(self).auth == (match reserved {
                Some(c) => (AuthState {
                    counter: if c >= 1 {
                        (c - 1) as u32
                    } else {
                        0u32
                    },
                    ..old(self).auth
                }),
                None => old(self).auth,
            }),
    {
        match reserved {
            Some(c) => {
                if c >= 1 {
                    self.auth.counter = c - 1;
                } else {
                    self.auth.counter = 0;
                }
            },
            None => {},
        }
    }

    /// Consume the outcome of the pending action and frame the reply.
    /// Cancellation wins over every outcome: a cancelled CTAP2 command
    /// answers CTAP2_ERR_KEEPALIVE_CANCEL, a cancelled U2F command
    /// answers SW_CONDITIONS_NOT_SATISFIED.  Whenever nothing was signed
    /// (declined, timed out, not allowed, excluded, no credentials, bad
    /// pinAuth, cancelled) the action's reserved counter is released; a
    /// key-store failure or a mismatched outcome answers the transport's
    /// failure status without touching the state.
    pub fn resolve(&mut self, outcome: Outcome)
        requires
            old(self).wf(),
            old(self).pending is Some,
        ensures
            final(self).wf(),
            final(self).pending is None,
            final(self).channels == old(self).channels,
            final(self).next_cid == old(self).next_cid,
            old(self).send_queue@.is_prefix_of(final(self).send_queue@),
            old(self).pending matches Some(p) ==> {
                &&& p.cancelled && !spec_action_is_u2f(p.action) ==> final(self).auth
                    == spec_release(old(self).auth, p.action) && spec_appended(
                    *old(self),
                    *final(self),
                ) == spec_frames(p.cid, CTAPHID_CBOR, seq![crate::ctap2::ERR_KEEPALIVE_CANCEL])
                &&& p.cancelled && spec_action_is_u2f(p.action) ==> final(self).auth
                    == spec_release(old(self).auth, p.action) && spec_appended(
                    *old(self),
                    *final(self),
                ) == spec_frames(
                    p.cid,
                    CTAPHID_MSG,
                    crate::u2f::spec_sw(crate::u2f::SW_CONDITIONS_NOT_SATISFIED),
                )
                &&& !p.cancelled ==> (p.action matches PendingAction::U2fSign {
                    user_presence,
                    counter,
                    ..
                } ==> (outcome matches Outcome::U2fSigned { signature } ==> (7 + signature@.len()
                    <= MAX_MSG_LEN ==> final(self).auth == old(self).auth && spec_appended(
                    *old(self),
                    *final(self),
                ) == spec_frames(
                    p.cid,
                    CTAPHID_MSG,
                    crate::u2f::spec_authenticate_response(user_presence, counter, signature@),
                ))))
                &&& !p.cancelled ==> (p.action matches PendingAction::U2fCheckOnly { .. } ==> (
                outcome matches Outcome::U2fChecked { valid } ==> final(self).auth == old(self).auth
                    && spec_appended(*old(self), *final(self)) == spec_frames(
                    p.cid,
                    CTAPHID_MSG,
                    crate::u2f::spec_sw(
                        if valid {
                            crate::u2f::SW_CONDITIONS_NOT_SATISFIED
                        } else {
                            crate::u2f::SW_WRONG_DATA
                        },
                    ),
                )))
                &&& !p.cancelled ==> (p.action matches PendingAction::U2fRegister { .. } ==> (
                outcome matches Outcome::U2fRegistered {
                    public_key,
                    key_handle,
                    certificate,
                    signature,
                } ==> (public_key@.len() == 65 && key_handle@.len() <= 255 && 69 + key_handle@.len()
                    + certificate@.len() + signature@.len() <= MAX_MSG_LEN ==> final(self).auth
                    == old(self).auth && spec_appended(*old(self), *final(self)) == spec_frames(
                    p.cid,
                    CTAPHID_MSG,
                    crate::u2f::spec_register_response(
                        public_key@,
                        key_handle@,
                        certificate@,
                        signature@,
                    ),
                ))))
                &&& !p.cancelled ==> (outcome matches Outcome::Denied ==> final(self).auth
                    == spec_release(old(self).auth, p.action) && spec_appended(
                    *old(self),
                    *final(self),
                ) == (if spec_action_is_u2f(p.action) {
                    spec_frames(
                        p.cid,
                        CTAPHID_MSG,
                        crate::u2f::spec_sw(crate::u2f::SW_CONDITIONS_NOT_SATISFIED),
                    )
                } else {
                    spec_frames(p.cid, CTAPHID_CBOR, seq![crate::ctap2::ERR_OPERATION_DENIED])
                }))
                &&& !p.cancelled ==> ((outcome matches Outcome::TimedOut || outcome
                    matches Outcome::NotAllowed || outcome matches Outcome::NoCredentials)
                    ==> final(self).auth == spec_release(old(self).auth, p.action))
                &&& !p.cancelled ==> (p.action matches PendingAction::GetPinToken { .. } ==> (
                outcome matches Outcome::PinChecked { correct, pin_token } ==> exists|st: u8|
                    {
                        &&& #[trigger] crate::ctap2::spec_pin_check_step(
                            old(self).auth,
                            final(self).auth,
                            correct,
                            st,
                        )
                        &&& correct && pin_token@.len() + 6 <= MAX_MSG_LEN ==> spec_appended(
                            *old(self),
                            *final(self),
                        ) == spec_frames(
                            p.cid,
                            CTAPHID_CBOR,
                            crate::ctap2::spec_pin_token_response(pin_token@),
                        )
                        &&& !correct ==> spec_appended(*old(self), *final(self)) == spec_frames(
                            p.cid,
                            CTAPHID_CBOR,
                            seq![st],
                        )
                        &&& correct && pin_token@.len() + 6 > MAX_MSG_LEN ==> spec_appended(
                            *old(self),
                            *final(self),
                        ) == spec_frames(p.cid, CTAPHID_CBOR, seq![crate::ctap2::ERR_OTHER])
                    }))
                &&& !p.cancelled ==> (p.action matches PendingAction::SetPin { .. } ==> (
                outcome matches Outcome::PinSet { ok } ==> (ok ==> final(self).auth == (AuthState {
                    counter: old(self).auth.counter,
                    pin_retries: crate::auth::MAX_PIN_RETRIES,
                    consecutive_wrong: 0,
                    pin_set: true,
                }) && spec_appended(*old(self), *final(self)) == spec_frames(
                    p.cid,
                    CTAPHID_CBOR,
                    seq![crate::ctap2::CTAP2_OK],
                ))))
                &&& !p.cancelled ==> (p.action matches PendingAction::Reset ==> (
                outcome matches Outcome::ResetDone ==> final(self).auth == (AuthState {
                    counter: old(self).auth.counter,
                    pin_retries: crate::auth::MAX_PIN_RETRIES,
                    consecutive_wrong: 0,
                    pin_set: false,
                }) && spec_appended(*old(self), *final(self)) == spec_frames(
                    p.cid,
                    CTAPHID_CBOR,
                    seq![crate::ctap2::CTAP2_OK],
                )))
                &&& !p.cancelled ==> (p.action matches PendingAction::GetKeyAgreement ==> (
                outcome matches Outcome::KeyAgreement { x, y } ==> (x@.len() == 32 && y@.len() == 32
                    ==> final(self).auth == old(self).auth && spec_appended(
                    *old(self),
                    *final(self),
                ) == spec_frames(
                    p.cid,
                    CTAPHID_CBOR,
                    crate::ctap2::spec_key_agreement_response(x@, y@),
                ))))
                &&& !p.cancelled ==> (p.action matches PendingAction::MakeCredential { .. } ==> (
                outcome matches Outcome::CredentialMinted { auth_data, signature, certificate } ==> (
                auth_data@.len() + signature@.len() + certificate@.len() + 36 <= MAX_MSG_LEN
                    ==> final(self).auth == old(self).auth && spec_appended(
                    *old(self),
                    *final(self),
                ) == spec_frames(
                    p.cid,
                    CTAPHID_CBOR,
                    crate::ctap2::spec_make_credential_response(
                        auth_data@,
                        signature@,
                        certificate@,
                    ),
                ))))
                &&& !p.cancelled ==> (p.action matches PendingAction::GetAssertion { .. } ==> (
                outcome matches Outcome::AssertionSigned { credential_id, auth_data, signature } ==> (
                credential_id@.len() + auth_data@.len() + signature@.len() + 36 <= MAX_MSG_LEN
                    ==> final(self).auth == old(self).auth && spec_appended(
                    *old(self),
                    *final(self),
                ) == spec_frames(
                    p.cid,
                    CTAPHID_CBOR,
                    crate::ctap2::spec_get_assertion_response(
                        credential_id@,
                        auth_data@,
                        signature@,
                    ),
                ))))
                &&& !p.cancelled ==> (outcome matches Outcome::NoCredentials ==> final(self).auth
                    == spec_release(old(self).auth, p.action) && spec_appended(
                    *old(self),
                    *final(self),
                ) == (if spec_action_is_u2f(p.action) {
                    spec_frames(
                        p.cid,
                        CTAPHID_MSG,
                        crate::u2f::spec_sw(crate::u2f::SW_WRONG_DATA),
                    )
                } else {
                    spec_frames(p.cid, CTAPHID_CBOR, seq![crate::ctap2::ERR_NO_CREDENTIALS])
                }))
                &&& !p.cancelled ==> (outcome matches Outcome::TimedOut ==> final(self).auth
                    == spec_release(old(self).auth, p.action) && spec_appended(
                    *old(self),
                    *final(self),
                ) == (if spec_action_is_u2f(p.action) {
                    spec_frames(
                        p.cid,
                        CTAPHID_MSG,
                        crate::u2f::spec_sw(crate::u2f::SW_CONDITIONS_NOT_SATISFIED),
                    )
                } else {
                    spec_frames(p.cid, CTAPHID_CBOR, seq![crate::ctap2::ERR_KEEPALIVE_CANCEL])
                }))
                &&& !p.cancelled ==> (outcome matches Outcome::NotAllowed ==> final(self).auth
                    == spec_release(old(self).auth, p.action) && spec_appended(
                    *old(self),
                    *final(self),
                ) == (if spec_action_is_u2f(p.action) {
                    spec_frames(
                        p.cid,
                        CTAPHID_MSG,
                        crate::u2f::spec_sw(crate::u2f::SW_CONDITIONS_NOT_SATISFIED),
                    )
                } else {
                    spec_frames(p.cid, CTAPHID_CBOR, seq![crate::ctap2::ERR_NOT_ALLOWED])
                }))
                &&& !p.cancelled ==> (outcome matches Outcome::Failed ==> final(self).auth == old(self).auth
                    && spec_appended(*old(self), *final(self)) == (if spec_action_is_u2f(
                    p.action,
                ) {
                    spec_frames(
                        p.cid,
                        CTAPHID_MSG,
                        crate::u2f::spec_sw(crate::u2f::SW_EXECUTION_ERROR),
                    )
                } else {
                    spec_frames(p.cid, CTAPHID_CBOR, seq![crate::ctap2::ERR_OTHER])
                }))
                &&& !p.cancelled ==> (outcome matches Outcome::CredentialExcluded ==> (p.action
                    matches PendingAction::MakeCredential { .. } ==> final(self).auth
                    == spec_release(old(self).auth, p.action) && spec_appended(
                    *old(self),
                    *final(self),
                ) == spec_frames(
                    p.cid,
                    CTAPHID_CBOR,
                    seq![crate::ctap2::ERR_CREDENTIAL_EXCLUDED],
                )))
                &&& !p.cancelled ==> (outcome matches Outcome::PinAuthInvalid ==> final(self).auth
                    == spec_release(old(self).auth, p.action) && spec_appended(
                    *old(self),
                    *final(self),
                ) == (if spec_action_is_u2f(p.action) {
                    spec_frames(
                        p.cid,
                        CTAPHID_MSG,
                        crate::u2f::spec_sw(crate::u2f::SW_EXECUTION_ERROR),
                    )
                } else {
                    spec_frames(p.cid, CTAPHID_CBOR, seq![crate::ctap2::ERR_PIN_AUTH_INVALID])
                }))
                &&& !p.cancelled ==> (p.action matches PendingAction::SetPin { .. } ==> (
                outcome matches Outcome::PinSet { ok } ==> (!ok ==> final(self).auth == old(self).auth
                    && spec_appended(*old(self), *final(self)) == spec_frames(
                    p.cid,
                    CTAPHID_CBOR,
                    seq![crate::ctap2::ERR_PIN_AUTH_INVALID],
                ))))
                &&& !p.cancelled ==> (p.action matches PendingAction::U2fSign { .. } ==> (
                outcome matches Outcome::U2fSigned { signature } ==> (7 + signature@.len()
                    > MAX_MSG_LEN ==> final(self).auth == old(self).auth && spec_appended(
                    *old(self),
                    *final(self),
                ) == spec_frames(
                    p.cid,
                    CTAPHID_MSG,
                    crate::u2f::spec_sw(crate::u2f::SW_EXECUTION_ERROR),
                ))))
                &&& !p.cancelled ==> (p.action matches PendingAction::U2fRegister { .. } ==> (
                outcome matches Outcome::U2fRegistered {
                    public_key,
                    key_handle,
                    certificate,
                    signature,
                } ==> ((public_key@.len() != 65 || key_handle@.len() > 255 || 69
                    + key_handle@.len() + certificate@.len() + signature@.len() > MAX_MSG_LEN)
                    ==> final(self).auth == old(self).auth && spec_appended(
                    *old(self),
                    *final(self),
                ) == spec_frames(
                    p.cid,
                    CTAPHID_MSG,
                    crate::u2f::spec_sw(crate::u2f::SW_EXECUTION_ERROR),
                ))))
                &&& !p.cancelled ==> (p.action matches PendingAction::MakeCredential { .. } ==> (
                outcome matches Outcome::CredentialMinted { auth_data, signature, certificate } ==> (
                auth_data@.len() + signature@.len() + certificate@.len() + 36 > MAX_MSG_LEN
                    ==> final(self).auth == old(self).auth && spec_appended(
                    *old(self),
                    *final(self),
                ) == spec_frames(p.cid, CTAPHID_CBOR, seq![crate::ctap2::ERR_OTHER]))))
                &&& !p.cancelled ==> (p.action matches PendingAction::GetAssertion { .. } ==> (
                outcome matches Outcome::AssertionSigned { credential_id, auth_data, signature } ==> (
                credential_id@.len() + auth_data@.len() + signature@.len() + 36 > MAX_MSG_LEN
                    ==> final(self).auth == old(self).auth && spec_appended(
                    *old(self),
                    *final(self),
                ) == spec_frames(p.cid, CTAPHID_CBOR, seq![crate::ctap2::ERR_OTHER]))))
                &&& !p.cancelled ==> (p.action matches PendingAction::GetKeyAgreement ==> (
                outcome matches Outcome::KeyAgreement { x, y } ==> ((x@.len() != 32 || y@.len()
                    != 32) ==> final(self).auth == old(self).auth && spec_appended(
                    *old(self),
                    *final(self),
                ) == spec_frames(p.cid, CTAPHID_CBOR, seq![crate::ctap2::ERR_OTHER]))))
                &&& !p.cancelled && !spec_outcome_fits(p.action, outcome) ==> final(self).auth
                    == old(self).auth && spec_appended(*old(self), *final(self)) == (
                if spec_action_is_u2f(p.action) {
                    spec_frames(
                        p.cid,
                        CTAPHID_MSG,
                        crate::u2f::spec_sw(crate::u2f::SW_EXECUTION_ERROR),
                    )
                } else {
                    spec_frames(p.cid, CTAPHID_CBOR, seq![crate::ctap2::ERR_OTHER])
                })
            },
    {
        let p = self.pending.take().unwrap();
        let cid = p.cid;
        let is_u2f = action_is_u2f(&p.action);
        let reserved = reserved_counter(&p.action);
        if p.cancelled {
            self.release_counter(reserved);
            if is_u2f {
                let v = crate::u2f::sw_reply(crate::u2f::SW_CONDITIONS_NOT_SATISFIED);
                self.enqueue_message(cid, CTAPHID_MSG, v.as_slice());
            } else {
                let mut v: Vec<u8> = Vec::new();
                v.push(crate::ctap2::ERR_KEEPALIVE_CANCEL);
                proof {
                    assert(v@ =~= seq![crate::ctap2::ERR_KEEPALIVE_CANCEL]);
                }
                self.enqueue_message(cid, CTAPHID_CBOR, v.as_slice());
            }
            return ;
        }
        match (p.action, outcome) {
            (
                PendingAction::U2fRegister { .. },
                Outcome::U2fRegistered { public_key, key_handle, certificate, signature },
            ) => {
                match crate::u2f::register_response(
                    public_key.as_slice(),
                    key_handle.as_slice(),
                    certificate.as_slice(),
                    signature.as_slice(),
                ) {
                    Some(v) => {
                        self.enqueue_message(cid, CTAPHID_MSG, v.as_slice());
                    },
                    None => {
                        let v = crate::u2f::sw_reply(crate::u2f::SW_EXECUTION_ERROR);
                        self.enqueue_message(cid, CTAPHID_MSG, v.as_slice());
                    },
                }
            },
            (
                PendingAction::U2fSign { user_presence, counter, .. },
                Outcome::U2fSigned { signature },
            ) => {
                match crate::u2f::authenticate_response(
                    user_presence,
                    counter,
                    signature.as_slice(),
                ) {
                    Some(v) => {
                        self.enqueue_message(cid, CTAPHID_MSG, v.as_slice());
                    },
                    None => {
                        let v = crate::u2f::sw_reply(crate::u2f::SW_EXECUTION_ERROR);
                        self.enqueue_message(cid, CTAPHID_MSG, v.as_slice());
                    },
                }
            },
            (PendingAction::U2fCheckOnly { .. }, Outcome::U2fChecked { valid }) => {
                let sw = if valid {
                    crate::u2f::SW_CONDITIONS_NOT_SATISFIED
                } else {
                    crate::u2f::SW_WRONG_DATA
                };
                let v = crate::u2f::sw_reply(sw);
                self.enqueue_message(cid, CTAPHID_MSG, v.as_slice());
            },
            (
                PendingAction::MakeCredential { .. },
                Outcome::CredentialMinted { auth_data, signature, certificate },
            ) => {
                match crate::ctap2::make_credential_response(
                    auth_data.as_slice(),
                    signature.as_slice(),
                    certificate.as_slice(),
                ) {
                    Some(v) => {
                        self.enqueue_message(cid, CTAPHID_CBOR, v.as_slice());
                    },
                    None => {
                        self.enqueue_status(cid, crate::ctap2::ERR_OTHER);
                    },
                }
            },
            (
                PendingAction::GetAssertion { .. },
                Outcome::AssertionSigned { credential_id, auth_data, signature },
            ) => {
                match crate::ctap2::get_assertion_response(
                    credential_id.as_slice(),
                    auth_data.as_slice(),
                    signature.as_slice(),
                ) {
                    Some(v) => {
                        self.enqueue_message(cid, CTAPHID_CBOR, v.as_slice());
                    },
                    None => {
                        self.enqueue_status(cid, crate::ctap2::ERR_OTHER);
                    },
                }
            },
            (PendingAction::GetKeyAgreement, Outcome::KeyAgreement { x, y }) => {
                match crate::ctap2::key_agreement_response(x.as_slice(), y.as_slice()) {
                    Some(v) => {
                        self.enqueue_message(cid, CTAPHID_CBOR, v.as_slice());
                    },
                    None => {
                        self.enqueue_status(cid, crate::ctap2::ERR_OTHER);
                    },
                }
            },
            (PendingAction::SetPin { .. }, Outcome::PinSet { ok }) => {
                if ok {
                    self.auth.pin_set = true;
                    self.auth.pin_retries = crate::auth::MAX_PIN_RETRIES;
                    self.auth.consecutive_wrong = 0;
                    self.enqueue_status(cid, crate::ctap2::CTAP2_OK);
                } else {
                    self.enqueue_status(cid, crate::ctap2::ERR_PIN_AUTH_INVALID);
                }
            },
            (PendingAction::GetPinToken { .. }, Outcome::PinChecked { correct, pin_token }) => {
                let status = crate::ctap2::apply_pin_check(&mut self.auth, correct);
                if correct {
                    match crate::ctap2::pin_token_response(pin_token.as_slice()) {
                        Some(v) => {
                            self.enqueue_message(cid, CTAPHID_CBOR, v.as_slice());
                        },
                        None => {
                            self.enqueue_status(cid, crate::ctap2::ERR_OTHER);
                        },
                    }
                } else {
                    self.enqueue_status(cid, status);
                }
            },
            (PendingAction::Reset, Outcome::ResetDone) => {
                self.auth.pin_set = false;
                self.auth.pin_retries = crate::auth::MAX_PIN_RETRIES;
                self.auth.consecutive_wrong = 0;
                self.enqueue_status(cid, crate::ctap2::CTAP2_OK);
            },
            (PendingAction::MakeCredential { .. }, Outcome::CredentialExcluded) => {
                self.release_counter(reserved);
                self.enqueue_status(cid, crate::ctap2::ERR_CREDENTIAL_EXCLUDED);
            },
            (a, Outcome::PinAuthInvalid) => {
                self.release_counter(reserved);
                if action_is_u2f(&a) {
                    let v = crate::u2f::sw_reply(crate::u2f::SW_EXECUTION_ERROR);
                    self.enqueue_message(cid, CTAPHID_MSG, v.as_slice());
                } else {
                    self.enqueue_status(cid, crate::ctap2::ERR_PIN_AUTH_INVALID);
                }
            },
            (a, Outcome::Failed) => {
                if action_is_u2f(&a) {
                    let v = crate::u2f::sw_reply(crate::u2f::SW_EXECUTION_ERROR);
                    self.enqueue_message(cid, CTAPHID_MSG, v.as_slice());
                } else {
                    self.enqueue_status(cid, crate::ctap2::ERR_OTHER);
                }
            },
            (a, Outcome::Denied) => {
                self.release_counter(reserved);
                if action_is_u2f(&a) {
                    let v = crate::u2f::sw_reply(crate::u2f::SW_CONDITIONS_NOT_SATISFIED);
                    self.enqueue_message(cid, CTAPHID_MSG, v.as_slice());
                } else {
                    self.enqueue_status(cid, crate::ctap2::ERR_OPERATION_DENIED);
                }
            },
            (a, Outcome::TimedOut) => {
                self.release_counter(reserved);
                if action_is_u2f(&a) {
                    let v = crate::u2f::sw_reply(crate::u2f::SW_CONDITIONS_NOT_SATISFIED);
                    self.enqueue_message(cid, CTAPHID_MSG, v.as_slice());
                } else {
                    self.enqueue_status(cid, crate::ctap2::ERR_KEEPALIVE_CANCEL);
                }
            },
            (a, Outcome::NotAllowed) => {
                self.release_counter(reserved);
                if action_is_u2f(&a) {
                    let v = crate::u2f::sw_reply(crate::u2f::SW_CONDITIONS_NOT_SATISFIED);
                    self.enqueue_message(cid, CTAPHID_MSG, v.as_slice());
                } else {
                    self.enqueue_status(cid, crate::ctap2::ERR_NOT_ALLOWED);
                }
            },
            (a, Outcome::NoCredentials) => {
                self.release_counter(reserved);
                if action_is_u2f(&a) {
                    let v = crate::u2f::sw_reply(crate::u2f::SW_WRONG_DATA);
                    self.enqueue_message(cid, CTAPHID_MSG, v.as_slice());
                } else {
                    self.enqueue_status(cid, crate::ctap2::ERR_NO_CREDENTIALS);
                }
            },
            (a, _) => {
                if action_is_u2f(&a) {
                    let v = crate::u2f::sw_reply(crate::u2f::SW_EXECUTION_ERROR);
                    self.enqueue_message(cid, CTAPHID_MSG, v.as_slice());
                } else {
                    self.enqueue_status(cid, crate::ctap2::ERR_OTHER);
                }
            },
        }
    }

    /// Push a one-byte CTAP2 status reply.
    fn enqueue_status(&mut self, cid: u32, status: u8)
        requires
            sq_wf(old(self).send_queue@),
        ensures
            sq_wf(final(self).send_queue@),
            final(self).channels == old(self).channels,
            final(self).next_cid == old(self).next_cid,
            final(self).pending == old(self).pending,
            final(self).auth == old(self).auth,
            old(self).send_queue@.is_prefix_of(final(self).send_queue@),
            spec_appended(*old(self), *final(self)) == spec_frames(
                cid,
                CTAPHID_CBOR,
                seq![status],
            ),
    {
        let mut v: Vec<u8> = Vec::new();
        v.push(status);
        proof {
            assert(v@ =~= seq![status]);
        }
        self.enqueue_message(cid, CTAPHID_CBOR, v.as_slice());
    }
}

} // verus!
