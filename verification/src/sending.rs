//! What a sender keeps to: how a payload is cut, how blocks and separation times are kept, and when
//! a wait is given up.

use crate::async_send;
use crate::async_send::{AsyncChoice, AsyncSend, SendTimes};
use crate::config::IsoTpConfig;
use crate::demux;
use crate::demux::{DemuxModel, PeerModel};
use crate::errors::{IsoTpError, TimeoutKind};
use crate::id::FrameView;
use crate::node;
use crate::node::{FcAfter, IsoTpNode, SendDecision, SendStep};
use crate::pdu;
use crate::pdu::{FlowStatus, PduView};
use crate::time::Duration;
use crate::timer::Clock;
use crate::tx;
use crate::tx::{FcReaction, Progress, TxNext, TxSession, TxState};
use vstd::prelude::*;
use vstd::std_specs::cmp::{PartialOrdIs, PartialOrdSpec};

verus! {

/// Bytes of a frame in front of the PCI.
spec fn addressing(cfg: IsoTpConfig) -> int {
    if cfg.tx_addr is Some {
        1
    } else {
        0
    }
}

/// A payload goes out in one frame whenever a frame can hold it behind its length: behind one
/// length byte in a frame of 8 bytes, behind two in a longer one. Otherwise a First Frame announces
/// its length, is filled to the last byte, and is followed by a wait for flow control.
pub proof fn payload_opens_with_a_full_frame(cfg: IsoTpConfig, payload: Seq<u8>)
    requires
        cfg.frame_len_ok(),
        payload.len() <= 4095,
    ensures
        ({
            let before = if cfg.tx_addr is Some {
                1int
            } else {
                0int
            };
            let room = cfg.frame_len - before - (if cfg.frame_len > 8 {
                2int
            } else {
                1int
            });
            let first = pdu::frame_for(cfg, tx::opening_pdu(cfg, payload));
            if payload.len() <= room {
                &&& tx::opening_next(cfg, payload) is Done
                &&& first matches Some(frame)
                &&& frame.id == cfg.tx_id
                &&& exists|at: int|
                    before < at <= before + 2 && #[trigger] frame.data.subrange(
                        at,
                        at + payload.len(),
                    ) == payload
            } else {
                &&& first matches Some(frame)
                &&& frame.id == cfg.tx_id
                &&& frame.data.len() == cfg.frame_len
                &&& frame.data[before] / 16 == 1
                &&& frame.data[before] % 16 * 256 + frame.data[before + 1] == payload.len()
                &&& frame.data.skip(before + 2) == payload.take(cfg.frame_len - before - 2)
                &&& tx::opening_next(cfg, payload) matches TxNext::AwaitFlowControl(s)
                &&& s.payload_len == payload.len()
                &&& s.offset == cfg.frame_len - before - 2
                &&& s.next_sn == 1
                &&& s.wait_count == 0
                &&& s.block_size == cfg.block_size
                &&& s.block_remaining == cfg.block_size
                &&& s.st_min == cfg.st_min
            }
        }),
{
    let before = addressing(cfg);
    let p = tx::opening_pdu(cfg, payload);
    let frame = pdu::frame_for(cfg, p)->0;
    if payload.len() <= cfg.sf_room() {
        assert(payload.take(payload.len() as int) =~= payload);
        if payload.len() <= 7 - before {
            assert(frame.data.subrange(before + 1, before + 1 + payload.len()) =~= payload);
        } else {
            assert(frame.data.subrange(before + 2, before + 2 + payload.len()) =~= payload);
        }
    } else {
        assert(frame.data.skip(before + 2) =~= payload.take(cfg.frame_len - before - 2));
    }
}

/// A Consecutive Frame carries the next bytes of the payload under the next number: as many as a
/// frame holds, or all that are left. The transfer goes on behind them, with the same payload and
/// the same separation time and block size, and is over exactly when none are left.
pub proof fn consecutive_frames_take_the_payload_in_order(
    cfg: IsoTpConfig,
    payload: Seq<u8>,
    s: TxSession,
)
    requires
        cfg.frame_len_ok(),
        s.wf(),
        s.payload_len == payload.len(),
        s.offset < payload.len(),
    ensures
        ({
            let before = if cfg.tx_addr is Some {
                1int
            } else {
                0int
            };
            let room = cfg.frame_len - before - 1;
            let left = payload.len() - s.offset;
            let n = if left <= room {
                left
            } else {
                room
            };
            &&& pdu::frame_for(cfg, tx::chunk_pdu(cfg, payload, s)) matches Some(frame)
            &&& frame.id == cfg.tx_id
            &&& frame.data[before] == 0x20 + s.next_sn
            &&& frame.data.subrange(before + 1, before + 1 + n) == payload.subrange(
                s.offset as int,
                s.offset + n,
            )
            &&& match tx::chunk_next(cfg, s) {
                TxNext::Done => n == left,
                TxNext::AwaitFlowControl(t) => n < left && followed(s, t, n),
                TxNext::Continue { session: t, .. } => n < left && followed(s, t, n),
            }
        }),
{
    let before = addressing(cfg);
    let frame = pdu::frame_for(cfg, tx::chunk_pdu(cfg, payload, s))->0;
    let n = tx::chunk_len(cfg, s);
    assert(frame.data.subrange(before + 1, before + 1 + n) =~= payload.subrange(
        s.offset as int,
        s.offset + n,
    ));
}

/// Whether `t` is the session of `s` behind its next `n` bytes.
pub open spec fn followed(s: TxSession, t: TxSession, n: int) -> bool {
    &&& t.payload_len == s.payload_len
    &&& t.offset == s.offset + n
    &&& t.next_sn == (if s.next_sn == 15 {
        0
    } else {
        s.next_sn + 1
    })
    &&& t.block_size == s.block_size
    &&& t.st_min == s.st_min
    &&& t.wait_count == s.wait_count
}

/// What follows once a session sent `n` more Consecutive Frames in a row.
pub open spec fn after_frames(cfg: IsoTpConfig, s: TxSession, n: nat) -> TxNext
    decreases n,
{
    if n <= 1 {
        tx::chunk_next(cfg, s)
    } else {
        match after_frames(cfg, s, (n - 1) as nat) {
            TxNext::Continue { session, .. } => tx::chunk_next(cfg, session),
            other => other,
        }
    }
}

/// A sender that was cleared for `size` Consecutive Frames sends exactly so many before it waits
/// for the next clearance, unless the payload ends first; one that was cleared without a limit
/// never waits again.
pub proof fn blocks_have_the_size_asked_for(cfg: IsoTpConfig, s: TxSession, n: nat)
    requires
        cfg.frame_len_ok(),
        s.wf(),
        s.offset < s.payload_len,
        s.block_remaining == s.block_size,
        n > 0,
        s.block_size > 0 ==> n <= s.block_size,
    ensures
        match after_frames(cfg, s, n) {
            TxNext::Done => true,
            TxNext::AwaitFlowControl(t) => n == s.block_size && t.block_size == s.block_size,
            TxNext::Continue { session, .. } => {
                &&& n != s.block_size
                &&& session.wf()
                &&& session.offset < session.payload_len
                &&& session.block_size == s.block_size
                &&& s.block_size > 0 ==> session.block_remaining == s.block_size - n
            },
        },
    decreases n,
{
    if n > 1 {
        blocks_have_the_size_asked_for(cfg, s, (n - 1) as nat);
    }
}

/// Between two Consecutive Frames that no flow control separates lies the separation time of the
/// session, for every block size; there is no gap only where none was asked for.
pub proof fn frames_of_a_block_are_spaced(cfg: IsoTpConfig, s: TxSession)
    ensures
        tx::chunk_next(cfg, s) matches TxNext::Continue { session, gap } ==> {
            &&& session.st_min == s.st_min
            &&& s.st_min@ > 0 ==> gap == Some(s.st_min)
            &&& s.st_min@ == 0 ==> gap is None
        },
{
}

/// A clearance makes the sender go on where it stands, with the block size asked for and the
/// separation time that the byte stands for: milliseconds up to 127, or hundreds of microseconds
/// from 0xF1 to 0xF9. A reserved byte leaves the configured time.
pub proof fn clearance_sets_pace_and_block(
    cfg: IsoTpConfig,
    s: TxSession,
    block_size: u8,
    st_min: u8,
)
    ensures
        tx::fc_reaction(cfg, s, FlowStatus::ClearToSend, block_size, st_min) matches
            FcReaction::Proceed(t) && {
            &&& t.payload_len == s.payload_len
            &&& t.offset == s.offset
            &&& t.next_sn == s.next_sn
            &&& t.block_size == block_size
            &&& t.block_remaining == block_size
            &&& t.wait_count == 0
            &&& st_min <= 127 ==> t.st_min@ == st_min * 1_000_000
            &&& 0xF1 <= st_min <= 0xF9 ==> t.st_min@ == (st_min - 0xF0) * 100_000
            &&& 127 < st_min < 0xF1 || st_min > 0xF9 ==> t.st_min == cfg.st_min
        },
{
    if let Some(nanos) = pdu::st_min_nanos(st_min) {
        crate::time::span_has_its_length(nanos);
    }
}

/// A receiver may ask for patience `wft_max` times in a row, and no more often; a clearance starts
/// the count anew. Patience moves nothing, and a refusal ends the transfer.
pub proof fn patience_is_limited(cfg: IsoTpConfig, s: TxSession, block_size: u8, st_min: u8)
    ensures
        s.wait_count < 255 ==> match tx::fc_reaction(
            cfg,
            s,
            FlowStatus::Wait,
            block_size,
            st_min,
        ) {
            FcReaction::KeepWaiting(t) => s.wait_count < cfg.wft_max && t == (TxSession {
                wait_count: (s.wait_count + 1) as u8,
                ..s
            }),
            FcReaction::GiveUp(_) => s.wait_count >= cfg.wft_max,
            _ => false,
        },
        s.wait_count == 255 ==> match tx::fc_reaction(
            cfg,
            s,
            FlowStatus::Wait,
            block_size,
            st_min,
        ) {
            FcReaction::KeepWaiting(t) => cfg.wft_max == 255 && t == s,
            FcReaction::GiveUp(_) => cfg.wft_max < 255,
            _ => false,
        },
        tx::fc_reaction(cfg, s, FlowStatus::Overflow, block_size, st_min) is Abort,
{
}

/// What a frame that went out leaves behind: nothing once the payload is out; a wait for flow
/// control that ends `n_bs` after it; or a pause of the separation time after it, where one was
/// asked for.
pub proof fn frame_leaves_its_deadline<C: Clock>(
    clock: C,
    now: C::Instant,
    n_bs: Duration,
    next: TxNext,
    state: TxState<C::Instant>,
)
    requires
        tx::armed(clock, now, n_bs, next, state),
    ensures
        match state {
            TxState::Idle => next is Done,
            TxState::WaitingForFc { session, deadline } => next == TxNext::AwaitFlowControl(session)
                && call_ensures(C::add, (&clock, now, n_bs), deadline),
            TxState::Sending { session, st_min_deadline } => {
                &&& next matches TxNext::Continue { session: t, gap }
                &&& t == session
                &&& gap is Some <==> st_min_deadline is Some
                &&& gap matches Some(g) ==> call_ensures(
                    C::add,
                    (&clock, now, g),
                    st_min_deadline->0,
                )
            },
        },
{
}

/// Whether a transmit state was left by a Consecutive Frame of a session that went out at `sent_at`.
pub open spec fn left_by_chunk<C: Clock>(
    clock: C,
    cfg: IsoTpConfig,
    s: TxSession,
    sent_at: C::Instant,
    state: TxState<C::Instant>,
) -> bool {
    tx::armed(clock, sent_at, cfg.n_bs, tx::chunk_next(cfg, s), state)
}

/// Two Consecutive Frames of a node with no flow control between them are at least the separation
/// time apart: until the time that the clock gives for it, nothing is transmitted.
pub proof fn node_keeps_frames_apart<C: Clock>(
    node: IsoTpNode<'_, C>,
    s: TxSession,
    sent_at: C::Instant,
    payload: Seq<u8>,
    now: C::Instant,
    d: SendDecision,
)
    requires
        left_by_chunk(node.clock_spec(), node.cfg_spec(), s, sent_at, node.tx_spec()),
        node.tx_spec() is Sending,
        s.st_min@ > 0,
        s.payload_len == payload.len(),
        payload.len() <= node.cfg_spec().max_payload_len,
        C::Instant::obeys_partial_cmp_spec(),
        node.send_decided(payload, now, d),
    ensures
        node.tx_spec() matches TxState::Sending { session, st_min_deadline: Some(at) } && {
            &&& call_ensures(C::add, (&node.clock_spec(), sent_at, s.st_min), at)
            &&& now.is_lt(&at) ==> d == SendDecision::Report(Progress::WouldBlock)
            &&& !now.is_lt(&at) ==> d is Transmit || d is Fail
        },
{
}

/// A sending node: how its transmit state, the time and the payload decide what it does.
///
/// A payload that is too long is refused in every state. A transfer under way is kept to its
/// payload. A wait for flow control ends with a timeout once its deadline is reached, and not
/// before.
pub proof fn node_sends_by_its_state<C: Clock>(
    node: IsoTpNode<'_, C>,
    payload: Seq<u8>,
    now: C::Instant,
    d: SendDecision,
)
    requires
        node.wf(),
        C::Instant::obeys_partial_cmp_spec(),
        node.send_decided(payload, now, d),
    ensures
        payload.len() > node.cfg_spec().max_payload_len ==> d == SendDecision::Fail(
            IsoTpError::Overflow,
        ),
        payload.len() <= node.cfg_spec().max_payload_len ==> match node.tx_spec() {
            TxState::Idle => pdu::frame_for(
                node.cfg_spec(),
                tx::opening_pdu(node.cfg_spec(), payload),
            ) matches Some(frame) && d == SendDecision::Transmit(
                frame,
                tx::opening_next(node.cfg_spec(), payload),
            ),
            TxState::WaitingForFc { session, deadline } => if payload.len() != session.payload_len {
                d == SendDecision::Fail(IsoTpError::NotIdle)
            } else if session.wait_count > node.cfg_spec().wft_max || now.is_ge(&deadline) {
                d == SendDecision::Fail(IsoTpError::Timeout(TimeoutKind::NBs))
            } else {
                d is AwaitFrame
            },
            TxState::Sending { session, st_min_deadline } => if payload.len()
                != session.payload_len {
                d == SendDecision::Fail(IsoTpError::NotIdle)
            } else if st_min_deadline matches Some(at) && now.is_lt(&at) {
                d == SendDecision::Report(Progress::WouldBlock)
            } else if session.offset == session.payload_len {
                d == SendDecision::Report(Progress::Completed)
            } else {
                pdu::frame_for(
                    node.cfg_spec(),
                    tx::chunk_pdu(node.cfg_spec(), payload, session),
                ) matches Some(frame) && d == SendDecision::Transmit(
                    frame,
                    tx::chunk_next(node.cfg_spec(), session),
                )
            },
        },
{
    if payload.len() <= node.cfg_spec().max_payload_len {
        match node.tx_spec() {
            TxState::Idle => {
                payload_opens_with_a_full_frame(node.cfg_spec(), payload);
            },
            TxState::WaitingForFc { .. } => {},
            TxState::Sending { session, .. } => {
                if payload.len() == session.payload_len && session.offset < session.payload_len {
                    consecutive_frames_take_the_payload_in_order(
                        node.cfg_spec(),
                        payload,
                        session,
                    );
                }
            },
        }
    }
}

/// A node that waits for flow control: nothing received and frames for others change nothing; a
/// clearance lets the next Consecutive Frame go out at once; a request for patience starts the wait
/// anew; a refusal fails with an overflow; a malformed frame ends the transfer.
pub proof fn waiting_node_heeds_flow_control(
    cfg: IsoTpConfig,
    payload: Seq<u8>,
    s: TxSession,
    frame: Option<FrameView>,
)
    requires
        cfg.frame_len_ok(),
        s.wf(),
        s.payload_len == payload.len(),
        s.offset < payload.len(),
    ensures
        ({
            let (d, after) = node::fc_frame_decision(cfg, payload, s, frame);
            match frame {
                None => d == SendDecision::Report(Progress::WaitingForFlowControl)
                    && after is Kept,
                Some(f) => if !pdu::addressed(cfg, f) {
                    d is AwaitFrame && after is Kept
                } else {
                    match pdu::pdu_in(cfg, f.data) {
                        None => d == SendDecision::Fail(IsoTpError::InvalidFrame)
                            && after is Cleared,
                        Some(PduView::FlowControl { status, block_size, st_min }) => {
                            match tx::fc_reaction(cfg, s, status, block_size, st_min) {
                                FcReaction::Proceed(t) => {
                                    &&& status is ClearToSend
                                    &&& after is Cleared
                                    &&& pdu::frame_for(
                                        cfg,
                                        tx::chunk_pdu(cfg, payload, t),
                                    ) matches Some(out)
                                    &&& d == SendDecision::Transmit(out, tx::chunk_next(cfg, t))
                                },
                                FcReaction::KeepWaiting(t) => {
                                    &&& status is Wait
                                    &&& d == SendDecision::Report(Progress::WaitingForFlowControl)
                                    &&& after == FcAfter::Rearmed(t)
                                },
                                FcReaction::GiveUp(t) => {
                                    &&& status is Wait
                                    &&& after == FcAfter::Rearmed(t)
                                    &&& d == SendDecision::Fail(
                                        IsoTpError::Timeout(TimeoutKind::NBs),
                                    )
                                },
                                FcReaction::Abort => {
                                    &&& status is Overflow
                                    &&& d == SendDecision::Fail(IsoTpError::Overflow)
                                    &&& after is Cleared
                                },
                            }
                        },
                        Some(_) => d is AwaitFrame && after is Kept,
                    }
                },
            }
        }),
{
    if let Some(f) = frame {
        if let Some(PduView::FlowControl { status, block_size, st_min }) = pdu::pdu_in(cfg, f.data) {
            if let FcReaction::Proceed(t) = tx::fc_reaction(cfg, s, status, block_size, st_min) {
                consecutive_frames_take_the_payload_in_order(cfg, payload, t);
            }
        }
    }
}

/// A demux sends to a peer as a node sends that has this peer alone: with the same decision, and
/// with the Flow Control frame that the peer sent last in place of the one that a node receives.
pub proof fn demux_sends_like_a_node<I>(
    cfg: IsoTpConfig,
    p: PeerModel<I>,
    payload: Seq<u8>,
    late: bool,
    fc_frame: FrameView,
)
    requires
        pdu::addressed(cfg, fc_frame),
        p.pending_fc matches Some(fc) ==> pdu::pdu_in(cfg, fc_frame.data) == Some(
            PduView::FlowControl {
                status: fc.status,
                block_size: fc.block_size,
                st_min: fc.st_min,
            },
        ),
    ensures
        ({
            let (d, after, left) = demux::peer_send(cfg, p, payload, late);
            match p.tx {
                TxState::Idle => {
                    &&& match pdu::frame_for(cfg, tx::opening_pdu(cfg, payload)) {
                        Some(frame) => d == SendDecision::Transmit(
                            frame,
                            tx::opening_next(cfg, payload),
                        ),
                        None => d == SendDecision::Fail(IsoTpError::InvalidFrame),
                    }
                    &&& after is Cleared
                    &&& left == p.pending_fc
                },
                TxState::WaitingForFc { session, .. } => {
                    let asked = node::fc_wait_decision(cfg, payload, session, late);
                    if !(asked is AwaitFrame) {
                        d == asked && after is Cleared && left == p.pending_fc
                    } else if p.pending_fc is None {
                        &&& (d, after) == node::fc_frame_decision(cfg, payload, session, None)
                        &&& left is None
                    } else {
                        &&& (d, after) == node::fc_frame_decision(
                            cfg,
                            payload,
                            session,
                            Some(fc_frame),
                        )
                        &&& left is None
                    }
                },
                TxState::Sending { session, .. } => {
                    &&& d == node::chunk_decision(cfg, payload, session, late)
                    &&& d == SendDecision::Report(Progress::WouldBlock) <==> after is Kept
                    &&& !(after is Kept) ==> after is Cleared
                    &&& left == p.pending_fc
                },
            }
        }),
{
}

/// A demux keeps the separation time of every peer: while the deadline that its last Consecutive
/// Frame left lies ahead, a send step transmits nothing, reports that it would block, and changes
/// nothing.
pub proof fn demux_keeps_frames_apart<C: Clock>(
    clock: C,
    cfg: IsoTpConfig,
    m: DemuxModel<C::Instant>,
    i: int,
    payload: Seq<u8>,
    now: C::Instant,
    late: bool,
    end: DemuxModel<C::Instant>,
    r: Result<SendStep, IsoTpError<()>>,
)
    requires
        0 <= i < m.peers.len(),
        C::Instant::obeys_partial_cmp_spec(),
        demux::late_at(m.peers[i].tx, now, late),
        demux::send_step_taken(clock, cfg, m, i, payload, now, late, end, r),
    ensures
        m.peers[i].tx matches TxState::Sending { session, st_min_deadline: Some(at) } ==> (
        session.payload_len == payload.len() ==> {
            &&& now.is_lt(&at) ==> {
                &&& r matches Ok(SendStep::Report(p)) && p == Progress::WouldBlock
                &&& end == m
            }
            &&& !now.is_lt(&at) ==> !(r matches Ok(SendStep::Report(p)) && p
                == Progress::WouldBlock)
        }),
        m.peers[i].tx matches TxState::WaitingForFc { session, deadline } ==> (session.payload_len
            == payload.len() && now.is_ge(&deadline) ==> {
            &&& r matches Err(e) && e == IsoTpError::<()>::Timeout(TimeoutKind::NBs)
            &&& end.peers[i].tx is Idle
        }),
        forall|j: int| 0 <= j < m.peers.len() && j != i ==> end.peers[j] == #[trigger] m.peers[j],
        end.peers.len() == m.peers.len(),
        end.peers[i].rx == m.peers[i].rx,
        end.ready == m.ready,
{
    if let TxState::Sending { session, st_min_deadline: Some(at) } = m.peers[i].tx {
        if session.payload_len == payload.len() && now.is_lt(&at) {
            assert(end.peers =~= m.peers);
        }
    }
}

/// Progress tells where a transfer stands once a frame is out: complete, waiting for flow control,
/// or in flight.
pub proof fn progress_tells_what_follows(next: TxNext)
    ensures
        next.progress() == Progress::Completed <==> next is Done,
        next.progress() == Progress::WaitingForFlowControl <==> next is AwaitFlowControl,
        next.progress() == Progress::InFlight <==> next is Continue,
{
}

/// A wait that starts anew ends `n_bs` after the request for patience; a wait that is kept keeps
/// its deadline; a transfer that is given up leaves nothing under way.
pub proof fn patience_restarts_the_wait<C: Clock>(
    clock: C,
    now: C::Instant,
    n_bs: Duration,
    after: FcAfter,
    before: TxState<C::Instant>,
    state: TxState<C::Instant>,
)
    requires
        after.holds(clock, now, n_bs, before, state),
    ensures
        after is Kept ==> state == before,
        after is Cleared ==> state is Idle,
        after matches FcAfter::Rearmed(t) ==> (
        state matches TxState::WaitingForFc { session, deadline } && session == t && call_ensures(
            C::add,
            (&clock, now, n_bs),
            deadline,
        )),
{
}

/// An async sender keeps the separation time: a Consecutive Frame goes out only where none went out
/// before, where the separation time has passed since, or where the sender has paused for the rest
/// of it. A pause is exactly that rest, unless the whole transfer has less time left.
pub proof fn async_sender_keeps_frames_apart(
    cfg: IsoTpConfig,
    payload: Seq<u8>,
    timeout: Duration,
    times: SendTimes,
    s: TxSession,
)
    ensures
        match AsyncSend::Ready(s).choice(cfg, payload, timeout, times) {
            AsyncChoice::Transmit(..) => times.cf_elapsed matches Some(since) ==> since@
                >= s.st_min@,
            AsyncChoice::Pause(d) => {
                &&& times.cf_elapsed matches Some(since)
                &&& since@ < s.st_min@
                &&& times.elapsed@ <= timeout@
                &&& d <= s.st_min@ - since@
                &&& d == s.st_min@ - since@ || d == timeout@ - times.elapsed@
            },
            AsyncChoice::Fail(_) => true,
            _ => false,
        },
        AsyncSend::Rested(s).choice(cfg, payload, timeout, times) is Transmit
            || AsyncSend::Rested(s).choice(cfg, payload, timeout, times) is Fail,
{
}

/// An async sender does nothing beyond the time that the whole transfer may take, and waits for
/// flow control no longer than `n_bs`: what it waits for is over when either time is, and the
/// timeout to report names the one that is over first.
pub proof fn async_sender_keeps_its_timeouts(
    cfg: IsoTpConfig,
    payload: Seq<u8>,
    timeout: Duration,
    times: SendTimes,
    state: AsyncSend,
)
    ensures
        match state.choice(cfg, payload, timeout, times) {
            AsyncChoice::Transmit(_, _, within) => times.elapsed@ + within == timeout@ && !(
            state is Waiting) && !(state is Done),
            AsyncChoice::Receive(within, kind) => {
                &&& state is Waiting
                &&& times.fc_elapsed@ < cfg.n_bs@
                &&& times.fc_elapsed@ + within <= cfg.n_bs@
                &&& times.elapsed@ + within <= timeout@
                &&& kind == TimeoutKind::NAs ==> times.elapsed@ + within == timeout@
                &&& kind == TimeoutKind::NBs ==> times.fc_elapsed@ + within == cfg.n_bs@
                &&& kind == TimeoutKind::NAs || kind == TimeoutKind::NBs
            },
            AsyncChoice::Pause(within) => times.elapsed@ + within <= timeout@ && state is Ready,
            AsyncChoice::Finish => state is Done,
            AsyncChoice::Fail(e) => match e {
                IsoTpError::Timeout(TimeoutKind::NBs) => state is Waiting && times.fc_elapsed@
                    >= cfg.n_bs@,
                IsoTpError::Timeout(TimeoutKind::NAs) => times.elapsed@ > timeout@ || (
                state is Opening && times.elapsed@ >= timeout@),
                IsoTpError::Overflow => state is Opening && payload.len() > cfg.max_payload_len,
                IsoTpError::InvalidFrame => !(state is Waiting) && !(state is Done),
                _ => false,
            },
        },
        state is Waiting && times.fc_elapsed@ >= cfg.n_bs@ ==> state.choice(
            cfg,
            payload,
            timeout,
            times,
        ) == AsyncChoice::Fail(IsoTpError::Timeout(TimeoutKind::NBs)),
        state is Opening && payload.len() > cfg.max_payload_len ==> state.choice(
            cfg,
            payload,
            timeout,
            times,
        ) == AsyncChoice::Fail(IsoTpError::Overflow),
        state is Opening && payload.len() <= cfg.max_payload_len && times.elapsed@ >= timeout@
            ==> state.choice(cfg, payload, timeout, times) == AsyncChoice::Fail(
            IsoTpError::Timeout(TimeoutKind::NAs),
        ),
        state is Waiting && times.fc_elapsed@ < cfg.n_bs@ && times.elapsed@ > timeout@
            ==> state.choice(cfg, payload, timeout, times) == AsyncChoice::Fail(
            IsoTpError::Timeout(TimeoutKind::NAs),
        ),
        (state is Ready || state is Rested) && times.elapsed@ > timeout@ ==> state.choice(
            cfg,
            payload,
            timeout,
            times,
        ) is Fail,
{
}

/// An async sender in time sends what a polling sender sends: the frame that opens the payload, and
/// each Consecutive Frame after it.
pub proof fn async_sender_sends_the_same_frames(
    cfg: IsoTpConfig,
    payload: Seq<u8>,
    timeout: Duration,
    times: SendTimes,
    s: TxSession,
)
    requires
        cfg.frame_len_ok(),
        payload.len() <= cfg.max_payload_len <= 4095,
        times.elapsed@ < timeout@,
    ensures
        pdu::frame_for(cfg, tx::opening_pdu(cfg, payload)) matches Some(frame)
            && AsyncSend::Opening.choice(cfg, payload, timeout, times) == AsyncChoice::Transmit(
            frame,
            tx::opening_next(cfg, payload),
            (timeout@ - times.elapsed@) as nat,
        ),
        s.wf() && s.payload_len == payload.len() && s.offset < payload.len() ==> (pdu::frame_for(
            cfg,
            tx::chunk_pdu(cfg, payload, s),
        ) matches Some(frame) && AsyncSend::Rested(s).choice(cfg, payload, timeout, times)
            == AsyncChoice::Transmit(
            frame,
            tx::chunk_next(cfg, s),
            (timeout@ - times.elapsed@) as nat,
        )),
{
    payload_opens_with_a_full_frame(cfg, payload);
    if s.wf() && s.payload_len == payload.len() && s.offset < payload.len() {
        consecutive_frames_take_the_payload_in_order(cfg, payload, s);
    }
}

/// What flow control does to an async sender: a clearance lets it go on, a request for patience
/// keeps it waiting and starts the wait anew, too many of them are a timeout, and a refusal is an
/// overflow; frames for others and frames that are no flow control leave it waiting.
pub proof fn async_sender_heeds_flow_control<E>(cfg: IsoTpConfig, s: TxSession, frame: FrameView)
    ensures
        ({
            let r = async_send::fc_frame_outcome::<E>(cfg, s, frame);
            if !pdu::addressed(cfg, frame) {
                r == Ok::<(AsyncSend, bool), IsoTpError<E>>((AsyncSend::Waiting(s), false))
            } else {
                match pdu::pdu_in(cfg, frame.data) {
                    None => r == Err::<(AsyncSend, bool), IsoTpError<E>>(IsoTpError::InvalidFrame),
                    Some(PduView::FlowControl { status, block_size, st_min }) => {
                        match (status, tx::fc_reaction(cfg, s, status, block_size, st_min)) {
                            (FlowStatus::ClearToSend, FcReaction::Proceed(t)) => r == Ok::<
                                (AsyncSend, bool),
                                IsoTpError<E>,
                            >((AsyncSend::Ready(t), false)),
                            (FlowStatus::Wait, FcReaction::KeepWaiting(t)) => r == Ok::<
                                (AsyncSend, bool),
                                IsoTpError<E>,
                            >((AsyncSend::Waiting(t), true)),
                            (FlowStatus::Wait, FcReaction::GiveUp(_)) => r == Err::<
                                (AsyncSend, bool),
                                IsoTpError<E>,
                            >(IsoTpError::Timeout(TimeoutKind::NBs)),
                            (FlowStatus::Overflow, FcReaction::Abort) => r == Err::<
                                (AsyncSend, bool),
                                IsoTpError<E>,
                            >(IsoTpError::Overflow),
                            _ => false,
                        }
                    },
                    Some(_) => r == Ok::<(AsyncSend, bool), IsoTpError<E>>(
                        (AsyncSend::Waiting(s), false),
                    ),
                }
            }
        }),
        AsyncSend::after(TxNext::Done) is Done,
        AsyncSend::after(TxNext::AwaitFlowControl(s)) == AsyncSend::Waiting(s),
        forall|gap: Option<Duration>| #[trigger]
            AsyncSend::after(TxNext::Continue { session: s, gap }) == AsyncSend::Ready(s),
{
}

} // verus!
