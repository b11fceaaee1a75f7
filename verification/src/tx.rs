//! Transmit-side segmentation and progress tracking for ISO-TP.

use crate::config::IsoTpConfig;
use crate::errors::IsoTpError;
use crate::id::Frame;
use crate::pdu;
use crate::pdu::{encode_for, st_min_to_duration, FlowStatus, Pdu};
use crate::time;
use crate::time::Duration;
use crate::timer::Clock;
use vstd::prelude::*;
use vstd::slice::slice_subrange;

verus! {

/// Progress indicator for non-blocking APIs.
///
/// Both the blocking and async APIs in this crate are built on top of polling-style primitives.
/// `Progress` describes the state after a single poll step.
#[derive(Debug, Clone, Copy, PartialEq, Eq, Structural)]
pub enum Progress {
    /// Transfer is ongoing.
    InFlight,
    /// Waiting for a flow control frame.
    WaitingForFlowControl,
    /// Transfer finished.
    Completed,
    /// Backend would block; caller should retry later.
    WouldBlock,
}

/// Bookkeeping for an in-flight segmented transfer.
#[derive(Debug, Clone, Copy, PartialEq, Eq, Structural)]
pub struct TxSession {
    /// Expected full payload length.
    pub payload_len: usize,
    /// Current offset into payload.
    pub offset: usize,
    /// Next sequence number nibble.
    pub next_sn: u8,
    /// Block size negotiated.
    pub block_size: u8,
    /// Frames remaining before next FC.
    pub block_remaining: u8,
    /// Separation time between CFs.
    pub st_min: Duration,
    /// Count of Wait responses seen.
    pub wait_count: u8,
}

impl TxSession {
    /// A session before its First Frame.
    pub open spec fn fresh(payload_len: usize, block_size: u8, st_min: Duration) -> TxSession {
        TxSession {
            payload_len,
            offset: 0,
            next_sn: 1,
            block_size,
            block_remaining: block_size,
            st_min,
            wait_count: 0,
        }
    }

    /// Sequence numbers are 4 bits wide, and no byte past the end of the payload is sent.
    pub open spec fn wf(self) -> bool {
        self.next_sn < 16 && self.offset <= self.payload_len
    }

    /// Build a new session with provided limits.
    pub fn new(payload_len: usize, block_size: u8, st_min: Duration) -> (r: Self)
        ensures
            r == TxSession::fresh(payload_len, block_size, st_min),
    {
        TxSession {
            payload_len,
            offset: 0,
            next_sn: 1,
            block_size,
            block_remaining: block_size,
            st_min,
            wait_count: 0,
        }
    }
}

/// Transmit state machine wrapper: the state carried between transmit steps.
pub enum TxState<CInstant> {
    /// No active transfer.
    Idle,
    /// Sent First Frame; waiting for FC until deadline.
    WaitingForFc { session: TxSession, deadline: CInstant },
    /// Sending consecutive frames; may be pacing by STmin.
    Sending { session: TxSession, st_min_deadline: Option<CInstant> },
}

impl<CInstant> TxState<CInstant> {
    /// The session under way is well formed.
    pub open spec fn wf(self) -> bool {
        match self {
            TxState::Idle => true,
            TxState::WaitingForFc { session, .. } => session.wf(),
            TxState::Sending { session, .. } => session.wf(),
        }
    }
}

/// What follows once a frame of a transfer is out.
#[derive(Debug, Clone, Copy, PartialEq, Eq, Structural)]
pub enum TxNext {
    /// The payload is out.
    Done,
    /// The receiver has to clear the next block.
    AwaitFlowControl(TxSession),
    /// The next Consecutive Frame may go out, after a gap where one was asked for.
    Continue { session: TxSession, gap: Option<Duration> },
}

impl TxNext {
    /// The session under way is well formed.
    pub open spec fn wf(self) -> bool {
        match self {
            TxNext::Done => true,
            TxNext::AwaitFlowControl(session) => session.wf(),
            TxNext::Continue { session, .. } => session.wf(),
        }
    }

    /// Progress to report once the frame is out.
    pub open spec fn progress(self) -> Progress {
        match self {
            TxNext::Done => Progress::Completed,
            TxNext::AwaitFlowControl(_) => Progress::WaitingForFlowControl,
            TxNext::Continue { .. } => Progress::InFlight,
        }
    }
}

/// A frame to transmit, with what follows once it is out.
pub struct TxPlan {
    frame: Frame,
    next: TxNext,
}

impl TxPlan {
    #[verifier::type_invariant]
    spec fn inv(self) -> bool {
        self.next.wf()
    }

    /// What follows once the frame is out.
    pub closed spec fn next_spec(self) -> TxNext {
        self.next
    }

    /// The frame to transmit.
    pub closed spec fn frame_spec(self) -> crate::id::FrameView {
        self.frame@
    }

    /// The frame to transmit.
    pub fn frame(&self) -> (r: &Frame)
        ensures
            r@ == self.frame_spec(),
    {
        &self.frame
    }

    /// What follows once the frame is out.
    pub fn next(&self) -> (r: TxNext)
        ensures
            r == self.next_spec(),
            r.wf(),
    {
        proof {
            use_type_invariant(self);
        }
        self.next
    }
}

/// First PDU of a payload: a Single Frame where it fits, else a First Frame with the first bytes.
pub open spec fn opening_pdu(cfg: IsoTpConfig, payload: Seq<u8>) -> pdu::PduView {
    if payload.len() <= cfg.sf_room() {
        pdu::PduView::SingleFrame { len: payload.len() as u8, data: payload }
    } else {
        pdu::PduView::FirstFrame {
            len: payload.len() as u16,
            data: payload.take(opening_len(cfg, payload)),
        }
    }
}

/// Payload bytes that a First Frame carries.
pub open spec fn opening_len(cfg: IsoTpConfig, payload: Seq<u8>) -> int {
    if payload.len() <= cfg.ff_room() {
        payload.len() as int
    } else {
        cfg.ff_room()
    }
}

/// What follows the first frame of a payload.
pub open spec fn opening_next(cfg: IsoTpConfig, payload: Seq<u8>) -> TxNext {
    if payload.len() <= cfg.sf_room() {
        TxNext::Done
    } else {
        TxNext::AwaitFlowControl(
            TxSession {
                offset: opening_len(cfg, payload) as usize,
                ..TxSession::fresh(payload.len() as usize, cfg.block_size, cfg.st_min)
            },
        )
    }
}

/// Plan the first frame of a payload.
pub fn plan_opening(cfg: &IsoTpConfig, payload: &[u8]) -> (r: Result<TxPlan, IsoTpError<()>>)
    requires
        payload@.len() <= 4095,
    ensures
        match r {
            Ok(plan) => pdu::frame_for(*cfg, opening_pdu(*cfg, payload@)) == Some(plan.frame_spec())
                && plan.next_spec() == opening_next(*cfg, payload@),
            Err(e) => e is InvalidFrame && pdu::frame_for(*cfg, opening_pdu(*cfg, payload@)) is None,
        },
{
    if payload.len() <= cfg.max_single_frame_payload() {
        let pdu = Pdu::SingleFrame { len: payload.len() as u8, data: payload };
        return match encode_for(cfg, &pdu) {
            Ok(frame) => Ok(TxPlan { frame, next: TxNext::Done }),
            Err(e) => Err(e),
        };
    }
    let len: usize = payload.len();
    let room: usize = cfg.max_first_frame_payload();
    let chunk: usize = if len <= room {
        len
    } else {
        room
    };
    let pdu = Pdu::FirstFrame { len: len as u16, data: slice_subrange(payload, 0, chunk) };
    match encode_for(cfg, &pdu) {
        Ok(frame) => {
            let mut session = TxSession::new(len, cfg.block_size, cfg.st_min);
            session.offset = chunk;
            Ok(TxPlan { frame, next: TxNext::AwaitFlowControl(session) })
        },
        Err(e) => Err(e),
    }
}

/// Payload bytes in the next Consecutive Frame.
pub open spec fn chunk_len(cfg: IsoTpConfig, s: TxSession) -> int {
    if s.payload_len - s.offset <= cfg.cf_room() {
        s.payload_len - s.offset
    } else {
        cfg.cf_room()
    }
}

/// The next Consecutive Frame of a transfer.
pub open spec fn chunk_pdu(cfg: IsoTpConfig, payload: Seq<u8>, s: TxSession) -> pdu::PduView {
    pdu::PduView::ConsecutiveFrame {
        sn: s.next_sn,
        data: payload.subrange(s.offset as int, s.offset + chunk_len(cfg, s)),
    }
}

/// The session once its next Consecutive Frame is out.
pub open spec fn advanced(cfg: IsoTpConfig, s: TxSession) -> TxSession {
    TxSession {
        offset: (s.offset + chunk_len(cfg, s)) as usize,
        next_sn: ((s.next_sn + 1) % 16) as u8,
        ..s
    }
}

/// What follows once the next Consecutive Frame is out: the end of the payload, the end of a
/// block, or the next frame.
pub open spec fn chunk_next(cfg: IsoTpConfig, s: TxSession) -> TxNext {
    let t = advanced(cfg, s);
    let gap = if t.st_min@ > 0 {
        Some(t.st_min)
    } else {
        None
    };
    if t.offset >= t.payload_len {
        TxNext::Done
    } else if t.block_size == 0 {
        TxNext::Continue { session: t, gap }
    } else if t.block_remaining <= 1 {
        TxNext::AwaitFlowControl(TxSession { block_remaining: t.block_size, ..t })
    } else {
        TxNext::Continue {
            session: TxSession { block_remaining: (t.block_remaining - 1) as u8, ..t },
            gap,
        }
    }
}

/// Plan the next Consecutive Frame of a transfer that has bytes left.
pub fn plan_chunk(cfg: &IsoTpConfig, payload: &[u8], session: TxSession) -> (r: Result<
    TxPlan,
    IsoTpError<()>,
>)
    requires
        session.wf(),
        session.payload_len == payload@.len(),
    ensures
        match r {
            Ok(plan) => pdu::frame_for(*cfg, chunk_pdu(*cfg, payload@, session)) == Some(
                plan.frame_spec(),
            ) && plan.next_spec() == chunk_next(*cfg, session),
            Err(e) => e is InvalidFrame && pdu::frame_for(
                *cfg,
                chunk_pdu(*cfg, payload@, session),
            ) is None,
        },
{
    let mut session = session;
    let remaining: usize = session.payload_len - session.offset;
    let room: usize = cfg.max_consecutive_frame_payload();
    let chunk: usize = if remaining <= room {
        remaining
    } else {
        room
    };
    let data = slice_subrange(payload, session.offset, session.offset + chunk);
    let pdu = Pdu::ConsecutiveFrame { sn: session.next_sn, data };
    let frame = match encode_for(cfg, &pdu) {
        Ok(frame) => frame,
        Err(e) => {
            return Err(e);
        },
    };
    session.offset = session.offset + chunk;
    session.next_sn = (session.next_sn + 1) % 16;
    if session.offset >= session.payload_len {
        return Ok(TxPlan { frame, next: TxNext::Done });
    }
    if session.block_size > 0 {
        session.block_remaining = if session.block_remaining > 0 {
            session.block_remaining - 1
        } else {
            0
        };
        if session.block_remaining == 0 {
            session.block_remaining = session.block_size;
            return Ok(TxPlan { frame, next: TxNext::AwaitFlowControl(session) });
        }
    }
    let gap = if session.st_min.is_zero() {
        None
    } else {
        Some(session.st_min)
    };
    Ok(TxPlan { frame, next: TxNext::Continue { session, gap } })
}

/// Reaction of a sender to a Flow Control frame.
#[derive(Debug, Clone, Copy, PartialEq, Eq, Structural)]
pub enum FcReaction {
    /// The next block may go out.
    Proceed(TxSession),
    /// The receiver asked for patience.
    KeepWaiting(TxSession),
    /// The receiver asked for patience more often than allowed.
    GiveUp(TxSession),
    /// The receiver cannot take the payload.
    Abort,
}

/// Separation time asked for by a receiver; a reserved value leaves the configured one.
pub open spec fn agreed_gap(raw: u8, fallback: Duration) -> Duration {
    match pdu::st_min_nanos(raw) {
        Some(nanos) => time::span(nanos),
        None => fallback,
    }
}

/// Reaction of a sender to a Flow Control frame. A clearance sets the block size that it asks for,
/// where 0 stands for unlimited: no further clearance is then waited for.
pub open spec fn fc_reaction(
    cfg: IsoTpConfig,
    s: TxSession,
    status: FlowStatus,
    block_size: u8,
    st_min: u8,
) -> FcReaction {
    match status {
        FlowStatus::ClearToSend => FcReaction::Proceed(
            TxSession {
                wait_count: 0,
                block_size,
                block_remaining: block_size,
                st_min: agreed_gap(st_min, cfg.st_min),
                ..s
            },
        ),
        FlowStatus::Wait => {
            let waits = if s.wait_count < u8::MAX {
                (s.wait_count + 1) as u8
            } else {
                u8::MAX
            };
            let t = TxSession { wait_count: waits, ..s };
            if waits > cfg.wft_max {
                FcReaction::GiveUp(t)
            } else {
                FcReaction::KeepWaiting(t)
            }
        },
        FlowStatus::Overflow => FcReaction::Abort,
    }
}

/// Separation time asked for by a receiver; a reserved value leaves the configured one.
pub fn negotiated_gap(raw: u8, fallback: Duration) -> (r: Duration)
    ensures
        r == agreed_gap(raw, fallback),
{
    match st_min_to_duration(raw) {
        Some(d) => d,
        None => fallback,
    }
}

/// React to a Flow Control frame.
pub fn on_flow_control(
    cfg: &IsoTpConfig,
    session: TxSession,
    status: FlowStatus,
    block_size: u8,
    st_min: u8,
) -> (r: FcReaction)
    ensures
        r == fc_reaction(*cfg, session, status, block_size, st_min),
{
    let mut session = session;
    match status {
        FlowStatus::ClearToSend => {
            session.wait_count = 0;
            session.block_size = block_size;
            session.block_remaining = block_size;
            session.st_min = negotiated_gap(st_min, cfg.st_min);
            FcReaction::Proceed(session)
        },
        FlowStatus::Wait => {
            if session.wait_count < u8::MAX {
                session.wait_count = session.wait_count + 1;
            }
            if session.wait_count > cfg.wft_max {
                FcReaction::GiveUp(session)
            } else {
                FcReaction::KeepWaiting(session)
            }
        },
        FlowStatus::Overflow => FcReaction::Abort,
    }
}

/// Whether `state` is the transmit state after a frame went out at `now`, with the deadlines that
/// the clock computed.
pub open spec fn armed<C: Clock>(
    clock: C,
    now: C::Instant,
    n_bs: Duration,
    next: TxNext,
    state: TxState<C::Instant>,
) -> bool {
    match next {
        TxNext::Done => state is Idle,
        TxNext::AwaitFlowControl(s) => waits_for_fc(clock, now, n_bs, s, state),
        TxNext::Continue { session: s, gap } => {
            &&& state matches TxState::Sending { session, st_min_deadline }
            &&& session == s
            &&& match gap {
                Some(g) => st_min_deadline matches Some(d) && call_ensures(
                    C::add,
                    (&clock, now, g),
                    d,
                ),
                None => st_min_deadline is None,
            }
        },
    }
}

/// Whether `state` waits for flow control with a deadline of `n_bs` from `now`.
pub open spec fn waits_for_fc<C: Clock>(
    clock: C,
    now: C::Instant,
    n_bs: Duration,
    s: TxSession,
    state: TxState<C::Instant>,
) -> bool {
    &&& state matches TxState::WaitingForFc { session, deadline }
    &&& session == s
    &&& call_ensures(C::add, (&clock, now, n_bs), deadline)
}

/// Wait for flow control with a deadline of `n_bs` from `now`.
pub fn wait_for_fc<C: Clock>(
    clock: &C,
    now: C::Instant,
    n_bs: Duration,
    session: TxSession,
) -> (state: TxState<C::Instant>)
    ensures
        waits_for_fc(*clock, now, n_bs, session, state),
{
    TxState::WaitingForFc { session, deadline: clock.add(now, n_bs) }
}

/// The transmit state, and the progress to report, after a frame went out at `now`.
pub fn arm<C: Clock>(clock: &C, now: C::Instant, n_bs: Duration, next: TxNext) -> (r: (
    TxState<C::Instant>,
    Progress,
))
    ensures
        armed(*clock, now, n_bs, next, r.0),
        r.1 == next.progress(),
        next.wf() ==> r.0.wf(),
{
    match next {
        TxNext::Done => (TxState::Idle, Progress::Completed),
        TxNext::AwaitFlowControl(session) => (
            wait_for_fc(clock, now, n_bs, session),
            Progress::WaitingForFlowControl,
        ),
        TxNext::Continue { session, gap } => {
            let st_min_deadline = match gap {
                Some(g) => Some(clock.add(now, g)),
                None => None,
            };
            (TxState::Sending { session, st_min_deadline }, Progress::InFlight)
        },
    }
}

} // verus!
