//! Sending a payload with awaited operations.
//!
//! [`AsyncSend`] is the state of one transfer. It decides what to do next from clock readings;
//! the caller awaits the operation and hands its outcome back.

use crate::async_io::{budget, link_outcome, remaining, sleep_budget, TimedOut};
use crate::config::IsoTpConfig;
use crate::errors::{IsoTpError, TimeoutKind};
use crate::id;
use crate::id::{id_matches, Frame};
use crate::pdu;
use crate::pdu::{carries_address, decode_with_offset, FlowStatus, Pdu};
use crate::time::Duration;
use crate::tx;
use crate::tx::{on_flow_control, plan_chunk, plan_opening, FcReaction, TxNext, TxPlan, TxSession};
use vstd::prelude::*;

verus! {

/// Clock readings that a transfer goes by.
#[derive(Debug, Clone, Copy)]
pub struct SendTimes {
    /// Time since the transfer started.
    pub elapsed: Duration,
    /// Time since the sender started to wait for flow control, or was last told to be patient.
    pub fc_elapsed: Duration,
    /// Time since the last Consecutive Frame went out, once there was one.
    pub cf_elapsed: Option<Duration>,
}

/// State of a transfer.
#[derive(Debug, Clone, Copy, PartialEq, Eq, Structural)]
pub enum AsyncSend {
    /// Nothing is out yet.
    Opening,
    /// The receiver has to clear the next block.
    Waiting(TxSession),
    /// The next Consecutive Frame is due once the separation time is over.
    Ready(TxSession),
    /// The next Consecutive Frame is due now.
    Rested(TxSession),
    /// The payload is out.
    Done,
}

/// What a transfer asks of the caller.
pub enum AsyncAction {
    /// Transmit the frame of the plan within this time; then call `on_sent`.
    Transmit(TxPlan, Duration),
    /// Receive a frame within this time; then call `on_received` with this timeout to report.
    Receive(Duration, TimeoutKind),
    /// Sleep for this time; then call `on_paused`.
    Pause(Duration),
    /// Nothing is left to do.
    Finish,
}

/// What a transfer is to do next.
pub enum AsyncChoice {
    /// Transmit a frame within so many nanoseconds.
    Transmit(id::FrameView, TxNext, nat),
    /// Receive a frame within so many nanoseconds.
    Receive(nat, TimeoutKind),
    /// Sleep for so many nanoseconds.
    Pause(nat),
    /// Nothing is left to do.
    Finish,
    /// Fail.
    Fail(IsoTpError<()>),
}

impl AsyncChoice {
    /// Whether an action is what was chosen.
    pub open spec fn taken(self, r: Result<AsyncAction, IsoTpError<()>>) -> bool {
        match r {
            Ok(AsyncAction::Transmit(plan, within)) => self == AsyncChoice::Transmit(
                plan.frame_spec(),
                plan.next_spec(),
                within@,
            ),
            Ok(AsyncAction::Receive(within, kind)) => self == AsyncChoice::Receive(within@, kind),
            Ok(AsyncAction::Pause(d)) => self == AsyncChoice::Pause(d@),
            Ok(AsyncAction::Finish) => self is Finish,
            Err(e) => self == AsyncChoice::Fail(e),
        }
    }

    /// Transmit the frame that carries a PDU in what is left of the time, where one can and some
    /// time is left.
    pub open spec fn transmit(
        cfg: IsoTpConfig,
        pdu: pdu::PduView,
        next: TxNext,
        timeout: Duration,
        elapsed: Duration,
    ) -> AsyncChoice {
        match pdu::frame_for(cfg, pdu) {
            None => AsyncChoice::Fail(IsoTpError::InvalidFrame),
            Some(frame) => if elapsed@ > timeout@ {
                AsyncChoice::Fail(IsoTpError::Timeout(TimeoutKind::NAs))
            } else {
                AsyncChoice::Transmit(frame, next, (timeout@ - elapsed@) as nat)
            },
        }
    }
}

/// How long a sender waits for flow control, and which timeout it then reports: what is left of
/// the flow-control timeout or of the whole transfer, whichever is shorter.
pub open spec fn fc_wait(n_bs: Duration, timeout: Duration, times: SendTimes) -> AsyncChoice {
    let fc_left = n_bs@ - times.fc_elapsed@;
    let left = timeout@ - times.elapsed@;
    if fc_left <= 0 {
        AsyncChoice::Fail(IsoTpError::Timeout(TimeoutKind::NBs))
    } else if left < 0 {
        AsyncChoice::Fail(IsoTpError::Timeout(TimeoutKind::NAs))
    } else if left <= fc_left {
        AsyncChoice::Receive(left as nat, TimeoutKind::NAs)
    } else {
        AsyncChoice::Receive(fc_left as nat, TimeoutKind::NBs)
    }
}

/// How long to wait for flow control, and which timeout to report then.
pub fn wait_budget(n_bs: Duration, timeout: Duration, times: &SendTimes) -> (r: Result<
    (Duration, TimeoutKind),
    IsoTpError<()>,
>)
    ensures
        match r {
            Ok((d, kind)) => fc_wait(n_bs, timeout, *times) == AsyncChoice::Receive(d@, kind),
            Err(e) => fc_wait(n_bs, timeout, *times) == AsyncChoice::Fail(e),
        },
{
    let fc_left = match remaining(n_bs, times.fc_elapsed) {
        Some(left) => left,
        None => {
            return Err(IsoTpError::Timeout(TimeoutKind::NBs));
        },
    };
    if fc_left.is_zero() {
        return Err(IsoTpError::Timeout(TimeoutKind::NBs));
    }
    let left = match budget(timeout, times.elapsed, TimeoutKind::NAs) {
        Ok(left) => left,
        Err(e) => {
            return Err(e);
        },
    };
    if fc_left.shorter_than(left) {
        Ok((fc_left, TimeoutKind::NBs))
    } else {
        Ok((left, TimeoutKind::NAs))
    }
}

/// What comes of a Flow Control frame: the state of the transfer, and whether the wait for flow
/// control starts anew.
pub open spec fn fc_outcome<E>(
    cfg: IsoTpConfig,
    s: TxSession,
    status: FlowStatus,
    block_size: u8,
    st_min: u8,
) -> Result<(AsyncSend, bool), IsoTpError<E>> {
    match tx::fc_reaction(cfg, s, status, block_size, st_min) {
        FcReaction::Proceed(t) => Ok((AsyncSend::Ready(t), false)),
        FcReaction::KeepWaiting(t) => Ok((AsyncSend::Waiting(t), true)),
        FcReaction::GiveUp(_) => Err(IsoTpError::Timeout(TimeoutKind::NBs)),
        FcReaction::Abort => Err(IsoTpError::Overflow),
    }
}

/// Act on a Flow Control frame.
pub fn apply_fc<E>(
    cfg: &IsoTpConfig,
    session: TxSession,
    status: FlowStatus,
    block_size: u8,
    st_min: u8,
) -> (r: Result<(AsyncSend, bool), IsoTpError<E>>)
    ensures
        r == fc_outcome::<E>(*cfg, session, status, block_size, st_min),
{
    match on_flow_control(cfg, session, status, block_size, st_min) {
        FcReaction::Proceed(t) => Ok((AsyncSend::Ready(t), false)),
        FcReaction::KeepWaiting(t) => Ok((AsyncSend::Waiting(t), true)),
        FcReaction::GiveUp(_) => Err(IsoTpError::Timeout(TimeoutKind::NBs)),
        FcReaction::Abort => Err(IsoTpError::Overflow),
    }
}

/// What comes of a frame received while waiting for flow control.
pub open spec fn fc_frame_outcome<E>(cfg: IsoTpConfig, s: TxSession, frame: id::FrameView) -> Result<
    (AsyncSend, bool),
    IsoTpError<E>,
> {
    if !pdu::addressed(cfg, frame) {
        Ok((AsyncSend::Waiting(s), false))
    } else {
        match pdu::pdu_in(cfg, frame.data) {
            None => Err(IsoTpError::InvalidFrame),
            Some(pdu::PduView::FlowControl { status, block_size, st_min }) => fc_outcome::<E>(
                cfg,
                s,
                status,
                block_size,
                st_min,
            ),
            Some(_) => Ok((AsyncSend::Waiting(s), false)),
        }
    }
}

impl AsyncSend {
    /// The session under way is well formed, belongs to a payload of this length, and has bytes
    /// left.
    pub open spec fn wf(self, payload_len: nat) -> bool {
        match self {
            AsyncSend::Opening => true,
            AsyncSend::Waiting(s) => s.wf() && s.payload_len == payload_len && s.offset < payload_len,
            AsyncSend::Ready(s) => s.wf() && s.payload_len == payload_len && s.offset < payload_len,
            AsyncSend::Rested(s) => s.wf() && s.payload_len == payload_len && s.offset
                < payload_len,
            AsyncSend::Done => true,
        }
    }

    /// What the transfer is to do next.
    pub open spec fn choice(
        self,
        cfg: IsoTpConfig,
        payload: Seq<u8>,
        timeout: Duration,
        times: SendTimes,
    ) -> AsyncChoice {
        match self {
            AsyncSend::Opening => if payload.len() > cfg.max_payload_len {
                AsyncChoice::Fail(IsoTpError::Overflow)
            } else if times.elapsed@ >= timeout@ {
                AsyncChoice::Fail(IsoTpError::Timeout(TimeoutKind::NAs))
            } else {
                AsyncChoice::transmit(
                    cfg,
                    tx::opening_pdu(cfg, payload),
                    tx::opening_next(cfg, payload),
                    timeout,
                    times.elapsed,
                )
            },
            AsyncSend::Waiting(_) => fc_wait(cfg.n_bs, timeout, times),
            AsyncSend::Ready(s) => {
                match times.cf_elapsed {
                    Some(since) if since@ < s.st_min@ => {
                        let gap = s.st_min@ - since@;
                        let left = timeout@ - times.elapsed@;
                        if left < 0 {
                            AsyncChoice::Fail(IsoTpError::Timeout(TimeoutKind::NAs))
                        } else if gap <= left {
                            AsyncChoice::Pause(gap as nat)
                        } else {
                            AsyncChoice::Pause(left as nat)
                        }
                    },
                    _ => AsyncChoice::transmit(
                        cfg,
                        tx::chunk_pdu(cfg, payload, s),
                        tx::chunk_next(cfg, s),
                        timeout,
                        times.elapsed,
                    ),
                }
            },
            AsyncSend::Rested(s) => AsyncChoice::transmit(
                cfg,
                tx::chunk_pdu(cfg, payload, s),
                tx::chunk_next(cfg, s),
                timeout,
                times.elapsed,
            ),
            AsyncSend::Done => AsyncChoice::Finish,
        }
    }

    fn send_chunk(
        cfg: &IsoTpConfig,
        payload: &[u8],
        session: TxSession,
        timeout: Duration,
        elapsed: Duration,
    ) -> (r: Result<AsyncAction, IsoTpError<()>>)
        requires
            session.wf(),
            session.payload_len == payload@.len(),
        ensures
            AsyncChoice::transmit(
                *cfg,
                tx::chunk_pdu(*cfg, payload@, session),
                tx::chunk_next(*cfg, session),
                timeout,
                elapsed,
            ).taken(r),
    {
        let plan = match plan_chunk(cfg, payload, session) {
            Ok(plan) => plan,
            Err(e) => {
                return Err(e);
            },
        };
        match budget(timeout, elapsed, TimeoutKind::NAs) {
            Ok(left) => Ok(AsyncAction::Transmit(plan, left)),
            Err(e) => Err(e),
        }
    }

    /// Decide what to do next.
    pub fn decide(
        &self,
        cfg: &IsoTpConfig,
        payload: &[u8],
        timeout: Duration,
        times: &SendTimes,
    ) -> (r: Result<AsyncAction, IsoTpError<()>>)
        requires
            cfg.payload_limit_ok(),
            self.wf(payload@.len()),
        ensures
            self.choice(*cfg, payload@, timeout, *times).taken(r),
    {
        match *self {
            AsyncSend::Opening => {
                if payload.len() > cfg.max_payload_len {
                    return Err(IsoTpError::Overflow);
                }
                if !times.elapsed.shorter_than(timeout) {
                    return Err(IsoTpError::Timeout(TimeoutKind::NAs));
                }
                let plan = match plan_opening(cfg, payload) {
                    Ok(plan) => plan,
                    Err(e) => {
                        return Err(e);
                    },
                };
                match budget(timeout, times.elapsed, TimeoutKind::NAs) {
                    Ok(left) => Ok(AsyncAction::Transmit(plan, left)),
                    Err(e) => Err(e),
                }
            },
            AsyncSend::Waiting(_) => match wait_budget(cfg.n_bs, timeout, times) {
                Ok((within, kind)) => Ok(AsyncAction::Receive(within, kind)),
                Err(e) => Err(e),
            },
            AsyncSend::Ready(session) => {
                if let Some(since) = times.cf_elapsed {
                    if let Some(gap) = session.st_min.checked_sub(since) {
                        if !gap.is_zero() {
                            return match sleep_budget(
                                timeout,
                                times.elapsed,
                                TimeoutKind::NAs,
                                gap,
                            ) {
                                Ok(d) => Ok(AsyncAction::Pause(d)),
                                Err(e) => Err(e),
                            };
                        }
                    }
                }
                Self::send_chunk(cfg, payload, session, timeout, times.elapsed)
            },
            AsyncSend::Rested(session) => Self::send_chunk(
                cfg,
                payload,
                session,
                timeout,
                times.elapsed,
            ),
            AsyncSend::Done => Ok(AsyncAction::Finish),
        }
    }

    /// The state once a frame is out.
    pub open spec fn after(next: TxNext) -> AsyncSend {
        match next {
            TxNext::Done => AsyncSend::Done,
            TxNext::AwaitFlowControl(s) => AsyncSend::Waiting(s),
            TxNext::Continue { session, .. } => AsyncSend::Ready(session),
        }
    }

    /// Take in how the transmission of a planned frame went.
    pub fn on_sent<E>(plan: &TxPlan, outcome: Result<Result<(), E>, TimedOut>) -> (r: Result<
        AsyncSend,
        IsoTpError<E>,
    >)
        ensures
            r == (match outcome {
                Ok(Ok(_)) => Ok(AsyncSend::after(plan.next_spec())),
                Ok(Err(e)) => Err(IsoTpError::LinkError(e)),
                Err(_) => Err(IsoTpError::Timeout(TimeoutKind::NAs)),
            }),
    {
        match link_outcome(outcome, TimeoutKind::NAs) {
            Ok(()) => Ok(
                match plan.next() {
                    TxNext::Done => AsyncSend::Done,
                    TxNext::AwaitFlowControl(s) => AsyncSend::Waiting(s),
                    TxNext::Continue { session, .. } => AsyncSend::Ready(session),
                },
            ),
            Err(e) => Err(e),
        }
    }

    /// Which clock readings start anew once a frame went out that took the transfer from this state
    /// to `next`: the one of the last Consecutive Frame, and the one of the wait for flow control.
    pub fn restarts(&self, next: &AsyncSend) -> (r: (bool, bool))
        ensures
            r.0 == (self is Ready || self is Rested),
            r.1 == (next is Waiting),
    {
        (
            matches!(self, AsyncSend::Ready(_) | AsyncSend::Rested(_)),
            matches!(next, AsyncSend::Waiting(_)),
        )
    }

    /// Take in that the separation time is over, or that the runtime gave up on it.
    pub fn on_paused<E>(self, outcome: Result<(), TimedOut>) -> (r: Result<
        AsyncSend,
        IsoTpError<E>,
    >)
        ensures
            r == (match outcome {
                Ok(_) => Ok(
                    match self {
                        AsyncSend::Ready(s) => AsyncSend::Rested(s),
                        _ => self,
                    },
                ),
                Err(_) => Err(IsoTpError::<E>::Timeout(TimeoutKind::NAs)),
            }),
    {
        match outcome {
            Ok(()) => Ok(
                match self {
                    AsyncSend::Ready(s) => AsyncSend::Rested(s),
                    _ => self,
                },
            ),
            Err(_) => Err(IsoTpError::Timeout(TimeoutKind::NAs)),
        }
    }

    /// Take in what was received while waiting for flow control. The flag says that the wait for
    /// flow control starts anew.
    pub fn on_received<E>(
        self,
        cfg: &IsoTpConfig,
        outcome: Result<Result<Frame, E>, TimedOut>,
        kind: TimeoutKind,
    ) -> (r: Result<(AsyncSend, bool), IsoTpError<E>>)
        ensures
            r == (match outcome {
                Ok(Ok(frame)) => match self {
                    AsyncSend::Waiting(s) => fc_frame_outcome::<E>(*cfg, s, frame@),
                    _ => Ok((self, false)),
                },
                Ok(Err(e)) => Err(IsoTpError::LinkError(e)),
                Err(_) => Err(IsoTpError::Timeout(kind)),
            }),
    {
        let frame = match link_outcome(outcome, kind) {
            Ok(frame) => frame,
            Err(e) => {
                return Err(e);
            },
        };
        let session = match self {
            AsyncSend::Waiting(session) => session,
            _ => {
                return Ok((self, false));
            },
        };
        if !id_matches(frame.id, &cfg.rx_id) || !carries_address(cfg, frame.data.as_slice()) {
            return Ok((self, false));
        }
        match decode_with_offset(frame.data.as_slice(), cfg.rx_pci_offset()) {
            Ok(Pdu::FlowControl { status, block_size, st_min }) => apply_fc(
                cfg,
                session,
                status,
                block_size,
                st_min,
            ),
            Ok(_) => Ok((self, false)),
            Err(_) => Err(IsoTpError::InvalidFrame),
        }
    }
}

/// Each state that a transfer goes through is well formed: a frame that goes out leaves a session
/// with bytes left or ends the transfer.
pub proof fn sent_frames_keep_the_session_well_formed(
    cfg: IsoTpConfig,
    payload: Seq<u8>,
    timeout: Duration,
    times: SendTimes,
    state: AsyncSend,
)
    requires
        cfg.frame_len_ok(),
        cfg.payload_limit_ok(),
        state.wf(payload.len()),
    ensures
        state.choice(cfg, payload, timeout, times) matches AsyncChoice::Transmit(_, next, _)
            ==> AsyncSend::after(next).wf(payload.len()),
{
}

/// A Flow Control frame leaves the session well formed and its position unchanged.
pub proof fn flow_control_keeps_the_session_well_formed(
    cfg: IsoTpConfig,
    payload_len: nat,
    s: TxSession,
    frame: id::FrameView,
)
    requires
        AsyncSend::Waiting(s).wf(payload_len),
    ensures
        fc_frame_outcome::<()>(cfg, s, frame) matches Ok((state, _)) ==> state.wf(payload_len),
{
}

} // verus!
