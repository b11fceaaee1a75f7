//! Polling ISO-TP node.
//!
//! The node decides; the caller moves frames. Each step takes what the CAN interface had to offer
//! and says what to transmit, so the same node serves blocking loops and superloops.

use crate::config::{IsoTpConfig, RxFlowControl};
use crate::errors::{IsoTpError, TimeoutKind};
use crate::id;
use crate::id::{id_matches, Frame};
use crate::pdu;
use crate::pdu::{
    carries_address, decode_with_offset, duration_to_st_min, encode_for, FlowStatus, Pdu,
};
use crate::rx;
use crate::rx::{RxMachine, RxOutcome, RxStorage};
use crate::time::Duration;
use crate::timer::{Clock, StdClock};
use crate::tx;
use crate::tx::{
    arm, on_flow_control, plan_chunk, plan_opening, wait_for_fc, FcReaction, Progress, TxPlan,
    TxSession, TxState,
};
use vstd::prelude::*;
use vstd::std_specs::cmp::{PartialOrdIs, PartialOrdSpec};

verus! {

/// What a transmit step asks of the caller.
pub enum SendStep {
    /// Nothing to move; this is the progress made.
    Report(Progress),
    /// Transmit the frame, then hand the result to `sent`.
    Transmit(TxPlan),
    /// Receive a frame and hand it to `poll_send_frame`.
    AwaitFrame,
}

/// What a receive step asks of the caller.
pub enum RecvStep {
    /// The frame was not for this node or carried nothing to act on; receive another one.
    Ignored,
    /// Nothing to move; this is the progress made.
    Report(Progress),
    /// Transmit this Flow Control frame, then report the result with `replied`.
    Reply(Frame),
    /// The payload does not fit: transmit this Flow Control frame if there is one, and fail with
    /// [`IsoTpError::RxOverflow`] whether or not that worked.
    Refuse(Option<Frame>),
}

/// The Flow Control frame of a node with this configuration.
pub open spec fn fc_frame(
    cfg: IsoTpConfig,
    status: FlowStatus,
    block_size: u8,
    st_min: u8,
) -> Option<id::FrameView> {
    pdu::frame_for(cfg, pdu::PduView::FlowControl { status, block_size, st_min })
}

/// Build the Flow Control frame of a node with this configuration.
pub fn flow_control_frame(cfg: &IsoTpConfig, status: FlowStatus, block_size: u8, st_min: u8) -> (r:
    Result<Frame, IsoTpError<()>>)
    ensures
        match r {
            Ok(frame) => fc_frame(*cfg, status, block_size, st_min) == Some(frame@),
            Err(e) => e is InvalidFrame && fc_frame(*cfg, status, block_size, st_min) is None,
        },
{
    encode_for(cfg, &Pdu::FlowControl { status, block_size, st_min })
}

/// Build the Flow Control frame that refuses a payload.
pub fn overflow_frame(cfg: &IsoTpConfig, st_min: Duration) -> (r: Option<Frame>)
    ensures
        match r {
            Some(frame) => fc_frame(*cfg, FlowStatus::Overflow, 0, pdu::st_min_byte(st_min@))
                == Some(frame@),
            None => fc_frame(*cfg, FlowStatus::Overflow, 0, pdu::st_min_byte(st_min@)) is None,
        },
{
    match flow_control_frame(cfg, FlowStatus::Overflow, 0, duration_to_st_min(st_min)) {
        Ok(frame) => Some(frame),
        Err(_) => None,
    }
}

/// A point in time by which a blocking operation has to be over.
pub struct Deadline<I> {
    at: I,
    kind: TimeoutKind,
}

impl<I: Copy + PartialOrd> Deadline<I> {
    /// The point in time.
    pub closed spec fn at_spec(self) -> I {
        self.at
    }

    /// The timeout to report once it has passed.
    pub closed spec fn kind_spec(self) -> TimeoutKind {
        self.kind
    }

    /// The deadline `timeout` from now on.
    pub fn start<C: Clock<Instant = I>>(clock: &C, timeout: Duration, kind: TimeoutKind) -> (r: Self)
        ensures
            r.kind_spec() == kind,
            exists|start: I|
                #[trigger] call_ensures(C::now, (clock,), start) && call_ensures(
                    C::add,
                    (clock, start, timeout),
                    r.at_spec(),
                ),
    {
        let start = clock.now();
        let at = clock.add(start, timeout);
        assert(call_ensures(C::now, (clock,), start));
        assert(call_ensures(C::add, (clock, start, timeout), at));
        Deadline { at, kind }
    }

    /// Fail once the deadline is reached.
    pub fn check(&self, now: I) -> (r: Result<(), IsoTpError<()>>)
        ensures
            I::obeys_partial_cmp_spec() ==> (r is Err <==> now.is_ge(&self.at_spec())),
            r matches Err(e) ==> e == IsoTpError::<()>::Timeout(self.kind_spec()),
    {
        if now >= self.at {
            Err(IsoTpError::Timeout(self.kind))
        } else {
            Ok(())
        }
    }
}

/// ISO-TP endpoint: configuration, clock, and the transmit and receive state machines.
pub struct IsoTpNode<'a, C: Clock> {
    cfg: IsoTpConfig,
    rx_flow_control: RxFlowControl,
    clock: C,
    tx_state: TxState<C::Instant>,
    rx_machine: RxMachine<'a>,
}

/// Reaction of a receiving node to a frame: its new receive state, and what to do.
pub enum RecvDecision {
    /// Receive another frame.
    Ignored,
    /// Report progress.
    Report(Progress),
    /// Transmit a Flow Control frame.
    Reply(id::FrameView),
    /// Transmit a Flow Control frame if there is one, and fail.
    Refuse(Option<id::FrameView>),
    /// Fail.
    Fail(IsoTpError<()>),
}

impl RecvDecision {
    /// Whether a step did what was decided.
    pub open spec fn taken(self, r: Result<RecvStep, IsoTpError<()>>) -> bool {
        match r {
            Ok(RecvStep::Ignored) => self is Ignored,
            Ok(RecvStep::Report(p)) => self == RecvDecision::Report(p),
            Ok(RecvStep::Reply(frame)) => self == RecvDecision::Reply(frame@),
            Ok(RecvStep::Refuse(Some(frame))) => self == RecvDecision::Refuse(Some(frame@)),
            Ok(RecvStep::Refuse(None)) => self == RecvDecision::Refuse(None),
            Err(e) => self == RecvDecision::Fail(e),
        }
    }
}

/// Reaction of a receiver to a frame that carries its address.
pub open spec fn recv_decision(
    cfg: IsoTpConfig,
    rx_fc: RxFlowControl,
    m: rx::RxModel,
    frame: id::FrameView,
) -> (rx::RxModel, RecvDecision) {
    match pdu::pdu_in(cfg, frame.data) {
        None => (m, RecvDecision::Fail(IsoTpError::InvalidFrame)),
        Some(pdu::PduView::FlowControl { .. }) => (m, RecvDecision::Ignored),
        Some(pdu) => {
            let (after, outcome) = m.on_pdu(cfg.max_payload_len as nat, rx_fc, pdu);
            (
                after,
                match outcome {
                    Ok(RxOutcome::Nothing) => RecvDecision::Report(Progress::InFlight),
                    Ok(RxOutcome::SendFlowControl { status, block_size, st_min }) => match fc_frame(
                        cfg,
                        status,
                        block_size,
                        st_min,
                    ) {
                        Some(fc) => RecvDecision::Reply(fc),
                        None => RecvDecision::Fail(IsoTpError::InvalidFrame),
                    },
                    Ok(RxOutcome::Completed(_)) => RecvDecision::Report(Progress::Completed),
                    Err(IsoTpError::Overflow) => RecvDecision::Refuse(
                        fc_frame(cfg, FlowStatus::Overflow, 0, pdu::st_min_byte(cfg.st_min@)),
                    ),
                    Err(IsoTpError::UnexpectedPdu) => RecvDecision::Ignored,
                    Err(e) => RecvDecision::Fail(e),
                },
            )
        },
    }
}

/// Feed a frame that carries the node's address to a receive machine.
pub fn receive_frame(
    cfg: &IsoTpConfig,
    rx_fc: &RxFlowControl,
    machine: &mut RxMachine<'_>,
    data: &[u8],
) -> (r: Result<RecvStep, IsoTpError<()>>)
    requires
        old(machine)@.wf(),
    ensures
        final(machine)@.wf(),
        forall|frame: id::FrameView|
            frame.data == data@ ==> (#[trigger] recv_decision(*cfg, *rx_fc, old(machine)@, frame)).0
                == final(machine)@ && recv_decision(*cfg, *rx_fc, old(machine)@, frame).1.taken(r),
        old(machine).held() is Owned ==> final(machine).held() is Owned,
        old(machine).held() matches RxStorage::Borrowed(a) ==> (
        final(machine).held() matches RxStorage::Borrowed(b) && final(a)@ == final(b)@),
{
    let pdu = match decode_with_offset(data, cfg.rx_pci_offset()) {
        Ok(pdu) => pdu,
        Err(_) => {
            return Err(IsoTpError::InvalidFrame);
        },
    };
    if let Pdu::FlowControl { .. } = pdu {
        return Ok(RecvStep::Ignored);
    }
    match machine.on_pdu(cfg, rx_fc, pdu) {
        Ok(RxOutcome::Nothing) => Ok(RecvStep::Report(Progress::InFlight)),
        Ok(RxOutcome::SendFlowControl { status, block_size, st_min }) => {
            match flow_control_frame(cfg, status, block_size, st_min) {
                Ok(frame) => Ok(RecvStep::Reply(frame)),
                Err(_) => Err(IsoTpError::InvalidFrame),
            }
        },
        Ok(RxOutcome::Completed(_)) => Ok(RecvStep::Report(Progress::Completed)),
        Err(IsoTpError::Overflow) => Ok(RecvStep::Refuse(overflow_frame(cfg, cfg.st_min))),
        Err(IsoTpError::UnexpectedPdu) => Ok(RecvStep::Ignored),
        Err(e) => Err(e),
    }
}

/// What a receive step comes to once its frame, if any, was handed to the CAN interface.
pub fn replied<E>(step: &RecvStep, link: Result<(), E>) -> (r: Result<Progress, IsoTpError<E>>)
    ensures
        r == (match *step {
            RecvStep::Ignored => Ok(Progress::WouldBlock),
            RecvStep::Report(p) => Ok(p),
            RecvStep::Reply(_) => match link {
                Ok(_) => Ok(Progress::InFlight),
                Err(e) => Err(IsoTpError::LinkError(e)),
            },
            RecvStep::Refuse(_) => Err(IsoTpError::RxOverflow),
        }),
{
    match step {
        RecvStep::Ignored => Ok(Progress::WouldBlock),
        RecvStep::Report(p) => Ok(*p),
        RecvStep::Reply(_) => match link {
            Ok(()) => Ok(Progress::InFlight),
            Err(e) => Err(IsoTpError::LinkError(e)),
        },
        RecvStep::Refuse(_) => Err(IsoTpError::RxOverflow),
    }
}

/// What a transmit step comes to: the transmit state that holds from here on, or, for a frame to
/// transmit, what follows once it is out.
pub enum SendDecision {
    /// Nothing to move.
    Report(Progress),
    /// Transmit a frame; nothing is under way until it is out.
    Transmit(id::FrameView, tx::TxNext),
    /// Nothing to transmit; the state is kept and a frame is awaited.
    AwaitFrame,
    /// Fail.
    Fail(IsoTpError<()>),
}

impl SendDecision {
    /// Whether a step did what was decided.
    pub open spec fn taken(self, r: Result<SendStep, IsoTpError<()>>) -> bool {
        match r {
            Ok(SendStep::Report(p)) => self == SendDecision::Report(p),
            Ok(SendStep::Transmit(plan)) => self == SendDecision::Transmit(
                plan.frame_spec(),
                plan.next_spec(),
            ),
            Ok(SendStep::AwaitFrame) => self is AwaitFrame,
            Err(e) => self == SendDecision::Fail(e),
        }
    }

    /// The frame that carries a PDU, or the failure where none can.
    pub open spec fn transmit(cfg: IsoTpConfig, pdu: pdu::PduView, next: tx::TxNext) -> SendDecision {
        match pdu::frame_for(cfg, pdu) {
            Some(frame) => SendDecision::Transmit(frame, next),
            None => SendDecision::Fail(IsoTpError::InvalidFrame),
        }
    }
}

/// Decision of a sender that may transmit its next Consecutive Frame, unless it has to pace.
pub open spec fn chunk_decision(
    cfg: IsoTpConfig,
    payload: Seq<u8>,
    s: TxSession,
    pacing: bool,
) -> SendDecision {
    if payload.len() != s.payload_len {
        SendDecision::Fail(IsoTpError::NotIdle)
    } else if pacing {
        SendDecision::Report(Progress::WouldBlock)
    } else if s.offset >= s.payload_len {
        SendDecision::Report(Progress::Completed)
    } else {
        SendDecision::transmit(cfg, tx::chunk_pdu(cfg, payload, s), tx::chunk_next(cfg, s))
    }
}

/// Decision of a sender that waits for flow control, by whether its deadline is reached.
pub open spec fn fc_wait_decision(
    cfg: IsoTpConfig,
    payload: Seq<u8>,
    s: TxSession,
    expired: bool,
) -> SendDecision {
    if payload.len() != s.payload_len {
        SendDecision::Fail(IsoTpError::NotIdle)
    } else if s.wait_count > cfg.wft_max || expired {
        SendDecision::Fail(IsoTpError::Timeout(TimeoutKind::NBs))
    } else {
        SendDecision::AwaitFrame
    }
}

/// What becomes of the transmit state of a sender that waits for flow control.
pub enum FcAfter {
    /// It is kept.
    Kept,
    /// Nothing is under way.
    Cleared,
    /// The wait goes on with this session and a new deadline.
    Rearmed(TxSession),
}

impl FcAfter {
    /// Whether `after` is what becomes of `before` at `now`.
    pub open spec fn holds<C: Clock>(
        self,
        clock: C,
        now: C::Instant,
        n_bs: Duration,
        before: TxState<C::Instant>,
        after: TxState<C::Instant>,
    ) -> bool {
        match self {
            FcAfter::Kept => after == before,
            FcAfter::Cleared => after is Idle,
            FcAfter::Rearmed(s) => tx::waits_for_fc(clock, now, n_bs, s, after),
        }
    }
}

/// Decision of a waiting sender that got a Flow Control frame.
pub open spec fn fc_decision(
    cfg: IsoTpConfig,
    payload: Seq<u8>,
    s: TxSession,
    status: FlowStatus,
    block_size: u8,
    st_min: u8,
) -> (SendDecision, FcAfter) {
    match tx::fc_reaction(cfg, s, status, block_size, st_min) {
        FcReaction::Proceed(t) => (chunk_decision(cfg, payload, t, false), FcAfter::Cleared),
        FcReaction::KeepWaiting(t) => (
            SendDecision::Report(Progress::WaitingForFlowControl),
            FcAfter::Rearmed(t),
        ),
        FcReaction::GiveUp(t) => (
            SendDecision::Fail(IsoTpError::Timeout(TimeoutKind::NBs)),
            FcAfter::Rearmed(t),
        ),
        FcReaction::Abort => (SendDecision::Fail(IsoTpError::Overflow), FcAfter::Cleared),
    }
}

/// Decision of a waiting sender on what the CAN interface had to offer.
pub open spec fn fc_frame_decision(
    cfg: IsoTpConfig,
    payload: Seq<u8>,
    s: TxSession,
    frame: Option<id::FrameView>,
) -> (SendDecision, FcAfter) {
    match frame {
        None => (SendDecision::Report(Progress::WaitingForFlowControl), FcAfter::Kept),
        Some(frame) => if !pdu::addressed(cfg, frame) {
            (SendDecision::AwaitFrame, FcAfter::Kept)
        } else {
            match pdu::pdu_in(cfg, frame.data) {
                None => (SendDecision::Fail(IsoTpError::InvalidFrame), FcAfter::Cleared),
                Some(pdu::PduView::FlowControl { status, block_size, st_min }) => fc_decision(
                    cfg,
                    payload,
                    s,
                    status,
                    block_size,
                    st_min,
                ),
                Some(_) => (SendDecision::AwaitFrame, FcAfter::Kept),
            }
        },
    }
}

/// The view of a frame that may be missing.
pub open spec fn frame_view(frame: Option<&Frame>) -> Option<id::FrameView> {
    match frame {
        Some(f) => Some(f@),
        None => None,
    }
}

/// Act on a Flow Control frame: decide on the next step and on the transmit state.
pub fn apply_flow_control<C: Clock>(
    clock: &C,
    cfg: &IsoTpConfig,
    payload: &[u8],
    session: TxSession,
    now: C::Instant,
    status: FlowStatus,
    block_size: u8,
    st_min: u8,
) -> (r: (Result<SendStep, IsoTpError<()>>, TxState<C::Instant>))
    requires
        session.wf(),
    ensures
        fc_decision(*cfg, payload@, session, status, block_size, st_min).0.taken(r.0),
        forall|before: TxState<C::Instant>|
            #[trigger] fc_decision(*cfg, payload@, session, status, block_size, st_min).1.holds(
                *clock,
                now,
                cfg.n_bs,
                before,
                r.1,
            ),
        r.1.wf(),
{
    match on_flow_control(cfg, session, status, block_size, st_min) {
        FcReaction::Proceed(t) => (continue_send(cfg, payload, t, false), TxState::Idle),
        FcReaction::KeepWaiting(t) => (
            Ok(SendStep::Report(Progress::WaitingForFlowControl)),
            wait_for_fc(clock, now, cfg.n_bs, t),
        ),
        FcReaction::GiveUp(t) => (
            Err(IsoTpError::Timeout(TimeoutKind::NBs)),
            wait_for_fc(clock, now, cfg.n_bs, t),
        ),
        FcReaction::Abort => (Err(IsoTpError::Overflow), TxState::Idle),
    }
}

/// Decide on the next Consecutive Frame of a transfer.
pub fn continue_send(cfg: &IsoTpConfig, payload: &[u8], session: TxSession, pacing: bool) -> (r: Result<
    SendStep,
    IsoTpError<()>,
>)
    requires
        session.wf(),
    ensures
        chunk_decision(*cfg, payload@, session, pacing).taken(r),
        r !is Ok || r->Ok_0 !is AwaitFrame,
{
    if payload.len() != session.payload_len {
        return Err(IsoTpError::NotIdle);
    }
    if pacing {
        return Ok(SendStep::Report(Progress::WouldBlock));
    }
    if session.offset >= session.payload_len {
        return Ok(SendStep::Report(Progress::Completed));
    }
    match plan_chunk(cfg, payload, session) {
        Ok(plan) => Ok(SendStep::Transmit(plan)),
        Err(e) => Err(e),
    }
}

impl<'a, C: Clock> IsoTpNode<'a, C> {
    /// Configuration of the node.
    pub closed spec fn cfg_spec(&self) -> IsoTpConfig {
        self.cfg
    }

    /// Flow-control parameters that the node advertises.
    pub closed spec fn fc_spec(&self) -> RxFlowControl {
        self.rx_flow_control
    }

    /// Clock of the node.
    pub closed spec fn clock_spec(&self) -> C {
        self.clock
    }

    /// Transmit state.
    pub closed spec fn tx_spec(&self) -> TxState<C::Instant> {
        self.tx_state
    }

    /// Receive state.
    pub closed spec fn rx_spec(&self) -> rx::RxModel {
        self.rx_machine@
    }

    /// Storage in which the node reassembles.
    pub closed spec fn held_spec(&self) -> RxStorage<'a> {
        self.rx_machine.held()
    }

    /// What every node keeps: a valid configuration, a buffer that holds the largest payload, and
    /// well-formed transmit and receive states.
    pub open spec fn wf(&self) -> bool {
        &&& self.cfg_spec().valid()
        &&& self.rx_spec().consistent()
        &&& self.rx_spec().storage == self.held_spec()@
        &&& self.rx_spec().storage.len() >= self.cfg_spec().max_payload_len
        &&& self.tx_spec().wf()
    }

    /// Nothing but the transmit state differs.
    pub open spec fn same_but_tx(&self, other: &Self) -> bool {
        &&& self.cfg_spec() == other.cfg_spec()
        &&& self.fc_spec() == other.fc_spec()
        &&& self.clock_spec() == other.clock_spec()
        &&& self.rx_spec() == other.rx_spec()
        &&& self.held_spec() == other.held_spec()
    }

    /// Nothing but the receive state differs.
    pub open spec fn same_but_rx(&self, other: &Self) -> bool {
        &&& self.cfg_spec() == other.cfg_spec()
        &&& self.fc_spec() == other.fc_spec()
        &&& self.clock_spec() == other.clock_spec()
        &&& self.tx_spec() == other.tx_spec()
    }

    /// Start building an [`IsoTpNode`] (requires RX storage before `build()`).
    pub fn builder(cfg: IsoTpConfig, clock: C) -> (r: IsoTpNodeBuilder<C>)
        ensures
            r.cfg == cfg,
            r.clock == clock,
    {
        IsoTpNodeBuilder { cfg, clock }
    }

    /// Construct using a provided clock and caller-provided RX buffer.
    ///
    /// ISO-TP receive-side reassembly requires a buffer for storing the in-flight payload.
    pub fn with_clock(cfg: IsoTpConfig, clock: C, rx_buffer: &'a mut [u8]) -> (r: Result<
        Self,
        IsoTpError<()>,
    >)
        ensures
            match r {
                Ok(node) => cfg.valid() && old(rx_buffer)@.len() >= cfg.max_payload_len
                    && node.is_new(cfg, clock, old(rx_buffer)@) && (
                node.held_spec() matches RxStorage::Borrowed(held) && final(held)@
                    == final(rx_buffer)@),
                Err(e) => e is InvalidConfig && !(cfg.valid() && old(rx_buffer)@.len()
                    >= cfg.max_payload_len) && final(rx_buffer)@ == old(rx_buffer)@,
            },
    {
        Self::with_clock_and_storage(cfg, clock, RxStorage::Borrowed(rx_buffer))
    }

    /// Construct using a provided clock and explicit RX storage.
    pub fn with_clock_and_storage(cfg: IsoTpConfig, clock: C, rx_storage: RxStorage<'a>) -> (r: Result<
        Self,
        IsoTpError<()>,
    >)
        ensures
            match r {
                Ok(node) => cfg.valid() && rx_storage@.len() >= cfg.max_payload_len && node.is_new(
                    cfg,
                    clock,
                    rx_storage@,
                ) && node.held_spec() == rx_storage,
                Err(e) => e is InvalidConfig && !(cfg.valid() && rx_storage@.len()
                    >= cfg.max_payload_len) && (rx_storage matches RxStorage::Borrowed(held)
                    ==> final(held)@ == rx_storage@),
            },
    {
        Self::builder(cfg, clock).rx_storage(rx_storage).build()
    }

    /// A node as constructed: nothing under way, and the configured flow-control parameters.
    pub open spec fn is_new(&self, cfg: IsoTpConfig, clock: C, storage: Seq<u8>) -> bool {
        &&& self.wf()
        &&& self.cfg_spec() == cfg
        &&& self.clock_spec() == clock
        &&& self.fc_spec() == RxFlowControl::of(cfg)
        &&& self.tx_spec() is Idle
        &&& self.rx_spec() == rx::RxModel::idle(storage)
    }

    /// The node's clock.
    pub fn clock(&self) -> (r: &C)
        ensures
            *r == self.clock_spec(),
    {
        &self.clock
    }

    /// Get the current receive-side FlowControl parameters (BS/STmin).
    pub fn rx_flow_control(&self) -> (r: RxFlowControl)
        ensures
            r == self.fc_spec(),
    {
        self.rx_flow_control
    }

    /// Update receive-side FlowControl parameters (BS/STmin).
    ///
    /// This affects FlowControl frames emitted in response to segmented transfers.
    pub fn set_rx_flow_control(&mut self, fc: RxFlowControl)
        ensures
            final(self).fc_spec() == fc,
            final(self).cfg_spec() == old(self).cfg_spec(),
            final(self).clock_spec() == old(self).clock_spec(),
            final(self).tx_spec() == old(self).tx_spec(),
            final(self).rx_spec() == old(self).rx_spec(),
            final(self).held_spec() == old(self).held_spec(),
    {
        self.rx_flow_control = fc;
    }

    /// Whether a transmit step made at `now` is the decision for the node's transmit state.
    pub open spec fn send_decided(&self, payload: Seq<u8>, now: C::Instant, d: SendDecision) -> bool {
        if payload.len() > self.cfg_spec().max_payload_len {
            d == SendDecision::Fail(IsoTpError::Overflow)
        } else {
            match self.tx_spec() {
                TxState::Idle => d == SendDecision::transmit(
                    self.cfg_spec(),
                    tx::opening_pdu(self.cfg_spec(), payload),
                    tx::opening_next(self.cfg_spec(), payload),
                ),
                TxState::WaitingForFc { session, deadline } => {
                    exists|expired: bool|
                        (C::Instant::obeys_partial_cmp_spec() ==> expired == now.is_ge(&deadline))
                            && d == #[trigger] fc_wait_decision(
                            self.cfg_spec(),
                            payload,
                            session,
                            expired,
                        )
                },
                TxState::Sending { session, st_min_deadline } => {
                    exists|pacing: bool|
                        (match st_min_deadline {
                            Some(at) => C::Instant::obeys_partial_cmp_spec() ==> pacing
                                == now.is_lt(&at),
                            None => !pacing,
                        }) && d == #[trigger] chunk_decision(
                            self.cfg_spec(),
                            payload,
                            session,
                            pacing,
                        )
                },
            }
        }
    }

    /// Advance transmission once; caller supplies current time.
    ///
    /// A payload that is too long is refused and leaves the node as it was. Otherwise a transfer
    /// under way stays as it is while a frame is awaited or the sender is pacing; in all other
    /// cases nothing is under way after this call, and `sent` resumes the transfer.
    pub fn poll_send(&mut self, payload: &[u8], now: C::Instant) -> (r: Result<
        SendStep,
        IsoTpError<()>,
    >)
        requires
            old(self).wf(),
        ensures
            final(self).wf(),
            final(self).same_but_tx(old(self)),
            exists|d: SendDecision|
                #![trigger d.taken(r)]
                old(self).send_decided(payload@, now, d) && d.taken(r),
            final(self).tx_spec() == (if payload@.len() > old(self).cfg_spec().max_payload_len
                || r matches Ok(SendStep::AwaitFrame) || r matches Ok(
                SendStep::Report(Progress::WouldBlock),
            ) {
                old(self).tx_spec()
            } else {
                TxState::Idle
            }),
    {
        if payload.len() > self.cfg.max_payload_len {
            assert(SendDecision::Fail(IsoTpError::Overflow).taken(
                Err::<SendStep, IsoTpError<()>>(IsoTpError::Overflow),
            ));
            return Err(IsoTpError::Overflow);
        }
        let mut state = TxState::Idle;
        core::mem::swap(&mut state, &mut self.tx_state);
        match state {
            TxState::Idle => {
                let r = match plan_opening(&self.cfg, payload) {
                    Ok(plan) => Ok(SendStep::Transmit(plan)),
                    Err(e) => Err(e),
                };
                assert(SendDecision::transmit(
                    self.cfg,
                    tx::opening_pdu(self.cfg, payload@),
                    tx::opening_next(self.cfg, payload@),
                ).taken(r));
                r
            },
            TxState::WaitingForFc { session, deadline } => {
                let expired = now >= deadline;
                let ghost d = fc_wait_decision(self.cfg, payload@, session, expired);
                assert(old(self).send_decided(payload@, now, d));
                let r = if payload.len() != session.payload_len {
                    Err(IsoTpError::NotIdle)
                } else if session.wait_count > self.cfg.wft_max || expired {
                    Err(IsoTpError::Timeout(TimeoutKind::NBs))
                } else {
                    self.tx_state = TxState::WaitingForFc { session, deadline };
                    Ok(SendStep::AwaitFrame)
                };
                assert(d.taken(r));
                r
            },
            TxState::Sending { session, st_min_deadline } => {
                let pacing = match st_min_deadline {
                    Some(at) => now < at,
                    None => false,
                };
                let ghost d = chunk_decision(self.cfg, payload@, session, pacing);
                assert(old(self).send_decided(payload@, now, d));
                let r = continue_send(&self.cfg, payload, session, pacing);
                if let Ok(SendStep::Report(Progress::WouldBlock)) = r {
                    self.tx_state = TxState::Sending { session, st_min_deadline };
                }
                assert(d.taken(r));
                r
            },
        }
    }

    /// Hand a sender that waits for flow control what the CAN interface had to offer: a frame, or
    /// nothing for now.
    pub fn poll_send_frame(&mut self, payload: &[u8], frame: Option<&Frame>, now: C::Instant) -> (r:
        Result<SendStep, IsoTpError<()>>)
        requires
            old(self).wf(),
            old(self).tx_spec() is WaitingForFc,
        ensures
            final(self).wf(),
            final(self).same_but_tx(old(self)),
            ({
                let (d, after) = fc_frame_decision(
                    old(self).cfg_spec(),
                    payload@,
                    old(self).tx_spec()->WaitingForFc_session,
                    frame_view(frame),
                );
                d.taken(r) && after.holds(
                    old(self).clock_spec(),
                    now,
                    old(self).cfg_spec().n_bs,
                    old(self).tx_spec(),
                    final(self).tx_spec(),
                )
            }),
    {
        let frame = match frame {
            Some(frame) => frame,
            None => {
                return Ok(SendStep::Report(Progress::WaitingForFlowControl));
            },
        };
        if !id_matches(frame.id, &self.cfg.rx_id) || !carries_address(
            &self.cfg,
            frame.data.as_slice(),
        ) {
            return Ok(SendStep::AwaitFrame);
        }
        let pdu = match decode_with_offset(frame.data.as_slice(), self.cfg.rx_pci_offset()) {
            Ok(pdu) => pdu,
            Err(_) => {
                self.tx_state = TxState::Idle;
                return Err(IsoTpError::InvalidFrame);
            },
        };
        if let Pdu::FlowControl { status, block_size, st_min } = pdu {
            if let TxState::WaitingForFc { session, .. } = &self.tx_state {
                let (r, state) = apply_flow_control(
                    &self.clock,
                    &self.cfg,
                    payload,
                    *session,
                    now,
                    status,
                    block_size,
                    st_min,
                );
                self.tx_state = state;
                return r;
            }
        }
        Ok(SendStep::AwaitFrame)
    }

    /// Conclude a transmit step with what the CAN interface answered.
    ///
    /// A frame that went out brings the transfer to its next state; one that did not ends it.
    pub fn sent<E>(&mut self, plan: TxPlan, link: Result<(), E>, now: C::Instant) -> (r: Result<
        Progress,
        IsoTpError<E>,
    >)
        requires
            old(self).wf(),
        ensures
            final(self).wf(),
            final(self).same_but_tx(old(self)),
            match link {
                Ok(_) => r == Ok::<Progress, IsoTpError<E>>(plan.next_spec().progress())
                    && tx::armed(
                    old(self).clock_spec(),
                    now,
                    old(self).cfg_spec().n_bs,
                    plan.next_spec(),
                    final(self).tx_spec(),
                ),
                Err(e) => r == Err::<Progress, IsoTpError<E>>(IsoTpError::LinkError(e))
                    && final(self).tx_spec() is Idle,
            },
    {
        match link {
            Ok(()) => {
                let (state, progress) = arm(&self.clock, now, self.cfg.n_bs, plan.next());
                self.tx_state = state;
                Ok(progress)
            },
            Err(e) => {
                self.tx_state = TxState::Idle;
                Err(IsoTpError::LinkError(e))
            },
        }
    }

    /// Non-blocking receive step on what the CAN interface had to offer: a frame, or nothing for
    /// now.
    ///
    /// On [`Progress::Completed`] the payload is available from [`IsoTpNode::received`] until the
    /// next receive step.
    pub fn poll_recv(&mut self, _now: C::Instant, frame: Option<&Frame>) -> (r: Result<
        RecvStep,
        IsoTpError<()>,
    >)
        requires
            old(self).wf(),
        ensures
            final(self).wf(),
            final(self).same_but_rx(old(self)),
            old(self).held_spec() is Owned ==> final(self).held_spec() is Owned,
            old(self).held_spec() matches RxStorage::Borrowed(a) ==> (
            final(self).held_spec() matches RxStorage::Borrowed(b) && final(a)@ == final(b)@),
            match frame {
                None => r matches Ok(RecvStep::Report(p)) && p == Progress::WouldBlock
                    && final(self).rx_spec() == old(self).rx_spec(),
                Some(f) => if pdu::addressed(old(self).cfg_spec(), f@) {
                    let (after, d) = recv_decision(
                        old(self).cfg_spec(),
                        old(self).fc_spec(),
                        old(self).rx_spec(),
                        f@,
                    );
                    final(self).rx_spec() == after && d.taken(r)
                } else {
                    r matches Ok(RecvStep::Ignored) && final(self).rx_spec() == old(self).rx_spec()
                },
            },
    {
        let frame = match frame {
            Some(frame) => frame,
            None => {
                return Ok(RecvStep::Report(Progress::WouldBlock));
            },
        };
        if !id_matches(frame.id, &self.cfg.rx_id) || !carries_address(
            &self.cfg,
            frame.data.as_slice(),
        ) {
            return Ok(RecvStep::Ignored);
        }
        proof {
            receiving_keeps_consistency(self.cfg, self.rx_flow_control, self.rx_machine@, frame@);
        }
        let r = receive_frame(
            &self.cfg,
            &self.rx_flow_control,
            &mut self.rx_machine,
            frame.data.as_slice(),
        );
        proof {
            rx::view_shows_state_and_storage(self.rx_machine);
        }
        r
    }

    /// The payload of the last completed receive.
    pub fn received(&self) -> (r: &[u8])
        requires
            self.wf(),
        ensures
            r@ == self.rx_spec().received(),
    {
        self.rx_machine.take_completed()
    }
}

/// No frame breaks the invariant of a receiver or changes its capacity.
pub proof fn receiving_keeps_consistency(
    cfg: IsoTpConfig,
    rx_fc: RxFlowControl,
    m: rx::RxModel,
    frame: id::FrameView,
)
    requires
        m.consistent(),
    ensures
        recv_decision(cfg, rx_fc, m, frame).0.consistent(),
        recv_decision(cfg, rx_fc, m, frame).0.storage.len() == m.storage.len(),
{
    if let Some(pdu) = pdu::pdu_in(cfg, frame.data) {
        rx::pdus_keep_consistency(m, cfg.max_payload_len as nat, rx_fc, pdu);
    }
}

impl<'a> IsoTpNode<'a, StdClock> {
    /// Convenience constructor using `StdClock`.
    pub fn with_std_clock(cfg: IsoTpConfig, rx_buffer: &'a mut [u8]) -> (r: Result<
        Self,
        IsoTpError<()>,
    >)
        ensures
            match r {
                Ok(node) => cfg.valid() && old(rx_buffer)@.len() >= cfg.max_payload_len
                    && node.is_new(cfg, StdClock, old(rx_buffer)@) && (
                node.held_spec() matches RxStorage::Borrowed(held) && final(held)@
                    == final(rx_buffer)@),
                Err(e) => e is InvalidConfig && !(cfg.valid() && old(rx_buffer)@.len()
                    >= cfg.max_payload_len) && final(rx_buffer)@ == old(rx_buffer)@,
            },
    {
        IsoTpNode::with_clock(cfg, StdClock, rx_buffer)
    }
}

/// Builder for [`IsoTpNode`] that enforces providing RX storage before construction.
pub struct IsoTpNodeBuilder<C> {
    /// Configuration of the node to build.
    pub cfg: IsoTpConfig,
    /// Clock of the node to build.
    pub clock: C,
}

/// Builder state after RX storage has been provided.
pub struct IsoTpNodeBuilderWithRx<'a, C> {
    /// Configuration of the node to build.
    pub cfg: IsoTpConfig,
    /// Clock of the node to build.
    pub clock: C,
    /// Reassembly buffer of the node to build.
    pub rx_storage: RxStorage<'a>,
}

impl<C> IsoTpNodeBuilder<C> {
    /// Provide the RX buffer used for receive-side reassembly.
    pub fn rx_buffer<'a>(self, buffer: &'a mut [u8]) -> (r: IsoTpNodeBuilderWithRx<'a, C>)
        ensures
            r.cfg == self.cfg,
            r.clock == self.clock,
            r.rx_storage@ == old(buffer)@,
            r.rx_storage matches RxStorage::Borrowed(held) && final(held)@ == final(buffer)@,
    {
        self.rx_storage(RxStorage::Borrowed(buffer))
    }

    /// Provide explicit RX storage (borrowed or owned).
    pub fn rx_storage<'a>(self, rx_storage: RxStorage<'a>) -> (r: IsoTpNodeBuilderWithRx<'a, C>)
        ensures
            r.cfg == self.cfg,
            r.clock == self.clock,
            r.rx_storage == rx_storage,
    {
        IsoTpNodeBuilderWithRx { cfg: self.cfg, clock: self.clock, rx_storage }
    }
}

impl<'a, C: Clock> IsoTpNodeBuilderWithRx<'a, C> {
    /// Validate configuration and build an [`IsoTpNode`].
    pub fn build(self) -> (r: Result<IsoTpNode<'a, C>, IsoTpError<()>>)
        ensures
            match r {
                Ok(node) => self.cfg.valid() && self.rx_storage@.len() >= self.cfg.max_payload_len
                    && node.is_new(self.cfg, self.clock, self.rx_storage@) && node.held_spec()
                    == self.rx_storage,
                Err(e) => e is InvalidConfig && !(self.cfg.valid() && self.rx_storage@.len()
                    >= self.cfg.max_payload_len) && (
                self.rx_storage matches RxStorage::Borrowed(held) ==> final(held)@
                    == self.rx_storage@),
            },
    {
        if self.cfg.validate().is_err() {
            return Err(IsoTpError::InvalidConfig);
        }
        if self.rx_storage.capacity() < self.cfg.max_payload_len {
            return Err(IsoTpError::InvalidConfig);
        }
        let rx_flow_control = RxFlowControl::from_config(&self.cfg);
        Ok(
            IsoTpNode {
                cfg: self.cfg,
                rx_flow_control,
                clock: self.clock,
                tx_state: TxState::Idle,
                rx_machine: RxMachine::new(self.rx_storage),
            },
        )
    }
}

} // verus!
