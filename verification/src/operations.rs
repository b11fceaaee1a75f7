//! What the operations of nodes and demuxes do to their state and what they give back.

use crate::async_demux;
use crate::async_demux::{AppRecvIntoError, IngestStep, IsoTpAsyncDemux};
use crate::async_io;
use crate::async_io::TimedOut;
use crate::async_node::IsoTpAsyncNode;
use crate::async_send;
use crate::async_send::{AsyncAction, AsyncChoice, AsyncSend, SendTimes};
use crate::config::{IsoTpConfig, RxFlowControl};
use crate::demux;
use crate::demux::{IsoTpDemux, PendingFc};
use crate::demuxing;
use crate::errors::{IsoTpError, TimeoutKind};
use crate::id::{Frame, Id};
use crate::node;
use crate::node::{Deadline, IsoTpNode, RecvDecision, RecvStep, SendDecision, SendStep};
use crate::pdu;
use crate::rx;
use crate::rx::{RxMachine, RxStorage};
use crate::sending;
use crate::time::Duration;
use crate::timer::Clock;
use crate::tx;
use crate::tx::{FcReaction, Progress, TxNext, TxPlan, TxSession, TxState};
use crate::uds29;
use crate::uds29::{AcceptanceFilters, Uds29Kind};
use vstd::prelude::*;
use vstd::std_specs::cmp::{PartialOrdIs, PartialOrdSpec};

verus! {

/// A node that sends: a payload that is too long is refused; the first frame goes out at once; a
/// wait for flow control that lasted too long is a timeout and ends the transfer; and until the
/// separation time after the last frame is over, nothing goes out and nothing changes.
pub proof fn node_send_steps<C: Clock>(
    node: &mut IsoTpNode<'_, C>,
    payload: &[u8],
    now: C::Instant,
    r: Result<SendStep, IsoTpError<()>>,
)
    requires
        old(node).wf(),
        C::Instant::obeys_partial_cmp_spec(),
        call_ensures(IsoTpNode::<'_, C>::poll_send, (node, payload, now), r),
    ensures
        final(node).rx_spec() == old(node).rx_spec(),
        payload@.len() > old(node).cfg_spec().max_payload_len ==> (r matches Err(e)
            && e is Overflow && final(node).tx_spec() == old(node).tx_spec()),
        payload@.len() <= old(node).cfg_spec().max_payload_len ==> match old(node).tx_spec() {
            TxState::Idle => {
                &&& r matches Ok(SendStep::Transmit(plan))
                &&& Some(plan.frame_spec()) == pdu::frame_for(
                    old(node).cfg_spec(),
                    tx::opening_pdu(old(node).cfg_spec(), payload@),
                )
                &&& plan.next_spec() == tx::opening_next(old(node).cfg_spec(), payload@)
                &&& final(node).tx_spec() is Idle
            },
            TxState::WaitingForFc { session, deadline } => if payload@.len()
                != session.payload_len {
                r matches Err(e) && e is NotIdle
            } else if now.is_ge(&deadline) {
                r matches Err(IsoTpError::Timeout(kind)) && kind == TimeoutKind::NBs
                    && final(node).tx_spec() is Idle
            } else {
                session.wait_count <= old(node).cfg_spec().wft_max ==> (
                r matches Ok(SendStep::AwaitFrame) && final(node).tx_spec() == old(node).tx_spec())
            },
            TxState::Sending { session, st_min_deadline } => if payload@.len()
                != session.payload_len {
                r matches Err(e) && e is NotIdle
            } else if st_min_deadline matches Some(at) && now.is_lt(&at) {
                r matches Ok(SendStep::Report(p)) && p == Progress::WouldBlock
                    && final(node).tx_spec() == old(node).tx_spec()
            } else {
                session.offset < session.payload_len ==> {
                    &&& r matches Ok(SendStep::Transmit(plan))
                    &&& Some(plan.frame_spec()) == pdu::frame_for(
                        old(node).cfg_spec(),
                        tx::chunk_pdu(old(node).cfg_spec(), payload@, session),
                    )
                    &&& plan.next_spec() == tx::chunk_next(old(node).cfg_spec(), session)
                    &&& final(node).tx_spec() is Idle
                }
            },
        },
{
}

/// A frame of a node that went out leaves the transfer where its plan says: over, waiting for flow
/// control for `n_bs` from then on, or pausing for the separation time from then on. One that did
/// not go out ends the transfer with the error of the link.
pub proof fn node_frames_go_out<C: Clock, E>(
    node: &mut IsoTpNode<'_, C>,
    plan: TxPlan,
    link: Result<(), E>,
    now: C::Instant,
    r: Result<Progress, IsoTpError<E>>,
)
    requires
        call_ensures(IsoTpNode::<'_, C>::sent::<E>, (node, plan, link, now), r),
    ensures
        final(node).rx_spec() == old(node).rx_spec(),
        link matches Err(e) ==> r == Err::<Progress, IsoTpError<E>>(IsoTpError::LinkError(e))
            && final(node).tx_spec() is Idle,
        link is Ok ==> match plan.next_spec() {
            TxNext::Done => r == Ok::<Progress, IsoTpError<E>>(Progress::Completed)
                && final(node).tx_spec() is Idle,
            TxNext::AwaitFlowControl(s) => {
                &&& r == Ok::<Progress, IsoTpError<E>>(Progress::WaitingForFlowControl)
                &&& final(node).tx_spec() matches TxState::WaitingForFc { session, deadline }
                &&& session == s
                &&& call_ensures(
                    C::add,
                    (&old(node).clock_spec(), now, old(node).cfg_spec().n_bs),
                    deadline,
                )
            },
            TxNext::Continue { session: s, gap } => {
                &&& r == Ok::<Progress, IsoTpError<E>>(Progress::InFlight)
                &&& final(node).tx_spec() matches TxState::Sending { session, st_min_deadline }
                &&& session == s
                &&& gap is None ==> st_min_deadline is None
                &&& gap matches Some(g) ==> (st_min_deadline matches Some(at) && call_ensures(
                    C::add,
                    (&old(node).clock_spec(), now, g),
                    at,
                ))
            },
        },
{
}

/// A node that waits for flow control hands what it received to its transfer, and goes by what that
/// says.
pub proof fn node_flow_control_steps<C: Clock>(
    node: &mut IsoTpNode<'_, C>,
    payload: &[u8],
    frame: Option<&Frame>,
    now: C::Instant,
    r: Result<SendStep, IsoTpError<()>>,
)
    requires
        old(node).tx_spec() is WaitingForFc,
        call_ensures(IsoTpNode::<'_, C>::poll_send_frame, (node, payload, frame, now), r),
    ensures
        final(node).rx_spec() == old(node).rx_spec(),
        frame is None ==> (r matches Ok(SendStep::Report(p)) && p
            == Progress::WaitingForFlowControl && final(node).tx_spec() == old(node).tx_spec()),
        frame matches Some(f) ==> (!pdu::addressed(old(node).cfg_spec(), f@) ==> (
        r matches Ok(SendStep::AwaitFrame) && final(node).tx_spec() == old(node).tx_spec())),
        frame matches Some(f) ==> (pdu::addressed(old(node).cfg_spec(), f@) ==> ({
            let cfg = old(node).cfg_spec();
            let s = old(node).tx_spec()->WaitingForFc_session;
            let (d, after) = node::fc_frame_decision(cfg, payload@, s, Some(f@));
            d.taken(r) && after.holds(
                old(node).clock_spec(),
                now,
                cfg.n_bs,
                old(node).tx_spec(),
                final(node).tx_spec(),
            )
        })),
{
}

/// A node that receives: with nothing to take in it would block; frames for others are ignored and
/// change nothing; a frame for it goes to its reassembly.
pub proof fn node_receive_steps<C: Clock>(
    node: &mut IsoTpNode<'_, C>,
    now: C::Instant,
    frame: Option<&Frame>,
    r: Result<RecvStep, IsoTpError<()>>,
)
    requires
        call_ensures(IsoTpNode::<'_, C>::poll_recv, (node, now, frame), r),
    ensures
        final(node).tx_spec() == old(node).tx_spec(),
        frame is None ==> (r matches Ok(RecvStep::Report(p)) && p == Progress::WouldBlock
            && final(node).rx_spec() == old(node).rx_spec()),
        frame matches Some(f) ==> (!pdu::addressed(old(node).cfg_spec(), f@) ==> (
        r matches Ok(RecvStep::Ignored) && final(node).rx_spec() == old(node).rx_spec())),
        frame matches Some(f) ==> (pdu::addressed(old(node).cfg_spec(), f@) ==> ({
            let (after, d) = node::recv_decision(
                old(node).cfg_spec(),
                old(node).fc_spec(),
                old(node).rx_spec(),
                f@,
            );
            final(node).rx_spec() == after && d.taken(r)
        })),
{
}

/// What a receive step comes to: progress, or what became of its answer; a payload that was refused
/// is an overflow whether or not the refusal went out.
pub proof fn receive_steps_conclude<E>(
    step: &RecvStep,
    link: Result<(), E>,
    r: Result<Progress, IsoTpError<E>>,
)
    requires
        call_ensures(node::replied::<E>, (step, link), r),
    ensures
        *step matches RecvStep::Report(p) ==> r == Ok::<Progress, IsoTpError<E>>(p),
        *step is Ignored ==> r == Ok::<Progress, IsoTpError<E>>(Progress::WouldBlock),
        *step is Refuse ==> r == Err::<Progress, IsoTpError<E>>(IsoTpError::RxOverflow),
        *step is Reply ==> match link {
            Ok(_) => r == Ok::<Progress, IsoTpError<E>>(Progress::InFlight),
            Err(e) => r == Err::<Progress, IsoTpError<E>>(IsoTpError::LinkError(e)),
        },
{
}

/// The async node takes in frames like the polled one.
pub proof fn async_node_receive_steps<C: Clock>(
    node: &mut IsoTpAsyncNode<'_, C>,
    frame: &Frame,
    r: Result<RecvStep, IsoTpError<()>>,
)
    requires
        call_ensures(IsoTpAsyncNode::<'_, C>::on_frame, (node, frame), r),
    ensures
        !pdu::addressed(old(node).cfg_spec(), frame@) ==> (r matches Ok(RecvStep::Ignored)
            && final(node).rx_spec() == old(node).rx_spec()),
        pdu::addressed(old(node).cfg_spec(), frame@) ==> ({
            let (after, d) = node::recv_decision(
                old(node).cfg_spec(),
                old(node).fc_spec(),
                old(node).rx_spec(),
                frame@,
            );
            final(node).rx_spec() == after && d.taken(r)
        }),
{
}

/// A frame of an async sender that went out leads to what its plan says; one that did not is the
/// error of the link, or a timeout.
pub proof fn async_frames_go_out<E>(
    plan: &TxPlan,
    outcome: Result<Result<(), E>, TimedOut>,
    r: Result<AsyncSend, IsoTpError<E>>,
)
    requires
        call_ensures(AsyncSend::on_sent::<E>, (plan, outcome), r),
    ensures
        outcome is Err ==> r == Err::<AsyncSend, IsoTpError<E>>(
            IsoTpError::Timeout(TimeoutKind::NAs),
        ),
        outcome matches Ok(Err(e)) ==> r == Err::<AsyncSend, IsoTpError<E>>(
            IsoTpError::LinkError(e),
        ),
        outcome matches Ok(Ok(_)) ==> r == Ok::<AsyncSend, IsoTpError<E>>(
            match plan.next_spec() {
                TxNext::Done => AsyncSend::Done,
                TxNext::AwaitFlowControl(s) => AsyncSend::Waiting(s),
                TxNext::Continue { session, .. } => AsyncSend::Ready(session),
            },
        ),
{
}

/// The time since the last Consecutive Frame starts anew with every Consecutive Frame, and with no
/// other; the wait for flow control starts anew when a frame ends a block.
pub proof fn async_clocks_restart(before: &AsyncSend, after: &AsyncSend, r: (bool, bool))
    requires
        call_ensures(AsyncSend::restarts, (before, after), r),
    ensures
        r.0 <==> *before is Ready || *before is Rested,
        r.1 <==> *after is Waiting,
{
}

/// A pause that is over makes the next Consecutive Frame due; one that the runtime gave up on is a
/// timeout.
pub proof fn async_pauses_end<E>(
    state: AsyncSend,
    outcome: Result<(), TimedOut>,
    r: Result<AsyncSend, IsoTpError<E>>,
)
    requires
        call_ensures(AsyncSend::on_paused::<E>, (state, outcome), r),
    ensures
        outcome is Err ==> r == Err::<AsyncSend, IsoTpError<E>>(
            IsoTpError::Timeout(TimeoutKind::NAs),
        ),
        outcome is Ok ==> r == Ok::<AsyncSend, IsoTpError<E>>(
            if let AsyncSend::Ready(s) = state {
                AsyncSend::Rested(s)
            } else {
                state
            },
        ),
{
}

/// A frame is due as soon as no separation time is running: before a first one, and once the time
/// has passed since the last one, the transfer does what it does after a pause.
pub proof fn async_frames_are_due_after_the_gap(
    cfg: IsoTpConfig,
    payload: Seq<u8>,
    timeout: Duration,
    times: SendTimes,
    s: TxSession,
)
    requires
        times.cf_elapsed matches Some(since) ==> since@ >= s.st_min@,
    ensures
        AsyncSend::Ready(s).choice(cfg, payload, timeout, times) == AsyncSend::Rested(s).choice(
            cfg,
            payload,
            timeout,
            times,
        ),
{
}

/// What an async sender received while waiting: the error of the link, the timeout it was told to
/// report, or a frame, which is heeded as flow control where it is one.
pub proof fn async_waits_end<E>(
    state: AsyncSend,
    cfg: &IsoTpConfig,
    outcome: Result<Result<Frame, E>, TimedOut>,
    kind: TimeoutKind,
    r: Result<(AsyncSend, bool), IsoTpError<E>>,
)
    requires
        call_ensures(AsyncSend::on_received::<E>, (state, cfg, outcome, kind), r),
    ensures
        outcome is Err ==> r == Err::<(AsyncSend, bool), IsoTpError<E>>(IsoTpError::Timeout(kind)),
        outcome matches Ok(Err(e)) ==> r == Err::<(AsyncSend, bool), IsoTpError<E>>(
            IsoTpError::LinkError(e),
        ),
        outcome matches Ok(Ok(frame)) ==> match state {
            AsyncSend::Waiting(s) => r == async_send::fc_frame_outcome::<E>(*cfg, s, frame@),
            _ => r == Ok::<(AsyncSend, bool), IsoTpError<E>>((state, false)),
        },
{
}

/// The oldest payload of a polled demux is delivered first, with the address that it came from.
pub proof fn demux_delivers_the_oldest<C: Clock, const N: usize>(
    demux: &mut IsoTpDemux<'_, C, N>,
    r: Option<(u8, &[u8])>,
)
    requires
        old(demux).wf(),
        call_ensures(IsoTpDemux::<'_, C, N>::poll_recv, (demux,), r),
    ensures
        r is Some <==> old(demux)@.ready.len() > 0,
        r is None ==> final(demux)@ == old(demux)@,
        r matches Some((from, payload)) ==> {
            let p = old(demux)@.peers[old(demux)@.ready[0] as int];
            &&& from == p.remote
            &&& payload@ == p.rx.storage.take(p.rx.written as int)
            &&& final(demux)@.ready == old(demux)@.ready.skip(1)
        },
{
}

/// A step of a transfer in a polled demux should be preceded by taking in a frame, unless frames
/// follow each other without pause and without a block to end.
pub proof fn demux_looks_for_flow_control<C: Clock, const N: usize>(
    demux: &IsoTpDemux<'_, C, N>,
    remote: u8,
    r: bool,
)
    requires
        call_ensures(IsoTpDemux::<'_, C, N>::wants_frame, (demux, remote), r),
    ensures
        !r <==> (demux@.position(remote) matches Some(i) && (
        demux@.peers[i].tx matches TxState::Sending { session, st_min_deadline }
            && session.block_size == 0 && session.st_min@ == 0)),
{
}

/// A driver that found no frame reports a waiting payload before anything else, and would block
/// without one; after a frame it reports a waiting payload before the frame's own progress.
pub proof fn waiting_payloads_are_reported_first<C: Clock, const N: usize>(
    demux: &IsoTpAsyncDemux<'_, C, N>,
    progress: Progress,
    idle: Progress,
    step: Progress,
)
    requires
        call_ensures(IsoTpAsyncDemux::<'_, C, N>::idle_progress, (demux,), idle),
        call_ensures(IsoTpAsyncDemux::<'_, C, N>::step_progress, (demux, progress), step),
    ensures
        demux@.ready.len() > 0 ==> idle == Progress::Completed && step == Progress::Completed,
        demux@.ready.len() == 0 ==> idle == Progress::WouldBlock && step == progress,
{
}

/// A receiver that waits checks the receive timeouts first. It waits no longer than its own time
/// and the first receive timeout allow, and not at all once its time is over.
pub proof fn receivers_wait_no_longer_than_allowed<C: Clock, const N: usize>(
    demux: &mut IsoTpAsyncDemux<'_, C, N>,
    timeout: Duration,
    elapsed: Duration,
    r: Option<Duration>,
)
    requires
        call_ensures(IsoTpAsyncDemux::<'_, C, N>::recv_wait, (demux, timeout, elapsed), r),
    ensures
        async_demux::expired(
            old(demux).clock_spec(),
            old(demux).cfg_spec().n_br,
            old(demux)@,
            final(demux)@,
        ),
        r is None <==> elapsed@ > timeout@,
        r matches Some(d) ==> {
            &&& d@ <= timeout@ - elapsed@
            &&& exists|next: Option<Duration>| #[trigger]
                async_demux::is_next_timeout(
                    old(demux).clock_spec(),
                    old(demux).cfg_spec().n_br,
                    final(demux)@.peers,
                    next,
                ) && (next matches Some(first) ==> d@ <= first@) && (d@ == timeout@ - elapsed@ || (
                next matches Some(first) && d@ == first@))
        },
{
}

/// A driver waits no longer than it was told to and than the first receive timeout allows.
pub proof fn drivers_wait_no_longer_than_allowed<C: Clock, const N: usize>(
    demux: &mut IsoTpAsyncDemux<'_, C, N>,
    max_wait: Duration,
    d: Duration,
)
    requires
        call_ensures(IsoTpAsyncDemux::<'_, C, N>::step_wait, (demux, max_wait), d),
    ensures
        async_demux::expired(
            old(demux).clock_spec(),
            old(demux).cfg_spec().n_br,
            old(demux)@,
            final(demux)@,
        ),
        d@ <= max_wait@,
        max_wait@ > 0 ==> exists|next: Option<Duration>| #[trigger]
            async_demux::is_next_timeout(
                old(demux).clock_spec(),
                old(demux).cfg_spec().n_br,
                final(demux)@.peers,
                next,
            ) && (next matches Some(first) ==> d@ <= first@) && (d@ == max_wait@ || (
            next matches Some(first) && d@ == first@)),
{
}

/// A sender that waits for flow control in a demux does so within the flow-control timeout, its own
/// time and the first receive timeout; once one of the first two is over it fails.
pub proof fn senders_wait_no_longer_than_allowed<C: Clock, const N: usize>(
    demux: &mut IsoTpAsyncDemux<'_, C, N>,
    timeout: Duration,
    times: &SendTimes,
    r: Result<Duration, IsoTpError<()>>,
)
    requires
        call_ensures(IsoTpAsyncDemux::<'_, C, N>::flow_control_wait, (demux, timeout, times), r),
    ensures
        r is Ok <==> times.fc_elapsed@ < old(demux).cfg_spec().n_bs@ && times.elapsed@ <= timeout@,
        times.fc_elapsed@ >= old(demux).cfg_spec().n_bs@ ==> r == Err::<Duration, IsoTpError<()>>(
            IsoTpError::Timeout(TimeoutKind::NBs),
        ),
        times.fc_elapsed@ < old(demux).cfg_spec().n_bs@ && times.elapsed@ > timeout@ ==> r == Err::<
            Duration,
            IsoTpError<()>,
        >(IsoTpError::Timeout(TimeoutKind::NAs)),
        r matches Ok(d) ==> times.fc_elapsed@ + d@ <= old(demux).cfg_spec().n_bs@ && times.elapsed@
            + d@ <= timeout@,
{
}

/// After a wait without a frame, a sender fails once its own time or the flow-control timeout is
/// over, and goes on waiting otherwise.
pub proof fn senders_time_out<C: Clock, const N: usize>(
    demux: &mut IsoTpAsyncDemux<'_, C, N>,
    timeout: Duration,
    times: &SendTimes,
    r: Result<(), IsoTpError<()>>,
)
    requires
        call_ensures(
            IsoTpAsyncDemux::<'_, C, N>::flow_control_timed_out,
            (demux, timeout, times),
            r,
        ),
    ensures
        r is Ok <==> times.elapsed@ <= timeout@ && times.fc_elapsed@ < old(demux).cfg_spec().n_bs@,
        r matches Err(e) ==> e == (if times.elapsed@ > timeout@ {
            IsoTpError::<()>::Timeout(TimeoutKind::NAs)
        } else {
            IsoTpError::Timeout(TimeoutKind::NBs)
        }),
{
}

/// A transfer of an async demux starts by forgetting flow control of earlier transfers; a payload
/// that is too long is refused, and so is a peer that cannot be met, with nothing changed.
pub proof fn transfers_start_afresh<C: Clock, const N: usize>(
    demux: &mut IsoTpAsyncDemux<'_, C, N>,
    remote: u8,
    payload: &[u8],
    timeout: Duration,
    elapsed: Duration,
    r: Result<AsyncAction, IsoTpError<()>>,
)
    requires
        call_ensures(
            IsoTpAsyncDemux::<'_, C, N>::start_send_to,
            (demux, remote, payload, timeout, elapsed),
            r,
        ),
    ensures
        payload@.len() > old(demux).cfg_spec().max_payload_len ==> (r matches Err(e)
            && e is Overflow && final(demux)@ == old(demux)@),
        payload@.len() <= old(demux).cfg_spec().max_payload_len ==> {
            let cfg = demux::peer_cfg(old(demux).cfg_spec(), old(demux).local_spec(), remote);
            match old(demux)@.admitted(old(demux).local_spec(), remote) {
                Err(e) => r matches Err(got) && got == e && final(demux)@ == old(demux)@,
                Ok((m, i)) => {
                    &&& final(demux)@ == async_demux::without_pending(m, i)
                    &&& r matches Ok(action) ==> {
                        &&& action matches AsyncAction::Transmit(plan, within)
                        &&& Some(plan.frame_spec()) == pdu::frame_for(
                            cfg,
                            tx::opening_pdu(cfg, payload@),
                        )
                        &&& plan.next_spec() == tx::opening_next(cfg, payload@)
                        &&& elapsed@ + within@ == timeout@
                    }
                    &&& pdu::frame_for(cfg, tx::opening_pdu(cfg, payload@)) is Some ==> (
                    r is Err <==> elapsed@ > timeout@)
                },
            }
        },
{
}

/// Flow control that was kept for a peer is taken once; of a peer without any, and of one that was
/// not met, there is none.
pub proof fn kept_flow_control_is_taken_once<C: Clock, const N: usize>(
    demux: &mut IsoTpAsyncDemux<'_, C, N>,
    remote: u8,
    r: Option<PendingFc>,
)
    requires
        call_ensures(IsoTpAsyncDemux::<'_, C, N>::take_pending_fc, (demux, remote), r),
    ensures
        old(demux)@.position(remote) matches Some(i) ==> r == old(demux)@.peers[i].pending_fc
            && final(demux)@ == async_demux::without_pending(old(demux)@, i),
        old(demux)@.position(remote) is None ==> r is None && final(demux)@ == old(demux)@,
{
}

/// The payload of an async demux that waited longest is delivered whole into the caller's buffer,
/// with the address that it came from. Where the buffer is too small, nothing is written and the
/// payload waits behind the others.
pub proof fn async_demux_delivers_the_oldest<C: Clock, const N: usize>(
    demux: &mut IsoTpAsyncDemux<'_, C, N>,
    out: &mut [u8],
    r: Result<Option<(u8, usize)>, AppRecvIntoError<()>>,
)
    requires
        old(demux).wf(),
        call_ensures(IsoTpAsyncDemux::<'_, C, N>::deliver_ready_into, (demux, out), r),
    ensures
        (r matches Ok(None)) <==> old(demux)@.waiting().len() == 0,
        (r matches Ok(None)) ==> final(demux)@ == old(demux)@ && final(out)@ == old(out)@,
        r matches Ok(Some((from, len))) ==> {
            let (source, payload) = old(demux)@.waiting()[0];
            &&& from == source
            &&& len == payload.len()
            &&& final(out)@.take(len as int) == payload
            &&& final(out)@.skip(len as int) == old(out)@.skip(len as int)
            &&& final(demux)@.waiting() == old(demux)@.waiting().skip(1)
        },
        r matches Err(e) ==> {
            let payload = old(demux)@.waiting()[0].1;
            &&& payload.len() > old(out)@.len()
            &&& final(out)@ == old(out)@
            &&& final(demux)@.waiting() == old(demux)@.waiting().skip(1).push(
                old(demux)@.waiting()[0],
            )
        },
{
    let m = old(demux)@;
    if m.ready.len() > 0 {
        async_demux::delivery_takes_the_oldest(
            m,
            old(demux).cfg_spec().max_payload_len as nat,
            N as nat,
        );
        async_demux::refused_delivery_loses_nothing(m);
        let payload = m.waiting()[0].1;
        if payload.len() <= old(out)@.len() {
            rx::writing_changes_only_its_place(old(out)@, 0, payload);
            assert(rx::overwritten(old(out)@, 0, payload).take(payload.len() as int) =~= payload);
        }
    }
}

/// What a frame asked for was done once its answer went out: where that failed, the error of the
/// link is reported, and else the frame's own result.
pub proof fn ingest_steps_conclude<E>(
    step: IngestStep,
    link: Result<(), E>,
    r: Result<Progress, IsoTpError<E>>,
)
    requires
        call_ensures(IngestStep::conclude::<E>, (step, link), r),
    ensures
        link matches Err(e) ==> (step.reply is Some ==> r == Err::<Progress, IsoTpError<E>>(
            IsoTpError::LinkError(e),
        )),
        step.reply is None || link is Ok ==> match step.result {
            Ok(p) => r == Ok::<Progress, IsoTpError<E>>(p),
            Err(e) => r == Err::<Progress, IsoTpError<E>>(async_io::widened::<E>(e)),
        },
{
}

/// A driver that pumps frames forever never spins: it waits as long as it was told to, and one
/// millisecond where it was told not to wait.
pub proof fn pumps_do_not_spin(idle_sleep: Duration, r: Duration)
    requires
        call_ensures(async_demux::pump_wait, (idle_sleep,), r),
    ensures
        r@ > 0,
        idle_sleep@ > 0 ==> r@ == idle_sleep@,
        idle_sleep@ == 0 ==> r@ == 1_000_000,
{
}

/// New flow-control parameters are advertised from then on, and change nothing else.
pub proof fn new_parameters_are_advertised<C: Clock, const N: usize>(
    node: &mut IsoTpNode<'_, C>,
    demux: &mut IsoTpDemux<'_, C, N>,
    async_demux: &mut IsoTpAsyncDemux<'_, C, N>,
    fc: RxFlowControl,
)
    requires
        call_ensures(IsoTpNode::<'_, C>::set_rx_flow_control, (node, fc), ()),
        call_ensures(IsoTpDemux::<'_, C, N>::set_rx_flow_control, (demux, fc), ()),
        call_ensures(IsoTpAsyncDemux::<'_, C, N>::set_rx_flow_control, (async_demux, fc), ()),
    ensures
        final(node).fc_spec() == fc,
        final(node).rx_spec() == old(node).rx_spec() && final(node).tx_spec() == old(
            node,
        ).tx_spec(),
        final(demux).fc_spec() == fc && final(demux)@ == old(demux)@,
        final(async_demux).fc_spec() == fc && final(async_demux)@ == old(async_demux)@,
{
}

/// A frame that a polled demux takes in does what the demux's state and the frame say; with none
/// there it would block, and nothing changes.
pub proof fn demux_takes_frames_in<C: Clock, const N: usize>(
    demux: &mut IsoTpDemux<'_, C, N>,
    frame: Option<&Frame>,
    r: Result<RecvStep, IsoTpError<()>>,
)
    requires
        call_ensures(IsoTpDemux::<'_, C, N>::ingest_one, (demux, frame), r),
    ensures
        frame is None ==> (r matches Ok(RecvStep::Report(p)) && p == Progress::WouldBlock
            && final(demux)@ == old(demux)@),
        frame matches Some(f) ==> ({
            let (after, d) = old(demux)@.ingested(
                old(demux).cfg_spec(),
                old(demux).fc_spec(),
                old(demux).local_spec(),
                old(demux).functional_spec(),
                f@,
            );
            final(demux)@ == after && d.taken(r)
        }),
{
}

/// A step of a transfer in a polled demux: a payload that is too long and a peer that cannot be met
/// are refused with nothing changed; while the separation time after the last frame to that peer
/// runs, nothing goes out and nothing changes; and a wait for flow control that lasted too long is a
/// timeout that ends the transfer.
pub proof fn demux_send_steps<C: Clock, const N: usize>(
    demux: &mut IsoTpDemux<'_, C, N>,
    remote: u8,
    payload: &[u8],
    now: C::Instant,
    r: Result<SendStep, IsoTpError<()>>,
)
    requires
        old(demux).wf(),
        C::Instant::obeys_partial_cmp_spec(),
        call_ensures(IsoTpDemux::<'_, C, N>::poll_send_to, (demux, remote, payload, now), r),
    ensures
        payload@.len() > old(demux).cfg_spec().max_payload_len ==> (r matches Err(e)
            && e is Overflow && final(demux)@ == old(demux)@),
        payload@.len() <= old(demux).cfg_spec().max_payload_len ==> match old(demux)@.admitted(
            old(demux).local_spec(),
            remote,
        ) {
            Err(e) => r matches Err(got) && got == e && final(demux)@ == old(demux)@,
            Ok((m, i)) => {
                let cfg = demux::peer_cfg(old(demux).cfg_spec(), old(demux).local_spec(), remote);
                &&& final(demux)@.ready == m.ready && final(demux)@.free == m.free
                &&& final(demux)@.peers.len() == m.peers.len()
                &&& final(demux)@.peers[i].rx == m.peers[i].rx
                &&& forall|j: int|
                    0 <= j < m.peers.len() && j != i ==> final(demux)@.peers[j]
                        == #[trigger] m.peers[j]
                &&& match m.peers[i].tx {
                    TxState::Idle => r matches Ok(SendStep::Transmit(plan)) ==> Some(
                        plan.frame_spec(),
                    ) == pdu::frame_for(cfg, tx::opening_pdu(cfg, payload@)) && plan.next_spec()
                        == tx::opening_next(cfg, payload@),
                    TxState::Sending { session, st_min_deadline } => session.payload_len
                        == payload@.len() ==> (if st_min_deadline matches Some(at) && now.is_lt(
                        &at,
                    ) {
                        r matches Ok(SendStep::Report(p)) && p == Progress::WouldBlock
                            && final(demux)@ == m
                    } else {
                        r matches Ok(SendStep::Transmit(plan)) ==> Some(plan.frame_spec())
                            == pdu::frame_for(cfg, tx::chunk_pdu(cfg, payload@, session))
                            && plan.next_spec() == tx::chunk_next(cfg, session)
                    }),
                    TxState::WaitingForFc { session, deadline } => session.payload_len
                        == payload@.len() && now.is_ge(&deadline) ==> (
                    r matches Err(IsoTpError::Timeout(kind)) && kind == TimeoutKind::NBs
                        && final(demux)@.peers[i].tx is Idle),
                }
            },
        },
{
    if payload@.len() <= old(demux).cfg_spec().max_payload_len {
        if let Ok((m, i)) = old(demux)@.admitted(old(demux).local_spec(), remote) {
            let cfg = demux::peer_cfg(old(demux).cfg_spec(), old(demux).local_spec(), remote);
            let late = choose|late: bool|
                demux::late_at(m.peers[i].tx, now, late) && demux::send_step_taken(
                    old(demux).clock_spec(),
                    cfg,
                    m,
                    i,
                    payload@,
                    now,
                    late,
                    final(demux)@,
                    r,
                );
            demuxing::sources_become_peers(old(demux)@, old(demux).local_spec(), remote);
            sending::demux_keeps_frames_apart(
                old(demux).clock_spec(),
                cfg,
                m,
                i,
                payload@,
                now,
                late,
                final(demux)@,
                r,
            );
        }
    }
}

/// A frame of a polled demux that went out leaves the transfer to its peer where its plan says; one
/// that did not go out ends it. Nothing else changes.
pub proof fn demux_frames_go_out<C: Clock, E, const N: usize>(
    demux: &mut IsoTpDemux<'_, C, N>,
    remote: u8,
    plan: TxPlan,
    link: Result<(), E>,
    now: C::Instant,
    r: Result<Progress, IsoTpError<E>>,
    i: int,
)
    requires
        old(demux).wf(),
        old(demux)@.position(remote) == Some(i),
        call_ensures(IsoTpDemux::<'_, C, N>::sent::<E>, (demux, remote, plan, link, now), r),
    ensures
        final(demux)@.ready == old(demux)@.ready && final(demux)@.free == old(demux)@.free,
        final(demux)@.peers.len() == old(demux)@.peers.len(),
        forall|j: int|
            0 <= j < old(demux)@.peers.len() && j != i ==> final(demux)@.peers[j]
                == #[trigger] old(demux)@.peers[j],
        0 <= i < old(demux)@.peers.len() && old(demux)@.peers[i].remote == remote,
        final(demux)@.peers[i].rx == old(demux)@.peers[i].rx,
        final(demux)@.peers[i].pending_fc == old(demux)@.peers[i].pending_fc,
        link matches Err(e) ==> r == Err::<Progress, IsoTpError<E>>(IsoTpError::LinkError(e))
            && final(demux)@.peers[i].tx is Idle,
        link is Ok ==> match plan.next_spec() {
            TxNext::Done => r == Ok::<Progress, IsoTpError<E>>(Progress::Completed)
                && final(demux)@.peers[i].tx is Idle,
            TxNext::AwaitFlowControl(s) => {
                &&& r == Ok::<Progress, IsoTpError<E>>(Progress::WaitingForFlowControl)
                &&& final(demux)@.peers[i].tx matches TxState::WaitingForFc { session, deadline }
                &&& session == s
                &&& call_ensures(
                    C::add,
                    (&old(demux).clock_spec(), now, old(demux).cfg_spec().n_bs),
                    deadline,
                )
            },
            TxNext::Continue { session: s, gap } => {
                &&& r == Ok::<Progress, IsoTpError<E>>(Progress::InFlight)
                &&& final(demux)@.peers[i].tx matches TxState::Sending { session, st_min_deadline }
                &&& session == s
                &&& gap is None ==> st_min_deadline is None
                &&& gap matches Some(g) ==> (st_min_deadline matches Some(at) && call_ensures(
                    C::add,
                    (&old(demux).clock_spec(), now, g),
                    at,
                ))
            },
        },
{
    assert(old(demux)@.is_peer(i, remote));
}

/// A frame that an async demux takes in at a time does what the demux's state, the frame and the
/// time say.
pub proof fn async_demux_takes_frames_in<C: Clock, const N: usize>(
    demux: &mut IsoTpAsyncDemux<'_, C, N>,
    frame: &Frame,
    now: C::Instant,
    r: IngestStep,
)
    requires
        call_ensures(IsoTpAsyncDemux::<'_, C, N>::ingest_at, (demux, frame, now), r),
    ensures
        ({
            let (after, d) = old(demux)@.ingested(
                old(demux).cfg_spec(),
                old(demux).fc_spec(),
                old(demux).local_spec(),
                old(demux).functional_spec(),
                frame@,
                now,
            );
            &&& final(demux)@ == after
            &&& r.result == d.result
            &&& r.reply is Some <==> d.reply is Some
            &&& r.reply matches Some(fc) ==> d.reply == Some(fc@)
        }),
{
}

/// Checking the receive timeouts of an async demux abandons the transfers that stalled, and no
/// others; which one is over first is what the wait goes by.
pub proof fn async_demux_checks_timeouts<C: Clock, const N: usize>(
    demux: &mut IsoTpAsyncDemux<'_, C, N>,
    other: &IsoTpAsyncDemux<'_, C, N>,
    next: Option<Duration>,
)
    requires
        call_ensures(IsoTpAsyncDemux::<'_, C, N>::expire_peer_rx_timeouts, (demux,), ()),
        call_ensures(IsoTpAsyncDemux::<'_, C, N>::next_rx_timeout_wait, (other,), next),
    ensures
        async_demux::expired(
            old(demux).clock_spec(),
            old(demux).cfg_spec().n_br,
            old(demux)@,
            final(demux)@,
        ),
        async_demux::is_next_timeout(
            other.clock_spec(),
            other.cfg_spec().n_br,
            other@.peers,
            next,
        ),
{
}

/// A payload's first frame, and every Consecutive Frame, is planned as its transfer stands, with
/// what follows it.
pub proof fn frames_are_planned(
    cfg: &IsoTpConfig,
    payload: &[u8],
    s: TxSession,
    first: Result<TxPlan, IsoTpError<()>>,
    chunk: Result<TxPlan, IsoTpError<()>>,
)
    requires
        cfg.frame_len_ok(),
        payload@.len() <= 4095,
        s.wf(),
        s.payload_len == payload@.len(),
        s.offset < payload@.len(),
        call_ensures(tx::plan_opening, (cfg, payload), first),
        call_ensures(tx::plan_chunk, (cfg, payload, s), chunk),
    ensures
        first matches Ok(plan) && Some(plan.frame_spec()) == pdu::frame_for(
            *cfg,
            tx::opening_pdu(*cfg, payload@),
        ) && plan.next_spec() == tx::opening_next(*cfg, payload@),
        chunk matches Ok(plan) && Some(plan.frame_spec()) == pdu::frame_for(
            *cfg,
            tx::chunk_pdu(*cfg, payload@, s),
        ) && (plan.next_spec() matches TxNext::Continue { session, gap } ==> (s.st_min@ > 0 ==> gap
            == Some(s.st_min)) && (s.st_min@ == 0 ==> gap is None)),
        chunk matches Ok(plan) && (s.offset + cfg.cf_room() >= payload@.len() <==> plan.next_spec()
            is Done),
        chunk matches Ok(plan) && (s.offset + cfg.cf_room() < payload@.len() ==> (
        s.block_size > 0 && s.block_remaining <= 1 <==> plan.next_spec() is AwaitFlowControl)),
{
    sending::payload_opens_with_a_full_frame(*cfg, payload@);
    sending::consecutive_frames_take_the_payload_in_order(*cfg, payload@, s);
}

/// A node is made exactly for a valid configuration and a buffer that holds the longest payload; it
/// then has nothing under way and advertises what the configuration says.
pub proof fn nodes_are_made_for_valid_configurations<'a, C: Clock>(
    cfg: IsoTpConfig,
    clock: C,
    storage: RxStorage<'a>,
    r: Result<IsoTpNode<'a, C>, IsoTpError<()>>,
    s: Result<IsoTpAsyncNode<'a, C>, IsoTpError<()>>,
)
    requires
        call_ensures(IsoTpNode::<'a, C>::with_clock_and_storage, (cfg, clock, storage), r),
        call_ensures(IsoTpAsyncNode::<'a, C>::with_clock_and_storage, (cfg, clock, storage), s),
    ensures
        r is Ok <==> cfg.valid() && storage@.len() >= cfg.max_payload_len,
        s is Ok <==> cfg.valid() && storage@.len() >= cfg.max_payload_len,
        r matches Err(e) ==> e is InvalidConfig,
        s matches Err(e) ==> e is InvalidConfig,
        r matches Ok(node) ==> {
            &&& node.cfg_spec() == cfg && node.clock_spec() == clock
            &&& node.fc_spec().block_size == cfg.block_size && node.fc_spec().st_min == cfg.st_min
            &&& node.tx_spec() is Idle
            &&& node.rx_spec().state is Idle && node.rx_spec().written == 0
        },
        s matches Ok(node) ==> {
            &&& node.cfg_spec() == cfg && node.clock_spec() == clock
            &&& node.fc_spec().block_size == cfg.block_size && node.fc_spec().st_min == cfg.st_min
            &&& node.rx_spec().state is Idle && node.rx_spec().written == 0
        },
{
}

/// A deadline is reached once its time has come, and then reports its own timeout.
pub proof fn deadlines_are_reached<I: Copy + PartialOrd>(
    deadline: &Deadline<I>,
    now: I,
    r: Result<(), IsoTpError<()>>,
)
    requires
        I::obeys_partial_cmp_spec(),
        call_ensures(Deadline::<I>::check, (deadline, now), r),
    ensures
        r is Err <==> now.is_ge(&deadline.at_spec()),
        r matches Err(e) ==> e == IsoTpError::<()>::Timeout(deadline.kind_spec()),
{
}

/// A machine that is reset has nothing under way and keeps its buffer; one whose buffer is replaced
/// gives the old one out and keeps where it stands.
pub proof fn machines_keep_their_buffer<'a>(
    a: &mut RxMachine<'a>,
    b: &mut RxMachine<'a>,
    replacement: RxStorage<'a>,
    previous: RxStorage<'a>,
)
    requires
        call_ensures(RxMachine::<'a>::reset, (a,), ()),
        call_ensures(RxMachine::<'a>::replace_storage, (b, replacement), previous),
    ensures
        final(a)@.state is Idle && final(a)@.written == 0 && final(a)@.storage == old(a)@.storage,
        previous@ == old(b)@.storage && final(b)@.storage == replacement@,
        final(b)@.state == old(b)@.state && final(b)@.written == old(b)@.written
            && final(b)@.expected_len == old(b)@.expected_len && final(b)@.next_sn
            == old(b)@.next_sn,
{
}

/// A demux asks its interface for exactly the frames that are to it.
pub proof fn demux_filters_let_its_frames_through<C: Clock, const N: usize>(
    demux: &IsoTpDemux<'_, C, N>,
    filters: AcceptanceFilters,
    id: Id,
)
    requires
        id.in_range(),
        call_ensures(IsoTpDemux::<'_, C, N>::acceptance_filters, (demux,), filters),
    ensures
        (exists|i: int| 0 <= i < filters@.len() && (#[trigger] filters@[i]).accepts(id))
            <==> demuxing::is_to(id, demux.local_spec(), demux.functional_spec()),
{
    uds29::target_filters_accept_what_is_addressed(
        filters@,
        demux.local_spec(),
        demux.functional_spec(),
        id,
    );
    uds29::addresses_are_read_off_identifiers(id);
    if let Some(addr) = uds29::address_of(id) {
        demuxing::frames_are_told_by_target(
            id,
            addr,
            demux.local_spec(),
            demux.functional_spec(),
        );
    }
}

/// So does an async demux.
pub proof fn async_demux_filters_let_its_frames_through<C: Clock, const N: usize>(
    demux: &IsoTpAsyncDemux<'_, C, N>,
    filters: AcceptanceFilters,
    id: Id,
)
    requires
        id.in_range(),
        call_ensures(IsoTpAsyncDemux::<'_, C, N>::acceptance_filters, (demux,), filters),
    ensures
        (exists|i: int| 0 <= i < filters@.len() && (#[trigger] filters@[i]).accepts(id))
            <==> demuxing::is_to(id, demux.local_spec(), demux.functional_spec()),
{
    uds29::target_filters_accept_what_is_addressed(
        filters@,
        demux.local_spec(),
        demux.functional_spec(),
        id,
    );
    uds29::addresses_are_read_off_identifiers(id);
    if let Some(addr) = uds29::address_of(id) {
        demuxing::frames_are_told_by_target(
            id,
            addr,
            demux.local_spec(),
            demux.functional_spec(),
        );
    }
}

/// A payload to a group is built by either demux as one frame from the node to the group.
pub proof fn demuxes_speak_to_groups<C: Clock, const N: usize>(
    a: &IsoTpDemux<'_, C, N>,
    b: &IsoTpAsyncDemux<'_, C, N>,
    group: u8,
    payload: &[u8],
    ra: Result<Frame, IsoTpError<()>>,
    rb: Result<Frame, IsoTpError<()>>,
)
    requires
        call_ensures(IsoTpDemux::<'_, C, N>::send_functional_to, (a, group, payload), ra),
        call_ensures(IsoTpAsyncDemux::<'_, C, N>::send_to_functional, (b, group, payload), rb),
    ensures
        ra matches Ok(frame) ==> frame@.id is Extended && frame@.id.raw() == 0x18DB_0000 + group
            * 256 + a.local_spec(),
        rb matches Ok(frame) ==> frame@.id is Extended && frame@.id.raw() == 0x18DB_0000 + group
            * 256 + b.local_spec(),
        payload@.len() > a.cfg_spec().sf_room() ==> (ra matches Err(e) && e is Overflow),
        payload@.len() > b.cfg_spec().sf_room() ==> (rb matches Err(e) && e is Overflow),
{
    uds29::identifiers_spell_addresses(
        Uds29Kind::Functional,
        group,
        a.local_spec(),
    );
    uds29::identifiers_spell_addresses(
        Uds29Kind::Functional,
        group,
        b.local_spec(),
    );
}

/// A receive step does what was decided, with the very frame that was decided on.
pub proof fn receive_decisions_are_carried_out(
    d: RecvDecision,
    r: Result<RecvStep, IsoTpError<()>>,
)
    requires
        d.taken(r),
    ensures
        match d {
            RecvDecision::Ignored => r matches Ok(RecvStep::Ignored),
            RecvDecision::Report(p) => r matches Ok(RecvStep::Report(q)) && q == p,
            RecvDecision::Reply(fc) => r matches Ok(RecvStep::Reply(frame)) && frame@ == fc,
            RecvDecision::Refuse(Some(fc)) => r matches Ok(RecvStep::Refuse(Some(frame)))
                && frame@ == fc,
            RecvDecision::Refuse(None) => r matches Ok(RecvStep::Refuse(None)),
            RecvDecision::Fail(e) => r matches Err(got) && got == e,
        },
{
}

/// A send step does what was decided, with the very frame that was decided on and what follows it.
pub proof fn send_decisions_are_carried_out(
    d: SendDecision,
    r: Result<SendStep, IsoTpError<()>>,
)
    requires
        d.taken(r),
    ensures
        match d {
            SendDecision::Report(p) => r matches Ok(SendStep::Report(q)) && q == p,
            SendDecision::Transmit(frame, next) => r matches Ok(SendStep::Transmit(plan))
                && plan.frame_spec() == frame && plan.next_spec() == next,
            SendDecision::AwaitFrame => r matches Ok(SendStep::AwaitFrame),
            SendDecision::Fail(e) => r matches Err(got) && got == e,
        },
{
}

/// An async transfer does what was chosen, within the time that was chosen.
pub proof fn choices_are_carried_out(
    c: AsyncChoice,
    r: Result<AsyncAction, IsoTpError<()>>,
)
    requires
        c.taken(r),
    ensures
        match c {
            AsyncChoice::Transmit(frame, next, within) => {
                &&& r matches Ok(AsyncAction::Transmit(plan, d))
                &&& plan.frame_spec() == frame && plan.next_spec() == next && d@ == within
            },
            AsyncChoice::Receive(within, kind) => r matches Ok(
                AsyncAction::Receive(d, k),
            ) && d@ == within && k == kind,
            AsyncChoice::Pause(within) => r matches Ok(AsyncAction::Pause(d)) && d@
                == within,
            AsyncChoice::Finish => r matches Ok(AsyncAction::Finish),
            AsyncChoice::Fail(e) => r matches Err(got) && got == e,
        },
{
}

/// An async transfer, of a node or of a demux, is continued as it stands.
pub proof fn async_transfers_are_continued<C: Clock, const N: usize>(
    node: &IsoTpAsyncNode<'_, C>,
    demux: &IsoTpAsyncDemux<'_, C, N>,
    remote: u8,
    transfer: &AsyncSend,
    payload: &[u8],
    timeout: Duration,
    times: &SendTimes,
    a: Result<AsyncAction, IsoTpError<()>>,
    b: Result<AsyncAction, IsoTpError<()>>,
)
    requires
        call_ensures(IsoTpAsyncNode::<'_, C>::send, (node, transfer, payload, timeout, times), a),
        call_ensures(
            IsoTpAsyncDemux::<'_, C, N>::continue_send_to,
            (demux, remote, transfer, payload, timeout, times),
            b,
        ),
    ensures
        transfer.choice(node.cfg_spec(), payload@, timeout, *times).taken(a),
        transfer.choice(
            demux::peer_cfg(demux.cfg_spec(), demux.local_spec(), remote),
            payload@,
            timeout,
            *times,
        ).taken(b),
{
}

/// Flow control that was kept for a transfer of an async demux is heeded, and used up; without any
/// the transfer goes on waiting.
pub proof fn async_demux_heeds_kept_flow_control<C: Clock, const N: usize>(
    demux: &mut IsoTpAsyncDemux<'_, C, N>,
    remote: u8,
    session: TxSession,
    r: Result<Option<(AsyncSend, bool)>, IsoTpError<()>>,
    i: int,
)
    requires
        call_ensures(
            IsoTpAsyncDemux::<'_, C, N>::wait_for_flow_control,
            (demux, remote, session),
            r,
        ),
        old(demux)@.position(remote) == Some(i),
    ensures
        final(demux)@ == async_demux::without_pending(old(demux)@, i),
        old(demux)@.peers[i].pending_fc is None ==> (r matches Ok(None)),
        old(demux)@.peers[i].pending_fc matches Some(fc) ==> ({
            let cfg = demux::peer_cfg(old(demux).cfg_spec(), old(demux).local_spec(), remote);
            match tx::fc_reaction(cfg, session, fc.status, fc.block_size, fc.st_min) {
                FcReaction::Proceed(t) => r == Ok::<
                    Option<(AsyncSend, bool)>,
                    IsoTpError<()>,
                >(Some((AsyncSend::Ready(t), false))),
                FcReaction::KeepWaiting(t) => r == Ok::<
                    Option<(AsyncSend, bool)>,
                    IsoTpError<()>,
                >(Some((AsyncSend::Waiting(t), true))),
                FcReaction::GiveUp(_) => r == Err::<
                    Option<(AsyncSend, bool)>,
                    IsoTpError<()>,
                >(IsoTpError::Timeout(TimeoutKind::NBs)),
                FcReaction::Abort => r == Err::<Option<(AsyncSend, bool)>, IsoTpError<()>>(
                    IsoTpError::Overflow,
                ),
            }
        }),
{
}

/// A node or demux that differs from another in its state alone is set up like it: with the same
/// configuration, flow control, clock and addresses.
pub proof fn setups_are_kept<C: Clock, const N: usize>(
    node: IsoTpNode<'_, C>,
    other: IsoTpNode<'_, C>,
    demux: IsoTpDemux<'_, C, N>,
    other_demux: IsoTpDemux<'_, C, N>,
    async_demux: IsoTpAsyncDemux<'_, C, N>,
    other_async: IsoTpAsyncDemux<'_, C, N>,
)
    requires
        node.same_but_tx(&other) || node.same_but_rx(&other),
        demux.same_setup(&other_demux),
        async_demux.same_setup(&other_async),
    ensures
        node.cfg_spec() == other.cfg_spec() && node.fc_spec() == other.fc_spec(),
        node.clock_spec() == other.clock_spec(),
        node.rx_spec() == other.rx_spec() || node.tx_spec() == other.tx_spec(),
        demux.cfg_spec() == other_demux.cfg_spec() && demux.fc_spec() == other_demux.fc_spec(),
        demux.clock_spec() == other_demux.clock_spec(),
        demux.local_spec() == other_demux.local_spec(),
        demux.functional_spec() == other_demux.functional_spec(),
        async_demux.cfg_spec() == other_async.cfg_spec() && async_demux.fc_spec()
            == other_async.fc_spec(),
        async_demux.clock_spec() == other_async.clock_spec(),
        async_demux.local_spec() == other_async.local_spec(),
        async_demux.functional_spec() == other_async.functional_spec(),
{
}

} // verus!
