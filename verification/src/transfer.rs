//! What two nodes achieve together: a payload that one of them sends is the payload that the other
//! one receives.

use crate::async_demux::{AsyncDemuxModel, IngestDecision};
use crate::async_send;
use crate::async_send::AsyncSend;
use crate::config;
use crate::config::{IsoTpConfig, RxFlowControl};
use crate::demux;
use crate::demux::DemuxModel;
use crate::errors::IsoTpError;
use crate::id::FrameView;
use crate::node;
use crate::node::RecvDecision;
use crate::pdu;
use crate::pdu::{FlowStatus, PduView};
use crate::rx::RxModel;
use crate::tx;
use crate::tx::{FcReaction, Progress, TxNext, TxSession};
use crate::uds29;
use crate::uds29::Uds29Kind;
use vstd::prelude::*;

verus! {

/// Two configurations that talk to each other: what one sends under, the other listens to.
pub open spec fn paired(a: IsoTpConfig, b: IsoTpConfig) -> bool {
    &&& a.tx_id == b.rx_id
    &&& a.rx_id == b.tx_id
    &&& a.tx_addr == b.rx_addr
    &&& a.rx_addr == b.tx_addr
}

/// The receiver takes a payload of this length: limit and buffer allow it.
pub open spec fn takes(cfg: IsoTpConfig, m: RxModel, len: nat) -> bool {
    &&& m.consistent()
    &&& len <= cfg.max_payload_len
    &&& len <= m.storage.len()
}

/// Sender and receiver agree on how far a segmented transfer is.
pub open spec fn in_step(payload: Seq<u8>, s: TxSession, m: RxModel) -> bool {
    &&& s.wf()
    &&& m.consistent()
    &&& s.payload_len == payload.len()
    &&& m.state is Receiving
    &&& m.expected_len == payload.len()
    &&& m.written == s.offset
    &&& m.next_sn == s.next_sn
    &&& m.received() == payload.take(s.offset as int)
    &&& s.offset < s.payload_len
}

/// Sender and receiver also agree on when the next Flow Control frame is due.
pub open spec fn blocks_agree(s: TxSession, m: RxModel) -> bool {
    &&& s.block_size == m.block_size
    &&& s.block_remaining == m.block_remaining
    &&& s.block_size > 0 ==> s.block_remaining > 0
}

/// A frame that one node builds is addressed to the node it is paired with, which finds in it the
/// PDU that stands behind the addressing byte.
proof fn frames_reach_the_peer(a: IsoTpConfig, b: IsoTpConfig, p: PduView)
    requires
        paired(a, b),
        pdu::frame_for(a, p) is Some,
    ensures
        pdu::addressed(b, pdu::frame_for(a, p)->0),
        pdu::pdu_in(b, (pdu::frame_for(a, p)->0).data) == pdu::parsed(
            pdu::frame_bytes(p, a.padding, a.tx_addr, a.frame_len as int)->0,
            config::prefix_len(a.tx_addr),
        ),
{
    let body = pdu::body_bytes(p, config::prefix_len(a.tx_addr), a.frame_len as int)->0;
    let data = (pdu::frame_for(a, p)->0).data;
    if let Some(byte) = a.tx_addr {
        assert((pdu::prefix_bytes(a.tx_addr) + body)[0] == byte);
        assert(data[0] == byte);
    }
}

/// A payload that fits in a Single Frame arrives with that frame.
///
/// The one exception is an empty payload in a frame longer than 8 bytes that is filled up with a
/// nonzero byte.
pub proof fn single_frame_payload_arrives(
    a: IsoTpConfig,
    b: IsoTpConfig,
    rx_fc: RxFlowControl,
    payload: Seq<u8>,
    m: RxModel,
)
    requires
        paired(a, b),
        a.frame_len_ok(),
        payload.len() <= a.sf_room(),
        takes(b, m, payload.len()),
        payload.len() > 0 || a.frame_len == 8 || a.padding is None || a.padding == Some(0u8),
    ensures
        pdu::frame_for(a, tx::opening_pdu(a, payload)) matches Some(frame) && pdu::addressed(
            b,
            frame,
        ) && {
            let (after, d) = node::recv_decision(b, rx_fc, m, frame);
            &&& d == RecvDecision::Report(Progress::Completed)
            &&& after.received() == payload
        },
        tx::opening_next(a, payload) is Done,
{
    let len = payload.len() as u8;
    let p = tx::opening_pdu(a, payload);
    assert(pdu::frame_for(a, p) is Some);
    let frame = pdu::frame_for(a, p)->0;
    frames_reach_the_peer(a, b, p);
    pdu::single_frame_round_trip(len, payload, a.padding, a.tx_addr, a.frame_len as int);
    assert(payload.take(len as int) =~= payload);
    let (after, d) = node::recv_decision(b, rx_fc, m, frame);
    assert(after.received() =~= payload);
}

/// A First Frame brings sender and receiver in step, and the receiver answers with the Flow
/// Control frame that clears the sender.
pub proof fn first_frame_brings_in_step(
    a: IsoTpConfig,
    b: IsoTpConfig,
    rx_fc: RxFlowControl,
    payload: Seq<u8>,
    m: RxModel,
)
    requires
        paired(a, b),
        a.frame_len_ok(),
        b.frame_len_ok(),
        a.sf_room() < payload.len() <= 4095,
        takes(b, m, payload.len()),
    ensures
        ({
            &&& pdu::frame_for(a, tx::opening_pdu(a, payload)) matches Some(frame)
            &&& tx::opening_next(a, payload) matches TxNext::AwaitFlowControl(s)
            &&& pdu::addressed(b, frame)
            &&& {
                let (after, d) = node::recv_decision(b, rx_fc, m, frame);
                &&& in_step(payload, s, after)
                &&& after.block_size == rx_fc.block_size
                &&& after.block_remaining == rx_fc.block_size
                &&& d matches RecvDecision::Reply(fc)
                &&& Some(fc) == node::fc_frame(
                    b,
                    FlowStatus::ClearToSend,
                    rx_fc.block_size,
                    pdu::st_min_byte(rx_fc.st_min@),
                )
            }
        }),
{
    let p = tx::opening_pdu(a, payload);
    let room = a.ff_room();
    let data = payload.take(room);
    assert(pdu::frame_for(a, p) is Some);
    let frame = pdu::frame_for(a, p)->0;
    frames_reach_the_peer(a, b, p);
    pdu::first_frame_round_trip(
        payload.len() as u16,
        data,
        a.padding,
        a.tx_addr,
        a.frame_len as int,
    );
    assert(pdu::padded(data, a.padding, room) =~= data);
    pdu::flow_control_round_trip(
        FlowStatus::ClearToSend,
        rx_fc.block_size,
        pdu::st_min_byte(rx_fc.st_min@),
        b.padding,
        b.tx_addr,
        b.frame_len as int,
    );
    let (after, d) = node::recv_decision(b, rx_fc, m, frame);
    assert(after.received() =~= payload.take(room));
}

/// A Consecutive Frame keeps sender and receiver in step; the last one completes the payload.
pub proof fn chunk_keeps_in_step(
    a: IsoTpConfig,
    b: IsoTpConfig,
    rx_fc: RxFlowControl,
    payload: Seq<u8>,
    s: TxSession,
    m: RxModel,
)
    requires
        paired(a, b),
        a.frame_len_ok(),
        b.frame_len_ok(),
        payload.len() <= 4095,
        in_step(payload, s, m),
    ensures
        pdu::frame_for(a, tx::chunk_pdu(a, payload, s)) matches Some(frame) && pdu::addressed(
            b,
            frame,
        ) && {
            let (after, d) = node::recv_decision(b, rx_fc, m, frame);
            let t = tx::advanced(a, s);
            if t.offset >= t.payload_len {
                &&& d == RecvDecision::Report(Progress::Completed)
                &&& after.state is Idle
                &&& after.received() == payload
            } else {
                &&& in_step(payload, t, after)
                &&& t.offset > s.offset
                &&& if m.block_size > 0 && m.block_remaining <= 1 {
                    &&& after.block_size == rx_fc.block_size
                    &&& after.block_remaining == rx_fc.block_size
                    &&& d matches RecvDecision::Reply(fc) && Some(fc) == node::fc_frame(
                        b,
                        FlowStatus::ClearToSend,
                        rx_fc.block_size,
                        pdu::st_min_byte(rx_fc.st_min@),
                    )
                } else {
                    &&& after.block_size == m.block_size
                    &&& after.block_remaining == (if m.block_size > 0 {
                        (m.block_remaining - 1) as u8
                    } else {
                        m.block_remaining
                    })
                    &&& d == RecvDecision::Report(Progress::InFlight)
                }
            }
        },
{
    let p = tx::chunk_pdu(a, payload, s);
    let n = tx::chunk_len(a, s);
    let data = payload.subrange(s.offset as int, s.offset + n);
    assert(pdu::frame_for(a, p) is Some);
    let frame = pdu::frame_for(a, p)->0;
    frames_reach_the_peer(a, b, p);
    pdu::consecutive_frame_round_trip(s.next_sn, data, a.padding, a.tx_addr, a.frame_len as int);
    pdu::flow_control_round_trip(
        FlowStatus::ClearToSend,
        rx_fc.block_size,
        pdu::st_min_byte(rx_fc.st_min@),
        b.padding,
        b.tx_addr,
        b.frame_len as int,
    );
    let got = pdu::padded(data, a.padding, a.cf_room());
    assert(got.take(n) =~= data);
    if n == a.cf_room() {
        assert(got =~= data);
    }
    let (after, d) = node::recv_decision(b, rx_fc, m, frame);
    let missing = m.expected_len - m.written;
    let kept = if got.len() <= missing {
        got
    } else {
        got.take(missing)
    };
    assert(kept =~= data);
    assert(after.received() =~= payload.take(s.offset + n)) by {
        assert forall|i: int| 0 <= i < s.offset + n implies after.received()[i] == payload[i] by {
            if i < s.offset {
                assert(m.received()[i] == payload.take(s.offset as int)[i]);
            }
        }
    }
    assert(payload.take(payload.len() as int) =~= payload);
}

/// The Flow Control frame with which a receiver clears a sender makes it proceed with the
/// receiver's block size and separation time.
pub proof fn clearance_is_understood(
    a: IsoTpConfig,
    b: IsoTpConfig,
    rx_fc: RxFlowControl,
    payload: Seq<u8>,
    s: TxSession,
)
    requires
        paired(a, b),
        b.frame_len_ok(),
    ensures
        node::fc_frame(
            b,
            FlowStatus::ClearToSend,
            rx_fc.block_size,
            pdu::st_min_byte(rx_fc.st_min@),
        ) matches Some(fc) && node::fc_frame_decision(a, payload, s, Some(fc)) == node::fc_decision(
            a,
            payload,
            s,
            FlowStatus::ClearToSend,
            rx_fc.block_size,
            pdu::st_min_byte(rx_fc.st_min@),
        ),
{
    let st_min = pdu::st_min_byte(rx_fc.st_min@);
    let p = PduView::FlowControl {
        status: FlowStatus::ClearToSend,
        block_size: rx_fc.block_size,
        st_min,
    };
    pdu::flow_control_round_trip(
        FlowStatus::ClearToSend,
        rx_fc.block_size,
        st_min,
        b.padding,
        b.tx_addr,
        b.frame_len as int,
    );
    frames_reach_the_peer(b, a, p);
}

/// The rest of a segmented transfer: the sender's Consecutive Frames go to the receiver, and the
/// receiver's Flow Control frames go back. `None` where one side waits for a frame that the other
/// one does not send, or fails.
pub open spec fn conversation(
    a: IsoTpConfig,
    b: IsoTpConfig,
    rx_fc: RxFlowControl,
    payload: Seq<u8>,
    s: TxSession,
    m: RxModel,
) -> Option<RxModel>
    decreases payload.len() - s.offset,
{
    match pdu::frame_for(a, tx::chunk_pdu(a, payload, s)) {
        None => None,
        Some(frame) => if !pdu::addressed(b, frame) {
            None
        } else {
            let (after, d) = node::recv_decision(b, rx_fc, m, frame);
            match (tx::chunk_next(a, s), d) {
                (TxNext::Done, RecvDecision::Report(Progress::Completed)) => Some(after),
                (
                    TxNext::Continue { session, .. },
                    RecvDecision::Report(Progress::InFlight),
                ) => if s.offset < session.offset <= payload.len() {
                    conversation(a, b, rx_fc, payload, session, after)
                } else {
                    None
                },
                (TxNext::AwaitFlowControl(session), RecvDecision::Reply(fc)) => match cleared(
                    a,
                    session,
                    fc,
                ) {
                    Some(next) => if s.offset < next.offset <= payload.len() {
                        conversation(a, b, rx_fc, payload, next, after)
                    } else {
                        None
                    },
                    None => None,
                },
                _ => None,
            }
        },
    }
}

/// The session with which a polling sender proceeds on a frame that clears it.
pub open spec fn cleared(a: IsoTpConfig, s: TxSession, frame: FrameView) -> Option<TxSession> {
    if !pdu::addressed(a, frame) {
        None
    } else {
        match pdu::pdu_in(a, frame.data) {
            Some(PduView::FlowControl { status, block_size, st_min }) => match tx::fc_reaction(
                a,
                s,
                status,
                block_size,
                st_min,
            ) {
                FcReaction::Proceed(next) => Some(next),
                _ => None,
            },
            _ => None,
        }
    }
}

/// The rest of a segmented transfer with an async sender whose operations all end in time.
pub open spec fn async_conversation(
    a: IsoTpConfig,
    b: IsoTpConfig,
    rx_fc: RxFlowControl,
    payload: Seq<u8>,
    s: TxSession,
    m: RxModel,
) -> Option<RxModel>
    decreases payload.len() - s.offset,
{
    match pdu::frame_for(a, tx::chunk_pdu(a, payload, s)) {
        None => None,
        Some(frame) => if !pdu::addressed(b, frame) {
            None
        } else {
            let (after, d) = node::recv_decision(b, rx_fc, m, frame);
            match (AsyncSend::after(tx::chunk_next(a, s)), d) {
                (AsyncSend::Done, RecvDecision::Report(Progress::Completed)) => Some(after),
                (
                    AsyncSend::Ready(session),
                    RecvDecision::Report(Progress::InFlight),
                ) => if s.offset < session.offset <= payload.len() {
                    async_conversation(a, b, rx_fc, payload, session, after)
                } else {
                    None
                },
                (
                    AsyncSend::Waiting(session),
                    RecvDecision::Reply(fc),
                ) => match async_send::fc_frame_outcome::<()>(a, session, fc) {
                    Ok((AsyncSend::Ready(next), _)) => if s.offset < next.offset <= payload.len() {
                        async_conversation(a, b, rx_fc, payload, next, after)
                    } else {
                        None
                    },
                    _ => None,
                },
                _ => None,
            }
        },
    }
}

/// An async sender whose operations end in time sends what a polling sender sends: the
/// conversation comes to the same end.
pub proof fn async_sender_converses_alike(
    a: IsoTpConfig,
    b: IsoTpConfig,
    rx_fc: RxFlowControl,
    payload: Seq<u8>,
    s: TxSession,
    m: RxModel,
)
    ensures
        async_conversation(a, b, rx_fc, payload, s, m) == conversation(
            a,
            b,
            rx_fc,
            payload,
            s,
            m,
        ),
    decreases payload.len() - s.offset,
{
    if let Some(frame) = pdu::frame_for(a, tx::chunk_pdu(a, payload, s)) {
        let (after, d) = node::recv_decision(b, rx_fc, m, frame);
        match (tx::chunk_next(a, s), d) {
            (TxNext::Continue { session, .. }, RecvDecision::Report(Progress::InFlight)) => {
                if s.offset < session.offset <= payload.len() {
                    async_sender_converses_alike(a, b, rx_fc, payload, session, after);
                }
            },
            (TxNext::AwaitFlowControl(session), RecvDecision::Reply(fc)) => {
                if let Some(next) = cleared(a, session, fc) {
                    if s.offset < next.offset <= payload.len() {
                        async_sender_converses_alike(a, b, rx_fc, payload, next, after);
                    }
                }
            },
            _ => {},
        }
    }
}

/// From any point at which sender and receiver are in step, the conversation ends with the receiver
/// holding the payload, whatever the block sizes that either side is configured with.
pub proof fn conversation_delivers(
    a: IsoTpConfig,
    b: IsoTpConfig,
    rx_fc: RxFlowControl,
    payload: Seq<u8>,
    s: TxSession,
    m: RxModel,
)
    requires
        paired(a, b),
        a.frame_len_ok(),
        b.frame_len_ok(),
        payload.len() <= 4095,
        in_step(payload, s, m),
        blocks_agree(s, m),
    ensures
        conversation(a, b, rx_fc, payload, s, m) matches Some(end) && end.state is Idle
            && end.received() == payload,
    decreases payload.len() - s.offset,
{
    chunk_keeps_in_step(a, b, rx_fc, payload, s, m);
    let frame = pdu::frame_for(a, tx::chunk_pdu(a, payload, s))->0;
    let (after, d) = node::recv_decision(b, rx_fc, m, frame);
    match tx::chunk_next(a, s) {
        TxNext::Done => {},
        TxNext::Continue { session, .. } => {
            conversation_delivers(a, b, rx_fc, payload, session, after);
        },
        TxNext::AwaitFlowControl(session) => {
            clearance_is_understood(a, b, rx_fc, payload, session);
            let p = PduView::FlowControl {
                status: FlowStatus::ClearToSend,
                block_size: rx_fc.block_size,
                st_min: pdu::st_min_byte(rx_fc.st_min@),
            };
            frames_reach_the_peer(b, a, p);
            pdu::flow_control_round_trip(
                FlowStatus::ClearToSend,
                rx_fc.block_size,
                pdu::st_min_byte(rx_fc.st_min@),
                b.padding,
                b.tx_addr,
                b.frame_len as int,
            );
            let reaction = tx::fc_reaction(
                a,
                session,
                FlowStatus::ClearToSend,
                rx_fc.block_size,
                pdu::st_min_byte(rx_fc.st_min@),
            );
            conversation_delivers(a, b, rx_fc, payload, reaction->Proceed_0, after);
        },
    }
}

/// A payload too long for a Single Frame arrives as it was sent: the First Frame is answered with a
/// clearance, and the conversation that follows ends with the receiver holding the payload.
pub proof fn segmented_payload_arrives(
    a: IsoTpConfig,
    b: IsoTpConfig,
    rx_fc: RxFlowControl,
    payload: Seq<u8>,
    m: RxModel,
)
    requires
        paired(a, b),
        a.frame_len_ok(),
        b.frame_len_ok(),
        a.sf_room() < payload.len() <= 4095,
        takes(b, m, payload.len()),
    ensures
        ({
            &&& pdu::frame_for(a, tx::opening_pdu(a, payload)) matches Some(frame)
            &&& tx::opening_next(a, payload) matches TxNext::AwaitFlowControl(waiting)
            &&& {
                let (after, d) = node::recv_decision(b, rx_fc, m, frame);
                &&& d matches RecvDecision::Reply(fc)
                &&& cleared(a, waiting, fc) matches Some(s)
                &&& conversation(a, b, rx_fc, payload, s, after) matches Some(end)
                &&& end.state is Idle
                &&& end.received() == payload
            }
        }),
{
    first_frame_brings_in_step(a, b, rx_fc, payload, m);
    let frame = pdu::frame_for(a, tx::opening_pdu(a, payload))->0;
    let waiting = tx::opening_next(a, payload)->AwaitFlowControl_0;
    let (after, d) = node::recv_decision(b, rx_fc, m, frame);
    let st_min = pdu::st_min_byte(rx_fc.st_min@);
    let p = PduView::FlowControl {
        status: FlowStatus::ClearToSend,
        block_size: rx_fc.block_size,
        st_min,
    };
    pdu::flow_control_round_trip(
        FlowStatus::ClearToSend,
        rx_fc.block_size,
        st_min,
        b.padding,
        b.tx_addr,
        b.frame_len as int,
    );
    frames_reach_the_peer(b, a, p);
    let s = tx::fc_reaction(
        a,
        waiting,
        FlowStatus::ClearToSend,
        rx_fc.block_size,
        st_min,
    )->Proceed_0;
    conversation_delivers(a, b, rx_fc, payload, s, after);
}

/// Two demuxes whose addressing bytes match talk to each other under the identifiers that they
/// derive from their addresses.
pub proof fn demuxes_are_paired(base_a: IsoTpConfig, base_b: IsoTpConfig, a: u8, b: u8)
    requires
        base_a.tx_addr == base_b.rx_addr,
        base_a.rx_addr == base_b.tx_addr,
    ensures
        paired(demux::peer_cfg(base_a, a, b), demux::peer_cfg(base_b, b, a)),
{
}

/// Whether a frame goes to the reassembly of the peer that it comes from: it is for the node, it
/// carries the addressing byte, and it is not flow control.
pub open spec fn for_reassembly(cfg: IsoTpConfig, frame: FrameView) -> bool {
    &&& pdu::addressed(cfg, frame)
    &&& pdu::pdu_in(cfg, frame.data) matches Some(p) ==> p !is FlowControl
}

/// A demux receives from a peer that has no payload waiting as a node does that has this peer
/// alone; a payload that is complete joins the delivery queue.
pub proof fn demux_receives_like_a_node<I>(
    m: DemuxModel<I>,
    base: IsoTpConfig,
    rx_fc: RxFlowControl,
    local: u8,
    functional: Option<u8>,
    frame: FrameView,
    i: int,
    max_payload_len: nat,
    max_peers: nat,
)
    requires
        m.wf(max_payload_len, max_peers),
        0 <= i < m.peers.len(),
        !m.peers[i].rx_ready,
        for_reassembly(demux::peer_cfg(base, local, m.peers[i].remote), frame),
    ensures
        ({
            let cfg = demux::peer_cfg(base, local, m.peers[i].remote);
            let (rx, as_node) = node::recv_decision(cfg, rx_fc, m.peers[i].rx, frame);
            let (after, d) = m.ingested(base, rx_fc, local, functional, frame);
            &&& after.peers[i].rx == rx
            &&& d == (if as_node is Ignored {
                RecvDecision::Report(Progress::InFlight)
            } else {
                as_node
            })
            &&& after.ready == (if as_node == RecvDecision::Report(Progress::Completed) {
                m.ready.push(i as usize)
            } else {
                m.ready
            })
        }),
{
    let remote = m.peers[i].remote;
    uds29::address_of_uds_id(Uds29Kind::Physical, local, remote);
    assert(m.is_peer(i, remote));
    let k = m.position(remote)->0;
    assert(m.is_peer(k, remote));
    assert(k == i);
}

/// An async demux receives from a peer that has no payload waiting as a node does that has this
/// peer alone, as long as the frame is one that the node takes; a payload that is complete is the
/// last one to be delivered.
pub proof fn async_demux_receives_like_a_node<I>(
    m: AsyncDemuxModel<I>,
    base: IsoTpConfig,
    rx_fc: RxFlowControl,
    local: u8,
    functional: Option<u8>,
    frame: FrameView,
    now: I,
    i: int,
    max_payload_len: nat,
    max_peers: nat,
)
    requires
        m.wf(max_payload_len, max_peers),
        max_peers <= usize::MAX,
        0 <= i < m.peers.len(),
        !m.peers[i].rx_ready,
        for_reassembly(demux::peer_cfg(base, local, m.peers[i].remote), frame),
    ensures
        ({
            let cfg = demux::peer_cfg(base, local, m.peers[i].remote);
            let (rx, as_node) = node::recv_decision(cfg, rx_fc, m.peers[i].rx, frame);
            let (after, d) = m.ingested(base, rx_fc, local, functional, frame, now);
            match as_node {
                RecvDecision::Report(Progress::Completed) => {
                    &&& d == IngestDecision::quiet(Ok(Progress::Completed))
                    &&& after.waiting() == m.waiting().push((m.peers[i].remote, rx.received()))
                },
                RecvDecision::Report(_) | RecvDecision::Ignored => {
                    &&& d == IngestDecision::quiet(Ok(Progress::InFlight))
                    &&& after.peers[i].rx == rx
                },
                RecvDecision::Reply(fc) => {
                    &&& d == (IngestDecision { reply: Some(fc), result: Ok(Progress::InFlight) })
                    &&& after.peers[i].rx == rx
                },
                RecvDecision::Refuse(_) => {
                    &&& d.result is Err
                    &&& after.peers[i].rx == RxModel::idle(rx.storage)
                },
                RecvDecision::Fail(e) => d.result == Err::<Progress, IsoTpError<()>>(e),
            }
        }),
{
    let remote = m.peers[i].remote;
    uds29::address_of_uds_id(Uds29Kind::Physical, local, remote);
    assert(m.is_peer(i, remote));
    let k = m.position(remote)->0;
    assert(m.is_peer(k, remote));
    assert(k == i);
    let cfg = demux::peer_cfg(base, local, remote);
    let (rx, as_node) = node::recv_decision(cfg, rx_fc, m.peers[i].rx, frame);
    let (after, d) = m.ingested(base, rx_fc, local, functional, frame, now);
    if as_node == RecvDecision::Report(Progress::Completed) {
        crate::async_demux::frames_only_append_payloads(
            m,
            base,
            rx_fc,
            local,
            functional,
            frame,
            now,
            max_payload_len,
            max_peers,
        );
        assert(after.waiting().last() == (remote, rx.received()));
        assert(after.waiting() =~= m.waiting().push((remote, rx.received())));
    }
}

} // verus!
