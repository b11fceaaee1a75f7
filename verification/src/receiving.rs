//! What a receiver keeps to: which frames it takes in, what it answers, and when it gives up on a
//! transfer.

use crate::async_demux;
use crate::async_demux::{AsyncDemuxModel, AsyncPeerModel};
use crate::config::{IsoTpConfig, RxFlowControl};
use crate::demux;
use crate::demux::{DemuxModel, PeerModel, PendingFc};
use crate::errors::IsoTpError;
use crate::id::FrameView;
use crate::node;
use crate::node::RecvDecision;
use crate::pdu;
use crate::pdu::{FlowStatus, PduView};
use crate::provenance;
use crate::provenance::Setup;
use crate::rx;
use crate::rx::{RxModel, RxOutcome};
use crate::time::Duration;
use crate::timer::Clock;
use crate::tx::Progress;
use crate::uds29;
use vstd::prelude::*;

verus! {

/// The first `n` of some bytes, or all of them where they are fewer.
pub open spec fn at_most(data: Seq<u8>, n: int) -> Seq<u8> {
    if data.len() <= n {
        data
    } else {
        data.take(n)
    }
}

/// A Single Frame is a whole payload: it is taken in, whatever was under way, exactly when it is no
/// longer than allowed, than its data and than the buffer; else it is refused and nothing is under
/// way.
pub proof fn single_frame_is_a_whole_payload(
    m: RxModel,
    limit: nat,
    rx_fc: RxFlowControl,
    len: u8,
    data: Seq<u8>,
)
    ensures
        ({
            let (n, r) = m.on_pdu(limit, rx_fc, PduView::SingleFrame { len, data });
            &&& n.state is Idle
            &&& n.storage.len() == m.storage.len()
            &&& if len <= limit && len <= data.len() && len <= m.storage.len() {
                &&& r == Ok::<RxOutcome, IsoTpError<()>>(RxOutcome::Completed(len as usize))
                &&& n.received() == data.take(len as int)
            } else {
                r == Err::<RxOutcome, IsoTpError<()>>(IsoTpError::Overflow)
            }
        }),
{
    let (n, r) = m.on_pdu(limit, rx_fc, PduView::SingleFrame { len, data });
    if r is Ok {
        assert(n.received() =~= data.take(len as int));
    }
}

/// A First Frame starts a transfer, whatever was under way, exactly when the payload that it
/// announces is no longer than allowed and than the buffer: its bytes are taken in, and the sender
/// is cleared with the receiver's own block size and separation time. Else it is refused and
/// nothing is under way.
pub proof fn first_frame_starts_a_transfer(
    m: RxModel,
    limit: nat,
    rx_fc: RxFlowControl,
    len: u16,
    data: Seq<u8>,
)
    ensures
        ({
            let (n, r) = m.on_pdu(limit, rx_fc, PduView::FirstFrame { len, data });
            &&& n.storage.len() == m.storage.len()
            &&& if len <= limit && len <= m.storage.len() {
                &&& n.state is Receiving
                &&& n.expected_len == len
                &&& n.received() == at_most(data, len as int)
                &&& n.next_sn == 1
                &&& n.block_size == rx_fc.block_size
                &&& n.block_remaining == rx_fc.block_size
                &&& r matches Ok(RxOutcome::SendFlowControl { status, block_size, st_min })
                &&& status is ClearToSend
                &&& block_size == rx_fc.block_size
                &&& st_min == pdu::st_min_byte(rx_fc.st_min@)
            } else {
                n.state is Idle && r == Err::<RxOutcome, IsoTpError<()>>(IsoTpError::Overflow)
            }
        }),
{
    let (n, r) = m.on_pdu(limit, rx_fc, PduView::FirstFrame { len, data });
    if r is Ok {
        assert(n.received() =~= at_most(data, len as int));
    }
}

/// A Consecutive Frame is taken in exactly when a transfer is under way and its number is the next
/// one: its bytes are added, cut at the announced length. The payload is complete once that length
/// is reached. Until then the sender is cleared anew after each block, with what the receiver asks
/// for by then, and after no other frame. A frame that is not taken in changes nothing.
pub proof fn consecutive_frame_adds_its_bytes(
    m: RxModel,
    limit: nat,
    rx_fc: RxFlowControl,
    sn: u8,
    data: Seq<u8>,
)
    requires
        m.consistent(),
        m.state is Receiving ==> m.written < m.expected_len,
    ensures
        ({
            let (n, r) = m.on_pdu(limit, rx_fc, PduView::ConsecutiveFrame { sn, data });
            if m.state is Idle {
                n == m && r == Err::<RxOutcome, IsoTpError<()>>(IsoTpError::UnexpectedPdu)
            } else if sn != m.next_sn {
                n == m && r == Err::<RxOutcome, IsoTpError<()>>(IsoTpError::BadSequence)
            } else {
                &&& n.received() == m.received() + at_most(data, m.expected_len - m.written)
                &&& n.expected_len == m.expected_len
                &&& n.storage.len() == m.storage.len()
                &&& n.next_sn == (if m.next_sn == 15 {
                    0
                } else {
                    m.next_sn + 1
                })
                &&& if m.written + data.len() >= m.expected_len {
                    &&& n.state is Idle
                    &&& r == Ok::<RxOutcome, IsoTpError<()>>(
                        RxOutcome::Completed(m.expected_len as usize),
                    )
                } else {
                    &&& n.state is Receiving
                    &&& if m.block_size > 0 && m.block_remaining <= 1 {
                        &&& r matches Ok(RxOutcome::SendFlowControl { status, block_size, st_min })
                        &&& status is ClearToSend
                        &&& block_size == rx_fc.block_size
                        &&& st_min == pdu::st_min_byte(rx_fc.st_min@)
                        &&& n.block_size == rx_fc.block_size
                        &&& n.block_remaining == rx_fc.block_size
                    } else {
                        &&& r == Ok::<RxOutcome, IsoTpError<()>>(RxOutcome::Nothing)
                        &&& n.block_size == m.block_size
                        &&& m.block_size > 0 ==> n.block_remaining == m.block_remaining - 1
                    }
                }
            }
        }),
{
    let (n, r) = m.on_pdu(limit, rx_fc, PduView::ConsecutiveFrame { sn, data });
    if r is Ok {
        assert(n.received() =~= m.received() + at_most(data, m.expected_len - m.written));
    }
}

/// Flow control is nothing to a receiver.
pub proof fn flow_control_is_not_received(
    m: RxModel,
    limit: nat,
    rx_fc: RxFlowControl,
    status: FlowStatus,
    block_size: u8,
    st_min: u8,
)
    ensures
        m.on_pdu(limit, rx_fc, PduView::FlowControl { status, block_size, st_min }) == (
            m,
            Err::<RxOutcome, IsoTpError<()>>(IsoTpError::UnexpectedPdu),
        ),
{
}

/// What a receiving node does follows what its reassembly says: a payload that is complete is
/// reported, a clearance that is owed is answered, a payload that does not fit is refused with an
/// overflow and the configured separation time, a frame out of sequence fails, and what is not
/// expected is passed over.
pub proof fn node_answers_its_reassembly(
    cfg: IsoTpConfig,
    rx_fc: RxFlowControl,
    m: RxModel,
    frame: FrameView,
)
    requires
        cfg.frame_len_ok(),
    ensures
        ({
            let (n, d) = node::recv_decision(cfg, rx_fc, m, frame);
            match pdu::pdu_in(cfg, frame.data) {
                None => n == m && d == RecvDecision::Fail(IsoTpError::InvalidFrame),
                Some(p) => {
                    let (after, outcome) = m.on_pdu(cfg.max_payload_len as nat, rx_fc, p);
                    &&& n == after
                    &&& match outcome {
                        Ok(RxOutcome::Completed(_)) => d == RecvDecision::Report(
                            Progress::Completed,
                        ),
                        Ok(RxOutcome::Nothing) => d == RecvDecision::Report(Progress::InFlight),
                        Ok(RxOutcome::SendFlowControl { status, block_size, st_min }) => {
                            &&& d matches RecvDecision::Reply(fc)
                            &&& Some(fc) == pdu::frame_for(
                                cfg,
                                PduView::FlowControl { status, block_size, st_min },
                            )
                        },
                        Err(IsoTpError::Overflow) => {
                            &&& d matches RecvDecision::Refuse(Some(fc))
                            &&& Some(fc) == pdu::frame_for(
                                cfg,
                                PduView::FlowControl {
                                    status: FlowStatus::Overflow,
                                    block_size: 0,
                                    st_min: pdu::st_min_byte(cfg.st_min@),
                                },
                            )
                        },
                        Err(IsoTpError::UnexpectedPdu) => d is Ignored,
                        Err(e) => d == RecvDecision::Fail(e),
                    }
                },
            }
        }),
{
    let st_min = pdu::st_min_byte(cfg.st_min@);
    assert(pdu::frame_for(
        cfg,
        PduView::FlowControl { status: FlowStatus::Overflow, block_size: 0, st_min },
    ) is Some);
}

/// Flow control that a peer sends is kept for the transfer to that peer, the last one in place of
/// earlier ones, and changes nothing else.
pub proof fn demux_keeps_flow_control<I>(
    m: DemuxModel<I>,
    base: IsoTpConfig,
    rx_fc: RxFlowControl,
    local: u8,
    functional: Option<u8>,
    frame: FrameView,
    i: int,
    fc: PendingFc,
    max_payload_len: nat,
    max_peers: nat,
)
    requires
        m.wf(max_payload_len, max_peers),
        0 <= i < m.peers.len(),
        pdu::addressed(demux::peer_cfg(base, local, m.peers[i].remote), frame),
        pdu::pdu_in(demux::peer_cfg(base, local, m.peers[i].remote), frame.data) == Some(
            PduView::FlowControl {
                status: fc.status,
                block_size: fc.block_size,
                st_min: fc.st_min,
            },
        ),
    ensures
        ({
            let (after, d) = m.ingested(base, rx_fc, local, functional, frame);
            &&& d == RecvDecision::Report(Progress::InFlight)
            &&& after.peers == m.peers.update(
                i,
                PeerModel { pending_fc: Some(fc), ..m.peers[i] },
            )
            &&& after.free == m.free
            &&& after.ready == m.ready
        }),
{
    let remote = m.peers[i].remote;
    uds29::address_of_uds_id(uds29::Uds29Kind::Physical, local, remote);
    assert(m.is_peer(i, remote));
    let k = m.position(remote)->0;
    assert(m.is_peer(k, remote));
    assert(k == i);
}

/// Flow control that a peer sends to an async demux is kept likewise.
pub proof fn async_demux_keeps_flow_control<I>(
    m: AsyncDemuxModel<I>,
    base: IsoTpConfig,
    rx_fc: RxFlowControl,
    local: u8,
    functional: Option<u8>,
    frame: FrameView,
    now: I,
    i: int,
    fc: PendingFc,
    max_payload_len: nat,
    max_peers: nat,
)
    requires
        m.wf(max_payload_len, max_peers),
        0 <= i < m.peers.len(),
        pdu::addressed(demux::peer_cfg(base, local, m.peers[i].remote), frame),
        pdu::pdu_in(demux::peer_cfg(base, local, m.peers[i].remote), frame.data) == Some(
            PduView::FlowControl {
                status: fc.status,
                block_size: fc.block_size,
                st_min: fc.st_min,
            },
        ),
    ensures
        ({
            let (after, d) = m.ingested(base, rx_fc, local, functional, frame, now);
            &&& d.reply is None
            &&& d.result == Ok::<Progress, IsoTpError<()>>(Progress::InFlight)
            &&& after.peers == m.peers.update(
                i,
                AsyncPeerModel { pending_fc: Some(fc), ..m.peers[i] },
            )
            &&& after.free == m.free
            &&& after.ready == m.ready
        }),
{
    let remote = m.peers[i].remote;
    uds29::address_of_uds_id(uds29::Uds29Kind::Physical, local, remote);
    assert(m.is_peer(i, remote));
    let k = m.position(remote)->0;
    assert(m.is_peer(k, remote));
    assert(k == i);
}

/// Every frame that a transfer takes in restarts its receive timeout: a peer whose reassembly moved
/// and is still receiving made progress now. One that is no longer receiving has no timeout
/// running.
pub proof fn progress_restarts_the_timeout<I>(
    m: AsyncDemuxModel<I>,
    base: IsoTpConfig,
    rx_fc: RxFlowControl,
    local: u8,
    functional: Option<u8>,
    frame: FrameView,
    now: I,
    i: int,
)
    requires
        0 <= i < m.ingested(base, rx_fc, local, functional, frame, now).0.peers.len(),
    ensures
        ({
            let p = m.ingested(base, rx_fc, local, functional, frame, now).0.peers[i];
            let moved = i >= m.peers.len() || p.rx != m.peers[i].rx;
            &&& moved && p.rx.state is Receiving ==> p.rx_last_activity == Some(now)
            &&& moved && p.rx.state is Idle ==> p.rx_last_activity is None
            &&& !moved && uds29::address_of(frame.id) is None ==> p.rx_last_activity
                == m.peers[i].rx_last_activity
        }),
{
}

/// A transfer is abandoned only when it stalled: where the timeout check changed a peer that was
/// receiving, the clock had measured at least `n_br` since the last frame; and a transfer that was
/// kept, it had measured less.
pub proof fn only_stalled_transfers_are_abandoned<C: Clock>(
    clock: C,
    n_br: Duration,
    m: AsyncDemuxModel<C::Instant>,
    n: AsyncDemuxModel<C::Instant>,
    i: int,
)
    requires
        async_demux::expired(clock, n_br, m, n),
        0 <= i < m.peers.len(),
        m.peers[i].rx.state is Receiving,
        m.peers[i].rx_last_activity is Some,
    ensures
        ({
            let since = m.peers[i].rx_last_activity->0;
            exists|elapsed: Duration| #[trigger]
                call_ensures(C::elapsed, (&clock, since), elapsed) && (if elapsed@ < n_br@ {
                    n.peers[i] == m.peers[i]
                } else {
                    &&& n.peers[i].rx.state is Idle
                    &&& n.peers[i].rx.written == 0
                    &&& n.peers[i].rx_last_activity is None
                    &&& n.peers[i].remote == m.peers[i].remote
                    &&& n.peers[i].rx.storage == m.peers[i].rx.storage
                    &&& n.peers[i].pending_fc == m.peers[i].pending_fc
                    &&& n.peers[i].rx_ready == m.peers[i].rx_ready
                })
        }),
{
    assert(async_demux::peer_expired(clock, n_br, m.peers[i], n.peers[i]));
}

/// Where no transfer is under way, a timeout check leaves the reassembly alone.
pub proof fn timeout_check_leaves_the_idle_alone<C: Clock>(
    clock: C,
    n_br: Duration,
    m: AsyncDemuxModel<C::Instant>,
    n: AsyncDemuxModel<C::Instant>,
    i: int,
)
    requires
        async_demux::expired(clock, n_br, m, n),
        0 <= i < m.peers.len(),
        m.peers[i].rx.state is Idle,
    ensures
        n.peers.len() == m.peers.len(),
        n.peers[i].rx == m.peers[i].rx,
        n.peers[i].rx_ready == m.peers[i].rx_ready,
        n.peers[i].remote == m.peers[i].remote,
        n.peers[i].pending_fc == m.peers[i].pending_fc,
        n.free == m.free,
        n.ready == m.ready,
{
    assert(async_demux::peer_expired(clock, n_br, m.peers[i], n.peers[i]));
}

/// Whether less than `n_br` has passed since an instant, whenever the clock is read.
pub open spec fn recent<C: Clock>(clock: C, n_br: Duration, since: C::Instant) -> bool {
    forall|elapsed: Duration| #[trigger]
        call_ensures(C::elapsed, (&clock, since), elapsed) ==> elapsed@ < n_br@
}

/// What an async demux goes through while it takes in frames one after the other, each of them
/// after a check of the receive timeouts.
pub struct Reception<C: Clock> {
    /// Clock of the demux.
    pub clock: C,
    /// Configuration and addresses.
    pub setup: Setup,
    /// Flow-control parameters that the demux advertises.
    pub rx_fc: RxFlowControl,
    /// The frames.
    pub frames: Seq<FrameView>,
    /// When each frame was taken in.
    pub nows: Seq<C::Instant>,
    /// State before each frame, and after the last one.
    pub states: Seq<AsyncDemuxModel<C::Instant>>,
    /// State between the timeout check and the frame.
    pub checked: Seq<AsyncDemuxModel<C::Instant>>,
}

impl<C: Clock> Reception<C> {
    /// Each state follows from the one before.
    pub open spec fn wf(self, max_peers: nat) -> bool {
        &&& self.nows.len() == self.frames.len()
        &&& self.checked.len() == self.frames.len()
        &&& self.states.len() == self.frames.len() + 1
        &&& self.states[0].wf(self.setup.base.max_payload_len as nat, max_peers)
        &&& max_peers <= usize::MAX
        &&& forall|j: int|
            0 <= j < self.frames.len() ==> async_demux::expired(
                self.clock,
                self.setup.base.n_br,
                self.states[j],
                #[trigger] self.checked[j],
            ) && self.states[j + 1] == self.checked[j].ingested(
                self.setup.base,
                self.rx_fc,
                self.setup.local,
                self.setup.functional,
                self.frames[j],
                self.nows[j],
            ).0
    }

    /// The frames at these positions, and no others, come from this source.
    pub open spec fn only_from(self, source: u8, at: Seq<int>) -> bool {
        &&& self.setup.from_source(self.frames, source, at)
        &&& forall|j: int|
            0 <= j < self.frames.len() && !at.contains(j) ==> !(uds29::address_of(
                (#[trigger] self.frames[j]).id,
            ) matches Some(addr) && addr.source == source)
    }

    /// None of the frames at these positions is long past.
    pub open spec fn keeps_up(self, at: Seq<int>) -> bool {
        forall|k: int|
            0 <= k < at.len() ==> recent(
                self.clock,
                self.setup.base.n_br,
                self.nows[#[trigger] at[k]],
            )
    }

    /// The PDUs at these positions.
    pub open spec fn pdus(self, source: u8, at: Seq<int>) -> Seq<PduView> {
        self.setup.pdus(self.frames, source, at)
    }

    /// Where a peer stands after the first `k` of its PDUs.
    spec fn stands(self, j: int, i: int, source: u8, at: Seq<int>, k: int) -> bool {
        let p = self.states[j].peers[i];
        &&& i < self.states[j].peers.len()
        &&& p.remote == source
        &&& !p.rx_ready
        &&& k > 0 ==> {
            &&& holds_segments(p.rx, self.pdus(source, at), k)
            &&& p.rx_last_activity == Some(self.nows[at[k - 1]])
        }
    }
}

/// Whether a transfer is under way that has taken in the first `k` PDUs and lacks bytes.
spec fn holds_segments(m: RxModel, pdus: Seq<PduView>, k: int) -> bool {
    &&& m.state is Receiving
    &&& rx::segments(pdus, m.expected_len)
    &&& m.next_sn == k % 16
    &&& m.received() == rx::joined(pdus.take(k))
    &&& m.written < m.expected_len
}

/// Taking PDUs off the end leaves no more bytes.
proof fn joined_grows(pdus: Seq<PduView>, k: int)
    requires
        0 <= k <= pdus.len(),
    ensures
        rx::joined(pdus.take(k)).len() <= rx::joined(pdus).len(),
    decreases pdus.len() - k,
{
    if k < pdus.len() {
        joined_grows(pdus, k + 1);
        assert(pdus.take(k + 1).drop_last() =~= pdus.take(k));
    } else {
        assert(pdus.take(k) =~= pdus);
    }
}

/// The next PDU of a transfer is taken in; the last one completes the payload.
proof fn next_segment_is_taken(
    m: RxModel,
    limit: nat,
    rx_fc: RxFlowControl,
    pdus: Seq<PduView>,
    payload: Seq<u8>,
    k: int,
)
    requires
        m.consistent(),
        m.storage.len() >= limit,
        limit <= 4095,
        rx::carry(pdus, payload),
        payload.len() <= limit,
        0 <= k < pdus.len(),
        pdus.len() == 1 ==> pdus[0] is SingleFrame,
        k > 0 ==> holds_segments(m, pdus, k),
    ensures
        ({
            let (n, r) = m.on_pdu(limit, rx_fc, pdus[k]);
            if k == pdus.len() - 1 {
                r matches Ok(RxOutcome::Completed(_)) && n.received() == payload
            } else {
                r matches Ok(o) && !(o is Completed) && holds_segments(n, pdus, k + 1)
            }
        }),
{
    let data = rx::carried_data(pdus[k]);
    let now = pdus.take(k + 1);
    assert(rx::joined(now) == rx::joined(pdus.take(k)) + data) by {
        assert(now.drop_last() =~= pdus.take(k));
        assert(now.last() == pdus[k]);
    }
    if pdus.len() == 1 {
        let (len, bytes) = (pdus[0]->SingleFrame_len, pdus[0]->SingleFrame_data);
        single_frame_is_a_whole_payload(m, limit, rx_fc, len, bytes);
    } else {
        let last = pdus.len() - 1;
        assert(pdus.drop_last() =~= pdus.take(last));
        assert(k < last ==> rx::joined(now).len() < payload.len()) by {
            if k < last {
                assert(pdus.drop_last().take(k + 1) =~= now);
                joined_grows(pdus.drop_last(), k + 1);
            }
        }
        if k == 0 {
            let (len, bytes) = (pdus[0]->FirstFrame_len, pdus[0]->FirstFrame_data);
            assert(rx::joined(pdus.take(0)) =~= Seq::empty()) by {
                assert(pdus.take(0) =~= Seq::empty());
            }
            assert(rx::joined(now) =~= bytes);
            first_frame_starts_a_transfer(m, limit, rx_fc, len, bytes);
        } else {
            let sn = pdus[k]->ConsecutiveFrame_sn;
            assert(pdus[k] == (PduView::ConsecutiveFrame { sn, data }));
            consecutive_frame_adds_its_bytes(m, limit, rx_fc, sn, data);
            assert(m.received().len() == m.written);
            if k == last {
                assert(now =~= pdus);
                assert(m.received() + at_most(data, m.expected_len - m.written) =~= payload);
            } else {
                assert(m.received() + at_most(data, m.expected_len - m.written) =~= rx::joined(now));
            }
        }
    }
}

/// What the frame of a peer with no payload waiting comes to in an async demux.
proof fn own_frame_is_reassembled<I>(
    m: AsyncDemuxModel<I>,
    setup: Setup,
    rx_fc: RxFlowControl,
    frame: FrameView,
    now: I,
    i: int,
    max_peers: nat,
)
    requires
        m.wf(setup.base.max_payload_len as nat, max_peers),
        max_peers <= usize::MAX,
        0 <= i < m.peers.len(),
        !m.peers[i].rx_ready,
        setup.heard(frame, m.peers[i].remote) matches Some(p) && !(p is FlowControl),
    ensures
        ({
            let after = m.ingested(
                setup.base,
                rx_fc,
                setup.local,
                setup.functional,
                frame,
                now,
            ).0;
            let p = setup.heard(frame, m.peers[i].remote)->0;
            let (rx, r) = m.peers[i].rx.on_pdu(setup.base.max_payload_len as nat, rx_fc, p);
            &&& r matches Ok(RxOutcome::Completed(_)) ==> {
                &&& after.waiting().len() > 0
                &&& after.waiting().last() == (m.peers[i].remote, rx.received())
            }
            &&& r matches Ok(o) ==> (!(o is Completed) ==> {
                &&& after.peers[i].rx == rx
                &&& after.peers[i].remote == m.peers[i].remote
                &&& !after.peers[i].rx_ready
                &&& rx.state is Receiving ==> after.peers[i].rx_last_activity == Some(now)
            })
        }),
{
    let remote = m.peers[i].remote;
    assert(m.is_peer(i, remote));
    let k = m.position(remote)->0;
    assert(m.is_peer(k, remote));
    assert(k == i);
}

/// Where a peer stands follows from the frames so far.
proof fn peer_stands<C: Clock>(
    h: Reception<C>,
    i: int,
    source: u8,
    at: Seq<int>,
    payload: Seq<u8>,
    j: int,
    k: int,
    max_peers: nat,
)
    requires
        h.wf(max_peers),
        h.only_from(source, at),
        h.keeps_up(at),
        rx::carry(h.pdus(source, at), payload),
        at.len() == 1 ==> h.pdus(source, at)[0] is SingleFrame,
        payload.len() <= h.setup.base.max_payload_len <= 4095,
        0 <= i < h.states[0].peers.len(),
        h.states[0].peers[i].remote == source,
        !h.states[0].peers[i].rx_ready,
        0 <= j <= h.frames.len(),
        0 <= k < at.len(),
        k > 0 ==> at[k - 1] < j,
        at[k] >= j,
    ensures
        h.states[j].wf(h.setup.base.max_payload_len as nat, max_peers),
        h.stands(j, i, source, at, k),
    decreases j,
{
    let limit = h.setup.base.max_payload_len as nat;
    let pdus = h.pdus(source, at);
    if j > 0 {
        let own = k > 0 && at[k - 1] == j - 1;
        let before = if own {
            k - 1
        } else {
            k
        };
        peer_stands(h, i, source, at, payload, j - 1, before, max_peers);
        let m = h.states[j - 1];
        let n = h.checked[j - 1];
        let frame = h.frames[j - 1];
        let now = h.nows[j - 1];
        assert(async_demux::expired(h.clock, h.setup.base.n_br, m, n));
        provenance::expiry_keeps_wf(h.clock, h.setup, m, n, limit, max_peers);
        assert(async_demux::peer_expired(h.clock, h.setup.base.n_br, m.peers[i], n.peers[i]));
        if before > 0 {
            assert(recent(h.clock, h.setup.base.n_br, h.nows[at[before - 1]]));
        }
        assert(n.peers[i].wf(limit));
        provenance::async_frame_keeps_wf(h.setup, frame, h.rx_fc, now, n, max_peers);
        if own {
            let p = pdus[k - 1];
            assert(frame == h.frames[at[k - 1]]);
            assert(h.setup.heard(frame, source) == Some(p));
            own_frame_is_reassembled(n, h.setup, h.rx_fc, frame, now, i, max_peers);
            next_segment_is_taken(n.peers[i].rx, limit, h.rx_fc, pdus, payload, k - 1);
        } else {
            assert(!at.contains(j - 1)) by {
                if at.contains(j - 1) {
                    let x = choose|x: int| 0 <= x < at.len() && at[x] == j - 1;
                    if x < k - 1 {
                        assert(at[x] < at[k - 1]);
                    } else if x > k {
                        assert(at[k] < at[x]);
                    }
                }
            }
            async_demux::sources_do_not_mix(
                n,
                h.setup.base,
                h.rx_fc,
                h.setup.local,
                h.setup.functional,
                frame,
                now,
                i,
            );
        }
    }
}

/// A payload whose frames keep up is delivered: where a source that was met and has no payload
/// waiting sends a payload, in one Single Frame or in a First Frame and its Consecutive Frames, each
/// of which comes before `n_br` has passed since the one before, then the payload is the last to be
/// delivered once its last frame is in, however often the receive timeouts were checked and
/// whatever frames of other sources came in between.
pub proof fn payload_that_keeps_up_is_delivered<C: Clock>(
    h: Reception<C>,
    i: int,
    source: u8,
    at: Seq<int>,
    payload: Seq<u8>,
    max_peers: nat,
)
    requires
        h.wf(max_peers),
        h.only_from(source, at),
        h.keeps_up(at),
        rx::carry(h.pdus(source, at), payload),
        at.len() == 1 ==> h.pdus(source, at)[0] is SingleFrame,
        payload.len() <= h.setup.base.max_payload_len <= 4095,
        0 <= i < h.states[0].peers.len(),
        h.states[0].peers[i].remote == source,
        !h.states[0].peers[i].rx_ready,
        at.last() == h.frames.len() - 1,
    ensures
        h.states.last().waiting().len() > 0,
        h.states.last().waiting().last() == (source, payload),
{
    let limit = h.setup.base.max_payload_len as nat;
    let pdus = h.pdus(source, at);
    let j = h.frames.len() as int;
    let k = at.len() - 1;
    peer_stands(h, i, source, at, payload, j - 1, k, max_peers);
    let m = h.states[j - 1];
    let n = h.checked[j - 1];
    assert(async_demux::expired(h.clock, h.setup.base.n_br, m, n));
    provenance::expiry_keeps_wf(h.clock, h.setup, m, n, limit, max_peers);
    assert(async_demux::peer_expired(h.clock, h.setup.base.n_br, m.peers[i], n.peers[i]));
    if k > 0 {
        assert(recent(h.clock, h.setup.base.n_br, h.nows[at[k - 1]]));
    }
    assert(n.peers[i].wf(limit));
    assert(h.setup.heard(h.frames[at[k]], source) == Some(pdus[k]));
    own_frame_is_reassembled(
        n,
        h.setup,
        h.rx_fc,
        h.frames[j - 1],
        h.nows[j - 1],
        i,
        max_peers,
    );
    next_segment_is_taken(n.peers[i].rx, limit, h.rx_fc, pdus, payload, k);
}

} // verus!
