//! Where the payloads come from that a demux delivers.

use crate::async_demux;
use crate::async_demux::{AsyncDemuxModel, AsyncPeerModel, ReadyModel};
use crate::config::{IsoTpConfig, RxFlowControl};
use crate::demux;
use crate::demux::{DemuxModel, PeerModel};
use crate::id::FrameView;
use crate::node::RecvDecision;
use crate::pdu;
use crate::pdu::PduView;
use crate::rx;
use crate::rx::RxModel;
use crate::timer::Clock;
use crate::tx::Progress;
use crate::uds29;
use vstd::prelude::*;

verus! {

/// What a demux is set up with: the base configuration, the node's address, and the functional
/// address that it listens to.
pub struct Setup {
    /// Base configuration.
    pub base: IsoTpConfig,
    /// Address of the node.
    pub local: u8,
    /// Functional address that the node listens to.
    pub functional: Option<u8>,
}

impl Setup {
    /// The PDU that a frame carries to the node from this source, if it does. Functional addressing
    /// is for Single Frames only.
    pub open spec fn heard(self, frame: FrameView, source: u8) -> Option<PduView> {
        match uds29::address_of(frame.id) {
            Some(addr) if demux::targets(addr, self.local, self.functional) && addr.source
                == source => {
                let cfg = demux::peer_cfg(self.base, self.local, source);
                match pdu::pdu_in(cfg, frame.data) {
                    Some(p) if pdu::has_address(cfg, frame.data) && (addr.kind is Physical
                        || p is SingleFrame) => Some(p),
                    _ => None,
                }
            },
            _ => None,
        }
    }

    /// Whether these are positions of frames from this source, in order.
    pub open spec fn from_source(self, frames: Seq<FrameView>, source: u8, at: Seq<int>) -> bool {
        &&& forall|k: int|
            0 <= k < at.len() ==> 0 <= #[trigger] at[k] < frames.len() && self.heard(
                frames[at[k]],
                source,
            ) is Some
        &&& forall|j: int, k: int| 0 <= j < k < at.len() ==> #[trigger] at[j] < #[trigger] at[k]
    }

    /// The PDUs from this source at these positions.
    pub open spec fn pdus(self, frames: Seq<FrameView>, source: u8, at: Seq<int>) -> Seq<PduView> {
        Seq::new(at.len(), |k: int| self.heard(frames[at[k]], source)->0)
    }

    /// Whether some frames from this source, in order, carry the payload.
    pub open spec fn sent_by(self, frames: Seq<FrameView>, source: u8, payload: Seq<u8>) -> bool {
        exists|at: Seq<int>|
            #[trigger] self.from_source(frames, source, at) && rx::carry(
                self.pdus(frames, source, at),
                payload,
            )
    }

    /// Whether the transfer under way consists of some frames from this source, in order.
    pub open spec fn being_sent_by(self, frames: Seq<FrameView>, source: u8, m: RxModel) -> bool {
        exists|at: Seq<int>|
            #[trigger] self.from_source(frames, source, at) && rx::under_way(
                m,
                self.pdus(frames, source, at),
            )
    }

    /// Whether all that a demux holds comes from these frames: each payload that waits, and each
    /// transfer under way, is made of frames from its source.
    pub open spec fn accounts_for<I>(self, frames: Seq<FrameView>, m: DemuxModel<I>) -> bool {
        forall|i: int|
            0 <= i < m.peers.len() ==> self.peer_accounted_for(
                frames,
                (#[trigger] m.peers[i]).remote,
                m.peers[i].rx,
                m.peers[i].rx_ready,
            )
    }

    /// Whether what a peer's reassembly holds comes from these frames: a transfer under way, or a
    /// payload that is ready.
    pub open spec fn peer_accounted_for(
        self,
        frames: Seq<FrameView>,
        source: u8,
        m: RxModel,
        ready: bool,
    ) -> bool {
        &&& m.state is Receiving ==> self.being_sent_by(frames, source, m)
        &&& ready ==> self.sent_by(frames, source, m.received())
    }

    /// Whether all that an async demux holds comes from these frames: each payload that waits, and each
    /// transfer under way, is made of frames from its source.
    pub open spec fn async_accounts_for<I>(self, frames: Seq<FrameView>, m: AsyncDemuxModel<I>) -> bool {
        &&& forall|k: int|
            0 <= k < m.ready.len() ==> self.sent_by(
                frames,
                (#[trigger] m.waiting()[k]).0,
                m.waiting()[k].1,
            )
        &&& forall|i: int|
            0 <= i < m.peers.len() && (#[trigger] m.peers[i]).rx.state is Receiving
                ==> self.being_sent_by(frames, m.peers[i].remote, m.peers[i].rx)
    }
}

/// Something that changes an async demux. To take in a frame is to check receive timeouts first; to
/// start a transfer is to meet the peer and to forget the flow control that it sent before.
pub enum AsyncDemuxEvent<I> {
    /// A frame was taken in at `now`, under these flow-control parameters.
    Frame { frame: FrameView, rx_fc: RxFlowControl, now: I },
    /// Receive timeouts were checked.
    Expiry,
    /// The oldest payload was delivered.
    Delivery,
    /// The oldest payload did not fit into the caller's buffer.
    Refusal,
    /// A transfer to this address was started.
    Meeting(u8),
    /// The Flow Control frame from this address was looked at.
    ControlTaken(u8),
}

/// Whether an event takes an async demux from `m` to `n`.
pub open spec fn async_takes<C: Clock>(
    clock: C,
    setup: Setup,
    event: AsyncDemuxEvent<C::Instant>,
    m: AsyncDemuxModel<C::Instant>,
    n: AsyncDemuxModel<C::Instant>,
) -> bool {
    match event {
        AsyncDemuxEvent::Frame { frame, rx_fc, now } => n == m.ingested(
            setup.base,
            rx_fc,
            setup.local,
            setup.functional,
            frame,
            now,
        ).0,
        AsyncDemuxEvent::Expiry => async_demux::expired(clock, setup.base.n_br, m, n),
        AsyncDemuxEvent::Delivery => m.ready.len() > 0 && n == m.delivered(),
        AsyncDemuxEvent::Refusal => m.ready.len() > 0 && n == m.requeued(),
        AsyncDemuxEvent::Meeting(remote) => m.admitted(setup.local, remote) matches Ok((met, _)) && n
            == met,
        AsyncDemuxEvent::ControlTaken(remote) => m.position(remote) matches Some(i) && n
            == async_demux::without_pending(m, i),
    }
}

/// The frames among events, in order.
pub open spec fn async_frames_of<I>(events: Seq<AsyncDemuxEvent<I>>) -> Seq<FrameView>
    decreases events.len(),
{
    if events.len() == 0 {
        Seq::empty()
    } else {
        let before = async_frames_of(events.drop_last());
        match events.last() {
            AsyncDemuxEvent::Frame { frame, .. } => before.push(frame),
            _ => before,
        }
    }
}

/// Whether `states` are the states that a new async demux goes through under `events`.
pub open spec fn async_history<C: Clock>(
    clock: C,
    setup: Setup,
    max_peers: nat,
    events: Seq<AsyncDemuxEvent<C::Instant>>,
    states: Seq<AsyncDemuxModel<C::Instant>>,
) -> bool {
    &&& states.len() == events.len() + 1
    &&& states[0].wf(setup.base.max_payload_len as nat, max_peers)
    &&& states[0].peers.len() == 0
    &&& states[0].ready.len() == 0
    &&& forall|j: int|
        0 <= j < events.len() ==> async_takes(
            clock,
            setup,
            #[trigger] events[j],
            states[j],
            states[j + 1],
        )
}

/// More frames take nothing back.
proof fn more_frames_keep_sources(
    setup: Setup,
    frames: Seq<FrameView>,
    frame: FrameView,
    source: u8,
    at: Seq<int>,
)
    requires
        setup.from_source(frames, source, at),
    ensures
        setup.from_source(frames.push(frame), source, at),
        setup.pdus(frames.push(frame), source, at) == setup.pdus(frames, source, at),
{
    let more = frames.push(frame);
    assert forall|k: int| 0 <= k < at.len() implies 0 <= #[trigger] at[k] < more.len()
        && setup.heard(more[at[k]], source) is Some by {
        assert(more[at[k]] == frames[at[k]]);
    }
    assert(setup.pdus(more, source, at) =~= setup.pdus(frames, source, at));
}

proof fn more_frames_keep_payload(
    setup: Setup,
    frames: Seq<FrameView>,
    frame: FrameView,
    source: u8,
    payload: Seq<u8>,
)
    requires
        setup.sent_by(frames, source, payload),
    ensures
        setup.sent_by(frames.push(frame), source, payload),
{
    let at = choose|at: Seq<int>|
        #[trigger] setup.from_source(frames, source, at) && rx::carry(
            setup.pdus(frames, source, at),
            payload,
        );
    more_frames_keep_sources(setup, frames, frame, source, at);
}

proof fn more_frames_keep_transfer(
    setup: Setup,
    frames: Seq<FrameView>,
    frame: FrameView,
    source: u8,
    m: RxModel,
)
    requires
        setup.being_sent_by(frames, source, m),
    ensures
        setup.being_sent_by(frames.push(frame), source, m),
{
    let at = choose|at: Seq<int>|
        #[trigger] setup.from_source(frames, source, at) && rx::under_way(
            m,
            setup.pdus(frames, source, at),
        );
    more_frames_keep_sources(setup, frames, frame, source, at);
}

/// What the reassembly of a peer makes of the PDU in a frame from that peer is made of the frames
/// from that peer.
proof fn reassembly_is_accounted_for(
    setup: Setup,
    frames: Seq<FrameView>,
    frame: FrameView,
    source: u8,
    rx_fc: RxFlowControl,
    m: RxModel,
    p: PduView,
)
    requires
        m.consistent(),
        m.state is Receiving ==> setup.being_sent_by(frames, source, m),
        setup.heard(frame, source) == Some(p),
    ensures
        ({
            let (n, r) = m.on_pdu(setup.base.max_payload_len as nat, rx_fc, p);
            &&& n.state is Receiving ==> setup.being_sent_by(frames.push(frame), source, n)
            &&& r matches Ok(rx::RxOutcome::Completed(_)) ==> setup.sent_by(
                frames.push(frame),
                source,
                n.received(),
            )
        }),
{
    let more = frames.push(frame);
    let here = frames.len() as int;
    let at: Seq<int> = if m.state is Receiving {
        choose|at: Seq<int>|
            #[trigger] setup.from_source(frames, source, at) && rx::under_way(
                m,
                setup.pdus(frames, source, at),
            )
    } else {
        Seq::empty()
    };
    assert(setup.from_source(frames, source, at));
    let pdus = setup.pdus(frames, source, at);
    more_frames_keep_sources(setup, frames, frame, source, at);
    rx::payload_is_what_its_pdus_carry(m, setup.base.max_payload_len as nat, rx_fc, pdus, p);
    let alone: Seq<int> = seq![here];
    assert(more[here] == frame);
    assert(setup.from_source(more, source, alone));
    assert(setup.pdus(more, source, alone) =~= seq![p]);
    let longer = at.push(here);
    assert forall|k: int| 0 <= k < longer.len() implies 0 <= #[trigger] longer[k] < more.len()
        && setup.heard(more[longer[k]], source) is Some by {
        if k < at.len() {
            assert(longer[k] == at[k]);
        }
    }
    assert forall|j: int, k: int| 0 <= j < k < longer.len() implies #[trigger] longer[j]
        < #[trigger] longer[k] by {
        assert(longer[j] == at[j]);
        if k < at.len() {
            assert(longer[k] == at[k]);
        }
    }
    assert(setup.from_source(more, source, longer));
    assert(setup.pdus(more, source, longer) =~= pdus.push(p)) by {
        assert forall|k: int| 0 <= k < longer.len() implies #[trigger] setup.pdus(
            more,
            source,
            longer,
        )[k] == pdus.push(p)[k] by {
            if k < at.len() {
                assert(longer[k] == at[k]);
                assert(setup.pdus(more, source, at)[k] == pdus[k]);
            }
        }
    }
}

/// Meeting a peer keeps the invariant and leaves the payloads that wait alone.
proof fn async_meeting_keeps_wf<I>(
    m: AsyncDemuxModel<I>,
    local: u8,
    remote: u8,
    max_payload_len: nat,
    max_peers: nat,
)
    requires
        m.wf(max_payload_len, max_peers),
    ensures
        m.admitted(local, remote) matches Ok((n, i)) ==> {
            &&& n.wf(max_payload_len, max_peers)
            &&& n.is_peer(i, remote)
            &&& n.waiting() == m.waiting()
            &&& forall|j: int|
                0 <= j < n.peers.len() && (#[trigger] n.peers[j]).rx.state is Receiving ==> j
                    < m.peers.len() && n.peers[j] == m.peers[j]
        },
{
    if let Ok((n, i)) = m.admitted(local, remote) {
        if m.position(remote) is None {
            assert(m.free[0].len() >= max_payload_len);
            assert forall|j: int| 0 <= j < n.peers.len() implies (#[trigger] n.peers[j]).wf(
                max_payload_len,
            ) by {
                if j < m.peers.len() {
                    assert(n.peers[j] == m.peers[j]);
                }
            }
            assert forall|j: int| 0 <= j < n.free.len() implies (#[trigger] n.free[j]).len()
                >= max_payload_len by {
                assert(n.free[j] == m.free[j + 1]);
            }
            assert forall|j: int, k: int| 0 <= j < k < n.peers.len() implies (
            #[trigger] n.peers[j]).remote != (#[trigger] n.peers[k]).remote by {
                assert(n.peers[j] == m.peers[j]);
                if k < m.peers.len() {
                    assert(n.peers[k] == m.peers[k]);
                } else {
                    assert(!m.is_peer(j, remote));
                }
            }
            assert forall|k: int| 0 <= k < n.ready.len() implies match #[trigger] n.ready[k] {
                ReadyModel::Peer(j) => j < n.peers.len() && n.peers[j as int].rx_ready,
                ReadyModel::Spilled { len, storage, .. } => len <= storage.len() && storage.len()
                    >= max_payload_len,
            } by {
                assert(n.ready[k] == m.ready[k]);
            }
            assert forall|j: usize|
                #![trigger n.ready.contains(ReadyModel::Peer(j))]
                j < n.peers.len() && n.peers[j as int].rx_ready implies n.ready.contains(
                ReadyModel::Peer(j),
            ) by {
                assert(m.ready.contains(ReadyModel::Peer(j)));
            }
            assert(n.waiting() =~= m.waiting()) by {
                assert forall|k: int| 0 <= k < m.ready.len() implies #[trigger] n.waiting()[k]
                    == m.waiting()[k] by {
                    assert(n.ready[k] == m.ready[k]);
                    assert(m.ready[k] is Peer || m.ready[k] is Spilled);
                }
            }
        }
    }
}

/// Checking receive timeouts keeps the invariant, the payloads that wait, and the transfers that
/// are still under way.
pub(crate) proof fn expiry_keeps_wf<C: Clock>(
    clock: C,
    setup: Setup,
    m: AsyncDemuxModel<C::Instant>,
    n: AsyncDemuxModel<C::Instant>,
    max_payload_len: nat,
    max_peers: nat,
)
    requires
        m.wf(max_payload_len, max_peers),
        async_demux::expired(clock, setup.base.n_br, m, n),
    ensures
        n.wf(max_payload_len, max_peers),
        n.waiting() == m.waiting(),
        forall|j: int|
            0 <= j < n.peers.len() && (#[trigger] n.peers[j]).rx.state is Receiving
                ==> n.peers[j].rx == m.peers[j].rx && n.peers[j].remote == m.peers[j].remote,
{
    async_demux::expiry_keeps_waiting_payloads(
        clock,
        setup.base.n_br,
        m,
        n,
        max_payload_len,
        max_peers,
    );
    assert forall|j: int| 0 <= j < n.peers.len() implies {
        let (p, q) = (m.peers[j], #[trigger] n.peers[j]);
        &&& q.wf(max_payload_len)
        &&& q.remote == p.remote
        &&& q.rx_ready == p.rx_ready
        &&& q.rx.state is Receiving ==> q.rx == p.rx
    } by {
        assert(m.peers[j].wf(max_payload_len));
        assert(async_demux::peer_expired(clock, setup.base.n_br, m.peers[j], n.peers[j]));
    }
    assert forall|k: int| 0 <= k < n.ready.len() implies match #[trigger] n.ready[k] {
        ReadyModel::Peer(j) => j < n.peers.len() && n.peers[j as int].rx_ready,
        ReadyModel::Spilled { len, storage, .. } => len <= storage.len() && storage.len()
            >= max_payload_len,
    } by {
        assert(n.ready[k] == m.ready[k]);
    }
    assert forall|j: usize|
        #![trigger n.ready.contains(ReadyModel::Peer(j))]
        j < n.peers.len() && n.peers[j as int].rx_ready implies n.ready.contains(
        ReadyModel::Peer(j),
    ) by {
        assert(m.ready.contains(ReadyModel::Peer(j)));
    }
    assert forall|j: int, k: int| 0 <= j < k < n.peers.len() implies (#[trigger] n.peers[j]).remote
        != (#[trigger] n.peers[k]).remote by {
        assert(m.peers[j].remote != m.peers[k].remote);
    }
}

/// A frame keeps the invariant.
pub(crate) proof fn async_frame_keeps_wf<I>(
    setup: Setup,
    frame: FrameView,
    rx_fc: RxFlowControl,
    now: I,
    m: AsyncDemuxModel<I>,
    max_peers: nat,
)
    requires
        m.wf(setup.base.max_payload_len as nat, max_peers),
        max_peers <= usize::MAX,
    ensures
        m.ingested(setup.base, rx_fc, setup.local, setup.functional, frame, now).0.wf(
            setup.base.max_payload_len as nat,
            max_peers,
        ),
{
    let limit = setup.base.max_payload_len as nat;
    match uds29::address_of(frame.id) {
        Some(addr) if demux::targets(addr, setup.local, setup.functional) => {
            async_meeting_keeps_wf(m, setup.local, addr.source, limit, max_peers);
            if let Ok((n, i)) = m.admitted(setup.local, addr.source) {
                let cfg = demux::peer_cfg(setup.base, setup.local, addr.source);
                let functional = addr.kind is Functional;
                let p = n.peers[i];
                let (q, outcome) = async_demux::async_peer_ingested(
                    cfg,
                    rx_fc,
                    p,
                    functional,
                    frame.data,
                    now,
                );
                assert(p.wf(limit));
                async_demux::ingesting_keeps_peer_wf(
                    cfg,
                    rx_fc,
                    p,
                    functional,
                    frame.data,
                    now,
                    limit,
                );
                let mid = AsyncDemuxModel { peers: n.peers.update(i, q), ..n };
                async_demux::peer_change_keeps_wf(n, i, q, limit, max_peers);
                if outcome is Completed {
                    async_demux::queueing_keeps_wf(mid, i, limit, max_peers);
                }
            }
        },
        _ => {},
    }
}

/// A frame keeps the invariant, and all that the demux holds afterwards comes from the frames.
proof fn async_frame_is_accounted_for<I>(
    setup: Setup,
    frames: Seq<FrameView>,
    frame: FrameView,
    rx_fc: RxFlowControl,
    now: I,
    m: AsyncDemuxModel<I>,
    max_peers: nat,
)
    requires
        m.wf(setup.base.max_payload_len as nat, max_peers),
        max_peers <= usize::MAX,
        setup.async_accounts_for(frames, m),
    ensures
        ({
            let after = m.ingested(
                setup.base,
                rx_fc,
                setup.local,
                setup.functional,
                frame,
                now,
            ).0;
            &&& after.wf(setup.base.max_payload_len as nat, max_peers)
            &&& setup.async_accounts_for(frames.push(frame), after)
        }),
{
    let limit = setup.base.max_payload_len as nat;
    let more = frames.push(frame);
    let (after, d) = m.ingested(setup.base, rx_fc, setup.local, setup.functional, frame, now);
    assert forall|k: int| 0 <= k < m.ready.len() implies setup.sent_by(
        more,
        (#[trigger] m.waiting()[k]).0,
        m.waiting()[k].1,
    ) by {
        more_frames_keep_payload(setup, frames, frame, m.waiting()[k].0, m.waiting()[k].1);
    }
    assert forall|i: int|
        0 <= i < m.peers.len() && (
        #[trigger] m.peers[i]).rx.state is Receiving implies setup.being_sent_by(
        more,
        m.peers[i].remote,
        m.peers[i].rx,
    ) by {
        more_frames_keep_transfer(setup, frames, frame, m.peers[i].remote, m.peers[i].rx);
    }
    match uds29::address_of(frame.id) {
        Some(addr) if demux::targets(addr, setup.local, setup.functional) => {
            async_meeting_keeps_wf(m, setup.local, addr.source, limit, max_peers);
            if let Ok((n, i)) = m.admitted(setup.local, addr.source) {
                let cfg = demux::peer_cfg(setup.base, setup.local, addr.source);
                let functional = addr.kind is Functional;
                let p = n.peers[i];
                let (q, outcome) = async_demux::async_peer_ingested(
                    cfg,
                    rx_fc,
                    p,
                    functional,
                    frame.data,
                    now,
                );
                assert(p.wf(limit));
                assert(p.rx.state is Receiving ==> setup.being_sent_by(
                    frames,
                    addr.source,
                    p.rx,
                ));
                async_demux::ingesting_keeps_peer_wf(
                    cfg,
                    rx_fc,
                    p,
                    functional,
                    frame.data,
                    now,
                    limit,
                );
                if let Some(pdu) = setup.heard(frame, addr.source) {
                    reassembly_is_accounted_for(
                        setup,
                        frames,
                        frame,
                        addr.source,
                        rx_fc,
                        p.rx,
                        pdu,
                    );
                }
                if p.rx.state is Receiving {
                    more_frames_keep_transfer(setup, frames, frame, addr.source, p.rx);
                }
                assert(q.rx.state is Receiving ==> setup.being_sent_by(more, addr.source, q.rx));
                assert(outcome is Completed ==> setup.sent_by(more, addr.source, q.rx.received()));
                let mid = AsyncDemuxModel { peers: n.peers.update(i, q), ..n };
                async_demux::peer_change_keeps_wf(n, i, q, limit, max_peers);
                if outcome is Completed {
                    async_demux::queueing_keeps_wf(mid, i, limit, max_peers);
                }
                async_demux::frames_only_append_payloads(
                    m,
                    setup.base,
                    rx_fc,
                    setup.local,
                    setup.functional,
                    frame,
                    now,
                    limit,
                    max_peers,
                );
                assert forall|j: int|
                    0 <= j < after.peers.len() && (
                    #[trigger] after.peers[j]).rx.state is Receiving implies setup.being_sent_by(
                    more,
                    after.peers[j].remote,
                    after.peers[j].rx,
                ) by {
                    if j != i {
                        assert(after.peers[j] == n.peers[j]);
                        assert(n.peers[j] == m.peers[j]);
                    }
                }
                assert forall|k: int| 0 <= k < after.ready.len() implies setup.sent_by(
                    more,
                    (#[trigger] after.waiting()[k]).0,
                    after.waiting()[k].1,
                ) by {
                    if k < m.ready.len() {
                        if outcome is Completed {
                            assert(after.waiting().drop_last()[k] == m.waiting()[k]);
                        }
                        assert(after.waiting()[k] == m.waiting()[k]);
                    } else {
                        assert(outcome is Completed);
                        assert(after.waiting()[k] == (addr.source, q.rx.received()));
                    }
                }
            }
        },
        _ => {},
    }
}

/// No event breaks the invariant, and all that an async demux holds after it still comes from the frames.
proof fn async_event_is_accounted_for<C: Clock>(
    clock: C,
    setup: Setup,
    frames: Seq<FrameView>,
    event: AsyncDemuxEvent<C::Instant>,
    m: AsyncDemuxModel<C::Instant>,
    n: AsyncDemuxModel<C::Instant>,
    max_peers: nat,
)
    requires
        m.wf(setup.base.max_payload_len as nat, max_peers),
        max_peers <= usize::MAX,
        setup.async_accounts_for(frames, m),
        async_takes(clock, setup, event, m, n),
    ensures
        n.wf(setup.base.max_payload_len as nat, max_peers),
        setup.async_accounts_for(
            match event {
                AsyncDemuxEvent::Frame { frame, .. } => frames.push(frame),
                _ => frames,
            },
            n,
        ),
{
    let limit = setup.base.max_payload_len as nat;
    match event {
        AsyncDemuxEvent::Frame { frame, rx_fc, now } => {
            async_frame_is_accounted_for(setup, frames, frame, rx_fc, now, m, max_peers);
        },
        AsyncDemuxEvent::Expiry => {
            expiry_keeps_wf(clock, setup, m, n, limit, max_peers);
        },
        AsyncDemuxEvent::Delivery => {
            async_demux::delivering_keeps_wf(m, limit, max_peers);
            async_demux::delivery_takes_the_oldest(m, limit, max_peers);
            assert forall|k: int| 0 <= k < n.ready.len() implies setup.sent_by(
                frames,
                (#[trigger] n.waiting()[k]).0,
                n.waiting()[k].1,
            ) by {
                assert(n.waiting()[k] == m.waiting()[k + 1]);
            }
            assert forall|j: int|
                0 <= j < n.peers.len() && (
                #[trigger] n.peers[j]).rx.state is Receiving implies setup.being_sent_by(
                frames,
                n.peers[j].remote,
                n.peers[j].rx,
            ) by {
                assert(m.peers[j].rx == n.peers[j].rx);
            }
        },
        AsyncDemuxEvent::Refusal => {
            async_demux::requeueing_keeps_wf(m, limit, max_peers);
            async_demux::refused_delivery_loses_nothing(m);
            assert forall|k: int| 0 <= k < n.ready.len() implies setup.sent_by(
                frames,
                (#[trigger] n.waiting()[k]).0,
                n.waiting()[k].1,
            ) by {
                if k < m.ready.len() - 1 {
                    assert(n.waiting()[k] == m.waiting()[k + 1]);
                } else {
                    assert(n.waiting()[k] == m.waiting()[0]);
                }
            }
        },
        AsyncDemuxEvent::Meeting(remote) => {
            async_meeting_keeps_wf(m, setup.local, remote, limit, max_peers);
        },
        AsyncDemuxEvent::ControlTaken(remote) => {
            let i = m.position(remote)->0;
            assert(m.is_peer(i, remote));
            let q = AsyncPeerModel { pending_fc: None, ..m.peers[i] };
            assert(m.peers[i].wf(limit));
            async_demux::peer_change_keeps_wf(m, i, q, limit, max_peers);
            assert(n.waiting() =~= m.waiting());
            assert forall|j: int|
                0 <= j < n.peers.len() && (
                #[trigger] n.peers[j]).rx.state is Receiving implies setup.being_sent_by(
                frames,
                n.peers[j].remote,
                n.peers[j].rx,
            ) by {
                assert(m.peers[j].rx == n.peers[j].rx);
            }
        },
    }
}

/// Whatever happened to an async demux since it was created, all that it holds comes from the frames that
/// it took in.
pub proof fn async_all_is_accounted_for<C: Clock>(
    clock: C,
    setup: Setup,
    max_peers: nat,
    events: Seq<AsyncDemuxEvent<C::Instant>>,
    states: Seq<AsyncDemuxModel<C::Instant>>,
)
    requires
        async_history(clock, setup, max_peers, events, states),
        max_peers <= usize::MAX,
    ensures
        states.last().wf(setup.base.max_payload_len as nat, max_peers),
        setup.async_accounts_for(async_frames_of(events), states.last()),
    decreases events.len(),
{
    if events.len() > 0 {
        let last = events.len() - 1;
        let earlier = states.drop_last();
        assert forall|j: int| 0 <= j < events.drop_last().len() implies async_takes(
            clock,
            setup,
            #[trigger] events.drop_last()[j],
            earlier[j],
            earlier[j + 1],
        ) by {
            assert(events[j] == events.drop_last()[j]);
        }
        async_all_is_accounted_for(clock, setup, max_peers, events.drop_last(), earlier);
        assert(async_takes(clock, setup, events[last], states[last], states[last + 1]));
        async_event_is_accounted_for(
            clock,
            setup,
            async_frames_of(events.drop_last()),
            events.last(),
            earlier.last(),
            states.last(),
            max_peers,
        );
    }
}

/// A payload that an async demux delivers is what its source sent. However the frames of all sources were
/// interleaved, and whatever else happened, the bytes that a delivery writes to the front of the
/// caller's buffer are the data of one Single Frame, or of one First Frame that announces their
/// number and of Consecutive Frames numbered from 1 on that came after it, cut at that number; and
/// each of those frames came from the address that the delivery reports.
pub proof fn async_demux_delivers_what_its_source_sent<C: Clock>(
    clock: C,
    setup: Setup,
    max_peers: nat,
    events: Seq<AsyncDemuxEvent<C::Instant>>,
    states: Seq<AsyncDemuxModel<C::Instant>>,
    out: Seq<u8>,
)
    requires
        async_history(clock, setup, max_peers, events, states),
        max_peers <= usize::MAX,
        states.last().ready.len() > 0,
        states.last().waiting()[0].1.len() <= out.len(),
    ensures
        ({
            let (source, payload) = states.last().waiting()[0];
            setup.sent_by(
                async_frames_of(events),
                source,
                rx::overwritten(out, 0, payload).take(payload.len() as int),
            )
        }),
{
    async_all_is_accounted_for(clock, setup, max_peers, events, states);
    let payload = states.last().waiting()[0].1;
    assert(rx::overwritten(out, 0, payload).take(payload.len() as int) =~= payload);
}

/// Something that changes a demux.
pub enum DemuxEvent {
    /// A frame was taken in, under these flow-control parameters.
    Frame { frame: FrameView, rx_fc: RxFlowControl },
    /// The oldest payload was delivered.
    Delivery,
    /// A transfer to this address was started.
    Meeting(u8),
    /// A transfer out went on.
    Sending,
}

/// Whether an event takes a demux from `m` to `n`.
pub open spec fn takes<I>(
    setup: Setup,
    event: DemuxEvent,
    m: DemuxModel<I>,
    n: DemuxModel<I>,
) -> bool {
    match event {
        DemuxEvent::Frame { frame, rx_fc } => n == m.ingested(
            setup.base,
            rx_fc,
            setup.local,
            setup.functional,
            frame,
        ).0,
        DemuxEvent::Delivery => m.ready.len() > 0 && n == m.delivered(),
        DemuxEvent::Meeting(remote) => m.admitted(setup.local, remote) matches Ok((met, _)) && n
            == met,
        DemuxEvent::Sending => {
            &&& n.free == m.free
            &&& n.ready == m.ready
            &&& n.peers.len() == m.peers.len()
            &&& forall|i: int|
                0 <= i < m.peers.len() ==> {
                    let q = #[trigger] n.peers[i];
                    q.tx.wf() && q == (PeerModel {
                        tx: q.tx,
                        pending_fc: q.pending_fc,
                        ..m.peers[i]
                    })
                }
        },
    }
}

/// The frames among events, in order.
pub open spec fn frames_of(events: Seq<DemuxEvent>) -> Seq<FrameView>
    decreases events.len(),
{
    if events.len() == 0 {
        Seq::empty()
    } else {
        let before = frames_of(events.drop_last());
        match events.last() {
            DemuxEvent::Frame { frame, .. } => before.push(frame),
            _ => before,
        }
    }
}

/// Whether `states` are the states that a new demux goes through under `events`.
pub open spec fn history<I>(
    setup: Setup,
    max_peers: nat,
    events: Seq<DemuxEvent>,
    states: Seq<DemuxModel<I>>,
) -> bool {
    &&& states.len() == events.len() + 1
    &&& states[0].wf(setup.base.max_payload_len as nat, max_peers)
    &&& states[0].peers.len() == 0
    &&& states[0].ready.len() == 0
    &&& forall|j: int|
        0 <= j < events.len() ==> takes(setup, #[trigger] events[j], states[j], states[j + 1])
}

/// Meeting a peer keeps the invariant and the peers met before.
proof fn meeting_keeps_wf<I>(
    m: DemuxModel<I>,
    local: u8,
    remote: u8,
    max_payload_len: nat,
    max_peers: nat,
)
    requires
        m.wf(max_payload_len, max_peers),
    ensures
        m.admitted(local, remote) matches Ok((n, i)) ==> {
            &&& n.wf(max_payload_len, max_peers)
            &&& n.is_peer(i, remote)
            &&& n.ready == m.ready
            &&& forall|j: int|
                0 <= j < n.peers.len() ==> (j < m.peers.len() && #[trigger] n.peers[j]
                    == m.peers[j]) || (n.peers[j].rx.state is Idle && !n.peers[j].rx_ready)
        },
{
    if let Ok((n, i)) = m.admitted(local, remote) {
        if m.position(remote) is None {
            assert(m.free[0].len() >= max_payload_len);
            assert forall|j: int| 0 <= j < n.peers.len() implies (#[trigger] n.peers[j]).wf(
                max_payload_len,
            ) by {
                if j < m.peers.len() {
                    assert(n.peers[j] == m.peers[j]);
                }
            }
            assert forall|j: int| 0 <= j < n.free.len() implies (#[trigger] n.free[j]).len()
                >= max_payload_len by {
                assert(n.free[j] == m.free[j + 1]);
            }
            assert forall|j: int, k: int| 0 <= j < k < n.peers.len() implies (
            #[trigger] n.peers[j]).remote != (#[trigger] n.peers[k]).remote by {
                assert(n.peers[j] == m.peers[j]);
                if k < m.peers.len() {
                    assert(n.peers[k] == m.peers[k]);
                } else {
                    assert(!m.is_peer(j, remote));
                }
            }
            assert forall|j: usize|
                #![trigger n.ready.contains(j)]
                j < n.peers.len() && n.peers[j as int].rx_ready implies n.ready.contains(j) by {
                assert(m.ready.contains(j));
            }
        }
    }
}

/// A frame keeps the invariant, and all that the demux holds afterwards comes from the frames.
proof fn frame_is_accounted_for<I>(
    setup: Setup,
    frames: Seq<FrameView>,
    frame: FrameView,
    rx_fc: RxFlowControl,
    m: DemuxModel<I>,
    max_peers: nat,
)
    requires
        m.wf(setup.base.max_payload_len as nat, max_peers),
        max_peers <= usize::MAX,
        setup.accounts_for(frames, m),
    ensures
        ({
            let after = m.ingested(setup.base, rx_fc, setup.local, setup.functional, frame).0;
            &&& after.wf(setup.base.max_payload_len as nat, max_peers)
            &&& setup.accounts_for(frames.push(frame), after)
        }),
{
    let limit = setup.base.max_payload_len as nat;
    let more = frames.push(frame);
    let (after, d) = m.ingested(setup.base, rx_fc, setup.local, setup.functional, frame);
    assert forall|i: int| 0 <= i < m.peers.len() implies setup.peer_accounted_for(
        more,
        (#[trigger] m.peers[i]).remote,
        m.peers[i].rx,
        m.peers[i].rx_ready,
    ) by {
        let p = m.peers[i];
        if p.rx.state is Receiving {
            more_frames_keep_transfer(setup, frames, frame, p.remote, p.rx);
        }
        if p.rx_ready {
            more_frames_keep_payload(setup, frames, frame, p.remote, p.rx.received());
        }
    }
    match uds29::address_of(frame.id) {
        Some(addr) if demux::targets(addr, setup.local, setup.functional) => {
            meeting_keeps_wf(m, setup.local, addr.source, limit, max_peers);
            if let Ok((n, i)) = m.admitted(setup.local, addr.source) {
                let cfg = demux::peer_cfg(setup.base, setup.local, addr.source);
                let p = n.peers[i];
                let (q, _) = demux::peer_ingested(
                    cfg,
                    rx_fc,
                    p,
                    addr.kind is Functional,
                    frame.data,
                );
                assert(p.wf(limit));
                assert(n.ready.len() == m.ready.len());
                if let Some(pdu) = pdu::pdu_in(cfg, frame.data) {
                    rx::pdus_keep_consistency(p.rx, limit, rx_fc, pdu);
                }
                if let Some(pdu) = setup.heard(frame, addr.source) {
                    reassembly_is_accounted_for(
                        setup,
                        frames,
                        frame,
                        addr.source,
                        rx_fc,
                        p.rx,
                        pdu,
                    );
                }
                assert(setup.peer_accounted_for(more, addr.source, p.rx, p.rx_ready));
                assert(setup.peer_accounted_for(more, addr.source, q.rx, q.rx_ready));
                assert(q.wf(limit) && q.remote == p.remote);
                assert(q.rx_ready == (p.rx_ready || d == RecvDecision::Report(
                    Progress::Completed,
                )));
                assert(!(p.rx_ready && d == RecvDecision::Report(Progress::Completed)));
                assert forall|j: int| 0 <= j < after.peers.len() implies
                    setup.peer_accounted_for(
                    more,
                    (#[trigger] after.peers[j]).remote,
                    after.peers[j].rx,
                    after.peers[j].rx_ready,
                ) by {
                    if j != i {
                        assert(after.peers[j] == n.peers[j]);
                    }
                }
                assert(after.wf(limit, max_peers)) by {
                    assert forall|j: int| 0 <= j < after.peers.len() implies (
                    #[trigger] after.peers[j]).wf(limit) by {
                        assert(n.peers[j].wf(limit));
                    }
                    assert forall|j: int, k: int| 0 <= j < k < after.peers.len() implies (
                    #[trigger] after.peers[j]).remote != (#[trigger] after.peers[k]).remote by {
                        assert(n.peers[j].remote != n.peers[k].remote);
                    }
                    if n.ready.contains(i as usize) {
                        let k = choose|k: int| 0 <= k < n.ready.len() && n.ready[k] == i as usize;
                        assert(n.peers[n.ready[k] as int].rx_ready);
                    }
                    assert forall|k: int| 0 <= k < after.ready.len() implies (
                    #[trigger] after.ready[k]) < after.peers.len()
                        && after.peers[after.ready[k] as int].rx_ready by {
                        if k < n.ready.len() {
                            assert(after.ready[k] == n.ready[k]);
                        }
                    }
                    assert forall|j: usize|
                        #![trigger after.ready.contains(j)]
                        j < after.peers.len()
                            && after.peers[j as int].rx_ready implies after.ready.contains(j) by {
                        if j == i && !p.rx_ready {
                            assert(after.ready[n.ready.len() as int] == j);
                        } else {
                            assert(n.ready.contains(j));
                            let k = choose|k: int| 0 <= k < n.ready.len() && n.ready[k] == j;
                            assert(after.ready[k] == j);
                        }
                    }
                }
            }
        },
        _ => {},
    }
}

/// No event breaks the invariant, and all that a demux holds after it still comes from the frames.
proof fn event_is_accounted_for<I>(
    setup: Setup,
    frames: Seq<FrameView>,
    event: DemuxEvent,
    m: DemuxModel<I>,
    n: DemuxModel<I>,
    max_peers: nat,
)
    requires
        m.wf(setup.base.max_payload_len as nat, max_peers),
        max_peers <= usize::MAX,
        setup.accounts_for(frames, m),
        takes(setup, event, m, n),
    ensures
        n.wf(setup.base.max_payload_len as nat, max_peers),
        setup.accounts_for(
            match event {
                DemuxEvent::Frame { frame, .. } => frames.push(frame),
                _ => frames,
            },
            n,
        ),
{
    let limit = setup.base.max_payload_len as nat;
    match event {
        DemuxEvent::Frame { frame, rx_fc } => {
            frame_is_accounted_for(setup, frames, frame, rx_fc, m, max_peers);
        },
        DemuxEvent::Delivery => {
            assert(m.ready[0] < m.peers.len());
            assert forall|j: int| 0 <= j < n.peers.len() implies (#[trigger] n.peers[j]).wf(limit)
                && n.peers[j].remote == m.peers[j].remote && setup.peer_accounted_for(
                frames,
                n.peers[j].remote,
                n.peers[j].rx,
                n.peers[j].rx_ready,
            ) by {
                assert(m.peers[j].wf(limit));
            }
            assert forall|j: int, k: int| 0 <= j < k < n.peers.len() implies (
            #[trigger] n.peers[j]).remote != (#[trigger] n.peers[k]).remote by {
                assert(m.peers[j].remote != m.peers[k].remote);
            }
            assert forall|k: int| 0 <= k < n.ready.len() implies (#[trigger] n.ready[k])
                < n.peers.len() && n.peers[n.ready[k] as int].rx_ready by {
                assert(n.ready[k] == m.ready[k + 1]);
                assert(m.ready[k + 1] != m.ready[0]);
            }
            assert forall|j: usize|
                #![trigger n.ready.contains(j)]
                j < n.peers.len() && n.peers[j as int].rx_ready implies n.ready.contains(j) by {
                assert(m.ready.contains(j));
                let k = choose|k: int| 0 <= k < m.ready.len() && m.ready[k] == j;
                assert(n.ready[k - 1] == j);
            }
        },
        DemuxEvent::Meeting(remote) => {
            meeting_keeps_wf(m, setup.local, remote, limit, max_peers);
        },
        DemuxEvent::Sending => {
            assert forall|j: int| 0 <= j < n.peers.len() implies (#[trigger] n.peers[j]).wf(limit)
                && n.peers[j].remote == m.peers[j].remote && n.peers[j].rx == m.peers[j].rx
                && n.peers[j].rx_ready == m.peers[j].rx_ready by {
                assert(m.peers[j].wf(limit));
            }
            assert forall|j: int, k: int| 0 <= j < k < n.peers.len() implies (
            #[trigger] n.peers[j]).remote != (#[trigger] n.peers[k]).remote by {
                assert(m.peers[j].remote != m.peers[k].remote);
            }
            assert forall|k: int| 0 <= k < n.ready.len() implies (#[trigger] n.ready[k])
                < n.peers.len() && n.peers[n.ready[k] as int].rx_ready by {
                assert(m.peers[m.ready[k] as int].rx_ready);
            }
            assert forall|j: usize|
                #![trigger n.ready.contains(j)]
                j < n.peers.len() && n.peers[j as int].rx_ready implies n.ready.contains(j) by {
                assert(m.ready.contains(j));
            }
        },
    }
}

/// Whatever happened to a demux since it was created, all that it holds comes from the frames that
/// it took in.
pub proof fn all_is_accounted_for<I>(
    setup: Setup,
    max_peers: nat,
    events: Seq<DemuxEvent>,
    states: Seq<DemuxModel<I>>,
)
    requires
        history(setup, max_peers, events, states),
        max_peers <= usize::MAX,
    ensures
        states.last().wf(setup.base.max_payload_len as nat, max_peers),
        setup.accounts_for(frames_of(events), states.last()),
    decreases events.len(),
{
    if events.len() > 0 {
        let last = events.len() - 1;
        let earlier = states.drop_last();
        assert forall|j: int| 0 <= j < events.drop_last().len() implies takes(
            setup,
            #[trigger] events.drop_last()[j],
            earlier[j],
            earlier[j + 1],
        ) by {
            assert(events[j] == events.drop_last()[j]);
        }
        all_is_accounted_for(setup, max_peers, events.drop_last(), earlier);
        assert(takes(setup, events[last], states[last], states[last + 1]));
        event_is_accounted_for(
            setup,
            frames_of(events.drop_last()),
            events.last(),
            earlier.last(),
            states.last(),
            max_peers,
        );
    }
}

/// A payload that a demux delivers is what its source sent. However the frames of all sources were
/// interleaved, and whatever else happened, it is the data of one Single Frame, or of one First
/// Frame that announces its length and of Consecutive Frames numbered from 1 on that came after it,
/// cut at that length; and each of those frames came from the address that the delivery reports.
pub proof fn demux_delivers_what_its_source_sent<I>(
    setup: Setup,
    max_peers: nat,
    events: Seq<DemuxEvent>,
    states: Seq<DemuxModel<I>>,
)
    requires
        history(setup, max_peers, events, states),
        max_peers <= usize::MAX,
        states.last().ready.len() > 0,
    ensures
        ({
            let peer = states.last().peers[states.last().ready[0] as int];
            setup.sent_by(frames_of(events), peer.remote, peer.rx.received())
        }),
{
    all_is_accounted_for(setup, max_peers, events, states);
    let i = states.last().ready[0] as int;
    assert(states.last().peers[i].rx_ready);
}

} // verus!
