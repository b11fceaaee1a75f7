//! What a demux keeps to: whose frames it takes in, what it does with them, and what it leaves
//! alone.

use crate::async_demux;
use crate::async_demux::{AsyncDemuxModel, AsyncPeerModel, IngestDecision, ReadyModel};
use crate::config::{IsoTpConfig, RxFlowControl};
use crate::demux;
use crate::demux::DemuxModel;
use crate::errors::IsoTpError;
use crate::id::{Frame, FrameView, Id};
use crate::node::{RecvDecision, SendStep};
use crate::pdu;
use crate::pdu::{FlowStatus, PduView};
use crate::rx::RxOutcome;
use crate::time::Duration;
use crate::timer::Clock;
use crate::tx::Progress;
use crate::uds29;
use crate::uds29::{Uds29Id, Uds29Kind};
use vstd::prelude::*;

verus! {

/// The identifier of a frame to a node: behind 0x18DA the node's own address, or behind 0x18DB the
/// functional address that it listens to, then the address of whoever sends.
pub open spec fn is_to(id: Id, local: u8, functional: Option<u8>) -> bool {
    id is Extended && {
        ||| 0x18DA_0000 + local * 256 <= id.raw() <= 0x18DA_00FF + local * 256
        ||| functional matches Some(group) && 0x18DB_0000 + group * 256 <= id.raw() <= 0x18DB_00FF
            + group * 256
    }
}

/// A demux takes a frame for its own exactly when the identifier is that of a frame to the node.
pub proof fn frames_are_told_by_target(id: Id, addr: Uds29Id, local: u8, functional: Option<u8>)
    requires
        uds29::address_of(id) == Some(addr),
    ensures
        demux::targets(addr, local, functional) <==> is_to(id, local, functional),
        demux::targets(addr, local, functional) ==> addr.source == id.raw() % 256 && (
        addr.kind is Functional <==> id.raw() >= 0x18DB_0000),
{
    uds29::addresses_are_read_off_identifiers(id);
}

/// With each peer a demux exchanges frames under the identifiers that spell both addresses, and
/// otherwise as the base configuration says.
pub proof fn peers_are_spoken_to_by_address(base: IsoTpConfig, local: u8, remote: u8)
    ensures
        ({
            let cfg = demux::peer_cfg(base, local, remote);
            &&& cfg.tx_id is Extended && cfg.tx_id.raw() == 0x18DA_0000 + remote * 256 + local
            &&& cfg.rx_id is Extended && cfg.rx_id.raw() == 0x18DA_0000 + local * 256 + remote
            &&& cfg == (IsoTpConfig { tx_id: cfg.tx_id, rx_id: cfg.rx_id, ..base })
        }),
{
    uds29::identifiers_spell_addresses(Uds29Kind::Physical, remote, local);
    uds29::identifiers_spell_addresses(Uds29Kind::Physical, local, remote);
}

/// A frame that is not to the node changes nothing and is no failure.
pub proof fn frames_to_others_are_passed_over<I>(
    m: DemuxModel<I>,
    n: AsyncDemuxModel<I>,
    base: IsoTpConfig,
    rx_fc: RxFlowControl,
    local: u8,
    functional: Option<u8>,
    frame: FrameView,
    now: I,
)
    requires
        !is_to(frame.id, local, functional),
    ensures
        m.ingested(base, rx_fc, local, functional, frame) == (
            m,
            RecvDecision::Report(Progress::InFlight),
        ),
        n.ingested(base, rx_fc, local, functional, frame, now) == (
            n,
            IngestDecision { reply: None, result: Ok(Progress::InFlight) },
        ),
{
    if let Some(addr) = uds29::address_of(frame.id) {
        frames_are_told_by_target(frame.id, addr, local, functional);
    }
}

/// A source that was met is the peer with its address. One that was not becomes the last peer, with
/// nothing received and nothing to send, and takes the first free buffer; where none is free it is
/// refused, and so is the node's own address.
pub proof fn sources_become_peers<I>(m: DemuxModel<I>, local: u8, remote: u8)
    ensures
        match m.admitted(local, remote) {
            Ok((n, i)) => {
                &&& 0 <= i < n.peers.len() && n.peers[i].remote == remote
                &&& n.ready == m.ready
                &&& if i < m.peers.len() {
                    n == m
                } else {
                    &&& m.excludes(remote)
                    &&& remote != local
                    &&& i == m.peers.len()
                    &&& n.peers.drop_last() == m.peers
                    &&& m.free.len() > 0 && n.free == m.free.skip(1)
                    &&& n.peers[i].rx.state is Idle && n.peers[i].rx.written == 0
                    &&& n.peers[i].rx.storage == m.free[0]
                    &&& n.peers[i].tx is Idle && n.peers[i].pending_fc is None
                    &&& !n.peers[i].rx_ready
                }
            },
            Err(e) => m.excludes(remote) && if remote == local {
                e is InvalidConfig
            } else {
                e is RxOverflow && m.free.len() == 0
            },
        },
{
    if m.position(remote) is None {
        assert(m.excludes(remote)) by {
            assert forall|i: int| 0 <= i < m.peers.len() implies (#[trigger] m.peers[i]).remote
                != remote by {
                assert(!m.is_peer(i, remote));
            }
        }
        if let Ok((n, i)) = m.admitted(local, remote) {
            assert(n.peers.drop_last() =~= m.peers);
        }
    } else {
        let k = m.position(remote)->0;
        assert(m.is_peer(k, remote));
    }
}

/// The same goes for an async demux.
pub proof fn async_sources_become_peers<I>(m: AsyncDemuxModel<I>, local: u8, remote: u8)
    ensures
        match m.admitted(local, remote) {
            Ok((n, i)) => {
                &&& 0 <= i < n.peers.len() && n.peers[i].remote == remote
                &&& n.ready == m.ready
                &&& if i < m.peers.len() {
                    n == m
                } else {
                    &&& m.excludes(remote)
                    &&& remote != local
                    &&& i == m.peers.len()
                    &&& n.peers.drop_last() == m.peers
                    &&& m.free.len() > 0 && n.free == m.free.skip(1)
                    &&& n.peers[i].rx.state is Idle && n.peers[i].rx.written == 0
                    &&& n.peers[i].rx.storage == m.free[0]
                    &&& n.peers[i].pending_fc is None && n.peers[i].rx_last_activity is None
                    &&& !n.peers[i].rx_ready
                }
            },
            Err(e) => m.excludes(remote) && if remote == local {
                e is InvalidConfig
            } else {
                e is RxOverflow && m.free.len() == 0
            },
        },
{
    if m.position(remote) is None {
        assert(m.excludes(remote)) by {
            assert forall|i: int| 0 <= i < m.peers.len() implies (#[trigger] m.peers[i]).remote
                != remote by {
                assert(!m.is_peer(i, remote));
            }
        }
        if let Ok((n, i)) = m.admitted(local, remote) {
            assert(n.peers.drop_last() =~= m.peers);
        }
    } else {
        let k = m.position(remote)->0;
        assert(m.is_peer(k, remote));
    }
}

/// A frame from a source that cannot be met fails with the reason and changes nothing.
pub proof fn refused_sources_change_nothing<I>(
    m: DemuxModel<I>,
    n: AsyncDemuxModel<I>,
    base: IsoTpConfig,
    rx_fc: RxFlowControl,
    local: u8,
    functional: Option<u8>,
    frame: FrameView,
    now: I,
)
    requires
        is_to(frame.id, local, functional),
    ensures
        ({
            let source = (frame.id.raw() % 256) as u8;
            &&& m.admitted(local, source) matches Err(e) ==> m.ingested(
                base,
                rx_fc,
                local,
                functional,
                frame,
            ) == (m, RecvDecision::Fail(e))
            &&& n.admitted(local, source) matches Err(e) ==> n.ingested(
                base,
                rx_fc,
                local,
                functional,
                frame,
                now,
            ) == (n, IngestDecision { reply: None, result: Err(e) })
        }),
{
    uds29::addresses_are_read_off_identifiers(frame.id);
    frames_are_told_by_target(
        frame.id,
        uds29::address_of(frame.id)->0,
        local,
        functional,
    );
}

/// A payload to the group is taken in like one to the node itself, when it is a Single Frame. Other
/// frames to the group are passed over, unless the source has a payload waiting.
pub proof fn group_frames_are_single<I>(
    m: DemuxModel<I>,
    base: IsoTpConfig,
    rx_fc: RxFlowControl,
    local: u8,
    group: u8,
    source: u8,
    data: Seq<u8>,
)
    ensures
        ({
            let to_group = FrameView {
                id: uds29::uds_id(Uds29Kind::Functional, group, source),
                data,
            };
            let to_node = FrameView { id: uds29::uds_id(Uds29Kind::Physical, local, source), data };
            let cfg = demux::peer_cfg(base, local, source);
            let (after, d) = m.ingested(base, rx_fc, local, Some(group), to_group);
            &&& pdu::pdu_in(cfg, data) matches Some(p) ==> {
                &&& p is SingleFrame ==> (after, d) == m.ingested(
                    base,
                    rx_fc,
                    local,
                    Some(group),
                    to_node,
                )
                &&& !(p is SingleFrame) ==> (m.admitted(local, source) matches Ok((n, i)) ==> (
                !n.peers[i].rx_ready ==> after == n && d == RecvDecision::Report(
                    Progress::InFlight,
                )))
            }
        }),
{
    uds29::address_of_uds_id(Uds29Kind::Functional, group, source);
    uds29::address_of_uds_id(Uds29Kind::Physical, local, source);
    if let Ok((n, i)) = m.admitted(local, source) {
        sources_become_peers(m, local, source);
        assert(n.peers.update(i, n.peers[i]) =~= n.peers);
    }
}

/// The same goes for an async demux.
pub proof fn async_group_frames_are_single<I>(
    m: AsyncDemuxModel<I>,
    base: IsoTpConfig,
    rx_fc: RxFlowControl,
    local: u8,
    group: u8,
    source: u8,
    data: Seq<u8>,
    now: I,
)
    ensures
        ({
            let to_group = FrameView {
                id: uds29::uds_id(Uds29Kind::Functional, group, source),
                data,
            };
            let to_node = FrameView { id: uds29::uds_id(Uds29Kind::Physical, local, source), data };
            let cfg = demux::peer_cfg(base, local, source);
            let (after, d) = m.ingested(base, rx_fc, local, Some(group), to_group, now);
            &&& pdu::pdu_in(cfg, data) matches Some(p) ==> {
                &&& p is SingleFrame ==> (after, d) == m.ingested(
                    base,
                    rx_fc,
                    local,
                    Some(group),
                    to_node,
                    now,
                )
                &&& !(p is SingleFrame) ==> (m.admitted(local, source) matches Ok((n, i)) ==> (
                !n.peers[i].rx_ready ==> after == n && d == (IngestDecision {
                    reply: None,
                    result: Ok(Progress::InFlight),
                })))
            }
        }),
{
    uds29::address_of_uds_id(Uds29Kind::Functional, group, source);
    uds29::address_of_uds_id(Uds29Kind::Physical, local, source);
    if let Ok((n, i)) = m.admitted(local, source) {
        async_sources_become_peers(m, local, source);
        assert(n.peers.update(i, n.peers[i]) =~= n.peers);
    }
}

/// Where the frame of a peer stands, and what it carries.
pub open spec fn carries<I>(
    m: AsyncDemuxModel<I>,
    base: IsoTpConfig,
    local: u8,
    i: int,
    frame: FrameView,
    p: PduView,
) -> bool {
    let cfg = demux::peer_cfg(base, local, m.peers[i].remote);
    &&& 0 <= i < m.peers.len()
    &&& pdu::addressed(cfg, frame)
    &&& pdu::pdu_in(cfg, frame.data) == Some(p)
}

/// While a payload of a peer waits in the reassembly buffer, the peer gets no further: the start of
/// another one is answered with an overflow, other payload frames are dropped, and nothing changes.
pub proof fn waiting_payload_holds_the_peer_up<I>(
    m: AsyncDemuxModel<I>,
    base: IsoTpConfig,
    rx_fc: RxFlowControl,
    local: u8,
    functional: Option<u8>,
    frame: FrameView,
    now: I,
    i: int,
    p: PduView,
    max_payload_len: nat,
    max_peers: nat,
)
    requires
        m.wf(max_payload_len, max_peers),
        base.frame_len_ok(),
        carries(m, base, local, i, frame, p),
        m.peers[i].rx_ready,
        !(p is FlowControl),
    ensures
        ({
            let (after, d) = m.ingested(base, rx_fc, local, functional, frame, now);
            &&& after == m
            &&& d.result == Ok::<Progress, IsoTpError<()>>(Progress::InFlight)
            &&& d.reply is Some <==> p is FirstFrame
            &&& p is FirstFrame ==> d.reply == pdu::frame_for(
                demux::peer_cfg(base, local, m.peers[i].remote),
                PduView::FlowControl {
                    status: FlowStatus::Overflow,
                    block_size: 0,
                    st_min: pdu::st_min_byte(rx_fc.st_min@),
                },
            )
        }),
{
    let remote = m.peers[i].remote;
    uds29::address_of_uds_id(Uds29Kind::Physical, local, remote);
    assert(m.is_peer(i, remote));
    let k = m.position(remote)->0;
    assert(m.is_peer(k, remote));
    assert(k == i);
    assert(m.peers.update(i, m.peers[i]) =~= m.peers);
}

/// In a demux that is polled the frames of such a peer are dropped, whatever they carry but flow
/// control.
pub proof fn waiting_payload_drops_frames<I>(
    m: DemuxModel<I>,
    base: IsoTpConfig,
    rx_fc: RxFlowControl,
    local: u8,
    functional: Option<u8>,
    frame: FrameView,
    i: int,
    max_payload_len: nat,
    max_peers: nat,
)
    requires
        m.wf(max_payload_len, max_peers),
        0 <= i < m.peers.len(),
        m.peers[i].rx_ready,
        pdu::addressed(demux::peer_cfg(base, local, m.peers[i].remote), frame),
        pdu::pdu_in(demux::peer_cfg(base, local, m.peers[i].remote), frame.data) matches Some(p)
            && !(p is FlowControl),
    ensures
        m.ingested(base, rx_fc, local, functional, frame) == (
            m,
            RecvDecision::Report(Progress::InFlight),
        ),
{
    let remote = m.peers[i].remote;
    uds29::address_of_uds_id(Uds29Kind::Physical, local, remote);
    assert(m.is_peer(i, remote));
    let k = m.position(remote)->0;
    assert(m.is_peer(k, remote));
    assert(k == i);
    assert(m.peers.update(i, m.peers[i]) =~= m.peers);
}

/// Otherwise the peer's frame goes to its reassembly, and the demux does what that says: it clears
/// the sender, reports a complete payload, refuses one that does not fit with an overflow, and fails
/// on a frame out of sequence; in the last two cases nothing is under way afterwards.
pub proof fn async_demux_answers_its_reassembly<I>(
    m: AsyncDemuxModel<I>,
    base: IsoTpConfig,
    rx_fc: RxFlowControl,
    local: u8,
    functional: Option<u8>,
    frame: FrameView,
    now: I,
    i: int,
    p: PduView,
    max_payload_len: nat,
    max_peers: nat,
)
    requires
        m.wf(max_payload_len, max_peers),
        base.frame_len_ok(),
        carries(m, base, local, i, frame, p),
        !m.peers[i].rx_ready,
        !(p is FlowControl),
    ensures
        ({
            let cfg = demux::peer_cfg(base, local, m.peers[i].remote);
            let (rx, outcome) = m.peers[i].rx.on_pdu(base.max_payload_len as nat, rx_fc, p);
            let (after, d) = m.ingested(base, rx_fc, local, functional, frame, now);
            &&& after.peers.len() == m.peers.len()
            &&& after.peers[i].pending_fc == m.peers[i].pending_fc
            &&& !(outcome matches Ok(RxOutcome::Completed(_))) ==> after.free == m.free
                && after.ready == m.ready && !after.peers[i].rx_ready
            &&& match outcome {
                Ok(RxOutcome::Nothing) => {
                    &&& d.reply is None
                    &&& d.result == Ok::<Progress, IsoTpError<()>>(Progress::InFlight)
                    &&& after.peers[i].rx == rx
                },
                Ok(RxOutcome::SendFlowControl { status, block_size, st_min }) => {
                    &&& d.reply is Some
                    &&& d.reply == pdu::frame_for(
                        cfg,
                        PduView::FlowControl { status, block_size, st_min },
                    )
                    &&& d.result == Ok::<Progress, IsoTpError<()>>(Progress::InFlight)
                    &&& after.peers[i].rx == rx
                },
                Ok(RxOutcome::Completed(_)) => {
                    &&& d.reply is None
                    &&& d.result == Ok::<Progress, IsoTpError<()>>(Progress::Completed)
                },
                Err(IsoTpError::Overflow) => {
                    &&& d.reply is Some
                    &&& d.reply == pdu::frame_for(
                        cfg,
                        PduView::FlowControl {
                            status: FlowStatus::Overflow,
                            block_size: 0,
                            st_min: pdu::st_min_byte(rx_fc.st_min@),
                        },
                    )
                    &&& d.result == Err::<Progress, IsoTpError<()>>(IsoTpError::RxOverflow)
                    &&& after.peers[i].rx.state is Idle && after.peers[i].rx.written == 0
                },
                Err(IsoTpError::UnexpectedPdu) => {
                    &&& d.reply is None
                    &&& d.result == Ok::<Progress, IsoTpError<()>>(Progress::InFlight)
                    &&& after.peers[i].rx == rx
                },
                Err(e) => {
                    &&& d.reply is None
                    &&& d.result == Err::<Progress, IsoTpError<()>>(e)
                    &&& after.peers[i].rx.state is Idle && after.peers[i].rx.written == 0
                },
            }
        }),
{
    let remote = m.peers[i].remote;
    uds29::address_of_uds_id(Uds29Kind::Physical, local, remote);
    assert(m.is_peer(i, remote));
    let k = m.position(remote)->0;
    assert(m.is_peer(k, remote));
    assert(k == i);
}

/// A frame that cannot be read fails and changes nothing; one with another addressing byte is passed
/// over.
pub proof fn unreadable_frames_change_nothing<I>(
    m: AsyncDemuxModel<I>,
    base: IsoTpConfig,
    rx_fc: RxFlowControl,
    local: u8,
    functional: Option<u8>,
    frame: FrameView,
    now: I,
    i: int,
    max_payload_len: nat,
    max_peers: nat,
)
    requires
        m.wf(max_payload_len, max_peers),
        0 <= i < m.peers.len(),
        frame.id == demux::peer_cfg(base, local, m.peers[i].remote).rx_id,
    ensures
        ({
            let cfg = demux::peer_cfg(base, local, m.peers[i].remote);
            let (after, d) = m.ingested(base, rx_fc, local, functional, frame, now);
            &&& !pdu::addressed(cfg, frame) ==> after == m && d == (IngestDecision {
                reply: None,
                result: Ok(Progress::InFlight),
            })
            &&& pdu::addressed(cfg, frame) && pdu::pdu_in(cfg, frame.data) is None ==> after == m
                && d == (IngestDecision { reply: None, result: Err(IsoTpError::InvalidFrame) })
        }),
{
    let remote = m.peers[i].remote;
    uds29::address_of_uds_id(Uds29Kind::Physical, local, remote);
    assert(m.is_peer(i, remote));
    let k = m.position(remote)->0;
    assert(m.is_peer(k, remote));
    assert(k == i);
    assert(m.peers.update(i, m.peers[i]) =~= m.peers);
}

/// A complete payload leaves its peer free for the next one where a buffer is free to take its
/// place; where none is, the payload waits in the peer, which takes in no other until then.
pub proof fn complete_payloads_make_way<I>(m: AsyncDemuxModel<I>, i: int)
    requires
        0 <= i < m.peers.len() <= usize::MAX,
    ensures
        ({
            let n = m.queued(i);
            let p = m.peers[i];
            &&& n.peers.len() == m.peers.len()
            &&& forall|j: int| 0 <= j < m.peers.len() && j != i ==> #[trigger] n.peers[j]
                == m.peers[j]
            &&& n.peers[i].remote == p.remote && n.peers[i].pending_fc == p.pending_fc
            &&& n.ready.drop_last() == m.ready
            &&& n.waiting().last() == (p.remote, p.rx.received())
            &&& m.free.len() > 0 ==> {
                &&& !n.peers[i].rx_ready
                &&& n.peers[i].rx.state is Idle && n.peers[i].rx.written == 0
                &&& n.peers[i].rx.storage == m.free[0]
                &&& n.peers[i].rx_last_activity is None
                &&& n.free == m.free.skip(1)
            }
            &&& m.free.len() == 0 ==> {
                &&& n.peers[i].rx_ready
                &&& n.peers[i].rx == p.rx
                &&& n.free == m.free
            }
        }),
{
    assert(m.queued(i).ready.drop_last() =~= m.ready);
}

/// A delivered payload gives its buffer back: to the pool where it had moved out of its peer, and
/// else to the peer, which can receive again.
pub proof fn delivery_gives_the_buffer_back<I>(
    m: AsyncDemuxModel<I>,
    max_payload_len: nat,
    max_peers: nat,
)
    requires
        m.wf(max_payload_len, max_peers),
        m.ready.len() > 0,
    ensures
        ({
            let n = m.delivered();
            &&& n.ready == m.ready.skip(1)
            &&& n.peers.len() == m.peers.len()
            &&& match m.ready[0] {
                ReadyModel::Spilled { storage, .. } => n.free.len() == m.free.len() + 1
                    && n.free.last() == storage && n.free.drop_last() == m.free && n.peers
                    == m.peers,
                ReadyModel::Peer(i) => {
                    &&& n.free == m.free
                    &&& !n.peers[i as int].rx_ready
                    &&& n.peers[i as int].remote == m.peers[i as int].remote
                    &&& n.peers[i as int].rx == m.peers[i as int].rx
                    &&& n.peers[i as int].pending_fc == m.peers[i as int].pending_fc
                    &&& forall|j: int| 0 <= j < m.peers.len() && j != i ==> #[trigger] n.peers[j]
                        == m.peers[j]
                },
            }
        }),
{
    if let ReadyModel::Spilled { storage, .. } = m.ready[0] {
        assert(m.delivered().free.drop_last() =~= m.free);
    }
}

/// In a demux that is polled the peer whose payload waited longest can receive again after delivery,
/// and nothing else changes.
pub proof fn polled_delivery_frees_the_peer<I>(
    m: DemuxModel<I>,
    max_payload_len: nat,
    max_peers: nat,
)
    requires
        m.wf(max_payload_len, max_peers),
        m.ready.len() > 0,
    ensures
        ({
            let n = m.delivered();
            let i = m.ready[0] as int;
            &&& n.ready == m.ready.skip(1)
            &&& n.free == m.free
            &&& n.peers.len() == m.peers.len()
            &&& m.peers[i].rx_ready && !n.peers[i].rx_ready
            &&& n.peers[i].rx == m.peers[i].rx && n.peers[i].tx == m.peers[i].tx
            &&& n.peers[i].remote == m.peers[i].remote
            &&& n.peers[i].pending_fc == m.peers[i].pending_fc
            &&& forall|j: int| 0 <= j < m.peers.len() && j != i ==> #[trigger] n.peers[j]
                == m.peers[j]
        }),
{
    assert(m.ready[0] < m.peers.len());
}

/// The wait for the next receive timeout is not longer than what is left to any transfer under way,
/// by some reading of the clock, and as long as what is left to one of them; there is none exactly
/// when no transfer is timed.
pub proof fn next_timeout_is_the_first<C: Clock>(
    clock: C,
    n_br: Duration,
    peers: Seq<AsyncPeerModel<C::Instant>>,
    r: Option<Duration>,
    i: int,
)
    requires
        async_demux::is_next_timeout(clock, n_br, peers, r),
        0 <= i < peers.len(),
        peers[i].rx.state is Receiving,
        peers[i].rx_last_activity is Some,
    ensures
        r matches Some(d) && exists|elapsed: Duration| #[trigger]
            call_ensures(C::elapsed, (&clock, peers[i].rx_last_activity->0), elapsed) && (d@ == 0
                || d@ + elapsed@ <= n_br@),
        r matches Some(d) && exists|j: int, elapsed: Duration|
            0 <= j < peers.len() && peers[j].rx.state is Receiving && #[trigger] call_ensures(
                C::elapsed,
                (&clock, (#[trigger] peers[j]).rx_last_activity->0),
                elapsed,
            ) && (if elapsed@ >= n_br@ {
                d@ == 0
            } else {
                d@ + elapsed@ == n_br@
            }),
{
    assert(async_demux::timed(peers[i]));
    let d = r->0;
    let elapsed = choose|elapsed: Duration| #[trigger]
        call_ensures(C::elapsed, (&clock, peers[i].rx_last_activity->0), elapsed) && d@
            <= async_demux::timeout_left(n_br, elapsed);
    assert(d@ == 0 || d@ + elapsed@ <= n_br@);
    let (j, e) = choose|j: int, e: Duration|
        0 <= j < peers.len() && async_demux::timed(peers[j]) && #[trigger] call_ensures(
            C::elapsed,
            (&clock, (#[trigger] peers[j]).rx_last_activity->0),
            e,
        ) && d@ == async_demux::timeout_left(n_br, e);
    assert(if e@ >= n_br@ {
        d@ == 0
    } else {
        d@ + e@ == n_br@
    });
}

/// Without a transfer under way there is no receive timeout to wait for.
pub proof fn no_timeout_without_a_transfer<C: Clock>(
    clock: C,
    n_br: Duration,
    peers: Seq<AsyncPeerModel<C::Instant>>,
    r: Option<Duration>,
)
    requires
        async_demux::is_next_timeout(clock, n_br, peers, r),
        forall|i: int|
            0 <= i < peers.len() ==> (#[trigger] peers[i]).rx.state is Idle
                || peers[i].rx_last_activity is None,
    ensures
        r is None,
{
    if let Some(d) = r {
        let (j, e) = choose|j: int, e: Duration|
            0 <= j < peers.len() && async_demux::timed(peers[j]) && #[trigger] call_ensures(
                C::elapsed,
                (&clock, (#[trigger] peers[j]).rx_last_activity->0),
                e,
            ) && d@ == async_demux::timeout_left(n_br, e);
        assert(async_demux::timed(peers[j]));
    }
}

/// A wait is never longer than it may be, and ends with the first receive timeout where that comes
/// before.
pub proof fn waits_end_with_the_first_timeout<C: Clock>(
    clock: C,
    n_br: Duration,
    peers: Seq<AsyncPeerModel<C::Instant>>,
    left: nat,
    d: Duration,
)
    requires
        async_demux::is_bounded_wait(clock, n_br, peers, left, d),
    ensures
        d@ <= left,
        exists|next: Option<Duration>| #[trigger]
            async_demux::is_next_timeout(clock, n_br, peers, next) && (next matches Some(first)
                ==> d@ <= first@) && (d@ == left || (next matches Some(first) && d@ == first@)),
{
}

/// A payload to a functional address goes out as one Single Frame under an identifier that spells
/// the group and the node, or not at all: a payload that no Single Frame holds is an overflow.
pub proof fn group_payloads_go_out_in_one_frame(
    base: IsoTpConfig,
    local: u8,
    target: u8,
    payload: Seq<u8>,
    r: Result<Frame, IsoTpError<()>>,
)
    requires
        base.frame_len_ok(),
        demux::is_functional_frame(base, local, target, payload, r),
    ensures
        ({
            let at: int = if base.tx_addr is Some {
                1
            } else {
                0
            };
            let room: int = if base.frame_len == 8 {
                7 - at
            } else {
                base.frame_len - 2 - at
            };
            &&& r is Ok <==> payload.len() <= room
            &&& payload.len() > room ==> (r matches Err(e) && e is Overflow)
            &&& r matches Ok(frame) ==> {
                &&& frame@.id is Extended
                &&& frame@.id.raw() == 0x18DB_0000 + target * 256 + local
                &&& pdu::frame_bytes(
                    PduView::SingleFrame { len: payload.len() as u8, data: payload },
                    base.padding,
                    base.tx_addr,
                    base.frame_len as int,
                ) == Some(frame@.data)
            }
        }),
{
    uds29::identifiers_spell_addresses(Uds29Kind::Functional, target, local);
    if payload.len() <= base.sf_room() {
        pdu::single_frame_layout(
            payload.len() as u8,
            payload,
            base.padding,
            base.tx_addr,
            base.frame_len as int,
        );
    }
}

/// A step of a transfer to one peer changes the transfer to that peer and the flow control kept for
/// it, and nothing else.
pub proof fn sending_changes_only_its_transfer<C: Clock>(
    clock: C,
    cfg: IsoTpConfig,
    m: DemuxModel<C::Instant>,
    i: int,
    payload: Seq<u8>,
    now: C::Instant,
    late: bool,
    end: DemuxModel<C::Instant>,
    r: Result<SendStep, IsoTpError<()>>,
)
    requires
        demux::send_step_taken(clock, cfg, m, i, payload, now, late, end, r),
        0 <= i < m.peers.len(),
    ensures
        end.free == m.free && end.ready == m.ready,
        end.peers.len() == m.peers.len(),
        forall|j: int| 0 <= j < m.peers.len() && j != i ==> #[trigger] end.peers[j] == m.peers[j],
        end.peers[i].remote == m.peers[i].remote,
        end.peers[i].rx == m.peers[i].rx && end.peers[i].rx_ready == m.peers[i].rx_ready,
        end.peers[i].pending_fc is None || end.peers[i].pending_fc == m.peers[i].pending_fc,
        m.peers[i].tx is Sending ==> end.peers[i].pending_fc == m.peers[i].pending_fc,
{
}

/// Flow control that was kept for a peer is used once.
pub proof fn kept_flow_control_is_used_once<I>(m: AsyncDemuxModel<I>, i: int)
    requires
        0 <= i < m.peers.len(),
    ensures
        ({
            let n = async_demux::without_pending(m, i);
            &&& n.peers[i].pending_fc is None
            &&& n.peers[i].rx == m.peers[i].rx && n.peers[i].rx_ready == m.peers[i].rx_ready
            &&& n.peers[i].remote == m.peers[i].remote
            &&& n.peers[i].rx_last_activity == m.peers[i].rx_last_activity
            &&& n.peers.len() == m.peers.len()
            &&& forall|j: int| 0 <= j < m.peers.len() && j != i ==> #[trigger] n.peers[j]
                == m.peers[j]
            &&& n.free == m.free && n.ready == m.ready
        }),
{
}

/// A payload that a frame completes in a polled demux waits for delivery behind the others, in the
/// peer that sent it; no other frame changes who waits.
pub proof fn polled_payloads_queue_up<I>(
    m: DemuxModel<I>,
    base: IsoTpConfig,
    rx_fc: RxFlowControl,
    local: u8,
    functional: Option<u8>,
    frame: FrameView,
    max_payload_len: nat,
    max_peers: nat,
)
    requires
        m.wf(max_payload_len, max_peers),
        max_peers <= usize::MAX,
    ensures
        ({
            let (after, d) = m.ingested(base, rx_fc, local, functional, frame);
            if d == RecvDecision::Report(Progress::Completed) {
                &&& is_to(frame.id, local, functional)
                &&& after.ready.len() == m.ready.len() + 1
                &&& after.ready.drop_last() == m.ready
                &&& 0 <= after.ready.last() < after.peers.len()
                &&& after.peers[after.ready.last() as int].remote == frame.id.raw() % 256
                &&& after.peers[after.ready.last() as int].rx_ready
            } else {
                after.ready == m.ready
            }
        }),
{
    let (after, d) = m.ingested(base, rx_fc, local, functional, frame);
    if let Some(addr) = uds29::address_of(frame.id) {
        frames_are_told_by_target(frame.id, addr, local, functional);
        sources_become_peers(m, local, addr.source);
        if d == RecvDecision::Report(Progress::Completed) {
            assert(after.ready.drop_last() =~= m.ready);
        }
    }
}

} // verus!
