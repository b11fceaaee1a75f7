//! Multi-peer ISO-TP demultiplexing for 29-bit UDS-style addressing.
//!
//! ISO-TP itself does not define a sender identity beyond the CAN identifier/addressing context.
//! When multiple senders can target a single receiver ID (common with 29-bit "normal fixed"
//! addressing `0x18DA_TA_SA`), a single receive state machine is insufficient: segmented transfers
//! from different sources can interleave and must be reassembled independently.
//!
//! This module provides [`IsoTpDemux`], which:
//! - routes incoming frames to per-source receive machines,
//! - tracks per-destination transmit sessions (FlowControl is routed by source),
//! - delivers payloads together with the address to reply to.

use crate::config::{IsoTpConfig, RxFlowControl};
use crate::errors::{IsoTpError, TimeoutKind};
use crate::id;
use crate::id::Frame;
use crate::node;
use crate::node::{
    apply_flow_control, continue_send, receive_frame, FcAfter, RecvDecision, RecvStep,
    SendDecision, SendStep,
};
use crate::pdu;
use crate::pdu::{carries_address, decode_with_offset, encode_with_prefix_sized, FlowStatus, Pdu};
use crate::ready_queue::ReadyQueue;
use crate::rx;
use crate::rx::{RxMachine, RxStorage};
use crate::timer::Clock;
use crate::tx;
use crate::tx::{arm, plan_opening, Progress, TxPlan, TxState};
use crate::uds29;
use crate::uds29::{AcceptanceFilters, Uds29Kind};
use vstd::prelude::*;
use vstd::std_specs::cmp::{PartialOrdIs, PartialOrdSpec};

verus! {

/// A Flow Control frame that a sender has not looked at yet.
#[derive(Debug, Clone, Copy, PartialEq, Eq, Structural)]
pub struct PendingFc {
    /// Flow status from receiver to sender.
    pub status: FlowStatus,
    /// Block size requested by receiver (0 = unlimited).
    pub block_size: u8,
    /// STmin (encoded byte form).
    pub st_min: u8,
}

/// State kept for one peer.
pub struct PeerModel<I> {
    /// Address of the peer.
    pub remote: u8,
    /// Reassembly of what the peer sends.
    pub rx: rx::RxModel,
    /// A complete payload waits for delivery.
    pub rx_ready: bool,
    /// Transfer to the peer.
    pub tx: TxState<I>,
    /// Flow Control frame from the peer that was not looked at yet.
    pub pending_fc: Option<PendingFc>,
}

impl<I> PeerModel<I> {
    /// A peer just met.
    pub open spec fn fresh(remote: u8, storage: Seq<u8>) -> PeerModel<I> {
        PeerModel {
            remote,
            rx: rx::RxModel::idle(storage),
            rx_ready: false,
            tx: TxState::Idle,
            pending_fc: None,
        }
    }

    /// What is kept of every peer.
    pub open spec fn wf(self, max_payload_len: nat) -> bool {
        &&& self.rx.consistent()
        &&& self.rx.storage.len() >= max_payload_len
        &&& self.tx.wf()
    }
}

/// Configuration for the exchange with one peer: the base configuration under the identifiers of
/// the two addresses.
pub open spec fn peer_cfg(base: IsoTpConfig, local: u8, remote: u8) -> IsoTpConfig {
    IsoTpConfig {
        tx_id: uds29::uds_id(Uds29Kind::Physical, remote, local),
        rx_id: uds29::uds_id(Uds29Kind::Physical, local, remote),
        ..base
    }
}

/// Configuration for the exchange with one peer.
pub fn cfg_for_peer(base: &IsoTpConfig, local: u8, remote: u8) -> (r: IsoTpConfig)
    ensures
        r == peer_cfg(*base, local, remote),
{
    IsoTpConfig {
        tx_id: uds29::encode_phys_id(remote, local),
        rx_id: uds29::encode_phys_id(local, remote),
        ..*base
    }
}

/// Whether a frame to this address is for a node with these addresses.
pub open spec fn targets(addr: uds29::Uds29Id, local: u8, functional: Option<u8>) -> bool {
    match addr.kind {
        Uds29Kind::Physical => addr.target == local,
        Uds29Kind::Functional => functional == Some(addr.target),
    }
}

/// Reaction to the bytes of a frame from one peer.
///
/// Flow control is kept for the transmit side. Payloads are reassembled, but not while a complete
/// one waits for delivery; functional addressing is for Single Frames only.
pub open spec fn peer_ingested<I>(
    cfg: IsoTpConfig,
    rx_fc: RxFlowControl,
    p: PeerModel<I>,
    functional: bool,
    data: Seq<u8>,
) -> (PeerModel<I>, RecvDecision) {
    if !pdu::has_address(cfg, data) {
        (p, RecvDecision::Report(Progress::InFlight))
    } else {
        match pdu::pdu_in(cfg, data) {
            None => (p, RecvDecision::Fail(IsoTpError::InvalidFrame)),
            Some(pdu) => if !p.rx_ready && functional && pdu !is SingleFrame {
                (p, RecvDecision::Report(Progress::InFlight))
            } else {
                match pdu {
                    pdu::PduView::FlowControl { status, block_size, st_min } => (
                        PeerModel {
                            pending_fc: Some(PendingFc { status, block_size, st_min }),
                            ..p
                        },
                        RecvDecision::Report(Progress::InFlight),
                    ),
                    _ => if p.rx_ready {
                        (p, RecvDecision::Report(Progress::InFlight))
                    } else {
                        let (rx, d) = node::recv_decision(
                            cfg,
                            rx_fc,
                            p.rx,
                            id::FrameView { id: cfg.rx_id, data },
                        );
                        (
                            PeerModel {
                                rx,
                                rx_ready: d == RecvDecision::Report(Progress::Completed),
                                ..p
                            },
                            if d is Ignored {
                                RecvDecision::Report(Progress::InFlight)
                            } else {
                                d
                            },
                        )
                    },
                }
            },
        }
    }
}

/// One step of a transfer to a peer: the decision, what becomes of the transmit state, and which
/// Flow Control frame is left. `late` says that the deadline of a wait for flow control is reached,
/// or that a sender still has to pace.
pub open spec fn peer_send<I>(cfg: IsoTpConfig, p: PeerModel<I>, payload: Seq<u8>, late: bool) -> (
    SendDecision,
    FcAfter,
    Option<PendingFc>,
) {
    match p.tx {
        TxState::Idle => (
            SendDecision::transmit(
                cfg,
                tx::opening_pdu(cfg, payload),
                tx::opening_next(cfg, payload),
            ),
            FcAfter::Cleared,
            p.pending_fc,
        ),
        TxState::WaitingForFc { session, .. } => {
            let d = node::fc_wait_decision(cfg, payload, session, late);
            if d is AwaitFrame {
                match p.pending_fc {
                    None => (
                        SendDecision::Report(Progress::WaitingForFlowControl),
                        FcAfter::Kept,
                        None,
                    ),
                    Some(fc) => {
                        let (d, after) = node::fc_decision(
                            cfg,
                            payload,
                            session,
                            fc.status,
                            fc.block_size,
                            fc.st_min,
                        );
                        (d, after, None)
                    },
                }
            } else {
                (d, FcAfter::Cleared, p.pending_fc)
            }
        },
        TxState::Sending { session, .. } => {
            let d = node::chunk_decision(cfg, payload, session, late);
            (
                d,
                if d == SendDecision::Report(Progress::WouldBlock) {
                    FcAfter::Kept
                } else {
                    FcAfter::Cleared
                },
                p.pending_fc,
            )
        },
    }
}

/// Whether `late` is what comparing `now` with the deadline of a transmit state gives.
pub open spec fn late_at<I: PartialOrd>(state: TxState<I>, now: I, late: bool) -> bool {
    match state {
        TxState::Idle => !late,
        TxState::WaitingForFc { deadline, .. } => I::obeys_partial_cmp_spec() ==> late == now.is_ge(
            &deadline,
        ),
        TxState::Sending { st_min_deadline: Some(at), .. } => I::obeys_partial_cmp_spec() ==> late
            == now.is_lt(&at),
        TxState::Sending { st_min_deadline: None, .. } => !late,
    }
}

struct Peer<'a, I> {
    remote: u8,
    rx_machine: RxMachine<'a>,
    /// A complete payload is available in `rx_machine` and must be delivered before accepting a
    /// new payload from this peer (to avoid overwriting the reassembly buffer).
    rx_ready: bool,
    tx_state: TxState<I>,
    pending_fc: Option<PendingFc>,
}

impl<'a, I> View for Peer<'a, I> {
    type V = PeerModel<I>;

    closed spec fn view(&self) -> PeerModel<I> {
        PeerModel {
            remote: self.remote,
            rx: self.rx_machine@,
            rx_ready: self.rx_ready,
            tx: self.tx_state,
            pending_fc: self.pending_fc,
        }
    }
}

impl<'a, I: Copy + PartialOrd> Peer<'a, I> {
    fn new(remote: u8, storage: RxStorage<'a>) -> (r: Self)
        ensures
            r@ == PeerModel::<I>::fresh(remote, storage@),
            r.rx_machine.held() == storage,
    {
        Peer {
            remote,
            rx_machine: RxMachine::new(storage),
            rx_ready: false,
            tx_state: TxState::Idle,
            pending_fc: None,
        }
    }

    fn ingest(&mut self, cfg: &IsoTpConfig, rx_fc: &RxFlowControl, functional: bool, data: &[u8]) -> (r:
        Result<RecvStep, IsoTpError<()>>)
        requires
            old(self)@.rx.consistent(),
        ensures
            final(self)@ == peer_ingested(*cfg, *rx_fc, old(self)@, functional, data@).0,
            peer_ingested(*cfg, *rx_fc, old(self)@, functional, data@).1.taken(r),
            final(self)@.rx.consistent(),
            final(self)@.rx.storage.len() == old(self)@.rx.storage.len(),
            r !is Ok || r->Ok_0 !is Ignored,
            old(self).rx_machine.held() is Owned ==> final(self).rx_machine.held() is Owned,
            old(self).rx_machine.held() matches RxStorage::Borrowed(a) ==> (
            final(self).rx_machine.held() matches RxStorage::Borrowed(b) && final(a)@
                == final(b)@),
    {
        if !carries_address(cfg, data) {
            return Ok(RecvStep::Report(Progress::InFlight));
        }
        let pdu = match decode_with_offset(data, cfg.rx_pci_offset()) {
            Ok(pdu) => pdu,
            Err(_) => {
                return Err(IsoTpError::InvalidFrame);
            },
        };
        if !self.rx_ready && functional {
            match pdu {
                Pdu::SingleFrame { .. } => {},
                _ => {
                    return Ok(RecvStep::Report(Progress::InFlight));
                },
            }
        }
        if let Pdu::FlowControl { status, block_size, st_min } = pdu {
            self.pending_fc = Some(PendingFc { status, block_size, st_min });
            return Ok(RecvStep::Report(Progress::InFlight));
        }
        if self.rx_ready {
            return Ok(RecvStep::Report(Progress::InFlight));
        }
        proof {
            node::receiving_keeps_consistency(
                *cfg,
                *rx_fc,
                self.rx_machine@,
                id::FrameView { id: cfg.rx_id, data: data@ },
            );
        }
        let ghost view = id::FrameView { id: cfg.rx_id, data: data@ };
        let ghost decided = node::recv_decision(*cfg, *rx_fc, old(self)@.rx, view);
        match receive_frame(cfg, rx_fc, &mut self.rx_machine, data) {
            Ok(RecvStep::Ignored) => {
                assert(decided.1 is Ignored);
                Ok(RecvStep::Report(Progress::InFlight))
            },
            Ok(RecvStep::Report(Progress::Completed)) => {
                self.rx_ready = true;
                Ok(RecvStep::Report(Progress::Completed))
            },
            other => other,
        }
    }

    fn is_late(&self, now: I) -> (late: bool)
        ensures
            late_at(self@.tx, now, late),
    {
        match &self.tx_state {
            TxState::Idle => false,
            TxState::WaitingForFc { deadline, .. } => now >= *deadline,
            TxState::Sending { st_min_deadline, .. } => match st_min_deadline {
                Some(at) => now < *at,
                None => false,
            },
        }
    }

    fn send<C: Clock<Instant = I>>(
        &mut self,
        clock: &C,
        cfg: &IsoTpConfig,
        payload: &[u8],
        now: I,
        late: bool,
    ) -> (r: Result<SendStep, IsoTpError<()>>)
        requires
            payload@.len() <= 4095,
            old(self)@.tx.wf(),
        ensures
            ({
                let (d, after, fc) = peer_send(*cfg, old(self)@, payload@, late);
                &&& d.taken(r)
                &&& after.holds(*clock, now, cfg.n_bs, old(self)@.tx, final(self)@.tx)
                &&& final(self)@ == (PeerModel {
                    tx: final(self)@.tx,
                    pending_fc: fc,
                    ..old(self)@
                })
            }),
            final(self)@.tx.wf(),
            final(self).rx_machine == old(self).rx_machine,
    {
        let mut state = TxState::Idle;
        core::mem::swap(&mut state, &mut self.tx_state);
        match state {
            TxState::Idle => match plan_opening(cfg, payload) {
                Ok(plan) => Ok(SendStep::Transmit(plan)),
                Err(e) => Err(e),
            },
            TxState::WaitingForFc { session, deadline } => {
                if payload.len() != session.payload_len {
                    return Err(IsoTpError::NotIdle);
                }
                if session.wait_count > cfg.wft_max || late {
                    return Err(IsoTpError::Timeout(TimeoutKind::NBs));
                }
                match self.pending_fc.take() {
                    None => {
                        self.tx_state = TxState::WaitingForFc { session, deadline };
                        Ok(SendStep::Report(Progress::WaitingForFlowControl))
                    },
                    Some(fc) => {
                        let (r, next) = apply_flow_control(
                            clock,
                            cfg,
                            payload,
                            session,
                            now,
                            fc.status,
                            fc.block_size,
                            fc.st_min,
                        );
                        self.tx_state = next;
                        r
                    },
                }
            },
            TxState::Sending { session, st_min_deadline } => {
                let r = continue_send(cfg, payload, session, late);
                if let Ok(SendStep::Report(Progress::WouldBlock)) = r {
                    self.tx_state = TxState::Sending { session, st_min_deadline };
                }
                r
            },
        }
    }
}

/// State of a demux.
pub struct DemuxModel<I> {
    /// Peers, in the order in which they were met.
    pub peers: Seq<PeerModel<I>>,
    /// Reassembly buffers that no peer uses yet.
    pub free: Seq<Seq<u8>>,
    /// Indices of the peers with a payload to deliver, oldest first.
    pub ready: Seq<usize>,
}

impl<I> DemuxModel<I> {
    /// The peer at this index has this address.
    pub open spec fn is_peer(self, i: int, remote: u8) -> bool {
        0 <= i < self.peers.len() && self.peers[i].remote == remote
    }

    /// Index of the peer with this address, if it was met.
    pub open spec fn position(self, remote: u8) -> Option<int> {
        if exists|i: int| self.is_peer(i, remote) {
            Some(choose|i: int| self.is_peer(i, remote))
        } else {
            None
        }
    }

    /// What every demux keeps: well-formed peers with different addresses, one buffer for each
    /// peer met and to be met, and one entry in the delivery queue for each peer with a payload to
    /// deliver.
    pub open spec fn wf(self, max_payload_len: nat, max_peers: nat) -> bool {
        &&& self.peers.len() + self.free.len() == max_peers
        &&& forall|i: int|
            0 <= i < self.peers.len() ==> (#[trigger] self.peers[i]).wf(max_payload_len)
        &&& forall|i: int|
            0 <= i < self.free.len() ==> (#[trigger] self.free[i]).len() >= max_payload_len
        &&& forall|i: int, j: int|
            0 <= i < j < self.peers.len() ==> (#[trigger] self.peers[i]).remote != (
            #[trigger] self.peers[j]).remote
        &&& self.ready.no_duplicates()
        &&& forall|k: int|
            0 <= k < self.ready.len() ==> (#[trigger] self.ready[k]) < self.peers.len()
                && self.peers[self.ready[k] as int].rx_ready
        &&& forall|i: usize|
            #![trigger self.ready.contains(i)]
            i < self.peers.len() && self.peers[i as int].rx_ready ==> self.ready.contains(i)
    }

    /// No peer has this address.
    pub open spec fn excludes(self, addr: u8) -> bool {
        forall|i: int| 0 <= i < self.peers.len() ==> (#[trigger] self.peers[i]).remote != addr
    }

    /// The demux with a peer of this address, and the index of that peer. A node is not its own
    /// peer, and a new peer needs a buffer.
    pub open spec fn admitted(self, local: u8, remote: u8) -> Result<
        (DemuxModel<I>, int),
        IsoTpError<()>,
    > {
        match self.position(remote) {
            Some(i) => Ok((self, i)),
            None => if remote == local {
                Err(IsoTpError::InvalidConfig)
            } else if self.free.len() == 0 {
                Err(IsoTpError::RxOverflow)
            } else {
                Ok(
                    (
                        DemuxModel {
                            peers: self.peers.push(PeerModel::fresh(remote, self.free[0])),
                            free: self.free.skip(1),
                            ..self
                        },
                        self.peers.len() as int,
                    ),
                )
            },
        }
    }

    /// Reaction to a received frame.
    pub open spec fn ingested(
        self,
        base: IsoTpConfig,
        rx_fc: RxFlowControl,
        local: u8,
        functional: Option<u8>,
        frame: id::FrameView,
    ) -> (DemuxModel<I>, RecvDecision) {
        match uds29::address_of(frame.id) {
            Some(addr) if targets(addr, local, functional) => {
                match self.admitted(local, addr.source) {
                    Err(e) => (self, RecvDecision::Fail(e)),
                    Ok((m, i)) => {
                        let (p, d) = peer_ingested(
                            peer_cfg(base, local, addr.source),
                            rx_fc,
                            m.peers[i],
                            addr.kind is Functional,
                            frame.data,
                        );
                        (
                            DemuxModel {
                                peers: m.peers.update(i, p),
                                ready: if d == RecvDecision::Report(Progress::Completed) {
                                    m.ready.push(i as usize)
                                } else {
                                    m.ready
                                },
                                ..m
                            },
                            d,
                        )
                    },
                }
            },
            _ => (self, RecvDecision::Report(Progress::InFlight)),
        }
    }

    /// The demux once the oldest payload was delivered.
    pub open spec fn delivered(self) -> DemuxModel<I> {
        let i = self.ready[0] as int;
        DemuxModel {
            peers: self.peers.update(i, PeerModel { rx_ready: false, ..self.peers[i] }),
            ready: self.ready.skip(1),
            ..self
        }
    }
}

/// A node is never its own peer: its own address is refused, whatever peers were met and however
/// many buffers are free.
pub proof fn own_address_is_refused<I>(m: DemuxModel<I>, local: u8)
    requires
        m.excludes(local),
    ensures
        m.admitted(local, local) == Err::<(DemuxModel<I>, int), IsoTpError<()>>(
            IsoTpError::InvalidConfig,
        ),
{
}

/// Distinct numbers below `n` are at most `n`.
pub proof fn distinct_numbers_are_few(s: Seq<usize>, n: nat)
    requires
        s.no_duplicates(),
        forall|k: int| 0 <= k < s.len() ==> (#[trigger] s[k]) < n,
    ensures
        s.len() <= n,
{
    let t = s.map_values(|x: usize| x as int);
    assert(t.no_duplicates());
    t.unique_seq_to_set();
    vstd::set_lib::lemma_int_range(0, n as int);
    let range = vstd::set_lib::set_int_range(0, n as int);
    assert(t.to_set().subset_of(range));
    vstd::set_lib::lemma_len_subset(t.to_set(), range);
}

/// Multi-peer ISO-TP node for 29-bit UDS physical IDs `0x18DA_TA_SA`.
///
/// - `local_addr` is the receiver's UDS node address (`TA` field).
/// - Per-peer sessions are keyed by `source address` (`SA` field).
///
/// The caller must ensure the underlying CAN interface accepts all frames addressed to
/// `local_addr` (see [`IsoTpDemux::acceptance_filters`]).
pub struct IsoTpDemux<'a, C: Clock, const MAX_PEERS: usize> {
    base_cfg: IsoTpConfig,
    rx_flow_control: RxFlowControl,
    clock: C,
    local_addr: u8,
    functional_addr: Option<u8>,
    peers: Vec<Peer<'a, C::Instant>>,
    free: Vec<RxStorage<'a>>,
    ready: ReadyQueue<usize, MAX_PEERS>,
}

impl<'a, C: Clock, const MAX_PEERS: usize> View for IsoTpDemux<'a, C, MAX_PEERS> {
    type V = DemuxModel<C::Instant>;

    closed spec fn view(&self) -> DemuxModel<C::Instant> {
        DemuxModel {
            peers: self.peers@.map_values(|p: Peer<'a, C::Instant>| p@),
            free: self.free@.map_values(|s: RxStorage<'a>| s@),
            ready: self.ready@,
        }
    }
}

impl<'a, C: Clock, const MAX_PEERS: usize> IsoTpDemux<'a, C, MAX_PEERS> {
    /// Base configuration.
    pub closed spec fn cfg_spec(&self) -> IsoTpConfig {
        self.base_cfg
    }

    /// Flow-control parameters that the demux advertises.
    pub closed spec fn fc_spec(&self) -> RxFlowControl {
        self.rx_flow_control
    }

    /// Clock of the demux.
    pub closed spec fn clock_spec(&self) -> C {
        self.clock
    }

    /// Address of the node.
    pub closed spec fn local_spec(&self) -> u8 {
        self.local_addr
    }

    /// Functional address that the node listens to.
    pub closed spec fn functional_spec(&self) -> Option<u8> {
        self.functional_addr
    }

    /// The storages of the demux: those of the peers met, in order, and those still free.
    pub closed spec fn pool_spec(&self) -> Seq<RxStorage<'a>> {
        self.peers@.map_values(|p: Peer<'a, C::Instant>| p.rx_machine.held()) + self.free@
    }

    /// The view shows what the storages hold.
    pub proof fn view_shows_pool(&self)
        ensures
            self.pool_spec().len() == self@.peers.len() + self@.free.len(),
            forall|i: int|
                0 <= i < self@.peers.len() ==> (#[trigger] self@.peers[i]).rx.storage
                    == self.pool_spec()[i]@,
            forall|i: int|
                0 <= i < self@.free.len() ==> #[trigger] self@.free[i] == self.pool_spec()[
                self@.peers.len() + i]@,
    {
        assert forall|i: int| 0 <= i < self@.peers.len() implies (
        #[trigger] self@.peers[i]).rx.storage == self.pool_spec()[i]@ by {
            rx::view_shows_state_and_storage(self.peers@[i].rx_machine);
        }
    }

    /// The invariant of a demux. No peer has the node's own address.
    pub open spec fn wf(&self) -> bool {
        &&& self.cfg_spec().payload_limit_ok()
        &&& self@.wf(self.cfg_spec().max_payload_len as nat, MAX_PEERS as nat)
        &&& self@.excludes(self.local_spec())
    }

    /// Nothing but the state of peers, buffers and queue differs.
    pub open spec fn same_setup(&self, other: &Self) -> bool {
        &&& self.cfg_spec() == other.cfg_spec()
        &&& self.fc_spec() == other.fc_spec()
        &&& self.clock_spec() == other.clock_spec()
        &&& self.local_spec() == other.local_spec()
        &&& self.functional_spec() == other.functional_spec()
    }

    /// Index of the peer with this address.
    fn find_peer_index(&self, remote: u8) -> (r: Option<usize>)
        ensures
            match r {
                Some(i) => self@.is_peer(i as int, remote),
                None => forall|i: int| !self@.is_peer(i, remote),
            },
    {
        let mut i: usize = 0;
        while i < self.peers.len()
            invariant
                i <= self.peers@.len(),
                forall|j: int| 0 <= j < i ==> !self@.is_peer(j, remote),
            decreases self.peers@.len() - i,
        {
            if self.peers[i].remote == remote {
                assert(self@.is_peer(i as int, remote));
                return Some(i);
            }
            assert(!self@.is_peer(i as int, remote));
            i += 1;
        }
        None
    }

    fn peer_index_or_alloc(&mut self, remote: u8) -> (r: Result<usize, IsoTpError<()>>)
        requires
            old(self).wf(),
        ensures
            final(self).wf(),
            final(self).same_setup(old(self)),
            final(self).pool_spec() == old(self).pool_spec(),
            match r {
                Ok(i) => old(self)@.admitted(old(self).local_spec(), remote) == Ok::<
                    (DemuxModel<C::Instant>, int),
                    IsoTpError<()>,
                >((final(self)@, i as int)) && i < final(self)@.peers.len(),
                Err(e) => old(self)@.admitted(old(self).local_spec(), remote) == Err::<
                    (DemuxModel<C::Instant>, int),
                    IsoTpError<()>,
                >(e) && final(self)@ == old(self)@,
            },
    {
        if let Some(i) = self.find_peer_index(remote) {
            return Ok(i);
        }
        if remote == self.local_addr {
            return Err(IsoTpError::InvalidConfig);
        }
        if self.free.len() == 0 {
            assert(self@.free.len() == 0);
            return Err(IsoTpError::RxOverflow);
        }
        let storage = self.free.remove(0);
        assert(storage@ == old(self)@.free[0]);
        self.peers.push(Peer::new(remote, storage));
        proof {
            let before = old(self)@;
            assert(self@.peers =~= before.peers.push(PeerModel::fresh(remote, before.free[0])));
            assert(self@.free =~= before.free.skip(1));
            assert(self.pool_spec() =~= old(self).pool_spec());
            assert forall|i: int, j: int| 0 <= i < j < self@.peers.len() implies (
            #[trigger] self@.peers[i]).remote != (#[trigger] self@.peers[j]).remote by {
                if j == before.peers.len() {
                    assert(!before.is_peer(i, remote));
                }
            }
        }
        Ok(self.peers.len() - 1)
    }

    /// Take in what the CAN interface had to offer: a frame, or nothing for now.
    pub fn ingest_one(&mut self, frame: Option<&Frame>) -> (r: Result<RecvStep, IsoTpError<()>>)
        requires
            old(self).wf(),
        ensures
            final(self).wf(),
            final(self).same_setup(old(self)),
            final(self).pool_spec().len() == old(self).pool_spec().len(),
            forall|i: int|
                #![trigger old(self).pool_spec()[i]]
                #![trigger final(self).pool_spec()[i]]
                0 <= i < old(self).pool_spec().len() ==> {
                    &&& old(self).pool_spec()[i] is Owned ==> final(self).pool_spec()[i] is Owned
                    &&& old(self).pool_spec()[i] matches RxStorage::Borrowed(a) ==> (
                    final(self).pool_spec()[i] matches RxStorage::Borrowed(b) && final(a)@
                        == final(b)@)
                },
            match frame {
                None => r matches Ok(RecvStep::Report(p)) && p == Progress::WouldBlock
                    && final(self)@ == old(self)@,
                Some(f) => {
                    let (after, d) = old(self)@.ingested(
                        old(self).cfg_spec(),
                        old(self).fc_spec(),
                        old(self).local_spec(),
                        old(self).functional_spec(),
                        f@,
                    );
                    final(self)@ == after && d.taken(r)
                },
            },
    {
        let frame = match frame {
            Some(frame) => frame,
            None => {
                return Ok(RecvStep::Report(Progress::WouldBlock));
            },
        };
        let addr = match uds29::decode_id(frame.id) {
            Some(addr) => addr,
            None => {
                return Ok(RecvStep::Report(Progress::InFlight));
            },
        };
        let functional = match addr.kind {
            Uds29Kind::Physical => {
                if addr.target != self.local_addr {
                    return Ok(RecvStep::Report(Progress::InFlight));
                }
                false
            },
            Uds29Kind::Functional => {
                if self.functional_addr != Some(addr.target) {
                    return Ok(RecvStep::Report(Progress::InFlight));
                }
                true
            },
        };
        let idx: usize = match self.peer_index_or_alloc(addr.source) {
            Ok(idx) => idx,
            Err(e) => {
                return Err(e);
            },
        };
        let ghost m = self@;
        let cfg = cfg_for_peer(&self.base_cfg, self.local_addr, addr.source);
        let r = self.peers[idx].ingest(
            &cfg,
            &self.rx_flow_control,
            functional,
            frame.data.as_slice(),
        );
        let ghost p = self.peers@[idx as int]@;
        assert(self@.peers =~= m.peers.update(idx as int, p));
        assert(self@.free =~= m.free);
        if let Ok(RecvStep::Report(Progress::Completed)) = r {
            proof {
                assert(!m.peers[idx as int].rx_ready);
                if m.ready.contains(idx) {
                    let k = choose|k: int| 0 <= k < m.ready.len() && m.ready[k] == idx;
                    assert(m.peers[m.ready[k] as int].rx_ready);
                }
                distinct_numbers_are_few(m.ready.push(idx), m.peers.len());
            }
            let _pushed = self.ready.push(idx);
            proof {
                assert(self@.ready == m.ready.push(idx));
                assert forall|i: usize|
                    #![trigger self@.ready.contains(i)]
                    i < self@.peers.len() && self@.peers[i as int].rx_ready implies self@.ready.contains(
                    i,
                ) by {
                    if i == idx {
                        assert(self@.ready[m.ready.len() as int] == idx);
                    } else {
                        assert(m.ready.contains(i));
                        let k = choose|k: int| 0 <= k < m.ready.len() && m.ready[k] == i;
                        assert(self@.ready[k] == i);
                    }
                }
            }
        } else {
            assert(p.rx_ready == m.peers[idx as int].rx_ready);
            assert forall|i: usize|
                #![trigger self@.ready.contains(i)]
                i < self@.peers.len() && self@.peers[i as int].rx_ready implies self@.ready.contains(
                i,
            ) by {
                assert(m.ready.contains(i));
            }
        }
        r
    }

    /// Create a demux with caller-provided per-peer RX storages.
    ///
    /// `base_cfg` provides ISO-TP timing/limits/padding/address-byte configuration; per-peer
    /// CAN IDs are derived from `local_addr` and the peer address on demand.
    pub fn new(
        base_cfg: IsoTpConfig,
        clock: C,
        local_addr: u8,
        storages: Vec<RxStorage<'a>>,
    ) -> (r: Result<Self, IsoTpError<()>>)
        requires
            storages@.len() == MAX_PEERS,
        ensures
            match r {
                Ok(demux) => {
                    &&& base_cfg.payload_limit_ok()
                    &&& forall|i: int|
                        0 <= i < MAX_PEERS ==> (#[trigger] storages@[i])@.len()
                            >= base_cfg.max_payload_len
                    &&& demux.wf()
                    &&& demux.cfg_spec() == base_cfg
                    &&& demux.fc_spec() == RxFlowControl::of(base_cfg)
                    &&& demux.clock_spec() == clock
                    &&& demux.local_spec() == local_addr
                    &&& demux.functional_spec() is None
                    &&& demux@.peers.len() == 0
                    &&& demux@.free == storages@.map_values(|s: RxStorage<'a>| s@)
                    &&& demux@.ready.len() == 0
                    &&& demux.pool_spec() == storages@
                },
                Err(e) => {
                    &&& e is InvalidConfig
                    &&& !(base_cfg.payload_limit_ok() && forall|i: int|
                        0 <= i < MAX_PEERS ==> (#[trigger] storages@[i])@.len()
                            >= base_cfg.max_payload_len)
                    &&& forall|i: int|
                        0 <= i < MAX_PEERS ==> (
                        #[trigger] storages@[i] matches RxStorage::Borrowed(held) ==> final(held)@
                            == storages@[i]@)
                },
            },
    {
        if base_cfg.max_payload_len == 0 || base_cfg.max_payload_len > 4095 {
            return Err(IsoTpError::InvalidConfig);
        }
        if !all_fit(&storages, base_cfg.max_payload_len) {
            return Err(IsoTpError::InvalidConfig);
        }
        Ok(
            IsoTpDemux {
                base_cfg,
                rx_flow_control: RxFlowControl::from_config(&base_cfg),
                clock,
                local_addr,
                functional_addr: None,
                peers: Vec::new(),
                free: storages,
                ready: ReadyQueue::new(),
            },
        )
    }

    /// Enable reception of functional-addressing frames (`0x18DB_TA_SA`) for `functional_addr`.
    ///
    /// Note: ISO-TP segmentation with functional addressing is commonly avoided in practice; this
    /// demux only accepts **Single Frame** payloads on functional IDs.
    pub fn with_functional_addr(self, functional_addr: u8) -> (r: Self)
        ensures
            r@ == self@,
            r.functional_spec() == Some(functional_addr),
            r.cfg_spec() == self.cfg_spec(),
            r.fc_spec() == self.fc_spec(),
            r.clock_spec() == self.clock_spec(),
            r.local_spec() == self.local_spec(),
            r.pool_spec() == self.pool_spec(),
    {
        let mut r = self;
        r.functional_addr = Some(functional_addr);
        r
    }

    /// UDS node address for this demux.
    pub fn local_addr(&self) -> (r: u8)
        ensures
            r == self.local_spec(),
    {
        self.local_addr
    }

    /// The demux's clock.
    pub fn clock(&self) -> (r: &C)
        ensures
            *r == self.clock_spec(),
    {
        &self.clock
    }

    /// Get the current receive-side FlowControl parameters (BS/STmin).
    pub fn rx_flow_control(&self) -> (r: RxFlowControl)
        ensures
            r == self.fc_spec(),
    {
        self.rx_flow_control
    }

    /// Update receive-side FlowControl parameters (BS/STmin).
    pub fn set_rx_flow_control(&mut self, fc: RxFlowControl)
        ensures
            final(self)@ == old(self)@,
            final(self).fc_spec() == fc,
            final(self).cfg_spec() == old(self).cfg_spec(),
            final(self).clock_spec() == old(self).clock_spec(),
            final(self).local_spec() == old(self).local_spec(),
            final(self).functional_spec() == old(self).functional_spec(),
            final(self).pool_spec() == old(self).pool_spec(),
    {
        self.rx_flow_control = fc;
    }

    /// Acceptance filters that match frames addressed to this node.
    ///
    /// - physical: `0x18DA_TA_SA` where `TA == local_addr`
    /// - functional (optional): `0x18DB_TA_SA` where `TA == functional_addr`
    pub fn acceptance_filters(&self) -> (r: AcceptanceFilters)
        ensures
            uds29::are_target_filters(r@, self.local_spec(), self.functional_spec()),
    {
        uds29::filters_for_targets(self.local_addr, self.functional_addr)
    }

    /// Deliver the oldest payload that waits, with the address to reply to.
    ///
    /// The slice remains valid until the next receive operation for that same address overwrites
    /// the reassembly buffer.
    pub fn poll_recv(&mut self) -> (r: Option<(u8, &[u8])>)
        requires
            old(self).wf(),
        ensures
            final(self).wf(),
            final(self).same_setup(old(self)),
            final(self).pool_spec() == old(self).pool_spec(),
            match r {
                Some((reply_to, payload)) => {
                    &&& old(self)@.ready.len() > 0
                    &&& reply_to == old(self)@.peers[old(self)@.ready[0] as int].remote
                    &&& payload@ == old(self)@.peers[old(self)@.ready[0] as int].rx.received()
                    &&& final(self)@ == old(self)@.delivered()
                },
                None => old(self)@.ready.len() == 0 && final(self)@ == old(self)@,
            },
    {
        let idx: usize = match self.ready.pop() {
            Some(idx) => idx,
            None => {
                assert(self@.peers =~= old(self)@.peers);
                assert(self@.free =~= old(self)@.free);
                return None;
            },
        };
        let ghost m = old(self)@;
        assert(idx == m.ready[0]);
        self.peers[idx].rx_ready = false;
        proof {
            let after = m.delivered();
            assert(self@.peers =~= after.peers);
            assert(self@.free =~= after.free);
            assert forall|k: int| 0 <= k < after.ready.len() implies (#[trigger] after.ready[k])
                < after.peers.len() && after.peers[after.ready[k] as int].rx_ready by {
                assert(after.ready[k] == m.ready[k + 1]);
                assert(m.ready[k + 1] != m.ready[0]);
            }
            assert forall|i: usize|
                #![trigger after.ready.contains(i)]
                i < after.peers.len()
                    && after.peers[i as int].rx_ready implies after.ready.contains(i) by {
                assert(m.ready.contains(i));
                let k = choose|k: int| 0 <= k < m.ready.len() && m.ready[k] == i;
                assert(after.ready[k - 1] == i);
            }
            assert forall|i: int|
                0 <= i < after.peers.len() implies (#[trigger] after.peers[i]).wf(
                self.base_cfg.max_payload_len as nat,
            ) by {
                assert(m.peers[i].wf(self.base_cfg.max_payload_len as nat));
            }
        }
        let peer = &self.peers[idx];
        assert(m.peers[idx as int].wf(self.base_cfg.max_payload_len as nat));
        Some((peer.remote, peer.rx_machine.take_completed()))
    }

    /// Whether the next step of a transfer to `remote` should be preceded by taking in a frame, to
    /// pick up flow control. A continuous block without pacing needs none.
    pub fn wants_frame(&self, remote: u8) -> (r: bool)
        requires
            self.wf(),
        ensures
            r == (match self@.position(remote) {
                Some(i) => match self@.peers[i].tx {
                    TxState::Sending { session, .. } => !(session.block_size == 0
                        && session.st_min@ == 0),
                    _ => true,
                },
                None => true,
            }),
    {
        match self.find_peer_index(remote) {
            Some(i) => {
                assert(self@.peers[i as int] == self.peers@[i as int]@);
                match &self.peers[i].tx_state {
                    TxState::Sending { session, .. } => !(session.block_size == 0
                        && session.st_min.is_zero()),
                    _ => true,
                }
            },
            None => true,
        }
    }

    /// Non-blocking send step to a destination address.
    pub fn poll_send_to(&mut self, remote: u8, payload: &[u8], now: C::Instant) -> (r: Result<
        SendStep,
        IsoTpError<()>,
    >)
        requires
            old(self).wf(),
        ensures
            final(self).wf(),
            final(self).same_setup(old(self)),
            final(self).pool_spec() == old(self).pool_spec(),
            if payload@.len() > old(self).cfg_spec().max_payload_len {
                r matches Err(e) && e is Overflow && final(self)@ == old(self)@
            } else {
                match old(self)@.admitted(old(self).local_spec(), remote) {
                    Err(e) => r matches Err(got) && got == e && final(self)@ == old(self)@,
                    Ok((m, i)) => exists|late: bool|
                        late_at(m.peers[i].tx, now, late) && send_step_taken(
                            old(self).clock_spec(),
                            peer_cfg(old(self).cfg_spec(), old(self).local_spec(), remote),
                            m,
                            i,
                            payload@,
                            now,
                            late,
                            final(self)@,
                            r,
                        ),
                }
            },
    {
        if payload.len() > self.base_cfg.max_payload_len {
            return Err(IsoTpError::Overflow);
        }
        let idx: usize = match self.peer_index_or_alloc(remote) {
            Ok(idx) => idx,
            Err(e) => {
                return Err(e);
            },
        };
        let ghost m = self@;
        let cfg = cfg_for_peer(&self.base_cfg, self.local_addr, remote);
        assert(m.peers[idx as int].wf(self.base_cfg.max_payload_len as nat));
        let late = self.peers[idx].is_late(now);
        let r = self.peers[idx].send(&self.clock, &cfg, payload, now, late);
        proof {
            let p = self.peers@[idx as int]@;
            assert(self@.peers =~= m.peers.update(idx as int, p));
            assert(self@.free =~= m.free);
            same_receive_side_keeps_wf(
                m,
                self@,
                idx as int,
                self.base_cfg.max_payload_len as nat,
                MAX_PEERS as nat,
            );
        }
        r
    }

    /// Conclude a send step with what the CAN interface answered.
    ///
    /// A frame that went out brings the transfer to its next state; one that did not ends it.
    pub fn sent<E>(&mut self, remote: u8, plan: TxPlan, link: Result<(), E>, now: C::Instant) -> (r:
        Result<Progress, IsoTpError<E>>)
        requires
            old(self).wf(),
            old(self)@.position(remote) is Some,
        ensures
            final(self).wf(),
            final(self).same_setup(old(self)),
            final(self).pool_spec() == old(self).pool_spec(),
            ({
                let i = old(self)@.position(remote)->0;
                &&& final(self)@ == (DemuxModel {
                    peers: old(self)@.peers.update(
                        i,
                        PeerModel { tx: final(self)@.peers[i].tx, ..old(self)@.peers[i] },
                    ),
                    ..old(self)@
                })
                &&& match link {
                    Ok(_) => r == Ok::<Progress, IsoTpError<E>>(plan.next_spec().progress())
                        && tx::armed(
                        old(self).clock_spec(),
                        now,
                        old(self).cfg_spec().n_bs,
                        plan.next_spec(),
                        final(self)@.peers[i].tx,
                    ),
                    Err(e) => r == Err::<Progress, IsoTpError<E>>(IsoTpError::LinkError(e))
                        && final(self)@.peers[i].tx is Idle,
                }
            }),
    {
        let idx: usize = match self.find_peer_index(remote) {
            Some(idx) => idx,
            None => {
                assert(false);
                return Ok(Progress::WouldBlock);
            },
        };
        let ghost m = self@;
        assert(m.position(remote) == Some(idx as int));
        let r = match link {
            Ok(()) => {
                let (state, progress) = arm(&self.clock, now, self.base_cfg.n_bs, plan.next());
                self.peers[idx].tx_state = state;
                Ok(progress)
            },
            Err(e) => {
                self.peers[idx].tx_state = TxState::Idle;
                Err(IsoTpError::LinkError(e))
            },
        };
        proof {
            let p = self.peers@[idx as int]@;
            assert(self@.peers =~= m.peers.update(idx as int, p));
            assert(self@.free =~= m.free);
            same_receive_side_keeps_wf(
                m,
                self@,
                idx as int,
                self.base_cfg.max_payload_len as nat,
                MAX_PEERS as nat,
            );
        }
        r
    }

    /// Build the frame of a functional-addressing **single-frame** payload to `functional_target`.
    ///
    /// This is intended for small broadcast/group messages. Payloads that do not fit in a single
    /// ISO-TP frame return [`IsoTpError::Overflow`].
    pub fn send_functional_to(&self, functional_target: u8, payload: &[u8]) -> (r: Result<
        Frame,
        IsoTpError<()>,
    >)
        ensures
            is_functional_frame(
                self.cfg_spec(),
                self.local_spec(),
                functional_target,
                payload@,
                r,
            ),
    {
        functional_frame(&self.base_cfg, self.local_addr, functional_target, payload)
    }
}

/// The Single Frame that carries a payload to a functional address, or why there is none.
pub open spec fn is_functional_frame(
    base: IsoTpConfig,
    local: u8,
    target: u8,
    payload: Seq<u8>,
    r: Result<Frame, IsoTpError<()>>,
) -> bool {
    let cfg = IsoTpConfig { tx_id: uds29::uds_id(Uds29Kind::Functional, target, local), ..base };
    let pdu = pdu::PduView::SingleFrame { len: payload.len() as u8, data: payload };
    if payload.len() > base.sf_room() {
        r matches Err(e) && e is Overflow
    } else {
        match r {
            Ok(frame) => pdu::frame_for(cfg, pdu) == Some(frame@),
            Err(e) => e is InvalidFrame && pdu::frame_for(cfg, pdu) is None,
        }
    }
}

/// Build the Single Frame that carries a payload to a functional address.
pub fn functional_frame(base: &IsoTpConfig, local: u8, target: u8, payload: &[u8]) -> (r: Result<
    Frame,
    IsoTpError<()>,
>)
    ensures
        is_functional_frame(*base, local, target, payload@, r),
{
    if payload.len() > base.max_single_frame_payload() {
        return Err(IsoTpError::Overflow);
    }
    let id = uds29::encode_func_id(target, local);
    let pdu = Pdu::SingleFrame { len: payload.len() as u8, data: payload };
    encode_with_prefix_sized(id, &pdu, base.padding, base.tx_addr, base.frame_len)
}

/// Whether a send step to the peer at index `i` did what was decided, and left everything else as
/// it was.
pub open spec fn send_step_taken<C: Clock>(
    clock: C,
    cfg: IsoTpConfig,
    m: DemuxModel<C::Instant>,
    i: int,
    payload: Seq<u8>,
    now: C::Instant,
    late: bool,
    end: DemuxModel<C::Instant>,
    r: Result<SendStep, IsoTpError<()>>,
) -> bool {
    let (d, after, fc) = peer_send(cfg, m.peers[i], payload, late);
    &&& d.taken(r)
    &&& after.holds(clock, now, cfg.n_bs, m.peers[i].tx, end.peers[i].tx)
    &&& end == (DemuxModel {
        peers: m.peers.update(
            i,
            PeerModel { tx: end.peers[i].tx, pending_fc: fc, ..m.peers[i] },
        ),
        ..m
    })
}

/// A change to the transmit side of one peer keeps the invariant.
proof fn same_receive_side_keeps_wf<I>(
    m: DemuxModel<I>,
    end: DemuxModel<I>,
    i: int,
    max_payload_len: nat,
    max_peers: nat,
)
    requires
        m.wf(max_payload_len, max_peers),
        0 <= i < m.peers.len(),
        end.peers == m.peers.update(i, end.peers[i]),
        end.free == m.free,
        end.ready == m.ready,
        end.peers[i].remote == m.peers[i].remote,
        end.peers[i].rx == m.peers[i].rx,
        end.peers[i].rx_ready == m.peers[i].rx_ready,
        end.peers[i].tx.wf(),
    ensures
        end.wf(max_payload_len, max_peers),
{
    assert forall|j: usize|
        #![trigger end.ready.contains(j)]
        j < end.peers.len() && end.peers[j as int].rx_ready implies end.ready.contains(j) by {
        assert(m.ready.contains(j));
    }
    assert forall|j: int| 0 <= j < end.peers.len() implies (#[trigger] end.peers[j]).wf(
        max_payload_len,
    ) by {
        assert(m.peers[j].wf(max_payload_len));
    }
}

/// Whether every buffer holds a payload of this length.
pub fn all_fit(storages: &Vec<RxStorage<'_>>, max_payload_len: usize) -> (r: bool)
    ensures
        r == forall|i: int|
            0 <= i < storages@.len() ==> (#[trigger] storages@[i])@.len() >= max_payload_len,
{
    let mut i: usize = 0;
    while i < storages.len()
        invariant
            i <= storages@.len(),
            forall|j: int| 0 <= j < i ==> (#[trigger] storages@[j])@.len() >= max_payload_len,
        decreases storages@.len() - i,
    {
        if storages[i].capacity() < max_payload_len {
            assert(storages@[i as int]@.len() < max_payload_len);
            return false;
        }
        i += 1;
    }
    true
}

/// Build `N` borrowed ISO-TP RX storages from a fixed array of RX buffers.
///
/// Each peer session needs a dedicated reassembly buffer.
pub fn rx_storages_from_buffers<'a, const N: usize, const L: usize>(
    bufs: &'a mut [[u8; L]; N],
) -> (r: Vec<RxStorage<'a>>)
    ensures
        r@.len() == N,
        forall|i: int|
            0 <= i < N ==> {
                &&& (#[trigger] r@[i])@ == old(bufs)@[i]@
                &&& r@[i] matches RxStorage::Borrowed(held) && final(held)@ == final(bufs)@[i]@
            },
{
    let mut out: Vec<RxStorage<'a>> = Vec::new();
    let ghost all = bufs@;
    let ghost end = final(bufs)@;
    let mut rest: &'a mut [[u8; L]] = bufs;
    while rest.len() > 0
        invariant
            all.len() == N,
            end.len() == N,
            rest@.len() + out@.len() == N,
            rest@ == all.skip(out@.len() as int),
            final(rest)@ == end.skip(out@.len() as int),
            forall|i: int|
                0 <= i < out@.len() ==> {
                    &&& (#[trigger] out@[i])@ == all[i]@
                    &&& out@[i] matches RxStorage::Borrowed(held) && final(held)@
                        == end[i]@
                },
        decreases rest@.len(),
    {
        let ghost k = out@.len() as int;
        let ghost left = final(rest)@;
        let taken = rest;
        let (first, tail) = taken.split_at_mut(1);
        let ghost head = final(first)@;
        let ghost others = final(tail)@;
        let buf: &'a mut [u8; L] = &mut first[0];
        assert(head =~= seq![*final(buf)]);
        out.push(RxStorage::Borrowed(buf));
        assert(left[0] == end[k]);
        assert(left.skip(1) =~= others);
        assert(others =~= end.skip(k + 1));
        rest = tail;
    }
    out
}

/// A frame changes at most the peer it comes from: every peer met before keeps its place and
/// address, and all but the source keep their state.
pub proof fn sources_do_not_mix<I>(
    m: DemuxModel<I>,
    base: IsoTpConfig,
    rx_fc: RxFlowControl,
    local: u8,
    functional: Option<u8>,
    frame: id::FrameView,
    i: int,
)
    requires
        0 <= i < m.peers.len(),
    ensures
        ({
            let after = m.ingested(base, rx_fc, local, functional, frame).0;
            &&& after.peers.len() >= m.peers.len()
            &&& after.peers[i].remote == m.peers[i].remote
            &&& after.peers[i].tx == m.peers[i].tx
            &&& (uds29::address_of(frame.id) matches Some(addr) && addr.source
                == m.peers[i].remote) || after.peers[i] == m.peers[i]
        }),
{
}

/// The demux after frames were taken in one by one.
pub open spec fn fed<I>(
    m: DemuxModel<I>,
    base: IsoTpConfig,
    rx_fc: RxFlowControl,
    local: u8,
    functional: Option<u8>,
    frames: Seq<id::FrameView>,
) -> DemuxModel<I>
    decreases frames.len(),
{
    if frames.len() == 0 {
        m
    } else {
        fed(m, base, rx_fc, local, functional, frames.drop_last()).ingested(
            base,
            rx_fc,
            local,
            functional,
            frames.last(),
        ).0
    }
}

/// One peer after the frames among these that come from it and are for the node.
pub open spec fn peer_fed<I>(
    p: PeerModel<I>,
    base: IsoTpConfig,
    rx_fc: RxFlowControl,
    local: u8,
    functional: Option<u8>,
    frames: Seq<id::FrameView>,
) -> PeerModel<I>
    decreases frames.len(),
{
    if frames.len() == 0 {
        p
    } else {
        let q = peer_fed(p, base, rx_fc, local, functional, frames.drop_last());
        match uds29::address_of(frames.last().id) {
            Some(addr) if targets(addr, local, functional) && addr.source == p.remote => {
                peer_ingested(
                    peer_cfg(base, local, p.remote),
                    rx_fc,
                    q,
                    addr.kind is Functional,
                    frames.last().data,
                ).0
            },
            _ => q,
        }
    }
}

/// Transfers from different sources can interleave and are reassembled independently: what a demux
/// keeps of a peer is what this peer's own frames make of it, whatever arrives in between.
pub proof fn interleaved_sources_are_independent<I>(
    m: DemuxModel<I>,
    base: IsoTpConfig,
    rx_fc: RxFlowControl,
    local: u8,
    functional: Option<u8>,
    frames: Seq<id::FrameView>,
    i: int,
    max_payload_len: nat,
    max_peers: nat,
)
    requires
        m.wf(max_payload_len, max_peers),
        0 <= i < m.peers.len(),
    ensures
        ({
            let after = fed(m, base, rx_fc, local, functional, frames);
            &&& after.peers.len() >= m.peers.len()
            &&& after.peers[i] == peer_fed(
                m.peers[i],
                base,
                rx_fc,
                local,
                functional,
                frames,
            )
        }),
{
    feeding_keeps_addresses(m, base, rx_fc, local, functional, frames, i);
}

/// No two peers have the same address.
spec fn distinct_addresses<I>(m: DemuxModel<I>) -> bool {
    forall|i: int, j: int|
        0 <= i < j < m.peers.len() ==> (#[trigger] m.peers[i]).remote != (
        #[trigger] m.peers[j]).remote
}

proof fn feeding_keeps_addresses<I>(
    m: DemuxModel<I>,
    base: IsoTpConfig,
    rx_fc: RxFlowControl,
    local: u8,
    functional: Option<u8>,
    frames: Seq<id::FrameView>,
    i: int,
)
    requires
        distinct_addresses(m),
        0 <= i < m.peers.len(),
    ensures
        distinct_addresses(fed(m, base, rx_fc, local, functional, frames)),
        fed(m, base, rx_fc, local, functional, frames).peers.len() >= m.peers.len(),
        fed(m, base, rx_fc, local, functional, frames).peers[i].remote == m.peers[i].remote,
        fed(m, base, rx_fc, local, functional, frames).peers[i] == peer_fed(
            m.peers[i],
            base,
            rx_fc,
            local,
            functional,
            frames,
        ),
    decreases frames.len(),
{
    if frames.len() > 0 {
        feeding_keeps_addresses(m, base, rx_fc, local, functional, frames.drop_last(), i);
        let before = fed(m, base, rx_fc, local, functional, frames.drop_last());
        let frame = frames.last();
        let after = before.ingested(base, rx_fc, local, functional, frame).0;
        if let Some(addr) = uds29::address_of(frame.id) {
            if targets(addr, local, functional) {
                if addr.source == m.peers[i].remote {
                    assert(before.is_peer(i, addr.source));
                    let k = before.position(addr.source)->0;
                    assert(before.is_peer(k, addr.source));
                    assert(k == i) by {
                        if k < i {
                            assert(before.peers[k].remote != before.peers[i].remote);
                        } else if i < k {
                            assert(before.peers[i].remote != before.peers[k].remote);
                        }
                    }
                }
                if let Ok((n, k)) = before.admitted(local, addr.source) {
                    assert forall|x: int, y: int| 0 <= x < y < after.peers.len() implies (
                    #[trigger] after.peers[x]).remote != (#[trigger] after.peers[y]).remote by {
                        assert(after.peers[x].remote == n.peers[x].remote);
                        assert(after.peers[y].remote == n.peers[y].remote);
                        if y < before.peers.len() {
                            assert(before.peers[x].remote != before.peers[y].remote);
                        } else {
                            assert(!before.is_peer(x, addr.source));
                        }
                    }
                }
            }
        }
    }
}

/// A frame that is not addressed to the node changes nothing.
pub proof fn foreign_frames_change_nothing<I>(
    m: DemuxModel<I>,
    base: IsoTpConfig,
    rx_fc: RxFlowControl,
    local: u8,
    functional: Option<u8>,
    frame: id::FrameView,
)
    requires
        match uds29::address_of(frame.id) {
            Some(addr) => !targets(addr, local, functional),
            None => true,
        },
    ensures
        m.ingested(base, rx_fc, local, functional, frame) == (
            m,
            RecvDecision::Report(Progress::InFlight),
        ),
{
}

/// A payload that waits for delivery is not touched by further frames from its sender: frames
/// leave the reassembly of a peer alone until its payload was delivered.
pub proof fn waiting_payload_is_kept<I>(
    m: DemuxModel<I>,
    base: IsoTpConfig,
    rx_fc: RxFlowControl,
    local: u8,
    functional: Option<u8>,
    frame: id::FrameView,
    i: int,
)
    requires
        0 <= i < m.peers.len(),
        m.peers[i].rx_ready,
    ensures
        m.ingested(base, rx_fc, local, functional, frame).0.peers[i].rx == m.peers[i].rx,
        m.ingested(base, rx_fc, local, functional, frame).0.peers[i].rx_ready,
{
}

/// A source that was not met before is refused exactly when all buffers are taken.
pub proof fn new_source_needs_a_buffer<I>(
    m: DemuxModel<I>,
    local: u8,
    remote: u8,
    max_payload_len: nat,
    max_peers: nat,
)
    requires
        m.wf(max_payload_len, max_peers),
        remote != local,
        m.position(remote) is None,
    ensures
        m.admitted(local, remote) is Err <==> m.peers.len() == max_peers,
{
}

} // verus!
