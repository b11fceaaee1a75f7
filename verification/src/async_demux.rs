//! Async multi-peer ISO-TP demultiplexing for 29-bit UDS-style addressing.
//!
//! [`IsoTpAsyncDemux`] holds per-source reassembly, the queue of payloads to deliver, and the
//! receive timeouts. It decides; the caller awaits the CAN interface and the runtime.

use crate::async_io::{budget, remaining};
use crate::async_send;
use crate::async_send::{apply_fc, wait_budget, AsyncAction, AsyncChoice, AsyncSend, SendTimes};
use crate::config::{IsoTpConfig, RxFlowControl};
use crate::demux;
use crate::demux::{all_fit, cfg_for_peer, functional_frame, PendingFc};
use crate::errors::{IsoTpError, TimeoutKind};
use crate::id;
use crate::id::Frame;
use crate::node;
use crate::node::flow_control_frame;
use crate::pdu;
use crate::pdu::{carries_address, decode_with_offset, duration_to_st_min, FlowStatus, Pdu};
use crate::ready_queue::ReadyQueue;
use crate::rx;
use crate::rx::{RxMachine, RxOutcome, RxStorage};
use crate::time::Duration;
use crate::timer::{Clock, StdClock};
use crate::tx;
use crate::tx::{plan_opening, Progress, TxSession};
use crate::uds29;
use crate::uds29::{AcceptanceFilters, Uds29Kind};
use vstd::prelude::*;

verus! {

/// Receive-into error for the async demux app view.
#[derive(Debug)]
pub enum AppRecvIntoError<E> {
    /// Output buffer was too small for the completed payload.
    BufferTooSmall { needed: usize, got: usize },
    /// ISO-TP transport/backend error.
    IsoTp(IsoTpError<E>),
}

/// State kept for one peer.
pub struct AsyncPeerModel<I> {
    /// Address of the peer.
    pub remote: u8,
    /// Reassembly of what the peer sends.
    pub rx: rx::RxModel,
    /// A complete payload waits for delivery in the reassembly buffer.
    pub rx_ready: bool,
    /// Flow Control frame from the peer that was not looked at yet.
    pub pending_fc: Option<PendingFc>,
    /// When the segmented transfer under way last made progress.
    pub rx_last_activity: Option<I>,
}

impl<I> AsyncPeerModel<I> {
    /// A peer just met.
    pub open spec fn fresh(remote: u8, storage: Seq<u8>) -> AsyncPeerModel<I> {
        AsyncPeerModel {
            remote,
            rx: rx::RxModel::idle(storage),
            rx_ready: false,
            pending_fc: None,
            rx_last_activity: None,
        }
    }

    /// What is kept of every peer.
    pub open spec fn wf(self, max_payload_len: nat) -> bool {
        &&& self.rx.consistent()
        &&& self.rx.storage.len() >= max_payload_len
        &&& self.rx_ready ==> self.rx.state is Idle
    }

    /// The peer with the receive timeout started anew, or stopped where no transfer is under way.
    pub open spec fn refreshed(self, now: I) -> AsyncPeerModel<I> {
        AsyncPeerModel {
            rx_last_activity: if self.rx.state is Receiving {
                Some(now)
            } else {
                None
            },
            ..self
        }
    }

    /// The peer with the transfer under way abandoned.
    pub open spec fn aborted(self) -> AsyncPeerModel<I> {
        AsyncPeerModel {
            rx: rx::RxModel::idle(self.rx.storage),
            rx_last_activity: None,
            ..self
        }
    }
}

/// What a peer's frame comes to.
pub enum PeerOutcome {
    /// Progress or failure, after the flow control to send back, if any.
    Result(Option<(FlowStatus, u8, u8)>, Result<Progress, IsoTpError<()>>),
    /// A payload is complete.
    Completed,
}

impl PeerOutcome {
    /// Nothing to send back.
    pub open spec fn plain(r: Result<Progress, IsoTpError<()>>) -> PeerOutcome {
        PeerOutcome::Result(None, r)
    }

    /// Refusal of a payload.
    pub open spec fn refusal(
        rx_fc: RxFlowControl,
        r: Result<Progress, IsoTpError<()>>,
    ) -> PeerOutcome {
        PeerOutcome::Result(
            Some((FlowStatus::Overflow, 0u8, pdu::st_min_byte(rx_fc.st_min@))),
            r,
        )
    }
}

/// Reaction to a PDU that goes to the reassembly of a peer at `now`.
///
/// A payload that does not fit and a frame out of sequence abandon the transfer under way.
pub open spec fn peer_reassembled<I>(
    cfg: IsoTpConfig,
    rx_fc: RxFlowControl,
    p: AsyncPeerModel<I>,
    pdu: pdu::PduView,
    now: I,
) -> (AsyncPeerModel<I>, PeerOutcome) {
    let (rx, outcome) = p.rx.on_pdu(cfg.max_payload_len as nat, rx_fc, pdu);
    let q = AsyncPeerModel { rx, ..p };
    match outcome {
        Ok(RxOutcome::Nothing) => (q.refreshed(now), PeerOutcome::plain(Ok(Progress::InFlight))),
        Ok(RxOutcome::SendFlowControl { status, block_size, st_min }) => (
            q.refreshed(now),
            PeerOutcome::Result(Some((status, block_size, st_min)), Ok(Progress::InFlight)),
        ),
        Ok(RxOutcome::Completed(_)) => (
            AsyncPeerModel { rx_last_activity: None, ..q },
            PeerOutcome::Completed,
        ),
        Err(IsoTpError::Overflow) => (
            q.aborted(),
            PeerOutcome::refusal(rx_fc, Err(IsoTpError::RxOverflow)),
        ),
        Err(IsoTpError::UnexpectedPdu) => (
            q.refreshed(now),
            PeerOutcome::plain(Ok(Progress::InFlight)),
        ),
        Err(e) => (q.aborted(), PeerOutcome::plain(Err(e))),
    }
}

/// Reaction to the bytes of a frame from one peer at `now`.
///
/// Flow control is kept for the transmit side. Payloads are reassembled; while a complete one waits
/// in the reassembly buffer, a new segmented one is refused and everything else is dropped.
/// Functional addressing is for Single Frames only.
pub open spec fn async_peer_ingested<I>(
    cfg: IsoTpConfig,
    rx_fc: RxFlowControl,
    p: AsyncPeerModel<I>,
    functional: bool,
    data: Seq<u8>,
    now: I,
) -> (AsyncPeerModel<I>, PeerOutcome) {
    let quiet = PeerOutcome::plain(Ok(Progress::InFlight));
    if !pdu::has_address(cfg, data) {
        (p, quiet)
    } else {
        match pdu::pdu_in(cfg, data) {
            None => (p, PeerOutcome::plain(Err(IsoTpError::InvalidFrame))),
            Some(pdu) => if !p.rx_ready && functional && pdu !is SingleFrame {
                (p, quiet)
            } else {
                match pdu {
                    pdu::PduView::FlowControl { status, block_size, st_min } => (
                        AsyncPeerModel {
                            pending_fc: Some(PendingFc { status, block_size, st_min }),
                            ..p
                        },
                        quiet,
                    ),
                    _ => if !p.rx_ready {
                        peer_reassembled(cfg, rx_fc, p, pdu, now)
                    } else if pdu is FirstFrame {
                        (p, PeerOutcome::refusal(rx_fc, Ok(Progress::InFlight)))
                    } else {
                        (p, quiet)
                    },
                }
            },
        }
    }
}

struct Peer<'a, I> {
    remote: u8,
    rx_machine: RxMachine<'a>,
    rx_ready: bool,
    pending_fc: Option<PendingFc>,
    rx_last_activity: Option<I>,
}

impl<'a, I> View for Peer<'a, I> {
    type V = AsyncPeerModel<I>;

    closed spec fn view(&self) -> AsyncPeerModel<I> {
        AsyncPeerModel {
            remote: self.remote,
            rx: self.rx_machine@,
            rx_ready: self.rx_ready,
            pending_fc: self.pending_fc,
            rx_last_activity: self.rx_last_activity,
        }
    }
}

/// What a peer's frame asks for.
enum PeerStep {
    Result(Option<(FlowStatus, u8, u8)>, Result<Progress, IsoTpError<()>>),
    Completed,
}

impl PeerStep {
    spec fn is(self, o: PeerOutcome) -> bool {
        match self {
            PeerStep::Result(fc, r) => o == PeerOutcome::Result(fc, r),
            PeerStep::Completed => o is Completed,
        }
    }
}

impl<'a, I: Copy> Peer<'a, I> {
    fn new(remote: u8, storage: RxStorage<'a>) -> (r: Self)
        ensures
            r@ == AsyncPeerModel::<I>::fresh(remote, storage@),
            r.rx_machine.held() == storage,
    {
        Peer {
            remote,
            rx_machine: RxMachine::new(storage),
            rx_ready: false,
            pending_fc: None,
            rx_last_activity: None,
        }
    }

    fn refresh_rx_timeout(&mut self, now: I)
        ensures
            final(self)@ == old(self)@.refreshed(now),
            final(self).rx_machine == old(self).rx_machine,
    {
        self.rx_last_activity = if self.rx_machine.is_receiving() {
            Some(now)
        } else {
            None
        };
    }

    fn abort(&mut self)
        ensures
            final(self)@ == old(self)@.aborted(),
            final(self).rx_machine.held() == old(self).rx_machine.held(),
    {
        self.rx_machine.reset();
        self.rx_last_activity = None;
    }

    fn reassemble(&mut self, cfg: &IsoTpConfig, rx_fc: &RxFlowControl, pdu: Pdu<'_>, now: I) -> (r:
        PeerStep)
        requires
            old(self)@.rx.wf(),
        ensures
            final(self)@ == peer_reassembled(*cfg, *rx_fc, old(self)@, pdu@, now).0,
            r.is(peer_reassembled(*cfg, *rx_fc, old(self)@, pdu@, now).1),
            old(self).rx_machine.held() is Owned ==> final(self).rx_machine.held() is Owned,
            old(self).rx_machine.held() matches RxStorage::Borrowed(a) ==> (
            final(self).rx_machine.held() matches RxStorage::Borrowed(b) && final(a)@
                == final(b)@),
    {
        match self.rx_machine.on_pdu(cfg, rx_fc, pdu) {
            Ok(RxOutcome::Nothing) => {
                self.refresh_rx_timeout(now);
                PeerStep::Result(None, Ok(Progress::InFlight))
            },
            Ok(RxOutcome::SendFlowControl { status, block_size, st_min }) => {
                self.refresh_rx_timeout(now);
                PeerStep::Result(Some((status, block_size, st_min)), Ok(Progress::InFlight))
            },
            Ok(RxOutcome::Completed(_)) => {
                self.rx_last_activity = None;
                PeerStep::Completed
            },
            Err(IsoTpError::Overflow) => {
                self.abort();
                PeerStep::Result(
                    Some((FlowStatus::Overflow, 0, duration_to_st_min(rx_fc.st_min))),
                    Err(IsoTpError::RxOverflow),
                )
            },
            Err(IsoTpError::UnexpectedPdu) => {
                self.refresh_rx_timeout(now);
                PeerStep::Result(None, Ok(Progress::InFlight))
            },
            Err(e) => {
                self.abort();
                PeerStep::Result(None, Err(e))
            },
        }
    }

    fn ingest(
        &mut self,
        cfg: &IsoTpConfig,
        rx_fc: &RxFlowControl,
        functional: bool,
        data: &[u8],
        now: I,
    ) -> (r: PeerStep)
        requires
            old(self)@.rx.wf(),
        ensures
            final(self)@ == async_peer_ingested(*cfg, *rx_fc, old(self)@, functional, data@, now).0,
            r.is(async_peer_ingested(*cfg, *rx_fc, old(self)@, functional, data@, now).1),
            old(self).rx_machine.held() is Owned ==> final(self).rx_machine.held() is Owned,
            old(self).rx_machine.held() matches RxStorage::Borrowed(a) ==> (
            final(self).rx_machine.held() matches RxStorage::Borrowed(b) && final(a)@
                == final(b)@),
    {
        if !carries_address(cfg, data) {
            return PeerStep::Result(None, Ok(Progress::InFlight));
        }
        let pdu = match decode_with_offset(data, cfg.rx_pci_offset()) {
            Ok(pdu) => pdu,
            Err(_) => {
                return PeerStep::Result(None, Err(IsoTpError::InvalidFrame));
            },
        };
        if !self.rx_ready && functional {
            match pdu {
                Pdu::SingleFrame { .. } => {},
                _ => {
                    return PeerStep::Result(None, Ok(Progress::InFlight));
                },
            }
        }
        match pdu {
            Pdu::FlowControl { status, block_size, st_min } => {
                self.pending_fc = Some(PendingFc { status, block_size, st_min });
                PeerStep::Result(None, Ok(Progress::InFlight))
            },
            Pdu::FirstFrame { .. } => {
                if self.rx_ready {
                    PeerStep::Result(
                        Some((FlowStatus::Overflow, 0, duration_to_st_min(rx_fc.st_min))),
                        Ok(Progress::InFlight),
                    )
                } else {
                    self.reassemble(cfg, rx_fc, pdu, now)
                }
            },
            _ => {
                if self.rx_ready {
                    PeerStep::Result(None, Ok(Progress::InFlight))
                } else {
                    self.reassemble(cfg, rx_fc, pdu, now)
                }
            },
        }
    }
}

/// The reassembly of a peer stays consistent, and the peer's buffer keeps its size.
pub(crate) proof fn ingesting_keeps_peer_wf<I>(
    cfg: IsoTpConfig,
    rx_fc: RxFlowControl,
    p: AsyncPeerModel<I>,
    functional: bool,
    data: Seq<u8>,
    now: I,
    max_payload_len: nat,
)
    requires
        p.wf(max_payload_len),
    ensures
        async_peer_ingested(cfg, rx_fc, p, functional, data, now).0.wf(max_payload_len),
        async_peer_ingested(cfg, rx_fc, p, functional, data, now).0.rx_ready == p.rx_ready,
        async_peer_ingested(cfg, rx_fc, p, functional, data, now).0.remote == p.remote,
        async_peer_ingested(cfg, rx_fc, p, functional, data, now).1 is Completed ==> !p.rx_ready
            && async_peer_ingested(cfg, rx_fc, p, functional, data, now).0.rx.state is Idle,
{
    if let Some(pdu) = pdu::pdu_in(cfg, data) {
        rx::pdus_keep_consistency(p.rx, cfg.max_payload_len as nat, rx_fc, pdu);
    }
}

/// A payload that waits for delivery.
pub enum ReadyModel {
    /// In the reassembly buffer of the peer at this index.
    Peer(usize),
    /// The first `len` bytes of a buffer of its own.
    Spilled { remote: u8, len: nat, storage: Seq<u8> },
}

struct CompletedPayload<'a> {
    remote: u8,
    len: usize,
    storage: RxStorage<'a>,
}

enum ReadyItem<'a> {
    Peer(usize),
    Completed(CompletedPayload<'a>),
}

impl<'a> View for ReadyItem<'a> {
    type V = ReadyModel;

    closed spec fn view(&self) -> ReadyModel {
        match self {
            ReadyItem::Peer(i) => ReadyModel::Peer(*i),
            ReadyItem::Completed(c) => ReadyModel::Spilled {
                remote: c.remote,
                len: c.len as nat,
                storage: c.storage@,
            },
        }
    }
}

/// Storages in a delivery queue, oldest first.
spec fn queued_storages<'a>(ready: Seq<ReadyItem<'a>>) -> Seq<RxStorage<'a>>
    decreases ready.len(),
{
    if ready.len() == 0 {
        Seq::empty()
    } else {
        match ready.last() {
            ReadyItem::Peer(_) => queued_storages(ready.drop_last()),
            ReadyItem::Completed(c) => queued_storages(ready.drop_last()).push(c.storage),
        }
    }
}

proof fn queued_storages_push<'a>(ready: Seq<ReadyItem<'a>>, item: ReadyItem<'a>)
    ensures
        queued_storages(ready.push(item)) == (match item {
            ReadyItem::Peer(_) => queued_storages(ready),
            ReadyItem::Completed(c) => queued_storages(ready).push(c.storage),
        }),
{
    assert(ready.push(item).drop_last() =~= ready);
}

proof fn queued_storages_skip<'a>(ready: Seq<ReadyItem<'a>>)
    requires
        ready.len() > 0,
    ensures
        match ready[0] {
            ReadyItem::Peer(_) => queued_storages(ready.skip(1)) == queued_storages(ready),
            ReadyItem::Completed(c) => queued_storages(ready) == seq![c.storage] + queued_storages(
                ready.skip(1),
            ),
        },
    decreases ready.len(),
{
    let rest = ready.drop_last();
    if ready.len() == 1 {
        assert(ready.skip(1) =~= Seq::empty());
        assert(rest =~= Seq::empty());
        assert(queued_storages(rest) =~= Seq::empty());
        if let ReadyItem::Completed(c) = ready[0] {
            assert(queued_storages(ready) =~= seq![c.storage] + queued_storages(ready.skip(1)));
        }
    } else {
        queued_storages_skip(rest);
        assert(ready.skip(1).drop_last() =~= rest.skip(1));
        if let ReadyItem::Completed(c) = ready[0] {
            assert(queued_storages(ready) =~= seq![c.storage] + queued_storages(ready.skip(1)));
        }
    }
}

/// Storages in which peers reassemble.
spec fn peer_storages<'a, I>(peers: Seq<Peer<'a, I>>) -> Seq<RxStorage<'a>> {
    peers.map_values(|p: Peer<'a, I>| p.rx_machine.held())
}

proof fn storages_together<'a>(
    a: Seq<RxStorage<'a>>,
    b: Seq<RxStorage<'a>>,
    c: Seq<RxStorage<'a>>,
)
    ensures
        (a + b + c).to_multiset() == a.to_multiset().add(b.to_multiset()).add(c.to_multiset()),
{
    vstd::seq_lib::lemma_multiset_commutative(a + b, c);
    vstd::seq_lib::lemma_multiset_commutative(a, b);
}

/// A peer that hands its storage to the delivery queue and takes a free one loses none.
proof fn handing_over_loses_no_storage<'a>(
    peers: Seq<RxStorage<'a>>,
    free: Seq<RxStorage<'a>>,
    queued: Seq<RxStorage<'a>>,
    i: int,
)
    requires
        0 <= i < peers.len(),
        free.len() > 0,
    ensures
        (peers.update(i, free[0]) + free.remove(0) + queued.push(peers[i])).to_multiset() == (peers
            + free + queued).to_multiset(),
{
    broadcast use vstd::seq_lib::group_to_multiset_ensures;

    storages_together(peers, free, queued);
    storages_together(peers.update(i, free[0]), free.remove(0), queued.push(peers[i]));
    assert(peers.contains(peers[i]));
    assert(free.contains(free[0]));
    assert((peers.update(i, free[0]) + free.remove(0) + queued.push(peers[i])).to_multiset() =~= (
    peers + free + queued).to_multiset());
}

/// The oldest storage of the delivery queue is not lost where it becomes free or goes to the end.
proof fn taking_the_oldest_loses_no_storage<'a>(
    peers: Seq<RxStorage<'a>>,
    free: Seq<RxStorage<'a>>,
    oldest: RxStorage<'a>,
    rest: Seq<RxStorage<'a>>,
)
    ensures
        (peers + free.push(oldest) + rest).to_multiset() == (peers + free + (seq![oldest]
            + rest)).to_multiset(),
        (peers + free + rest.push(oldest)).to_multiset() == (peers + free + (seq![oldest]
            + rest)).to_multiset(),
{
    broadcast use vstd::seq_lib::group_to_multiset_ensures;

    let one = seq![oldest];
    storages_together(peers, free, one + rest);
    storages_together(peers, free.push(oldest), rest);
    storages_together(peers, free, rest.push(oldest));
    vstd::seq_lib::lemma_multiset_commutative(one, rest);
    assert(Seq::<RxStorage<'a>>::empty().push(oldest) =~= one);
    assert((peers + free.push(oldest) + rest).to_multiset() =~= (peers + free + (one
        + rest)).to_multiset());
    assert((peers + free + rest.push(oldest)).to_multiset() =~= (peers + free + (one
        + rest)).to_multiset());
}

/// Indices of the peers in a delivery queue.
pub open spec fn queued_peers(ready: Seq<ReadyModel>) -> Seq<usize>
    decreases ready.len(),
{
    if ready.len() == 0 {
        Seq::empty()
    } else {
        match ready.last() {
            ReadyModel::Peer(i) => queued_peers(ready.drop_last()).push(i),
            ReadyModel::Spilled { .. } => queued_peers(ready.drop_last()),
        }
    }
}

/// Number of buffers held by a delivery queue.
pub open spec fn queued_buffers(ready: Seq<ReadyModel>) -> nat {
    (ready.len() - queued_peers(ready).len()) as nat
}

proof fn queued_peers_facts(ready: Seq<ReadyModel>)
    ensures
        queued_peers(ready).len() <= ready.len(),
        forall|i: usize|
            #![trigger queued_peers(ready).contains(i)]
            queued_peers(ready).contains(i) <==> ready.contains(ReadyModel::Peer(i)),
    decreases ready.len(),
{
    if ready.len() > 0 {
        let rest = ready.drop_last();
        queued_peers_facts(rest);
        assert forall|i: usize|
            #![trigger queued_peers(ready).contains(i)]
            queued_peers(ready).contains(i) <==> ready.contains(ReadyModel::Peer(i)) by {
            let ps = queued_peers(ready);
            if ps.contains(i) {
                let k = choose|k: int| 0 <= k < ps.len() && ps[k] == i;
                if ready.last() is Peer && k == ps.len() - 1 {
                    assert(ready[ready.len() - 1] == ReadyModel::Peer(i));
                } else {
                    assert(queued_peers(rest)[k] == i);
                    assert(queued_peers(rest).contains(i));
                    let j = choose|j: int|
                        0 <= j < rest.len() && rest[j] == ReadyModel::Peer(i);
                    assert(ready[j] == ReadyModel::Peer(i));
                }
            }
            if ready.contains(ReadyModel::Peer(i)) {
                let j = choose|j: int|
                    0 <= j < ready.len() && ready[j] == ReadyModel::Peer(i);
                if j == ready.len() - 1 {
                    assert(ps[ps.len() - 1] == i);
                } else {
                    assert(rest[j] == ReadyModel::Peer(i));
                    assert(rest.contains(ReadyModel::Peer(i)));
                    assert(queued_peers(rest).contains(i));
                    let k = choose|k: int|
                        0 <= k < queued_peers(rest).len() && queued_peers(rest)[k] == i;
                    assert(ps[k] == i);
                }
            }
        }
    }
}

proof fn queued_peers_push(ready: Seq<ReadyModel>, item: ReadyModel)
    ensures
        queued_peers(ready.push(item)) == (match item {
            ReadyModel::Peer(i) => queued_peers(ready).push(i),
            ReadyModel::Spilled { .. } => queued_peers(ready),
        }),
{
    assert(ready.push(item).drop_last() =~= ready);
}

proof fn queued_peers_skip(ready: Seq<ReadyModel>)
    requires
        ready.len() > 0,
    ensures
        queued_peers(ready.skip(1)) == (match ready[0] {
            ReadyModel::Peer(_) => queued_peers(ready).skip(1),
            ReadyModel::Spilled { .. } => queued_peers(ready),
        }),
        ready[0] matches ReadyModel::Peer(i) ==> queued_peers(ready).len() > 0
            && queued_peers(ready)[0] == i,
    decreases ready.len(),
{
    let rest = ready.drop_last();
    if ready.len() == 1 {
        assert(ready.skip(1) =~= Seq::empty());
        assert(rest =~= Seq::empty());
        if ready[0] is Peer {
            assert(queued_peers(ready) =~= seq![ready[0]->Peer_0]);
            assert(queued_peers(ready).skip(1) =~= Seq::empty());
        }
    } else {
        queued_peers_skip(rest);
        assert(ready.skip(1).drop_last() =~= rest.skip(1));
        if ready[0] is Peer && ready.last() is Peer {
            let i = ready.last()->Peer_0;
            assert(queued_peers(rest).push(i).skip(1) =~= queued_peers(rest).skip(1).push(i));
        }
    }
}

/// State of an async demux.
pub struct AsyncDemuxModel<I> {
    /// Peers, in the order in which they were met.
    pub peers: Seq<AsyncPeerModel<I>>,
    /// Buffers that nothing uses.
    pub free: Seq<Seq<u8>>,
    /// Payloads that wait for delivery, oldest first.
    pub ready: Seq<ReadyModel>,
}

/// What a frame comes to: the Flow Control frame to transmit first, if any, and the result once it
/// is out.
pub struct IngestDecision {
    /// Flow Control frame to transmit.
    pub reply: Option<id::FrameView>,
    /// Progress or failure to report.
    pub result: Result<Progress, IsoTpError<()>>,
}

impl IngestDecision {
    /// Nothing to transmit.
    pub open spec fn quiet(result: Result<Progress, IsoTpError<()>>) -> IngestDecision {
        IngestDecision { reply: None, result }
    }
}

/// What a frame asks of the caller: transmit the Flow Control frame, if there is one, and fail if
/// that fails; else report the result.
pub struct IngestStep {
    /// Flow Control frame to transmit.
    pub reply: Option<Frame>,
    /// Progress or failure to report.
    pub result: Result<Progress, IsoTpError<()>>,
}

impl IngestStep {
    /// Whether a step is what was decided.
    pub open spec fn is(self, d: IngestDecision) -> bool {
        &&& self.result == d.result
        &&& match self.reply {
            Some(frame) => d.reply == Some(frame@),
            None => d.reply is None,
        }
    }

    /// The result once the reply, if any, was handed to the CAN interface.
    pub fn conclude<E>(self, link: Result<(), E>) -> (r: Result<Progress, IsoTpError<E>>)
        ensures
            r == (match (self.reply, link) {
                (Some(_), Err(e)) => Err(IsoTpError::LinkError(e)),
                _ => match self.result {
                    Ok(p) => Ok(p),
                    Err(e) => Err(crate::async_io::widened::<E>(e)),
                },
            }),
    {
        if self.reply.is_some() {
            if let Err(e) = link {
                return Err(IsoTpError::LinkError(e));
            }
        }
        match self.result {
            Ok(p) => Ok(p),
            Err(e) => Err(crate::async_io::widen(e)),
        }
    }
}

impl<I> AsyncDemuxModel<I> {
    /// The peer at this index has this address.
    pub open spec fn is_peer(self, i: int, remote: u8) -> bool {
        0 <= i < self.peers.len() && self.peers[i].remote == remote
    }

    /// Index of the peer with this address, if it was met.
    pub open spec fn position(self, remote: u8) -> Option<int> {
        if exists|i: int| self.is_peer(i, remote) {
            Some(choose|i: int| self.is_peer(i, remote))
        } else {
            None
        }
    }

    /// The payloads that wait for delivery, each with the address it came from.
    pub open spec fn waiting(self) -> Seq<(u8, Seq<u8>)> {
        Seq::new(
            self.ready.len(),
            |k: int|
                match self.ready[k] {
                    ReadyModel::Peer(i) => (
                        self.peers[i as int].remote,
                        self.peers[i as int].rx.received(),
                    ),
                    ReadyModel::Spilled { remote, len, storage } => (
                        remote,
                        storage.take(len as int),
                    ),
                },
        )
    }

    /// What every demux keeps: well-formed peers with different addresses; as many buffers as
    /// peers are allowed, each in the hands of a peer, of the delivery queue, or free; and one
    /// entry in the delivery queue for each peer with a payload to deliver.
    pub open spec fn wf(self, max_payload_len: nat, max_peers: nat) -> bool {
        &&& self.peers.len() + self.free.len() + queued_buffers(self.ready) == max_peers
        &&& forall|i: int|
            0 <= i < self.peers.len() ==> (#[trigger] self.peers[i]).wf(max_payload_len)
        &&& forall|i: int|
            0 <= i < self.free.len() ==> (#[trigger] self.free[i]).len() >= max_payload_len
        &&& forall|i: int, j: int|
            0 <= i < j < self.peers.len() ==> (#[trigger] self.peers[i]).remote != (
            #[trigger] self.peers[j]).remote
        &&& queued_peers(self.ready).no_duplicates()
        &&& forall|k: int|
            0 <= k < self.ready.len() ==> match #[trigger] self.ready[k] {
                ReadyModel::Peer(i) => i < self.peers.len() && self.peers[i as int].rx_ready,
                ReadyModel::Spilled { len, storage, .. } => len <= storage.len() && storage.len()
                    >= max_payload_len,
            }
        &&& forall|i: usize|
            #![trigger self.ready.contains(ReadyModel::Peer(i))]
            i < self.peers.len() && self.peers[i as int].rx_ready ==> self.ready.contains(
                ReadyModel::Peer(i),
            )
    }

    /// No peer has this address.
    pub open spec fn excludes(self, addr: u8) -> bool {
        forall|i: int| 0 <= i < self.peers.len() ==> (#[trigger] self.peers[i]).remote != addr
    }

    /// The demux with a peer of this address, and the index of that peer. A node is not its own
    /// peer, and a new peer needs a buffer.
    pub open spec fn admitted(self, local: u8, remote: u8) -> Result<
        (AsyncDemuxModel<I>, int),
        IsoTpError<()>,
    > {
        match self.position(remote) {
            Some(i) => Ok((self, i)),
            None => if remote == local {
                Err(IsoTpError::InvalidConfig)
            } else if self.free.len() == 0 {
                Err(IsoTpError::RxOverflow)
            } else {
                Ok(
                    (
                        AsyncDemuxModel {
                            peers: self.peers.push(AsyncPeerModel::fresh(remote, self.free[0])),
                            free: self.free.skip(1),
                            ..self
                        },
                        self.peers.len() as int,
                    ),
                )
            },
        }
    }

    /// The demux once the peer at index `i` has a complete payload: the payload moves to the
    /// delivery queue where a free buffer can take its place, else it waits in the peer.
    pub open spec fn queued(self, i: int) -> AsyncDemuxModel<I> {
        let p = self.peers[i];
        if self.free.len() > 0 {
            AsyncDemuxModel {
                peers: self.peers.update(
                    i,
                    AsyncPeerModel {
                        rx: rx::RxModel::idle(self.free[0]),
                        rx_ready: false,
                        rx_last_activity: None,
                        ..p
                    },
                ),
                free: self.free.skip(1),
                ready: self.ready.push(
                    ReadyModel::Spilled {
                        remote: p.remote,
                        len: p.rx.written,
                        storage: p.rx.storage,
                    },
                ),
            }
        } else {
            AsyncDemuxModel {
                peers: self.peers.update(i, AsyncPeerModel { rx_ready: true, ..p }),
                ready: self.ready.push(ReadyModel::Peer(i as usize)),
                ..self
            }
        }
    }

    /// Reaction to a frame received at `now`.
    pub open spec fn ingested(
        self,
        base: IsoTpConfig,
        rx_fc: RxFlowControl,
        local: u8,
        functional: Option<u8>,
        frame: id::FrameView,
        now: I,
    ) -> (AsyncDemuxModel<I>, IngestDecision) {
        match uds29::address_of(frame.id) {
            Some(addr) if demux::targets(addr, local, functional) => {
                match self.admitted(local, addr.source) {
                    Err(e) => (self, IngestDecision::quiet(Err(e))),
                    Ok((m, i)) => {
                        let cfg = demux::peer_cfg(base, local, addr.source);
                        let (p, outcome) = async_peer_ingested(
                            cfg,
                            rx_fc,
                            m.peers[i],
                            addr.kind is Functional,
                            frame.data,
                            now,
                        );
                        let after = AsyncDemuxModel { peers: m.peers.update(i, p), ..m };
                        match outcome {
                            PeerOutcome::Completed => (
                                after.queued(i),
                                IngestDecision::quiet(Ok(Progress::Completed)),
                            ),
                            PeerOutcome::Result(None, r) => (after, IngestDecision::quiet(r)),
                            PeerOutcome::Result(Some((status, block_size, st_min)), r) => {
                                match node::fc_frame(cfg, status, block_size, st_min) {
                                    Some(fc) => (
                                        after,
                                        IngestDecision { reply: Some(fc), result: r },
                                    ),
                                    None => (
                                        after,
                                        IngestDecision::quiet(Err(IsoTpError::InvalidFrame)),
                                    ),
                                }
                            },
                        }
                    },
                }
            },
            _ => (self, IngestDecision::quiet(Ok(Progress::InFlight))),
        }
    }

    /// The demux once the oldest payload was delivered: a buffer that held it is free again.
    pub open spec fn delivered(self) -> AsyncDemuxModel<I> {
        match self.ready[0] {
            ReadyModel::Peer(i) => AsyncDemuxModel {
                peers: self.peers.update(
                    i as int,
                    AsyncPeerModel {
                        rx_ready: false,
                        rx_last_activity: None,
                        ..self.peers[i as int]
                    },
                ),
                ready: self.ready.skip(1),
                ..self
            },
            ReadyModel::Spilled { storage, .. } => AsyncDemuxModel {
                free: self.free.push(storage),
                ready: self.ready.skip(1),
                ..self
            },
        }
    }

    /// The demux with the oldest payload moved to the end of the queue.
    pub open spec fn requeued(self) -> AsyncDemuxModel<I> {
        AsyncDemuxModel { ready: self.ready.skip(1).push(self.ready[0]), ..self }
    }
}

/// A node is never its own peer: its own address is refused, whatever peers were met and however
/// many buffers are free.
pub proof fn own_address_is_refused<I>(m: AsyncDemuxModel<I>, local: u8)
    requires
        m.excludes(local),
    ensures
        m.admitted(local, local) == Err::<(AsyncDemuxModel<I>, int), IsoTpError<()>>(
            IsoTpError::InvalidConfig,
        ),
{
}

/// The delivery queue never holds more payloads than there are buffers.
pub proof fn queue_is_bounded<I>(m: AsyncDemuxModel<I>, max_payload_len: nat, max_peers: nat)
    requires
        m.wf(max_payload_len, max_peers),
    ensures
        m.ready.len() + m.free.len() <= max_peers,
{
    queued_peers_facts(m.ready);
    let ps = queued_peers(m.ready);
    assert forall|k: int| 0 <= k < ps.len() implies (#[trigger] ps[k]) < m.peers.len() by {
        assert(ps.contains(ps[k]));
        let j = choose|j: int| 0 <= j < m.ready.len() && m.ready[j] == ReadyModel::Peer(ps[k]);
        assert(m.ready[j] is Peer);
    }
    demux::distinct_numbers_are_few(ps, m.peers.len());
}

/// Moving a complete payload to the delivery queue keeps the invariant.
pub(crate) proof fn queueing_keeps_wf<I>(m: AsyncDemuxModel<I>, i: int, max_payload_len: nat, max_peers: nat)
    requires
        m.wf(max_payload_len, max_peers),
        0 <= i < m.peers.len(),
        m.peers.len() <= usize::MAX,
        !m.peers[i].rx_ready,
        m.peers[i].rx.state is Idle,
    ensures
        m.queued(i).wf(max_payload_len, max_peers),
        m.ready.len() < max_peers,
{
    queue_is_bounded(m, max_payload_len, max_peers);
    let after = m.queued(i);
    let item = after.ready.last();
    queued_peers_facts(m.ready);
    queued_peers_push(m.ready, item);
    assert(after.ready == m.ready.push(item));
    assert(m.peers[i].wf(max_payload_len));
    assert forall|j: int| 0 <= j < after.peers.len() implies (#[trigger] after.peers[j]).wf(
        max_payload_len,
    ) by {
        assert(m.peers[j].wf(max_payload_len));
    }
    assert forall|j: usize|
        #![trigger after.ready.contains(ReadyModel::Peer(j))]
        j < after.peers.len() && after.peers[j as int].rx_ready implies after.ready.contains(
        ReadyModel::Peer(j),
    ) by {
        if j == i {
            assert(after.ready[m.ready.len() as int] == ReadyModel::Peer(j));
        } else {
            assert(m.ready.contains(ReadyModel::Peer(j)));
            let k = choose|k: int| 0 <= k < m.ready.len() && m.ready[k] == ReadyModel::Peer(j);
            assert(after.ready[k] == ReadyModel::Peer(j));
        }
    }
    assert forall|k: int| 0 <= k < after.ready.len() implies match #[trigger] after.ready[k] {
        ReadyModel::Peer(j) => j < after.peers.len() && after.peers[j as int].rx_ready,
        ReadyModel::Spilled { len, storage, .. } => len <= storage.len() && storage.len()
            >= max_payload_len,
    } by {
        if k < m.ready.len() {
            assert(after.ready[k] == m.ready[k]);
        }
    }
    if m.free.len() == 0 {
        let ps = queued_peers(m.ready);
        assert(!ps.contains(i as usize)) by {
            if ps.contains(i as usize) {
                let k = choose|k: int|
                    0 <= k < m.ready.len() && m.ready[k] == ReadyModel::Peer(i as usize);
                assert(m.ready[k] is Peer);
            }
        }
        assert(ps.push(i as usize).no_duplicates());
        let all = ps.push(i as usize);
        assert forall|k: int| 0 <= k < all.len() implies (#[trigger] all[k]) < m.peers.len() by {
            if k < ps.len() {
                assert(ps.contains(ps[k]));
                let j = choose|j: int|
                    0 <= j < m.ready.len() && m.ready[j] == ReadyModel::Peer(ps[k]);
                assert(m.ready[j] is Peer);
            }
        }
        demux::distinct_numbers_are_few(all, m.peers.len());
    }
}

/// Delivering the oldest payload keeps the invariant.
pub(crate) proof fn delivering_keeps_wf<I>(m: AsyncDemuxModel<I>, max_payload_len: nat, max_peers: nat)
    requires
        m.wf(max_payload_len, max_peers),
        m.ready.len() > 0,
    ensures
        m.delivered().wf(max_payload_len, max_peers),
{
    let after = m.delivered();
    queued_peers_facts(m.ready);
    queued_peers_facts(after.ready);
    queued_peers_skip(m.ready);
    let head = m.ready[0];
    assert(head == m.ready[0]);
    assert forall|j: int| 0 <= j < after.peers.len() implies (#[trigger] after.peers[j]).wf(
        max_payload_len,
    ) by {
        assert(m.peers[j].wf(max_payload_len));
    }
    assert forall|k: int| 0 <= k < after.ready.len() implies match #[trigger] after.ready[k] {
        ReadyModel::Peer(j) => j < after.peers.len() && after.peers[j as int].rx_ready,
        ReadyModel::Spilled { len, storage, .. } => len <= storage.len() && storage.len()
            >= max_payload_len,
    } by {
        assert(after.ready[k] == m.ready[k + 1]);
        if let ReadyModel::Peer(j) = after.ready[k] {
            if head == ReadyModel::Peer(j) {
                let ps = queued_peers(m.ready);
                assert(after.ready.contains(ReadyModel::Peer(j)));
                assert(queued_peers(after.ready).contains(j));
                let x = choose|x: int| 0 <= x < ps.skip(1).len() && ps.skip(1)[x] == j;
                assert(ps[x + 1] == ps[0]);
            }
        }
    }
    assert forall|j: usize|
        #![trigger after.ready.contains(ReadyModel::Peer(j))]
        j < after.peers.len() && after.peers[j as int].rx_ready implies after.ready.contains(
        ReadyModel::Peer(j),
    ) by {
        assert(m.ready.contains(ReadyModel::Peer(j)));
        let k = choose|k: int| 0 <= k < m.ready.len() && m.ready[k] == ReadyModel::Peer(j);
        assert(after.ready[k - 1] == ReadyModel::Peer(j));
    }
    assert forall|j: int, k: int| 0 <= j < k < after.peers.len() implies (
    #[trigger] after.peers[j]).remote != (#[trigger] after.peers[k]).remote by {
        assert(m.peers[j].remote != m.peers[k].remote);
    }
}

/// Moving the oldest payload to the end of the queue keeps the invariant.
pub(crate) proof fn requeueing_keeps_wf<I>(m: AsyncDemuxModel<I>, max_payload_len: nat, max_peers: nat)
    requires
        m.wf(max_payload_len, max_peers),
        m.ready.len() > 0,
    ensures
        m.requeued().wf(max_payload_len, max_peers),
{
    let after = m.requeued();
    let head = m.ready[0];
    queued_peers_facts(m.ready);
    queued_peers_skip(m.ready);
    queued_peers_push(m.ready.skip(1), head);
    let ps = queued_peers(m.ready);
    if head is Peer {
        assert(queued_peers(after.ready) =~= ps.skip(1).push(ps[0]));
    }
    assert(queued_peers(after.ready).no_duplicates());
    assert forall|k: int| 0 <= k < after.ready.len() implies match #[trigger] after.ready[k] {
        ReadyModel::Peer(j) => j < after.peers.len() && after.peers[j as int].rx_ready,
        ReadyModel::Spilled { len, storage, .. } => len <= storage.len() && storage.len()
            >= max_payload_len,
    } by {
        if k < m.ready.len() - 1 {
            assert(after.ready[k] == m.ready[k + 1]);
        } else {
            assert(after.ready[k] == m.ready[0]);
        }
    }
    assert forall|j: usize|
        #![trigger after.ready.contains(ReadyModel::Peer(j))]
        j < after.peers.len() && after.peers[j as int].rx_ready implies after.ready.contains(
        ReadyModel::Peer(j),
    ) by {
        assert(m.ready.contains(ReadyModel::Peer(j)));
        let k = choose|k: int| 0 <= k < m.ready.len() && m.ready[k] == ReadyModel::Peer(j);
        if k == 0 {
            assert(after.ready[m.ready.len() - 1] == ReadyModel::Peer(j));
        } else {
            assert(after.ready[k - 1] == ReadyModel::Peer(j));
        }
    }
}

/// A change to one peer that leaves its address and readiness alone keeps the invariant.
pub(crate) proof fn peer_change_keeps_wf<I>(
    m: AsyncDemuxModel<I>,
    i: int,
    p: AsyncPeerModel<I>,
    max_payload_len: nat,
    max_peers: nat,
)
    requires
        m.wf(max_payload_len, max_peers),
        0 <= i < m.peers.len(),
        p.wf(max_payload_len),
        p.remote == m.peers[i].remote,
        p.rx_ready == m.peers[i].rx_ready,
    ensures
        (AsyncDemuxModel { peers: m.peers.update(i, p), ..m }).wf(max_payload_len, max_peers),
{
    let after = AsyncDemuxModel { peers: m.peers.update(i, p), ..m };
    assert forall|j: usize|
        #![trigger after.ready.contains(ReadyModel::Peer(j))]
        j < after.peers.len() && after.peers[j as int].rx_ready implies after.ready.contains(
        ReadyModel::Peer(j),
    ) by {
        assert(m.ready.contains(ReadyModel::Peer(j)));
    }
    assert forall|j: int| 0 <= j < after.peers.len() implies (#[trigger] after.peers[j]).wf(
        max_payload_len,
    ) by {
        assert(m.peers[j].wf(max_payload_len));
    }
    assert forall|j: int, k: int| 0 <= j < k < after.peers.len() implies (
    #[trigger] after.peers[j]).remote != (#[trigger] after.peers[k]).remote by {
        assert(m.peers[j].remote != m.peers[k].remote);
    }
    assert forall|k: int| 0 <= k < after.ready.len() implies match #[trigger] after.ready[k] {
        ReadyModel::Peer(j) => j < after.peers.len() && after.peers[j as int].rx_ready,
        ReadyModel::Spilled { len, storage, .. } => len <= storage.len() && storage.len()
            >= max_payload_len,
    } by {
        assert(after.ready[k] == m.ready[k]);
    }
}

/// Whether a peer went from `p` to `q` when receive timeouts were checked: a segmented transfer
/// that made no progress for `n_br` is abandoned.
pub open spec fn peer_expired<C: Clock>(
    clock: C,
    n_br: Duration,
    p: AsyncPeerModel<C::Instant>,
    q: AsyncPeerModel<C::Instant>,
) -> bool {
    match p.rx_last_activity {
        None => q == p,
        Some(since) => if p.rx.state is Receiving {
            exists|elapsed: Duration|
                #[trigger] call_ensures(C::elapsed, (&clock, since), elapsed) && q == (if elapsed@
                    >= n_br@ {
                    p.aborted()
                } else {
                    p
                })
        } else {
            q == (AsyncPeerModel { rx_last_activity: None, ..p })
        },
    }
}

/// Whether a demux went from `m` to `n` when receive timeouts were checked.
pub open spec fn expired<C: Clock>(
    clock: C,
    n_br: Duration,
    m: AsyncDemuxModel<C::Instant>,
    n: AsyncDemuxModel<C::Instant>,
) -> bool {
    &&& n.free == m.free
    &&& n.ready == m.ready
    &&& n.peers.len() == m.peers.len()
    &&& forall|i: int|
        #![trigger n.peers[i]]
        #![trigger m.peers[i]]
        0 <= i < m.peers.len() ==> peer_expired(clock, n_br, m.peers[i], n.peers[i])
}

/// Whether the receive timeout of a peer is running.
pub open spec fn timed<I>(p: AsyncPeerModel<I>) -> bool {
    p.rx.state is Receiving && p.rx_last_activity is Some
}

/// What is left of a receive timeout, in nanoseconds.
pub open spec fn timeout_left(n_br: Duration, elapsed: Duration) -> nat {
    if elapsed@ <= n_br@ {
        (n_br@ - elapsed@) as nat
    } else {
        0
    }
}

/// Whether `r` is the time until the first running receive timeout is over, by the clock's
/// readings.
pub open spec fn is_next_timeout<C: Clock>(
    clock: C,
    n_br: Duration,
    peers: Seq<AsyncPeerModel<C::Instant>>,
    r: Option<Duration>,
) -> bool {
    match r {
        None => forall|i: int| 0 <= i < peers.len() ==> !timed(#[trigger] peers[i]),
        Some(d) => {
            &&& forall|i: int|
                0 <= i < peers.len() && timed(#[trigger] peers[i]) ==> exists|elapsed: Duration|
                    #[trigger] call_ensures(
                        C::elapsed,
                        (&clock, peers[i].rx_last_activity->0),
                        elapsed,
                    ) && d@ <= timeout_left(n_br, elapsed)
            &&& exists|i: int, elapsed: Duration|
                0 <= i < peers.len() && timed(peers[i]) && #[trigger] call_ensures(
                    C::elapsed,
                    (&clock, (#[trigger] peers[i]).rx_last_activity->0),
                    elapsed,
                ) && d@ == timeout_left(n_br, elapsed)
        },
    }
}

/// Async multi-peer ISO-TP demux for 29-bit UDS physical IDs (`0x18DA_TA_SA`).
pub struct IsoTpAsyncDemux<'a, C: Clock, const MAX_PEERS: usize> {
    base_cfg: IsoTpConfig,
    rx_flow_control: RxFlowControl,
    clock: C,
    local_addr: u8,
    functional_addr: Option<u8>,
    peers: Vec<Peer<'a, C::Instant>>,
    free: Vec<RxStorage<'a>>,
    ready: ReadyQueue<ReadyItem<'a>, MAX_PEERS>,
}

impl<'a, C: Clock, const MAX_PEERS: usize> View for IsoTpAsyncDemux<'a, C, MAX_PEERS> {
    type V = AsyncDemuxModel<C::Instant>;

    closed spec fn view(&self) -> AsyncDemuxModel<C::Instant> {
        AsyncDemuxModel {
            peers: self.peers@.map_values(|p: Peer<'a, C::Instant>| p@),
            free: self.free@.map_values(|s: RxStorage<'a>| s@),
            ready: self.ready@.map_values(|item: ReadyItem<'a>| item@),
        }
    }
}

impl<'a, C: Clock, const MAX_PEERS: usize> IsoTpAsyncDemux<'a, C, MAX_PEERS> {
    /// Base configuration.
    pub closed spec fn cfg_spec(&self) -> IsoTpConfig {
        self.base_cfg
    }

    /// Flow-control parameters that the demux advertises.
    pub closed spec fn fc_spec(&self) -> RxFlowControl {
        self.rx_flow_control
    }

    /// Clock of the demux.
    pub closed spec fn clock_spec(&self) -> C {
        self.clock
    }

    /// Address of the node.
    pub closed spec fn local_spec(&self) -> u8 {
        self.local_addr
    }

    /// Functional address that the node listens to.
    pub closed spec fn functional_spec(&self) -> Option<u8> {
        self.functional_addr
    }

    /// The storages of the demux: those of the peers met, in order, those that are free, and those
    /// that hold a payload in the delivery queue.
    pub closed spec fn pool_spec(&self) -> Seq<RxStorage<'a>> {
        peer_storages(self.peers@) + self.free@ + queued_storages(self.ready@)
    }

    /// The view shows what the storages hold in which peers reassemble, and those that are free.
    pub proof fn view_shows_pool(&self)
        ensures
            self.pool_spec().len() >= self@.peers.len() + self@.free.len(),
            forall|i: int|
                0 <= i < self@.peers.len() ==> (#[trigger] self@.peers[i]).rx.storage
                    == self.pool_spec()[i]@,
            forall|i: int|
                0 <= i < self@.free.len() ==> #[trigger] self@.free[i] == self.pool_spec()[
                self@.peers.len() + i]@,
    {
        assert forall|i: int| 0 <= i < self@.peers.len() implies (
        #[trigger] self@.peers[i]).rx.storage == self.pool_spec()[i]@ by {
            rx::view_shows_state_and_storage(self.peers@[i].rx_machine);
        }
    }

    /// The invariant of a demux. No peer has the node's own address.
    pub open spec fn wf(&self) -> bool {
        &&& self.cfg_spec().payload_limit_ok()
        &&& self@.wf(self.cfg_spec().max_payload_len as nat, MAX_PEERS as nat)
        &&& self@.excludes(self.local_spec())
    }

    /// Nothing but the state of peers, buffers and queue differs.
    pub open spec fn same_setup(&self, other: &Self) -> bool {
        &&& self.cfg_spec() == other.cfg_spec()
        &&& self.fc_spec() == other.fc_spec()
        &&& self.clock_spec() == other.clock_spec()
        &&& self.local_spec() == other.local_spec()
        &&& self.functional_spec() == other.functional_spec()
    }

    /// Create a demux with caller-provided per-peer RX storages.
    pub fn new(
        base_cfg: IsoTpConfig,
        clock: C,
        local_addr: u8,
        functional_addr: Option<u8>,
        storages: Vec<RxStorage<'a>>,
    ) -> (r: Result<Self, IsoTpError<()>>)
        requires
            storages@.len() == MAX_PEERS,
        ensures
            match r {
                Ok(demux) => {
                    &&& base_cfg.payload_limit_ok()
                    &&& forall|i: int|
                        0 <= i < MAX_PEERS ==> (#[trigger] storages@[i])@.len()
                            >= base_cfg.max_payload_len
                    &&& demux.wf()
                    &&& demux.cfg_spec() == base_cfg
                    &&& demux.fc_spec() == RxFlowControl::of(base_cfg)
                    &&& demux.clock_spec() == clock
                    &&& demux.local_spec() == local_addr
                    &&& demux.functional_spec() == functional_addr
                    &&& demux@.peers.len() == 0
                    &&& demux@.free == storages@.map_values(|s: RxStorage<'a>| s@)
                    &&& demux@.ready.len() == 0
                    &&& demux.pool_spec() == storages@
                },
                Err(e) => {
                    &&& e is InvalidConfig
                    &&& !(base_cfg.payload_limit_ok() && forall|i: int|
                        0 <= i < MAX_PEERS ==> (#[trigger] storages@[i])@.len()
                            >= base_cfg.max_payload_len)
                    &&& forall|i: int|
                        0 <= i < MAX_PEERS ==> (
                        #[trigger] storages@[i] matches RxStorage::Borrowed(held) ==> final(held)@
                            == storages@[i]@)
                },
            },
    {
        if base_cfg.max_payload_len == 0 || base_cfg.max_payload_len > 4095 {
            return Err(IsoTpError::InvalidConfig);
        }
        if !all_fit(&storages, base_cfg.max_payload_len) {
            return Err(IsoTpError::InvalidConfig);
        }
        Ok(
            IsoTpAsyncDemux {
                base_cfg,
                rx_flow_control: RxFlowControl::from_config(&base_cfg),
                clock,
                local_addr,
                functional_addr,
                peers: Vec::new(),
                free: storages,
                ready: ReadyQueue::new(),
            },
        )
    }

    /// Also accept Single Frame payloads sent to a functional address.
    pub fn with_functional_addr(self, functional_addr: u8) -> (r: Self)
        ensures
            r@ == self@,
            r.functional_spec() == Some(functional_addr),
            r.cfg_spec() == self.cfg_spec(),
            r.fc_spec() == self.fc_spec(),
            r.clock_spec() == self.clock_spec(),
            r.local_spec() == self.local_spec(),
            r.pool_spec() == self.pool_spec(),
    {
        let mut r = self;
        r.functional_addr = Some(functional_addr);
        r
    }

    /// Index of the peer with this address.
    fn find_peer_index(&self, remote: u8) -> (r: Option<usize>)
        ensures
            match r {
                Some(i) => self@.is_peer(i as int, remote),
                None => forall|i: int| !self@.is_peer(i, remote),
            },
    {
        let mut i: usize = 0;
        while i < self.peers.len()
            invariant
                i <= self.peers@.len(),
                forall|j: int| 0 <= j < i ==> !self@.is_peer(j, remote),
            decreases self.peers@.len() - i,
        {
            if self.peers[i].remote == remote {
                assert(self@.is_peer(i as int, remote));
                return Some(i);
            }
            assert(!self@.is_peer(i as int, remote));
            i += 1;
        }
        None
    }

    fn peer_index_or_alloc(&mut self, remote: u8) -> (r: Result<usize, IsoTpError<()>>)
        requires
            old(self).wf(),
        ensures
            final(self).wf(),
            final(self).same_setup(old(self)),
            final(self).pool_spec() == old(self).pool_spec(),
            match r {
                Ok(i) => old(self)@.admitted(old(self).local_spec(), remote) == Ok::<
                    (AsyncDemuxModel<C::Instant>, int),
                    IsoTpError<()>,
                >((final(self)@, i as int)) && i < final(self)@.peers.len(),
                Err(e) => old(self)@.admitted(old(self).local_spec(), remote) == Err::<
                    (AsyncDemuxModel<C::Instant>, int),
                    IsoTpError<()>,
                >(e) && final(self)@ == old(self)@,
            },
    {
        if let Some(i) = self.find_peer_index(remote) {
            return Ok(i);
        }
        if remote == self.local_addr {
            return Err(IsoTpError::InvalidConfig);
        }
        if self.free.len() == 0 {
            assert(self@.free.len() == 0);
            return Err(IsoTpError::RxOverflow);
        }
        let storage = self.free.remove(0);
        assert(storage@ == old(self)@.free[0]);
        self.peers.push(Peer::new(remote, storage));
        proof {
            let before = old(self)@;
            assert(self@.peers =~= before.peers.push(
                AsyncPeerModel::fresh(remote, before.free[0]),
            ));
            assert(self@.free =~= before.free.skip(1));
            assert(self@.ready =~= before.ready);
            assert forall|i: int, j: int| 0 <= i < j < self@.peers.len() implies (
            #[trigger] self@.peers[i]).remote != (#[trigger] self@.peers[j]).remote by {
                if j == before.peers.len() {
                    assert(!before.is_peer(i, remote));
                }
            }
            assert forall|i: usize|
                #![trigger self@.ready.contains(ReadyModel::Peer(i))]
                i < self@.peers.len()
                    && self@.peers[i as int].rx_ready implies self@.ready.contains(
                ReadyModel::Peer(i),
            ) by {
                assert(before.ready.contains(ReadyModel::Peer(i)));
            }
        }
        Ok(self.peers.len() - 1)
    }

    /// Move a payload that is complete in the reassembly buffer of a peer to the delivery queue.
    fn enqueue_completed(&mut self, idx: usize)
        requires
            old(self).wf(),
            idx < old(self)@.peers.len(),
            !old(self)@.peers[idx as int].rx_ready,
            old(self)@.peers[idx as int].rx.state is Idle,
        ensures
            final(self).wf(),
            final(self).same_setup(old(self)),
            final(self).pool_spec().to_multiset() == old(self).pool_spec().to_multiset(),
            final(self)@ == old(self)@.queued(idx as int),
    {
        let ghost m = self@;
        let ghost held = peer_storages(self.peers@);
        let ghost free = self.free@;
        let ghost ready = self.ready@;
        proof {
            queueing_keeps_wf(
                m,
                idx as int,
                self.base_cfg.max_payload_len as nat,
                MAX_PEERS as nat,
            );
            assert(m.ready.len() == self.ready@.len());
        }
        if self.free.len() == 0 {
            self.peers[idx].rx_ready = true;
            let _pushed = self.ready.push(ReadyItem::Peer(idx));
            proof {
                queued_storages_push(ready, ReadyItem::Peer(idx));
                assert(peer_storages(self.peers@) =~= held);
            }
        } else {
            let replacement = self.free.remove(0);
            assert(replacement@ == m.free[0]);
            let len: usize = self.peers[idx].rx_machine.completed_len();
            let remote: u8 = self.peers[idx].remote;
            let storage = self.peers[idx].rx_machine.replace_storage(replacement);
            self.peers[idx].abort();
            let ghost item = ReadyItem::Completed(CompletedPayload { remote, len, storage });
            let _pushed = self.ready.push(
                ReadyItem::Completed(CompletedPayload { remote, len, storage }),
            );
            proof {
                queued_storages_push(ready, item);
                assert(peer_storages(self.peers@) =~= held.update(idx as int, free[0]));
                handing_over_loses_no_storage(held, free, queued_storages(ready), idx as int);
            }
        }
        proof {
            let after = m.queued(idx as int);
            assert(self@.peers =~= after.peers);
            assert(self@.free =~= after.free);
            assert(self@.ready =~= after.ready);
        }
    }

    /// Abandon segmented transfers that made no progress for too long.
    pub fn expire_peer_rx_timeouts(&mut self)
        requires
            old(self).wf(),
        ensures
            final(self).wf(),
            final(self).same_setup(old(self)),
            final(self).pool_spec() == old(self).pool_spec(),
            expired(
                old(self).clock_spec(),
                old(self).cfg_spec().n_br,
                old(self)@,
                final(self)@,
            ),
    {
        let ghost m = self@;
        let mut i: usize = 0;
        while i < self.peers.len()
            invariant
                i <= self.peers@.len(),
                self.wf(),
                self.same_setup(old(self)),
                self@.peers.len() == m.peers.len(),
                self@.free == m.free,
                self@.ready == m.ready,
                self.pool_spec() == old(self).pool_spec(),
                self.peers@.len() == m.peers.len(),
                forall|j: int|
                    #![trigger self@.peers[j]]
                    #![trigger m.peers[j]]
                    0 <= j < i ==> peer_expired(
                        old(self).clock_spec(),
                        old(self).cfg_spec().n_br,
                        m.peers[j],
                        self@.peers[j],
                    ),
                forall|j: int| i <= j < m.peers.len() ==> self@.peers[j] == #[trigger] m.peers[j],
            decreases self.peers@.len() - i,
        {
            let ghost before = self@;
            let ghost held = peer_storages(self.peers@);
            assert(before.peers[i as int] == self.peers@[i as int]@);
            if let Some(since) = self.peers[i].rx_last_activity {
                if !self.peers[i].rx_machine.is_receiving() {
                    self.peers[i].rx_last_activity = None;
                } else {
                    let elapsed = self.clock.elapsed(since);
                    assert(call_ensures(C::elapsed, (&self.clock, since), elapsed));
                    if !elapsed.shorter_than(self.base_cfg.n_br) {
                        self.peers[i].abort();
                    }
                }
            }
            proof {
                let p = self.peers@[i as int]@;
                assert(self@.peers =~= before.peers.update(i as int, p));
                assert(self@.free =~= before.free);
                assert(self@.ready =~= before.ready);
                assert(peer_storages(self.peers@) =~= held);
                assert(before.peers[i as int].wf(self.base_cfg.max_payload_len as nat));
                peer_change_keeps_wf(
                    before,
                    i as int,
                    p,
                    self.base_cfg.max_payload_len as nat,
                    MAX_PEERS as nat,
                );
                assert(m.peers[i as int] == before.peers[i as int]);
            }
            i += 1;
        }
    }

    /// Time until the first running receive timeout is over.
    pub fn next_rx_timeout_wait(&self) -> (r: Option<Duration>)
        ensures
            is_next_timeout(self.clock_spec(), self.cfg_spec().n_br, self@.peers, r),
    {
        let mut min_wait: Option<Duration> = None;
        let mut i: usize = 0;
        while i < self.peers.len()
            invariant
                i <= self.peers@.len(),
                is_next_timeout(
                    self.clock,
                    self.base_cfg.n_br,
                    self@.peers.take(i as int),
                    min_wait,
                ),
            decreases self.peers@.len() - i,
        {
            let ghost before = self@.peers.take(i as int);
            let ghost after = self@.peers.take(i + 1);
            let ghost p = self@.peers[i as int];
            let ghost old_wait = min_wait;
            assert(p == self.peers@[i as int]@);
            assert(after =~= before.push(p));
            if self.peers[i].rx_machine.is_receiving() {
                if let Some(since) = self.peers[i].rx_last_activity {
                    let elapsed = self.clock.elapsed(since);
                    assert(call_ensures(C::elapsed, (&self.clock, since), elapsed));
                    let left = match remaining(self.base_cfg.n_br, elapsed) {
                        Some(left) => left,
                        None => Duration::from_millis(0),
                    };
                    assert(left@ == timeout_left(self.base_cfg.n_br, elapsed));
                    min_wait = match min_wait {
                        Some(current) => Some(current.shorter(left)),
                        None => Some(left),
                    };
                    proof {
                        next_timeout_step(
                            self.clock,
                            self.base_cfg.n_br,
                            before,
                            p,
                            since,
                            elapsed,
                            old_wait,
                            left,
                            min_wait->0,
                        );
                    }
                }
            }
            proof {
                if !timed(p) {
                    next_timeout_skip(self.clock, self.base_cfg.n_br, before, p, min_wait);
                }
            }
            i += 1;
        }
        assert(self@.peers.take(self.peers@.len() as int) =~= self@.peers);
        min_wait
    }

    /// Take in a frame received at `now`.
    pub fn ingest_at(&mut self, frame: &Frame, now: C::Instant) -> (r: IngestStep)
        requires
            old(self).wf(),
        ensures
            final(self).wf(),
            final(self).same_setup(old(self)),
            final(self).pool_spec() == old(self).pool_spec() || exists|i: int, kept: RxStorage<'a>|
                {
                    &&& 0 <= i < old(self).pool_spec().len()
                    &&& final(self).pool_spec().to_multiset()
                        == #[trigger] old(self).pool_spec().update(i, kept).to_multiset()
                    &&& old(self).pool_spec()[i] is Owned ==> kept is Owned
                    &&& old(self).pool_spec()[i] matches RxStorage::Borrowed(a) ==> (
                    kept matches RxStorage::Borrowed(b) && final(a)@ == final(b)@)
                },
            ({
                let (after, d) = old(self)@.ingested(
                    old(self).cfg_spec(),
                    old(self).fc_spec(),
                    old(self).local_spec(),
                    old(self).functional_spec(),
                    frame@,
                    now,
                );
                final(self)@ == after && r.is(d)
            }),
    {
        let quiet = IngestStep { reply: None, result: Ok(Progress::InFlight) };
        let addr = match uds29::decode_id(frame.id) {
            Some(addr) => addr,
            None => {
                return quiet;
            },
        };
        let functional = match addr.kind {
            Uds29Kind::Physical => {
                if addr.target != self.local_addr {
                    return quiet;
                }
                false
            },
            Uds29Kind::Functional => {
                if self.functional_addr != Some(addr.target) {
                    return quiet;
                }
                true
            },
        };
        let idx: usize = match self.peer_index_or_alloc(addr.source) {
            Ok(idx) => idx,
            Err(e) => {
                return IngestStep { reply: None, result: Err(e) };
            },
        };
        let ghost m = self@;
        let cfg = cfg_for_peer(&self.base_cfg, self.local_addr, addr.source);
        assert(m.peers[idx as int].wf(self.base_cfg.max_payload_len as nat));
        proof {
            ingesting_keeps_peer_wf(
                cfg,
                self.rx_flow_control,
                m.peers[idx as int],
                functional,
                frame.data@,
                now,
                self.base_cfg.max_payload_len as nat,
            );
        }
        let ghost pool = self.pool_spec();
        let ghost held = peer_storages(self.peers@);
        let step = self.peers[idx].ingest(
            &cfg,
            &self.rx_flow_control,
            functional,
            frame.data.as_slice(),
            now,
        );
        proof {
            let p = self.peers@[idx as int]@;
            assert(self@.peers =~= m.peers.update(idx as int, p));
            assert(self@.free =~= m.free);
            assert(self@.ready =~= m.ready);
            peer_change_keeps_wf(
                m,
                idx as int,
                p,
                self.base_cfg.max_payload_len as nat,
                MAX_PEERS as nat,
            );
        }
        let ghost kept = self.peers@[idx as int].rx_machine.held();
        proof {
            assert(peer_storages(self.peers@) =~= held.update(idx as int, kept));
            assert(self.pool_spec() =~= pool.update(idx as int, kept));
            assert(self.pool_spec().to_multiset() == old(self).pool_spec().update(
                idx as int,
                kept,
            ).to_multiset());
            assert(pool[idx as int] == held[idx as int]);
        }
        match step {
            PeerStep::Completed => {
                self.enqueue_completed(idx);
                IngestStep { reply: None, result: Ok(Progress::Completed) }
            },
            PeerStep::Result(None, result) => IngestStep { reply: None, result },
            PeerStep::Result(Some((status, block_size, st_min)), result) => {
                match flow_control_frame(&cfg, status, block_size, st_min) {
                    Ok(fc) => IngestStep { reply: Some(fc), result },
                    Err(_) => IngestStep { reply: None, result: Err(IsoTpError::InvalidFrame) },
                }
            },
        }
    }

    /// Take in a frame: check receive timeouts, then act on the frame.
    pub fn ingest_frame(&mut self, frame: &Frame) -> (r: IngestStep)
        requires
            old(self).wf(),
        ensures
            final(self).wf(),
            final(self).same_setup(old(self)),
            final(self).pool_spec() == old(self).pool_spec() || exists|i: int, kept: RxStorage<'a>|
                {
                    &&& 0 <= i < old(self).pool_spec().len()
                    &&& final(self).pool_spec().to_multiset()
                        == #[trigger] old(self).pool_spec().update(i, kept).to_multiset()
                    &&& old(self).pool_spec()[i] is Owned ==> kept is Owned
                    &&& old(self).pool_spec()[i] matches RxStorage::Borrowed(a) ==> (
                    kept matches RxStorage::Borrowed(b) && final(a)@ == final(b)@)
                },
            exists|now: C::Instant, mid: AsyncDemuxModel<C::Instant>|
                #[trigger] call_ensures(C::now, (&old(self).clock_spec(),), now)
                    && #[trigger] expired(
                    old(self).clock_spec(),
                    old(self).cfg_spec().n_br,
                    old(self)@,
                    mid,
                ) && {
                    let (after, d) = mid.ingested(
                        old(self).cfg_spec(),
                        old(self).fc_spec(),
                        old(self).local_spec(),
                        old(self).functional_spec(),
                        frame@,
                        now,
                    );
                    final(self)@ == after && r.is(d)
                },
    {
        let now = self.clock.now();
        assert(call_ensures(C::now, (&self.clock,), now));
        self.expire_peer_rx_timeouts();
        let ghost mid = self@;
        assert(expired(old(self).clock_spec(), old(self).cfg_spec().n_br, old(self)@, mid));
        self.ingest_at(frame, now)
    }

    /// Deliver the oldest payload that waits into `out`, with the address to reply to.
    ///
    /// A payload that does not fit stays queued for a later call with a larger buffer.
    pub fn deliver_ready_into(&mut self, out: &mut [u8]) -> (r: Result<
        Option<(u8, usize)>,
        AppRecvIntoError<()>,
    >)
        requires
            old(self).wf(),
        ensures
            final(self).wf(),
            final(self).same_setup(old(self)),
            final(self).pool_spec().to_multiset() == old(self).pool_spec().to_multiset(),
            final(out)@.len() == old(out)@.len(),
            match r {
                Ok(None) => {
                    &&& old(self)@.ready.len() == 0
                    &&& final(self)@ == old(self)@
                    &&& final(out)@ == old(out)@
                },
                Ok(Some((reply_to, len))) => {
                    let (from, payload) = old(self)@.waiting()[0];
                    &&& old(self)@.ready.len() > 0
                    &&& reply_to == from
                    &&& len == payload.len() <= old(out)@.len()
                    &&& final(out)@ == rx::overwritten(old(out)@, 0, payload)
                    &&& final(self)@ == old(self)@.delivered()
                },
                Err(e) => {
                    let payload = old(self)@.waiting()[0].1;
                    &&& old(self)@.ready.len() > 0
                    &&& payload.len() > old(out)@.len()
                    &&& e == AppRecvIntoError::<()>::BufferTooSmall {
                        needed: payload.len() as usize,
                        got: old(out)@.len() as usize,
                    }
                    &&& final(self)@ == old(self)@.requeued()
                    &&& final(out)@ == old(out)@
                },
            },
    {
        let ghost m = self@;
        let ghost limit = self.base_cfg.max_payload_len as nat;
        let ghost held = peer_storages(self.peers@);
        let ghost free = self.free@;
        let ghost ready = self.ready@;
        let item = match self.ready.pop() {
            Some(item) => item,
            None => {
                assert(self@.peers =~= m.peers);
                assert(self@.free =~= m.free);
                assert(self@.ready =~= m.ready);
                return Ok(None);
            },
        };
        proof {
            assert(m.ready[0] == item@);
            delivering_keeps_wf(m, limit, MAX_PEERS as nat);
            requeueing_keeps_wf(m, limit, MAX_PEERS as nat);
            queue_is_bounded(m, limit, MAX_PEERS as nat);
            queued_storages_skip(ready);
        }
        match item {
            ReadyItem::Peer(idx) => {
                assert(m.peers[idx as int].wf(limit));
                let data = self.peers[idx].rx_machine.take_completed();
                let needed: usize = data.len();
                let got: usize = out.len();
                if needed > got {
                    let _pushed = self.ready.push(ReadyItem::Peer(idx));
                    proof {
                        queued_storages_push(ready.skip(1), ReadyItem::Peer(idx));
                        assert(self@.peers =~= m.peers);
                        assert(self@.free =~= m.free);
                        assert(self@.ready =~= m.requeued().ready);
                    }
                    return Err(AppRecvIntoError::BufferTooSmall { needed, got });
                }
                rx::write_at(out, 0, data, needed);
                assert(data@.take(needed as int) =~= data@);
                let remote: u8 = self.peers[idx].remote;
                self.peers[idx].rx_ready = false;
                self.peers[idx].rx_last_activity = None;
                proof {
                    assert(peer_storages(self.peers@) =~= held);
                    assert(self@.peers =~= m.delivered().peers);
                    assert(self@.free =~= m.free);
                    assert(self@.ready =~= m.delivered().ready);
                }
                Ok(Some((remote, needed)))
            },
            ReadyItem::Completed(completed) => {
                let needed: usize = completed.len;
                let got: usize = out.len();
                proof {
                    let rest = ready.skip(1);
                    queued_storages_push(rest, item);
                    taking_the_oldest_loses_no_storage(
                        held,
                        free,
                        completed.storage,
                        queued_storages(rest),
                    );
                }
                if needed > got {
                    let _pushed = self.ready.push(ReadyItem::Completed(completed));
                    proof {
                        assert(self@.peers =~= m.peers);
                        assert(self@.free =~= m.free);
                        assert(self@.ready =~= m.requeued().ready);
                        assert(m.waiting()[0].1.len() == needed);
                    }
                    return Err(AppRecvIntoError::BufferTooSmall { needed, got });
                }
                rx::write_at(out, 0, completed.storage.as_ref(), needed);
                let remote: u8 = completed.remote;
                self.free.push(completed.storage);
                proof {
                    assert(self@.peers =~= m.peers);
                    assert(self@.free =~= m.delivered().free);
                    assert(self@.ready =~= m.delivered().ready);
                }
                Ok(Some((remote, needed)))
            },
        }
    }

    /// Take the Flow Control frame that a peer sent and nobody looked at yet.
    pub fn take_pending_fc(&mut self, remote: u8) -> (r: Option<PendingFc>)
        requires
            old(self).wf(),
        ensures
            final(self).wf(),
            final(self).same_setup(old(self)),
            final(self).pool_spec() == old(self).pool_spec(),
            match old(self)@.position(remote) {
                Some(i) => r == old(self)@.peers[i].pending_fc && final(self)@
                    == without_pending(old(self)@, i),
                None => r is None && final(self)@ == old(self)@,
            },
    {
        match self.find_peer_index(remote) {
            Some(idx) => {
                let ghost m = self@;
                assert(m.position(remote) == Some(idx as int));
                assert(m.peers[idx as int].wf(self.base_cfg.max_payload_len as nat));
                let fc = self.peers[idx].pending_fc.take();
                proof {
                    let p = self.peers@[idx as int]@;
                    assert(self@.peers =~= m.peers.update(idx as int, p));
                    assert(self@.free =~= m.free);
                    assert(self@.ready =~= m.ready);
                    peer_change_keeps_wf(
                        m,
                        idx as int,
                        p,
                        self.base_cfg.max_payload_len as nat,
                        MAX_PEERS as nat,
                    );
                }
                fc
            },
            None => None,
        }
    }

    /// Start a transfer to a physical destination address: refuse a payload that is too long, meet
    /// the peer, forget flow control from earlier transfers, and plan the first frame.
    pub fn start_send_to(
        &mut self,
        remote: u8,
        payload: &[u8],
        timeout: Duration,
        elapsed: Duration,
    ) -> (r: Result<AsyncAction, IsoTpError<()>>)
        requires
            old(self).wf(),
        ensures
            final(self).wf(),
            final(self).same_setup(old(self)),
            final(self).pool_spec() == old(self).pool_spec(),
            if payload@.len() > old(self).cfg_spec().max_payload_len {
                r matches Err(e) && e is Overflow && final(self)@ == old(self)@
            } else {
                match old(self)@.admitted(old(self).local_spec(), remote) {
                    Err(e) => r matches Err(got) && got == e && final(self)@ == old(self)@,
                    Ok((m, i)) => {
                        let cfg = demux::peer_cfg(
                            old(self).cfg_spec(),
                            old(self).local_spec(),
                            remote,
                        );
                        &&& final(self)@ == without_pending(m, i)
                        &&& AsyncChoice::transmit(
                            cfg,
                            tx::opening_pdu(cfg, payload@),
                            tx::opening_next(cfg, payload@),
                            timeout,
                            elapsed,
                        ).taken(r)
                    },
                }
            },
    {
        if payload.len() > self.base_cfg.max_payload_len {
            return Err(IsoTpError::Overflow);
        }
        match self.peer_index_or_alloc(remote) {
            Ok(_) => {},
            Err(e) => {
                return Err(e);
            },
        }
        let ghost m = self@;
        proof {
            let i = old(self)@.admitted(old(self).local_spec(), remote)->Ok_0.1;
            assert(m.is_peer(i, remote));
            assert(m.position(remote) == Some(i));
        }
        let _dropped = self.take_pending_fc(remote);
        let cfg = cfg_for_peer(&self.base_cfg, self.local_addr, remote);
        let plan = match plan_opening(&cfg, payload) {
            Ok(plan) => plan,
            Err(e) => {
                return Err(e);
            },
        };
        match budget(timeout, elapsed, TimeoutKind::NAs) {
            Ok(left) => Ok(AsyncAction::Transmit(plan, left)),
            Err(e) => Err(e),
        }
    }

    /// Decide what a transfer to `remote` that was started does next.
    pub fn continue_send_to(
        &self,
        remote: u8,
        transfer: &AsyncSend,
        payload: &[u8],
        timeout: Duration,
        times: &SendTimes,
    ) -> (r: Result<AsyncAction, IsoTpError<()>>)
        requires
            self.wf(),
            transfer.wf(payload@.len()),
        ensures
            transfer.choice(
                demux::peer_cfg(self.cfg_spec(), self.local_spec(), remote),
                payload@,
                timeout,
                *times,
            ).taken(r),
    {
        let cfg = cfg_for_peer(&self.base_cfg, self.local_addr, remote);
        transfer.decide(&cfg, payload, timeout, times)
    }

    /// How long a sender may wait for a frame before it looks again: no longer than its own
    /// timeouts and the next receive timeout allow. Zero means to look again at once.
    pub fn flow_control_wait(&mut self, timeout: Duration, times: &SendTimes) -> (r: Result<
        Duration,
        IsoTpError<()>,
    >)
        requires
            old(self).wf(),
        ensures
            final(self).wf(),
            final(self).same_setup(old(self)),
            final(self).pool_spec() == old(self).pool_spec(),
            expired(
                old(self).clock_spec(),
                old(self).cfg_spec().n_br,
                old(self)@,
                final(self)@,
            ),
            match async_send::fc_wait(old(self).cfg_spec().n_bs, timeout, *times) {
                AsyncChoice::Receive(left, _) => r matches Ok(d) && is_bounded_wait(
                    final(self).clock_spec(),
                    final(self).cfg_spec().n_br,
                    final(self)@.peers,
                    left,
                    d,
                ),
                AsyncChoice::Fail(e) => r == Err::<Duration, IsoTpError<()>>(e),
                _ => false,
            },
    {
        self.expire_peer_rx_timeouts();
        match wait_budget(self.base_cfg.n_bs, timeout, times) {
            Ok((left, _)) => Ok(self.bounded_wait(left)),
            Err(e) => Err(e),
        }
    }

    /// The shorter of `left` and the time to the next receive timeout.
    fn bounded_wait(&self, left: Duration) -> (d: Duration)
        ensures
            is_bounded_wait(
                self.clock_spec(),
                self.cfg_spec().n_br,
                self@.peers,
                left@,
                d,
            ),
    {
        let next = self.next_rx_timeout_wait();
        assert(is_next_timeout(self.clock_spec(), self.cfg_spec().n_br, self@.peers, next));
        match next {
            Some(rx_wait) => left.shorter(rx_wait),
            None => left,
        }
    }

    /// After a wait for flow control without a frame: fail once a timeout is over.
    pub fn flow_control_timed_out(&mut self, timeout: Duration, times: &SendTimes) -> (r: Result<
        (),
        IsoTpError<()>,
    >)
        requires
            old(self).wf(),
        ensures
            final(self).wf(),
            final(self).same_setup(old(self)),
            final(self).pool_spec() == old(self).pool_spec(),
            expired(
                old(self).clock_spec(),
                old(self).cfg_spec().n_br,
                old(self)@,
                final(self)@,
            ),
            r == (if times.elapsed@ > timeout@ {
                Err(IsoTpError::Timeout(TimeoutKind::NAs))
            } else if times.fc_elapsed@ >= old(self).cfg_spec().n_bs@ {
                Err(IsoTpError::Timeout(TimeoutKind::NBs))
            } else {
                Ok::<(), IsoTpError<()>>(())
            }),
    {
        self.expire_peer_rx_timeouts();
        if remaining(timeout, times.elapsed).is_none() {
            return Err(IsoTpError::Timeout(TimeoutKind::NAs));
        }
        if !times.fc_elapsed.shorter_than(self.base_cfg.n_bs) {
            return Err(IsoTpError::Timeout(TimeoutKind::NBs));
        }
        Ok(())
    }

    /// Take in flow control that arrived for a transfer to `remote`: `None` where none did. The
    /// flag says that the wait for flow control starts anew.
    pub fn wait_for_flow_control(&mut self, remote: u8, session: TxSession) -> (r: Result<
        Option<(AsyncSend, bool)>,
        IsoTpError<()>,
    >)
        requires
            old(self).wf(),
        ensures
            final(self).wf(),
            final(self).same_setup(old(self)),
            final(self).pool_spec() == old(self).pool_spec(),
            match old(self)@.position(remote) {
                Some(i) => {
                    &&& final(self)@ == without_pending(old(self)@, i)
                    &&& match old(self)@.peers[i].pending_fc {
                        Some(fc) => match async_send::fc_outcome::<()>(
                            demux::peer_cfg(old(self).cfg_spec(), old(self).local_spec(), remote),
                            session,
                            fc.status,
                            fc.block_size,
                            fc.st_min,
                        ) {
                            Ok(next) => r == Ok::<Option<(AsyncSend, bool)>, IsoTpError<()>>(
                                Some(next),
                            ),
                            Err(e) => r == Err::<Option<(AsyncSend, bool)>, IsoTpError<()>>(e),
                        },
                        None => r matches Ok(None),
                    }
                },
                None => r matches Ok(None) && final(self)@ == old(self)@,
            },
    {
        let fc = match self.take_pending_fc(remote) {
            Some(fc) => fc,
            None => {
                return Ok(None);
            },
        };
        let cfg = cfg_for_peer(&self.base_cfg, self.local_addr, remote);
        match apply_fc(&cfg, session, fc.status, fc.block_size, fc.st_min) {
            Ok(next) => Ok(Some(next)),
            Err(e) => Err(e),
        }
    }

    /// How long a receiver may wait for a frame before it looks again; `None` once its time is
    /// over. Zero means to look again at once.
    pub fn recv_wait(&mut self, timeout: Duration, elapsed: Duration) -> (r: Option<Duration>)
        requires
            old(self).wf(),
        ensures
            final(self).wf(),
            final(self).same_setup(old(self)),
            final(self).pool_spec() == old(self).pool_spec(),
            expired(
                old(self).clock_spec(),
                old(self).cfg_spec().n_br,
                old(self)@,
                final(self)@,
            ),
            if elapsed@ > timeout@ {
                r is None
            } else {
                r matches Some(d) && is_bounded_wait(
                    final(self).clock_spec(),
                    final(self).cfg_spec().n_br,
                    final(self)@.peers,
                    (timeout@ - elapsed@) as nat,
                    d,
                )
            },
    {
        self.expire_peer_rx_timeouts();
        match remaining(timeout, elapsed) {
            Some(left) => Some(self.bounded_wait(left)),
            None => None,
        }
    }

    /// How long the driver may wait for a frame, at most `max_wait`. Zero means not to wait.
    pub fn step_wait(&mut self, max_wait: Duration) -> (d: Duration)
        requires
            old(self).wf(),
        ensures
            final(self).wf(),
            final(self).same_setup(old(self)),
            final(self).pool_spec() == old(self).pool_spec(),
            expired(
                old(self).clock_spec(),
                old(self).cfg_spec().n_br,
                old(self)@,
                final(self)@,
            ),
            if max_wait@ == 0 {
                d == max_wait
            } else {
                is_bounded_wait(
                    final(self).clock_spec(),
                    final(self).cfg_spec().n_br,
                    final(self)@.peers,
                    max_wait@,
                    d,
                )
            },
    {
        self.expire_peer_rx_timeouts();
        if max_wait.is_zero() {
            return max_wait;
        }
        self.bounded_wait(max_wait)
    }

    /// Progress to report when no frame was taken in: whether a payload waits for delivery.
    pub fn idle_progress(&self) -> (r: Progress)
        ensures
            r == (if self@.ready.len() == 0 {
                Progress::WouldBlock
            } else {
                Progress::Completed
            }),
    {
        if self.ready.is_empty() {
            assert(self@.ready.len() == 0);
            Progress::WouldBlock
        } else {
            assert(self@.ready.len() > 0);
            Progress::Completed
        }
    }

    /// Progress to report after a frame was taken in with this progress: a payload that waits for
    /// delivery comes first.
    pub fn step_progress(&self, progress: Progress) -> (r: Progress)
        ensures
            r == (if self@.ready.len() == 0 {
                progress
            } else {
                Progress::Completed
            }),
    {
        if self.ready.is_empty() {
            assert(self@.ready.len() == 0);
            progress
        } else {
            assert(self@.ready.len() > 0);
            Progress::Completed
        }
    }

    /// Build the frame of a functional-addressing **single-frame** payload.
    pub fn send_to_functional(&self, functional_to: u8, payload: &[u8]) -> (r: Result<
        Frame,
        IsoTpError<()>,
    >)
        ensures
            demux::is_functional_frame(
                self.cfg_spec(),
                self.local_spec(),
                functional_to,
                payload@,
                r,
            ),
    {
        functional_frame(&self.base_cfg, self.local_addr, functional_to, payload)
    }

    /// UDS node address for this demux.
    pub fn local_addr(&self) -> (r: u8)
        ensures
            r == self.local_spec(),
    {
        self.local_addr
    }

    /// The demux's clock.
    pub fn clock(&self) -> (r: &C)
        ensures
            *r == self.clock_spec(),
    {
        &self.clock
    }

    /// Get the current receive-side FlowControl parameters (BS/STmin).
    pub fn rx_flow_control(&self) -> (r: RxFlowControl)
        ensures
            r == self.fc_spec(),
    {
        self.rx_flow_control
    }

    /// Update receive-side FlowControl parameters (BS/STmin).
    pub fn set_rx_flow_control(&mut self, fc: RxFlowControl)
        ensures
            final(self)@ == old(self)@,
            final(self).fc_spec() == fc,
            final(self).cfg_spec() == old(self).cfg_spec(),
            final(self).clock_spec() == old(self).clock_spec(),
            final(self).local_spec() == old(self).local_spec(),
            final(self).functional_spec() == old(self).functional_spec(),
            final(self).pool_spec() == old(self).pool_spec(),
    {
        self.rx_flow_control = fc;
    }

    /// Acceptance filters that match frames addressed to this node.
    pub fn acceptance_filters(&self) -> (r: AcceptanceFilters)
        ensures
            uds29::are_target_filters(r@, self.local_spec(), self.functional_spec()),
    {
        uds29::filters_for_targets(self.local_addr, self.functional_addr)
    }
}

impl<'a, const MAX_PEERS: usize> IsoTpAsyncDemux<'a, StdClock, MAX_PEERS> {
    /// Convenience constructor using `StdClock`, without a functional address.
    pub fn with_std_clock(
        base_cfg: IsoTpConfig,
        local_addr: u8,
        storages: Vec<RxStorage<'a>>,
    ) -> (r: Result<Self, IsoTpError<()>>)
        requires
            storages@.len() == MAX_PEERS,
        ensures
            match r {
                Ok(demux) => {
                    &&& demux.wf()
                    &&& demux.cfg_spec() == base_cfg
                    &&& demux.fc_spec() == RxFlowControl::of(base_cfg)
                    &&& demux.clock_spec() == StdClock
                    &&& demux.local_spec() == local_addr
                    &&& demux.functional_spec() is None
                    &&& demux@.peers.len() == 0
                    &&& demux@.free == storages@.map_values(|s: RxStorage<'a>| s@)
                    &&& demux@.ready.len() == 0
                    &&& demux.pool_spec() == storages@
                },
                Err(e) => {
                    &&& e is InvalidConfig
                    &&& forall|i: int|
                        0 <= i < MAX_PEERS ==> (
                        #[trigger] storages@[i] matches RxStorage::Borrowed(held) ==> final(held)@
                            == storages@[i]@)
                },
            },
            r is Ok <==> base_cfg.payload_limit_ok() && forall|i: int|
                0 <= i < MAX_PEERS ==> (#[trigger] storages@[i])@.len()
                    >= base_cfg.max_payload_len,
    {
        IsoTpAsyncDemux::new(base_cfg, StdClock, local_addr, None, storages)
    }
}

/// How long a driver that pumps frames forever waits at a time.
pub fn pump_wait(idle_sleep: Duration) -> (r: Duration)
    ensures
        r@ == (if idle_sleep@ == 0 {
            1_000_000
        } else {
            idle_sleep@
        }),
{
    if idle_sleep.is_zero() {
        Duration::from_millis(1)
    } else {
        idle_sleep
    }
}

/// The demux with the Flow Control frame of one peer forgotten.
pub open spec fn without_pending<I>(m: AsyncDemuxModel<I>, i: int) -> AsyncDemuxModel<I> {
    AsyncDemuxModel {
        peers: m.peers.update(i, AsyncPeerModel { pending_fc: None, ..m.peers[i] }),
        ..m
    }
}

/// Whether `d` is the shorter of `left` nanoseconds and the time to the next receive timeout.
pub open spec fn is_bounded_wait<C: Clock>(
    clock: C,
    n_br: Duration,
    peers: Seq<AsyncPeerModel<C::Instant>>,
    left: nat,
    d: Duration,
) -> bool {
    exists|next: Option<Duration>|
        #[trigger] is_next_timeout(clock, n_br, peers, next) && d@ == (match next {
            Some(rx_wait) => if rx_wait@ < left {
                rx_wait@
            } else {
                left
            },
            None => left,
        })
}

/// A frame changes at most the peer it comes from: every peer met before keeps its place and
/// address, and all but the source keep their state.
pub proof fn sources_do_not_mix<I>(
    m: AsyncDemuxModel<I>,
    base: IsoTpConfig,
    rx_fc: RxFlowControl,
    local: u8,
    functional: Option<u8>,
    frame: id::FrameView,
    now: I,
    i: int,
)
    requires
        0 <= i < m.peers.len(),
    ensures
        ({
            let after = m.ingested(base, rx_fc, local, functional, frame, now).0;
            &&& after.peers.len() >= m.peers.len()
            &&& after.peers[i].remote == m.peers[i].remote
            &&& (uds29::address_of(frame.id) matches Some(addr) && addr.source
                == m.peers[i].remote) || after.peers[i] == m.peers[i]
        }),
{
}

/// Payloads are delivered in the order in which they were completed: a frame leaves the payloads
/// that wait untouched and in order, and adds at most one behind them, from the frame's source.
pub proof fn frames_only_append_payloads<I>(
    m: AsyncDemuxModel<I>,
    base: IsoTpConfig,
    rx_fc: RxFlowControl,
    local: u8,
    functional: Option<u8>,
    frame: id::FrameView,
    now: I,
    max_payload_len: nat,
    max_peers: nat,
)
    requires
        m.wf(max_payload_len, max_peers),
        max_peers <= usize::MAX,
    ensures
        ({
            let (after, d) = m.ingested(base, rx_fc, local, functional, frame, now);
            if d.result == Ok::<Progress, IsoTpError<()>>(Progress::Completed) {
                &&& after.waiting().len() == m.waiting().len() + 1
                &&& after.waiting().drop_last() == m.waiting()
                &&& uds29::address_of(frame.id) matches Some(addr)
                &&& after.waiting().last().0 == addr.source
            } else {
                after.waiting() == m.waiting()
            }
        }),
{
    let (after, d) = m.ingested(base, rx_fc, local, functional, frame, now);
    if let Some(addr) = uds29::address_of(frame.id) {
        if demux::targets(addr, local, functional) {
            if let Ok((n, i)) = m.admitted(local, addr.source) {
                let cfg = demux::peer_cfg(base, local, addr.source);
                let p = n.peers[i];
                let (q, outcome) = async_peer_ingested(
                    cfg,
                    rx_fc,
                    p,
                    addr.kind is Functional,
                    frame.data,
                    now,
                );
                if i < m.peers.len() {
                    assert(m.peers[i].wf(max_payload_len));
                } else {
                    assert(m.free[0].len() >= max_payload_len);
                }
                ingesting_keeps_peer_wf(
                    cfg,
                    rx_fc,
                    p,
                    addr.kind is Functional,
                    frame.data,
                    now,
                    max_payload_len,
                );
                assert forall|k: int| 0 <= k < m.ready.len() implies #[trigger] after.waiting()[k]
                    == m.waiting()[k] by {
                    assert(after.ready[k] == m.ready[k]);
                    if let ReadyModel::Peer(j) = m.ready[k] {
                        assert(m.ready[k] is Peer);
                        assert(m.peers[j as int].rx_ready);
                        assert(m.peers[j as int].wf(max_payload_len));
                    }
                }
                if outcome is Completed {
                    assert(after.waiting().drop_last() =~= m.waiting());
                } else {
                    assert(after.waiting() =~= m.waiting());
                }
            }
        }
    }
}

/// Delivery takes the payload that waited longest and leaves the others in order.
pub proof fn delivery_takes_the_oldest<I>(
    m: AsyncDemuxModel<I>,
    max_payload_len: nat,
    max_peers: nat,
)
    requires
        m.wf(max_payload_len, max_peers),
        m.ready.len() > 0,
    ensures
        m.delivered().waiting() == m.waiting().skip(1),
{
    assert(m.delivered().waiting() =~= m.waiting().skip(1));
}

/// A payload that did not fit into the caller's buffer is not lost: it waits behind the others.
pub proof fn refused_delivery_loses_nothing<I>(m: AsyncDemuxModel<I>)
    requires
        m.ready.len() > 0,
    ensures
        m.requeued().waiting() == m.waiting().skip(1).push(m.waiting()[0]),
{
    assert(m.requeued().waiting() =~= m.waiting().skip(1).push(m.waiting()[0]));
}

/// Checking receive timeouts never touches a payload that waits for delivery.
pub proof fn expiry_keeps_waiting_payloads<C: Clock>(
    clock: C,
    n_br: Duration,
    m: AsyncDemuxModel<C::Instant>,
    n: AsyncDemuxModel<C::Instant>,
    max_payload_len: nat,
    max_peers: nat,
)
    requires
        m.wf(max_payload_len, max_peers),
        expired(clock, n_br, m, n),
    ensures
        n.waiting() == m.waiting(),
{
    assert forall|k: int| 0 <= k < m.ready.len() implies #[trigger] n.waiting()[k]
        == m.waiting()[k] by {
        assert(n.ready[k] == m.ready[k]);
        if let ReadyModel::Peer(j) = m.ready[k] {
            assert(m.ready[k] is Peer);
            assert(m.peers[j as int].wf(max_payload_len));
            assert(peer_expired(clock, n_br, m.peers[j as int], n.peers[j as int]));
        }
    }
    assert(n.waiting() =~= m.waiting());
}

proof fn next_timeout_skip<C: Clock>(
    clock: C,
    n_br: Duration,
    peers: Seq<AsyncPeerModel<C::Instant>>,
    p: AsyncPeerModel<C::Instant>,
    r: Option<Duration>,
)
    requires
        is_next_timeout(clock, n_br, peers, r),
        !timed(p),
    ensures
        is_next_timeout(clock, n_br, peers.push(p), r),
{
    let after = peers.push(p);
    if let Some(d) = r {
        let (i, e) = choose|i: int, e: Duration|
            0 <= i < peers.len() && timed(peers[i]) && #[trigger] call_ensures(
                C::elapsed,
                (&clock, (#[trigger] peers[i]).rx_last_activity->0),
                e,
            ) && d@ == timeout_left(n_br, e);
        assert(after[i] == peers[i]);
        assert(call_ensures(C::elapsed, (&clock, after[i].rx_last_activity->0), e));
        assert forall|j: int| 0 <= j < after.len() && timed(#[trigger] after[j]) implies exists|
            e: Duration,
        |
            #[trigger] call_ensures(C::elapsed, (&clock, after[j].rx_last_activity->0), e) && d@
                <= timeout_left(n_br, e) by {
            assert(after[j] == peers[j]);
        }
    } else {
        assert forall|j: int| 0 <= j < after.len() implies !timed(#[trigger] after[j]) by {
            if j < peers.len() {
                assert(after[j] == peers[j]);
            }
        }
    }
}

proof fn next_timeout_step<C: Clock>(
    clock: C,
    n_br: Duration,
    peers: Seq<AsyncPeerModel<C::Instant>>,
    p: AsyncPeerModel<C::Instant>,
    since: C::Instant,
    elapsed: Duration,
    before: Option<Duration>,
    left: Duration,
    d: Duration,
)
    requires
        is_next_timeout(clock, n_br, peers, before),
        timed(p),
        p.rx_last_activity == Some(since),
        call_ensures(C::elapsed, (&clock, since), elapsed),
        left@ == timeout_left(n_br, elapsed),
        match before {
            Some(current) => d == (if left@ < current@ {
                left
            } else {
                current
            }),
            None => d == left,
        },
    ensures
        is_next_timeout(clock, n_br, peers.push(p), Some(d)),
{
    let after = peers.push(p);
    let last = peers.len() as int;
    assert(after[last] == p);
    assert forall|j: int| 0 <= j < after.len() && timed(#[trigger] after[j]) implies exists|
        e: Duration,
    |
        #[trigger] call_ensures(C::elapsed, (&clock, after[j].rx_last_activity->0), e) && d@
            <= timeout_left(n_br, e) by {
        if j == last {
            assert(call_ensures(C::elapsed, (&clock, after[j].rx_last_activity->0), elapsed));
        } else {
            assert(after[j] == peers[j]);
            assert(timed(peers[j]));
            let current = before->0;
            let e = choose|e: Duration|
                #[trigger] call_ensures(C::elapsed, (&clock, peers[j].rx_last_activity->0), e)
                    && current@ <= timeout_left(n_br, e);
            assert(call_ensures(C::elapsed, (&clock, after[j].rx_last_activity->0), e));
        }
    }
    if d == left {
        assert(call_ensures(C::elapsed, (&clock, after[last].rx_last_activity->0), elapsed));
    } else {
        let current = before->0;
        let (i, e) = choose|i: int, e: Duration|
            0 <= i < peers.len() && timed(peers[i]) && #[trigger] call_ensures(
                C::elapsed,
                (&clock, (#[trigger] peers[i]).rx_last_activity->0),
                e,
            ) && current@ == timeout_left(n_br, e);
        assert(after[i] == peers[i]);
        assert(call_ensures(C::elapsed, (&clock, after[i].rx_last_activity->0), e));
    }
}

} // verus!
