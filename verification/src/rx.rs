//! Receive-side reassembly and flow-control decisions.

use crate::config::{IsoTpConfig, RxFlowControl};
use crate::errors::IsoTpError;
use crate::pdu;
use crate::pdu::{duration_to_st_min, FlowStatus, Pdu};
use vstd::prelude::*;
use vstd::slice::slice_subrange;

verus! {

/// Storage for reassembling an incoming payload; its view is the whole buffer.
///
/// Both caller-provided buffers and owned buffers are supported.
///
/// That two borrowed storages are the same buffer is said by what they end up with: `final` of the
/// one and of the other are equal.
pub enum RxStorage<'a> {
    /// Caller-provided slice.
    Borrowed(&'a mut [u8]),
    /// Owned buffer.
    Owned(Vec<u8>),
}

impl<'a> View for RxStorage<'a> {
    type V = Seq<u8>;

    open spec fn view(&self) -> Seq<u8> {
        match self {
            RxStorage::Borrowed(buf) => buf@,
            RxStorage::Owned(buf) => buf@,
        }
    }
}

impl<'a> RxStorage<'a> {
    /// Total writable capacity.
    pub fn capacity(&self) -> (n: usize)
        ensures
            n == self@.len(),
    {
        match self {
            RxStorage::Borrowed(buf) => buf.len(),
            RxStorage::Owned(buf) => buf.len(),
        }
    }

    /// Shared view of the buffer.
    pub fn as_ref(&self) -> (r: &[u8])
        ensures
            r@ == self@,
    {
        match self {
            RxStorage::Borrowed(buf) => buf,
            RxStorage::Owned(buf) => buf.as_slice(),
        }
    }

    /// Mutable view of the buffer.
    pub fn as_mut(&mut self) -> (r: &mut [u8])
        ensures
            r@ == old(self)@,
            final(self)@ == final(r)@,
            *old(self) is Owned ==> *final(self) is Owned,
            *old(self) matches RxStorage::Borrowed(a) ==> (
            *final(self) matches RxStorage::Borrowed(b) && final(a)@ == final(b)@),
    {
        match self {
            RxStorage::Borrowed(buf) => buf,
            RxStorage::Owned(buf) => buf.as_mut_slice(),
        }
    }
}

/// High-level receive state.
#[derive(Debug, Clone, Copy, PartialEq, Eq, Structural)]
pub enum RxState {
    /// No transfer active.
    Idle,
    /// In-progress segmented transfer.
    Receiving,
}

/// Outcome after processing a PDU.
#[derive(Debug, Clone, Copy, PartialEq, Eq, Structural)]
pub enum RxOutcome {
    /// Nothing to send back yet.
    Nothing,
    /// Emit a flow control frame.
    SendFlowControl {
        /// Flow status to transmit back to the sender.
        status: FlowStatus,
        /// Block size for the sender (0 = unlimited).
        block_size: u8,
        /// Encoded STmin value to send (not a `Duration`).
        st_min: u8,
    },
    /// Payload complete with length.
    Completed(usize),
}

/// `bytes` written over `buf` from position `at` on.
pub open spec fn overwritten(buf: Seq<u8>, at: int, bytes: Seq<u8>) -> Seq<u8> {
    Seq::new(
        buf.len(),
        |i: int|
            if at <= i < at + bytes.len() {
                bytes[i - at]
            } else {
                buf[i]
            },
    )
}

/// State of a receive machine.
pub struct RxModel {
    /// Idle or in the middle of a segmented transfer.
    pub state: RxState,
    /// The whole reassembly buffer.
    pub storage: Seq<u8>,
    /// Bytes of the current or last payload that are in place.
    pub written: nat,
    /// Announced length of the segmented payload.
    pub expected_len: nat,
    /// Sequence number of the next Consecutive Frame.
    pub next_sn: u8,
    /// Consecutive Frames per block (0 = unlimited).
    pub block_size: u8,
    /// Consecutive Frames left in the block.
    pub block_remaining: u8,
}

impl RxModel {
    /// A machine at rest.
    pub open spec fn idle(storage: Seq<u8>) -> RxModel {
        RxModel {
            state: RxState::Idle,
            storage,
            written: 0,
            expected_len: 0,
            next_sn: 0,
            block_size: 0,
            block_remaining: 0,
        }
    }

    /// Sequence numbers are 4 bits wide.
    pub open spec fn wf(self) -> bool {
        self.next_sn < 16
    }

    /// What every machine keeps that was started at rest and fed PDUs only: what is written lies in
    /// the buffer and, during a transfer, within the announced length, which fits in the buffer.
    pub open spec fn consistent(self) -> bool {
        &&& self.wf()
        &&& self.written <= self.storage.len()
        &&& self.state is Receiving ==> self.written <= self.expected_len <= self.storage.len()
    }

    /// The bytes received so far, or the payload once it is complete.
    pub open spec fn received(self) -> Seq<u8> {
        self.storage.take(self.written as int)
    }

    /// The machine ready for a new payload: a transfer under way is abandoned.
    pub open spec fn resynced(self) -> RxModel {
        if self.state is Receiving {
            RxModel::idle(self.storage)
        } else {
            self
        }
    }

    /// Reaction to a Single Frame: a payload that fits is complete at once.
    pub open spec fn on_single(self, max_payload_len: nat, len: u8, data: Seq<u8>) -> (
        RxModel,
        Result<RxOutcome, IsoTpError<()>>,
    ) {
        let m = self.resynced();
        if len > max_payload_len || len > data.len() || len > m.storage.len() {
            (m, Err(IsoTpError::Overflow))
        } else {
            (
                RxModel {
                    storage: overwritten(m.storage, 0, data.take(len as int)),
                    written: len as nat,
                    ..m
                },
                Ok(RxOutcome::Completed(len as usize)),
            )
        }
    }

    /// Reaction to a First Frame: a payload that fits starts a transfer, and the sender is cleared
    /// to send.
    pub open spec fn on_first(
        self,
        max_payload_len: nat,
        rx_fc: RxFlowControl,
        len: u16,
        data: Seq<u8>,
    ) -> (RxModel, Result<RxOutcome, IsoTpError<()>>) {
        let m = self.resynced();
        if len > max_payload_len || len > m.storage.len() {
            (m, Err(IsoTpError::Overflow))
        } else {
            let kept = if data.len() <= len {
                data
            } else {
                data.take(len as int)
            };
            (
                RxModel {
                    state: RxState::Receiving,
                    storage: overwritten(m.storage, 0, kept),
                    written: kept.len(),
                    expected_len: len as nat,
                    next_sn: 1,
                    block_size: rx_fc.block_size,
                    block_remaining: rx_fc.block_size,
                },
                Ok(
                    RxOutcome::SendFlowControl {
                        status: FlowStatus::ClearToSend,
                        block_size: rx_fc.block_size,
                        st_min: pdu::st_min_byte(rx_fc.st_min@),
                    },
                ),
            )
        }
    }

    /// The machine after the bytes of an expected Consecutive Frame were put in place.
    pub open spec fn appended(self, bytes: Seq<u8>) -> RxModel {
        RxModel {
            storage: overwritten(self.storage, self.written as int, bytes),
            written: self.written + bytes.len(),
            next_sn: ((self.next_sn + 1) % 16) as u8,
            ..self
        }
    }

    /// Reaction to a Consecutive Frame: the expected one is appended, the last one completes the
    /// payload, and the last one of a block clears the sender for the next block.
    pub open spec fn on_consecutive(self, rx_fc: RxFlowControl, sn: u8, data: Seq<u8>) -> (
        RxModel,
        Result<RxOutcome, IsoTpError<()>>,
    ) {
        let missing = self.expected_len - self.written;
        let kept = if data.len() <= missing {
            data
        } else {
            data.take(missing)
        };
        if self.state !is Receiving {
            (self, Err(IsoTpError::UnexpectedPdu))
        } else if sn != self.next_sn {
            (self, Err(IsoTpError::BadSequence))
        } else if missing <= 0 || self.written + kept.len() > self.storage.len() {
            (self, Err(IsoTpError::Overflow))
        } else {
            let m = self.appended(kept);
            if m.written >= m.expected_len {
                (
                    RxModel { state: RxState::Idle, ..m },
                    Ok(RxOutcome::Completed(m.written as usize)),
                )
            } else if m.block_size == 0 {
                (m, Ok(RxOutcome::Nothing))
            } else if m.block_remaining > 1 {
                (
                    RxModel { block_remaining: (m.block_remaining - 1) as u8, ..m },
                    Ok(RxOutcome::Nothing),
                )
            } else {
                (
                    RxModel {
                        block_size: rx_fc.block_size,
                        block_remaining: rx_fc.block_size,
                        ..m
                    },
                    Ok(
                        RxOutcome::SendFlowControl {
                            status: FlowStatus::ClearToSend,
                            block_size: rx_fc.block_size,
                            st_min: pdu::st_min_byte(rx_fc.st_min@),
                        },
                    ),
                )
            }
        }
    }

    /// Reaction to any PDU.
    pub open spec fn on_pdu(self, max_payload_len: nat, rx_fc: RxFlowControl, pdu: pdu::PduView) -> (
        RxModel,
        Result<RxOutcome, IsoTpError<()>>,
    ) {
        match pdu {
            pdu::PduView::SingleFrame { len, data } => self.on_single(max_payload_len, len, data),
            pdu::PduView::FirstFrame { len, data } => self.on_first(
                max_payload_len,
                rx_fc,
                len,
                data,
            ),
            pdu::PduView::ConsecutiveFrame { sn, data } => self.on_consecutive(rx_fc, sn, data),
            pdu::PduView::FlowControl { .. } => (self, Err(IsoTpError::UnexpectedPdu)),
        }
    }
}

/// Write the first `n` bytes of `src` over `dst` from position `at` on.
pub(crate) fn write_at(dst: &mut [u8], at: usize, src: &[u8], n: usize)
    requires
        n <= src@.len(),
        at + n <= old(dst)@.len(),
    ensures
        final(dst)@ == overwritten(old(dst)@, at as int, src@.take(n as int)),
{
    let mut i: usize = 0;
    let end: usize = dst.len();
    while i < n
        invariant
            i <= n <= src@.len(),
            dst@.len() == old(dst)@.len() == end,
            at + n <= end,
            forall|j: int|
                0 <= j < dst@.len() ==> #[trigger] dst@[j] == (if at <= j < at + i {
                    src@[j - at]
                } else {
                    old(dst)@[j]
                }),
        decreases n - i,
    {
        dst[at + i] = src[i];
        i += 1;
    }
    assert(dst@ =~= overwritten(old(dst)@, at as int, src@.take(n as int)));
}

/// Reassembly buffer of a receive machine, and how far it is filled.
pub struct RxAssembly<'a> {
    buffer: RxStorage<'a>,
    written: usize,
    expected_len: usize,
    next_sn: u8,
    block_size: u8,
    block_remaining: u8,
}

impl<'a> RxAssembly<'a> {
    /// The storage in use.
    pub closed spec fn held(&self) -> RxStorage<'a> {
        self.buffer
    }

    /// The machine that this assembly is of, but for the machine's state.
    pub closed spec fn model(&self) -> RxModel {
        RxModel {
            state: RxState::Idle,
            storage: self.buffer@,
            written: self.written as nat,
            expected_len: self.expected_len as nat,
            next_sn: self.next_sn,
            block_size: self.block_size,
            block_remaining: self.block_remaining,
        }
    }
}

/// Receive state machine.
pub struct RxMachine<'a> {
    /// Current receive state (idle vs receiving).
    pub state: RxState,
    /// What was received so far.
    pub assembly: RxAssembly<'a>,
}

impl<'a> View for RxMachine<'a> {
    type V = RxModel;

    open spec fn view(&self) -> RxModel {
        RxModel { state: self.state, ..self.assembly.model() }
    }
}

impl<'a> RxMachine<'a> {
    /// The storage in use.
    pub open spec fn held(&self) -> RxStorage<'a> {
        self.assembly.held()
    }

    /// Create a new machine with the provided buffer.
    pub fn new(buffer: RxStorage<'a>) -> (r: Self)
        ensures
            r@ == RxModel::idle(buffer@),
            r.held() == buffer,
    {
        RxMachine {
            state: RxState::Idle,
            assembly: RxAssembly {
                buffer,
                written: 0,
                expected_len: 0,
                next_sn: 0,
                block_size: 0,
                block_remaining: 0,
            },
        }
    }

    /// Whether a segmented transfer is under way.
    pub fn is_receiving(&self) -> (r: bool)
        ensures
            r == (self@.state is Receiving),
    {
        self.state == RxState::Receiving
    }

    /// Clear state to idle.
    pub fn reset(&mut self)
        ensures
            final(self)@ == RxModel::idle(old(self)@.storage),
            final(self).held() == old(self).held(),
    {
        self.state = RxState::Idle;
        self.assembly.written = 0;
        self.assembly.expected_len = 0;
        self.assembly.next_sn = 0;
        self.assembly.block_size = 0;
        self.assembly.block_remaining = 0;
    }

    /// Access completed bytes.
    pub fn buffer(&self) -> (r: &[u8])
        requires
            self@.written <= self@.storage.len(),
        ensures
            r@ == self@.received(),
    {
        slice_subrange(self.assembly.buffer.as_ref(), 0, self.assembly.written)
    }

    /// Writable view of the buffer.
    pub fn buffer_mut(&mut self) -> (r: &mut [u8])
        ensures
            r@ == old(self)@.storage,
            final(self)@ == (RxModel { storage: final(r)@, ..old(self)@ }),
            old(self).held() is Owned ==> final(self).held() is Owned,
            old(self).held() matches RxStorage::Borrowed(a) ==> (
            final(self).held() matches RxStorage::Borrowed(b) && final(a)@ == final(b)@),
    {
        self.assembly.buffer.as_mut()
    }

    fn take_buffer_slice(&self) -> (r: &[u8])
        requires
            self@.written <= self@.storage.len(),
        ensures
            r@ == self@.received(),
    {
        slice_subrange(self.assembly.buffer.as_ref(), 0, self.assembly.written)
    }

    /// Length of the currently completed payload.
    pub fn completed_len(&self) -> (n: usize)
        ensures
            n == self@.written,
    {
        self.assembly.written
    }

    /// Replace internal storage and return the previous storage.
    pub fn replace_storage(&mut self, replacement: RxStorage<'a>) -> (previous: RxStorage<'a>)
        ensures
            previous == old(self).held(),
            previous@ == old(self)@.storage,
            final(self).held() == replacement,
            final(self)@ == (RxModel { storage: replacement@, ..old(self)@ }),
    {
        let mut previous = replacement;
        core::mem::swap(&mut self.assembly.buffer, &mut previous);
        previous
    }

    /// Handle an incoming PDU and return actions to take.
    ///
    /// The caller is responsible for:
    /// - feeding PDUs in-order for a given session, and
    /// - sending flow-control frames when [`RxOutcome::SendFlowControl`] is returned.
    pub fn on_pdu(&mut self, cfg: &IsoTpConfig, rx_fc: &RxFlowControl, pdu: Pdu<'_>) -> (r: Result<
        RxOutcome,
        IsoTpError<()>,
    >)
        requires
            old(self)@.wf(),
        ensures
            (final(self)@, r) == old(self)@.on_pdu(cfg.max_payload_len as nat, *rx_fc, pdu@),
            final(self)@.wf(),
            old(self).held() is Owned ==> final(self).held() is Owned,
            old(self).held() matches RxStorage::Borrowed(a) ==> (
            final(self).held() matches RxStorage::Borrowed(b) && final(a)@ == final(b)@),
    {
        match pdu {
            Pdu::SingleFrame { len, data } => self.handle_single(cfg, len, data),
            Pdu::FirstFrame { len, data } => self.handle_first(cfg, rx_fc, len, data),
            Pdu::ConsecutiveFrame { sn, data } => self.handle_consecutive(rx_fc, sn, data),
            Pdu::FlowControl { .. } => Err(IsoTpError::UnexpectedPdu),
        }
    }

    /// A new payload on a stream whose transfer stalled mid-flight starts over; the receiver does
    /// not stay wedged.
    fn resync(&mut self)
        ensures
            final(self)@ == old(self)@.resynced(),
            final(self).held() == old(self).held(),
    {
        if self.state == RxState::Receiving {
            self.reset();
        }
    }

    fn handle_single(&mut self, cfg: &IsoTpConfig, len: u8, data: &[u8]) -> (r: Result<
        RxOutcome,
        IsoTpError<()>,
    >)
        ensures
            (final(self)@, r) == old(self)@.on_single(cfg.max_payload_len as nat, len, data@),
            old(self).held() is Owned ==> final(self).held() is Owned,
            old(self).held() matches RxStorage::Borrowed(a) ==> (
            final(self).held() matches RxStorage::Borrowed(b) && final(a)@ == final(b)@),
    {
        self.resync();
        let n: usize = len as usize;
        if n > cfg.max_payload_len || n > data.len() || n > self.assembly.buffer.capacity() {
            return Err(IsoTpError::Overflow);
        }
        write_at(self.assembly.buffer.as_mut(), 0, data, n);
        self.assembly.written = n;
        Ok(RxOutcome::Completed(n))
    }

    fn handle_first(
        &mut self,
        cfg: &IsoTpConfig,
        rx_fc: &RxFlowControl,
        len: u16,
        data: &[u8],
    ) -> (r: Result<RxOutcome, IsoTpError<()>>)
        ensures
            (final(self)@, r) == old(self)@.on_first(
                cfg.max_payload_len as nat,
                *rx_fc,
                len,
                data@,
            ),
            old(self).held() is Owned ==> final(self).held() is Owned,
            old(self).held() matches RxStorage::Borrowed(a) ==> (
            final(self).held() matches RxStorage::Borrowed(b) && final(a)@ == final(b)@),
    {
        self.resync();
        let n: usize = len as usize;
        if n > cfg.max_payload_len || n > self.assembly.buffer.capacity() {
            return Err(IsoTpError::Overflow);
        }
        let copy_len: usize = if data.len() <= n {
            data.len()
        } else {
            n
        };
        write_at(self.assembly.buffer.as_mut(), 0, data, copy_len);
        assert(data@.take(data@.len() as int) =~= data@);
        self.assembly.written = copy_len;
        self.assembly.expected_len = n;
        self.assembly.next_sn = 1;
        self.assembly.block_size = rx_fc.block_size;
        self.assembly.block_remaining = rx_fc.block_size;
        self.state = RxState::Receiving;
        Ok(
            RxOutcome::SendFlowControl {
                status: FlowStatus::ClearToSend,
                block_size: rx_fc.block_size,
                st_min: duration_to_st_min(rx_fc.st_min),
            },
        )
    }

    fn handle_consecutive(&mut self, rx_fc: &RxFlowControl, sn: u8, data: &[u8]) -> (r: Result<
        RxOutcome,
        IsoTpError<()>,
    >)
        requires
            old(self)@.wf(),
        ensures
            (final(self)@, r) == old(self)@.on_consecutive(*rx_fc, sn, data@),
            final(self)@.wf(),
            old(self).held() is Owned ==> final(self).held() is Owned,
            old(self).held() matches RxStorage::Borrowed(a) ==> (
            final(self).held() matches RxStorage::Borrowed(b) && final(a)@ == final(b)@),
    {
        if self.state != RxState::Receiving {
            return Err(IsoTpError::UnexpectedPdu);
        }
        if sn != self.assembly.next_sn {
            return Err(IsoTpError::BadSequence);
        }
        if self.assembly.written >= self.assembly.expected_len {
            return Err(IsoTpError::Overflow);
        }
        let remaining: usize = self.assembly.expected_len - self.assembly.written;
        let chunk: usize = if data.len() <= remaining {
            data.len()
        } else {
            remaining
        };
        let end: usize = self.assembly.written + chunk;
        if end > self.assembly.buffer.capacity() {
            return Err(IsoTpError::Overflow);
        }
        write_at(self.assembly.buffer.as_mut(), self.assembly.written, data, chunk);
        assert(data@.take(data@.len() as int) =~= data@);
        self.assembly.written = end;
        self.assembly.next_sn = (self.assembly.next_sn + 1) % 16;
        if self.assembly.written >= self.assembly.expected_len {
            self.state = RxState::Idle;
            return Ok(RxOutcome::Completed(self.assembly.written));
        }
        if self.assembly.block_size > 0 {
            self.assembly.block_remaining = if self.assembly.block_remaining > 0 {
                self.assembly.block_remaining - 1
            } else {
                0
            };
            if self.assembly.block_remaining == 0 {
                // Allow runtime backpressure updates to take effect at FC boundaries.
                self.assembly.block_size = rx_fc.block_size;
                self.assembly.block_remaining = self.assembly.block_size;
                return Ok(
                    RxOutcome::SendFlowControl {
                        status: FlowStatus::ClearToSend,
                        block_size: self.assembly.block_size,
                        st_min: duration_to_st_min(rx_fc.st_min),
                    },
                );
            }
        }
        Ok(RxOutcome::Nothing)
    }

    /// View the completed message slice.
    ///
    /// The returned slice is backed by this machine's internal buffer and remains valid until the
    /// next receive operation mutates the machine state.
    pub fn take_completed(&self) -> (r: &[u8])
        requires
            self@.written <= self@.storage.len(),
        ensures
            r@ == self@.received(),
    {
        self.take_buffer_slice()
    }
}

/// The view of a machine shows its state and what its storage holds.
pub proof fn view_shows_state_and_storage(m: RxMachine<'_>)
    ensures
        m@.state == m.state,
        m@.storage == m.held()@,
{
}

/// A machine is its view and its storage: exchanging the storage and exchanging it back restores
/// the machine.
pub proof fn machine_is_its_view_and_storage(a: RxMachine<'_>, b: RxMachine<'_>)
    requires
        a@ == b@,
        a.held() == b.held(),
    ensures
        a == b,
{
}

/// No PDU breaks the invariant of a receive machine or changes its capacity.
pub proof fn pdus_keep_consistency(
    m: RxModel,
    max_payload_len: nat,
    rx_fc: RxFlowControl,
    pdu: pdu::PduView,
)
    requires
        m.consistent(),
    ensures
        m.on_pdu(max_payload_len, rx_fc, pdu).0.consistent(),
        m.on_pdu(max_payload_len, rx_fc, pdu).0.storage.len() == m.storage.len(),
{
}

/// When a PDU completes a payload, the machine is idle and holds that many bytes.
pub proof fn completed_payload_is_held(
    m: RxModel,
    max_payload_len: nat,
    rx_fc: RxFlowControl,
    pdu: pdu::PduView,
    len: usize,
)
    requires
        m.consistent(),
        m.storage.len() <= usize::MAX,
        m.on_pdu(max_payload_len, rx_fc, pdu).1 == Ok::<RxOutcome, IsoTpError<()>>(
            RxOutcome::Completed(len),
        ),
    ensures
        m.on_pdu(max_payload_len, rx_fc, pdu).0.state is Idle,
        m.on_pdu(max_payload_len, rx_fc, pdu).0.received().len() == len,
{
}

/// Bytes that a PDU carries.
pub open spec fn carried_data(p: pdu::PduView) -> Seq<u8> {
    match p {
        pdu::PduView::SingleFrame { data, .. } => data,
        pdu::PduView::FirstFrame { data, .. } => data,
        pdu::PduView::ConsecutiveFrame { data, .. } => data,
        pdu::PduView::FlowControl { .. } => Seq::empty(),
    }
}

/// Bytes that PDUs carry, one PDU after the other.
pub open spec fn joined(pdus: Seq<pdu::PduView>) -> Seq<u8>
    decreases pdus.len(),
{
    if pdus.len() == 0 {
        Seq::empty()
    } else {
        joined(pdus.drop_last()) + carried_data(pdus.last())
    }
}

/// A First Frame that announces `len` bytes, and Consecutive Frames numbered from 1 on, modulo 16.
pub open spec fn segments(pdus: Seq<pdu::PduView>, len: nat) -> bool {
    &&& pdus.len() > 0
    &&& pdus[0] matches pdu::PduView::FirstFrame { len: announced, .. }
    &&& announced == len
    &&& forall|k: int|
        1 <= k < pdus.len() ==> (#[trigger] pdus[k] matches pdu::PduView::ConsecutiveFrame {
            sn,
            ..
        } && sn == k % 16)
}

/// Whether PDUs carry a payload: it is the data of one Single Frame, or the data of a First Frame
/// that announces its length and of the Consecutive Frames that follow, cut at that length. The
/// last of them is needed.
pub open spec fn carry(pdus: Seq<pdu::PduView>, payload: Seq<u8>) -> bool {
    ||| {
        &&& pdus.len() == 1
        &&& pdus[0] matches pdu::PduView::SingleFrame { len, data }
        &&& len <= data.len()
        &&& payload == data.take(len as int)
    }
    ||| {
        &&& segments(pdus, payload.len())
        &&& joined(pdus.drop_last()).len() < payload.len() <= joined(pdus).len()
        &&& payload == joined(pdus).take(payload.len() as int)
    }
}

/// Whether the transfer under way consists of these PDUs so far.
pub open spec fn under_way(m: RxModel, pdus: Seq<pdu::PduView>) -> bool {
    &&& segments(pdus, m.expected_len)
    &&& m.next_sn == pdus.len() % 16
    &&& m.written < m.expected_len ==> m.received() == joined(pdus)
}

/// A completed payload is what the PDUs of its transfer carry: a Single Frame alone, or the First
/// Frame and the Consecutive Frames taken in since, in order. A PDU that completes nothing joins
/// the transfer under way, starts a new one, or leaves it as it was.
pub proof fn payload_is_what_its_pdus_carry(
    m: RxModel,
    max_payload_len: nat,
    rx_fc: RxFlowControl,
    pdus: Seq<pdu::PduView>,
    p: pdu::PduView,
)
    requires
        m.consistent(),
        m.state is Receiving ==> under_way(m, pdus),
    ensures
        ({
            let (n, r) = m.on_pdu(max_payload_len, rx_fc, p);
            &&& n.state is Receiving ==> (if r is Err {
                n == m
            } else {
                under_way(n, seq![p]) || (m.state is Receiving && under_way(n, pdus.push(p)))
            })
            &&& r matches Ok(RxOutcome::Completed(_)) ==> carry(seq![p], n.received()) || (
            m.state is Receiving && carry(pdus.push(p), n.received()))
        }),
{
    let (n, r) = m.on_pdu(max_payload_len, rx_fc, p);
    let one = seq![p];
    assert(one.drop_last() =~= Seq::empty());
    assert(joined(one) =~= carried_data(p)) by {
        reveal_with_fuel(joined, 2);
    }
    match p {
        pdu::PduView::SingleFrame { len, data } => {
            if r is Ok {
                assert(n.received() =~= data.take(len as int));
            }
        },
        pdu::PduView::FirstFrame { len, data } => {
            if r is Ok && n.written < n.expected_len {
                assert(n.received() =~= data);
            }
        },
        pdu::PduView::ConsecutiveFrame { sn, data } => {
            if r is Ok {
                let all = pdus.push(p);
                assert(all.drop_last() =~= pdus);
                assert(joined(all) == m.received() + data);
                assert forall|k: int| 1 <= k < all.len() implies (
                #[trigger] all[k] matches pdu::PduView::ConsecutiveFrame { sn, .. } && sn == k % 16)
                    by {
                    if k < pdus.len() {
                        assert(all[k] == pdus[k]);
                    }
                }
                assert(all[0] == pdus[0]);
                let missing = m.expected_len - m.written;
                assert(n.received() =~= joined(all).take(n.written as int));
                if n.written < n.expected_len {
                    assert(joined(all).take(n.written as int) =~= joined(all));
                }
            }
        },
        pdu::PduView::FlowControl { .. } => {},
    }
}

/// Writing bytes over a buffer puts them at their place, and leaves the length and all else alone.
pub proof fn writing_changes_only_its_place(buf: Seq<u8>, at: int, bytes: Seq<u8>)
    requires
        0 <= at,
        at + bytes.len() <= buf.len(),
    ensures
        overwritten(buf, at, bytes).len() == buf.len(),
        overwritten(buf, at, bytes).take(at) == buf.take(at),
        overwritten(buf, at, bytes).subrange(at, at + bytes.len()) == bytes,
        overwritten(buf, at, bytes).skip(at + bytes.len()) == buf.skip(at + bytes.len()),
{
    let after = overwritten(buf, at, bytes);
    assert(after.take(at) =~= buf.take(at));
    assert(after.subrange(at, at + bytes.len()) =~= bytes);
    assert(after.skip(at + bytes.len()) =~= buf.skip(at + bytes.len()));
}

/// A receive machine goes by its state, the PDU, the payload limit of the configuration and the flow
/// control that it is to ask for.
pub proof fn machines_take_pdus_in(
    m: &mut RxMachine<'_>,
    cfg: &IsoTpConfig,
    rx_fc: &RxFlowControl,
    pdu: Pdu<'_>,
    r: Result<RxOutcome, IsoTpError<()>>,
)
    requires
        call_ensures(RxMachine::on_pdu, (m, cfg, rx_fc, pdu), r),
    ensures
        (final(m)@, r) == old(m)@.on_pdu(cfg.max_payload_len as nat, *rx_fc, pdu@),
{
}

} // verus!
