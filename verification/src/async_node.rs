//! ISO-TP node for async runtimes.
//!
//! The node holds configuration, clock and receive state. Transfers out are driven through
//! [`AsyncSend`]; frames that come in go through [`IsoTpAsyncNode::on_frame`].

use crate::async_io::TimedOut;
use crate::async_send;
use crate::async_send::{AsyncAction, AsyncSend, SendTimes};
use crate::config::{IsoTpConfig, RxFlowControl};
use crate::errors::{IsoTpError, TimeoutKind};
use crate::id::{id_matches, Frame};
use crate::node;
use crate::node::{receive_frame, RecvStep};
use crate::pdu;
use crate::pdu::carries_address;
use crate::rx;
use crate::rx::{RxMachine, RxStorage};
use crate::time::Duration;
use crate::timer::{Clock, StdClock};
use vstd::prelude::*;

verus! {

/// Async ISO-TP endpoint: configuration, clock and receive state machine.
pub struct IsoTpAsyncNode<'a, C: Clock> {
    cfg: IsoTpConfig,
    rx_flow_control: RxFlowControl,
    clock: C,
    rx_machine: RxMachine<'a>,
}

impl<'a, C: Clock> IsoTpAsyncNode<'a, C> {
    /// Configuration of the node.
    pub closed spec fn cfg_spec(&self) -> IsoTpConfig {
        self.cfg
    }

    /// Flow-control parameters that the node advertises.
    pub closed spec fn fc_spec(&self) -> RxFlowControl {
        self.rx_flow_control
    }

    /// Clock of the node.
    pub closed spec fn clock_spec(&self) -> C {
        self.clock
    }

    /// Receive state.
    pub closed spec fn rx_spec(&self) -> rx::RxModel {
        self.rx_machine@
    }

    /// Storage in which the node reassembles.
    pub closed spec fn held_spec(&self) -> RxStorage<'a> {
        self.rx_machine.held()
    }

    /// What every node keeps: a valid configuration, a buffer that holds the largest payload, and
    /// a consistent receive state.
    pub open spec fn wf(&self) -> bool {
        &&& self.cfg_spec().valid()
        &&& self.rx_spec().consistent()
        &&& self.rx_spec().storage == self.held_spec()@
        &&& self.rx_spec().storage.len() >= self.cfg_spec().max_payload_len
    }

    /// A node as constructed: nothing under way, and the configured flow-control parameters.
    pub open spec fn is_new(&self, cfg: IsoTpConfig, clock: C, storage: Seq<u8>) -> bool {
        &&& self.wf()
        &&& self.cfg_spec() == cfg
        &&& self.clock_spec() == clock
        &&& self.fc_spec() == RxFlowControl::of(cfg)
        &&& self.rx_spec() == rx::RxModel::idle(storage)
    }

    /// Start building an [`IsoTpAsyncNode`] (requires RX storage before `build()`).
    pub fn builder(cfg: IsoTpConfig, clock: C) -> (r: IsoTpAsyncNodeBuilder<C>)
        ensures
            r.cfg == cfg,
            r.clock == clock,
    {
        IsoTpAsyncNodeBuilder { cfg, clock }
    }

    /// Construct using a provided clock and caller-provided RX buffer.
    pub fn with_clock(cfg: IsoTpConfig, clock: C, rx_buffer: &'a mut [u8]) -> (r: Result<
        Self,
        IsoTpError<()>,
    >)
        ensures
            match r {
                Ok(node) => cfg.valid() && old(rx_buffer)@.len() >= cfg.max_payload_len
                    && node.is_new(cfg, clock, old(rx_buffer)@) && (
                node.held_spec() matches RxStorage::Borrowed(held) && final(held)@
                    == final(rx_buffer)@),
                Err(e) => e is InvalidConfig && !(cfg.valid() && old(rx_buffer)@.len()
                    >= cfg.max_payload_len) && final(rx_buffer)@ == old(rx_buffer)@,
            },
    {
        Self::with_clock_and_storage(cfg, clock, RxStorage::Borrowed(rx_buffer))
    }

    /// Construct using a provided clock and explicit RX storage.
    pub fn with_clock_and_storage(cfg: IsoTpConfig, clock: C, rx_storage: RxStorage<'a>) -> (r: Result<
        Self,
        IsoTpError<()>,
    >)
        ensures
            match r {
                Ok(node) => cfg.valid() && rx_storage@.len() >= cfg.max_payload_len && node.is_new(
                    cfg,
                    clock,
                    rx_storage@,
                ) && node.held_spec() == rx_storage,
                Err(e) => e is InvalidConfig && !(cfg.valid() && rx_storage@.len()
                    >= cfg.max_payload_len) && (rx_storage matches RxStorage::Borrowed(held)
                    ==> final(held)@ == rx_storage@),
            },
    {
        Self::builder(cfg, clock).rx_storage(rx_storage).build()
    }

    /// The node's configuration.
    pub fn config(&self) -> (r: &IsoTpConfig)
        ensures
            *r == self.cfg_spec(),
    {
        &self.cfg
    }

    /// The node's clock.
    pub fn clock(&self) -> (r: &C)
        ensures
            *r == self.clock_spec(),
    {
        &self.clock
    }

    /// Get the current receive-side FlowControl parameters (BS/STmin).
    pub fn rx_flow_control(&self) -> (r: RxFlowControl)
        ensures
            r == self.fc_spec(),
    {
        self.rx_flow_control
    }

    /// Update receive-side FlowControl parameters (BS/STmin).
    pub fn set_rx_flow_control(&mut self, fc: RxFlowControl)
        ensures
            final(self).fc_spec() == fc,
            final(self).cfg_spec() == old(self).cfg_spec(),
            final(self).clock_spec() == old(self).clock_spec(),
            final(self).rx_spec() == old(self).rx_spec(),
            final(self).held_spec() == old(self).held_spec(),
    {
        self.rx_flow_control = fc;
    }

    /// Decide what a transfer out does next; a new one starts as [`AsyncSend::Opening`].
    pub fn send(
        &self,
        transfer: &AsyncSend,
        payload: &[u8],
        timeout: Duration,
        times: &SendTimes,
    ) -> (r: Result<AsyncAction, IsoTpError<()>>)
        requires
            self.wf(),
            transfer.wf(payload@.len()),
        ensures
            transfer.choice(self.cfg_spec(), payload@, timeout, *times).taken(r),
    {
        transfer.decide(&self.cfg, payload, timeout, times)
    }

    /// Take in what a transfer out received while waiting for flow control. The flag says that the
    /// wait for flow control starts anew.
    pub fn wait_for_flow_control<E>(
        &self,
        transfer: AsyncSend,
        outcome: Result<Result<Frame, E>, TimedOut>,
        kind: TimeoutKind,
    ) -> (r: Result<(AsyncSend, bool), IsoTpError<E>>)
        requires
            transfer is Waiting,
        ensures
            r == (match outcome {
                Ok(Ok(frame)) => async_send::fc_frame_outcome::<E>(
                    self.cfg_spec(),
                    transfer->Waiting_0,
                    frame@,
                ),
                Ok(Err(e)) => Err(IsoTpError::LinkError(e)),
                Err(_) => Err(IsoTpError::Timeout(kind)),
            }),
    {
        transfer.on_received(&self.cfg, outcome, kind)
    }

    /// Take in a received frame.
    ///
    /// On [`crate::tx::Progress::Completed`] the payload is available from
    /// [`IsoTpAsyncNode::received`] until the next frame is taken in.
    pub fn on_frame(&mut self, frame: &Frame) -> (r: Result<RecvStep, IsoTpError<()>>)
        requires
            old(self).wf(),
        ensures
            final(self).wf(),
            final(self).cfg_spec() == old(self).cfg_spec(),
            final(self).fc_spec() == old(self).fc_spec(),
            final(self).clock_spec() == old(self).clock_spec(),
            old(self).held_spec() is Owned ==> final(self).held_spec() is Owned,
            old(self).held_spec() matches RxStorage::Borrowed(a) ==> (
            final(self).held_spec() matches RxStorage::Borrowed(b) && final(a)@ == final(b)@),
            if pdu::addressed(old(self).cfg_spec(), frame@) {
                let (after, d) = node::recv_decision(
                    old(self).cfg_spec(),
                    old(self).fc_spec(),
                    old(self).rx_spec(),
                    frame@,
                );
                final(self).rx_spec() == after && d.taken(r)
            } else {
                r matches Ok(RecvStep::Ignored) && final(self).rx_spec() == old(self).rx_spec()
            },
    {
        if !id_matches(frame.id, &self.cfg.rx_id) || !carries_address(
            &self.cfg,
            frame.data.as_slice(),
        ) {
            return Ok(RecvStep::Ignored);
        }
        proof {
            node::receiving_keeps_consistency(
                self.cfg,
                self.rx_flow_control,
                self.rx_machine@,
                frame@,
            );
        }
        let r = receive_frame(
            &self.cfg,
            &self.rx_flow_control,
            &mut self.rx_machine,
            frame.data.as_slice(),
        );
        proof {
            rx::view_shows_state_and_storage(self.rx_machine);
        }
        r
    }

    /// The payload of the last completed receive.
    pub fn received(&self) -> (r: &[u8])
        requires
            self.wf(),
        ensures
            r@ == self.rx_spec().received(),
    {
        self.rx_machine.take_completed()
    }
}

impl<'a> IsoTpAsyncNode<'a, StdClock> {
    /// Convenience constructor using `StdClock`.
    pub fn with_std_clock(cfg: IsoTpConfig, rx_buffer: &'a mut [u8]) -> (r: Result<
        Self,
        IsoTpError<()>,
    >)
        ensures
            match r {
                Ok(node) => cfg.valid() && old(rx_buffer)@.len() >= cfg.max_payload_len
                    && node.is_new(cfg, StdClock, old(rx_buffer)@) && (
                node.held_spec() matches RxStorage::Borrowed(held) && final(held)@
                    == final(rx_buffer)@),
                Err(e) => e is InvalidConfig && !(cfg.valid() && old(rx_buffer)@.len()
                    >= cfg.max_payload_len) && final(rx_buffer)@ == old(rx_buffer)@,
            },
    {
        IsoTpAsyncNode::with_clock(cfg, StdClock, rx_buffer)
    }
}

/// Builder for [`IsoTpAsyncNode`] that enforces providing RX storage before construction.
pub struct IsoTpAsyncNodeBuilder<C> {
    /// Configuration of the node to build.
    pub cfg: IsoTpConfig,
    /// Clock of the node to build.
    pub clock: C,
}

/// Builder state after RX storage has been provided.
pub struct IsoTpAsyncNodeBuilderWithRx<'a, C> {
    /// Configuration of the node to build.
    pub cfg: IsoTpConfig,
    /// Clock of the node to build.
    pub clock: C,
    /// Reassembly buffer of the node to build.
    pub rx_storage: RxStorage<'a>,
}

impl<C> IsoTpAsyncNodeBuilder<C> {
    /// Provide the RX buffer used for receive-side reassembly.
    pub fn rx_buffer<'a>(self, buffer: &'a mut [u8]) -> (r: IsoTpAsyncNodeBuilderWithRx<'a, C>)
        ensures
            r.cfg == self.cfg,
            r.clock == self.clock,
            r.rx_storage@ == old(buffer)@,
            r.rx_storage matches RxStorage::Borrowed(held) && final(held)@ == final(buffer)@,
    {
        self.rx_storage(RxStorage::Borrowed(buffer))
    }

    /// Provide explicit RX storage (borrowed or owned).
    pub fn rx_storage<'a>(self, rx_storage: RxStorage<'a>) -> (r: IsoTpAsyncNodeBuilderWithRx<'a, C>)
        ensures
            r.cfg == self.cfg,
            r.clock == self.clock,
            r.rx_storage == rx_storage,
    {
        IsoTpAsyncNodeBuilderWithRx { cfg: self.cfg, clock: self.clock, rx_storage }
    }
}

impl<'a, C: Clock> IsoTpAsyncNodeBuilderWithRx<'a, C> {
    /// Validate configuration and build an [`IsoTpAsyncNode`].
    pub fn build(self) -> (r: Result<IsoTpAsyncNode<'a, C>, IsoTpError<()>>)
        ensures
            match r {
                Ok(node) => self.cfg.valid() && self.rx_storage@.len() >= self.cfg.max_payload_len
                    && node.is_new(self.cfg, self.clock, self.rx_storage@) && node.held_spec()
                    == self.rx_storage,
                Err(e) => e is InvalidConfig && !(self.cfg.valid() && self.rx_storage@.len()
                    >= self.cfg.max_payload_len) && (
                self.rx_storage matches RxStorage::Borrowed(held) ==> final(held)@
                    == self.rx_storage@),
            },
    {
        if self.cfg.validate().is_err() {
            return Err(IsoTpError::InvalidConfig);
        }
        if self.rx_storage.capacity() < self.cfg.max_payload_len {
            return Err(IsoTpError::InvalidConfig);
        }
        let rx_flow_control = RxFlowControl::from_config(&self.cfg);
        Ok(
            IsoTpAsyncNode {
                cfg: self.cfg,
                rx_flow_control,
                clock: self.clock,
                rx_machine: RxMachine::new(self.rx_storage),
            },
        )
    }
}

} // verus!
