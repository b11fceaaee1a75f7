//! Queues between protocol code and the task that owns an ISO-TP transport.
//!
//! One task, the actor, owns the transport. Clones of an endpoint hand it send requests and take
//! what it received.

use crate::interface::{RecvError, RecvMeta, RecvMetaIntoStatus, RecvStatus, SendError};
use crate::rx;
use crate::time::Duration;
use vstd::prelude::*;
use vstd::slice::slice_subrange;

verus! {

/// Error of an endpoint.
#[derive(Debug)]
pub enum QueueIsoTpError<E> {
    /// The payload does not fit in a request.
    PayloadTooLarge { needed: usize, capacity: usize },
    /// Error of the transport.
    Transport(E),
    /// The actor is gone.
    ChannelClosed,
}

/// Which queue something is said of.
#[derive(Clone, Copy, Debug, PartialEq, Eq, Structural)]
pub enum QueueKind {
    /// Send requests.
    TxReq,
    /// Answers to send requests.
    TxResp,
    /// Received payloads.
    RxEvt,
}

/// Configuration of the actor.
#[derive(Clone, Copy, Debug)]
pub struct ActorConfig {
    /// Time to wait for a payload in each round.
    pub recv_poll_timeout: Duration,
    /// Number of requests sent in each round.
    pub tx_burst_limit: usize,
    /// Address to report in place of the sender's.
    pub fixed_reply_to: Option<u8>,
    /// The one address to accept payloads from.
    pub allowed_reply_from: Option<u8>,
}

impl ActorConfig {
    /// A configuration that accepts payloads from every address.
    pub fn new(
        recv_poll_timeout: Duration,
        tx_burst_limit: usize,
        fixed_reply_to: Option<u8>,
    ) -> (r: Self)
        ensures
            r == (ActorConfig {
                recv_poll_timeout,
                tx_burst_limit,
                fixed_reply_to,
                allowed_reply_from: None,
            }),
    {
        ActorConfig { recv_poll_timeout, tx_burst_limit, fixed_reply_to, allowed_reply_from: None }
    }

    /// Report this address in place of the sender's.
    pub fn with_fixed_reply_to(self, fixed_reply_to: Option<u8>) -> (r: Self)
        ensures
            r == (ActorConfig { fixed_reply_to, ..self }),
    {
        ActorConfig { fixed_reply_to, ..self }
    }

    /// Accept payloads from this address only.
    pub fn with_allowed_reply_from(self, allowed_reply_from: Option<u8>) -> (r: Self)
        ensures
            r == (ActorConfig { allowed_reply_from, ..self }),
    {
        ActorConfig { allowed_reply_from, ..self }
    }

    /// Requests sent in each round: the limit, but at least one.
    pub open spec fn burst(self) -> usize {
        if self.tx_burst_limit == 0 {
            1
        } else {
            self.tx_burst_limit
        }
    }

    /// Number of requests that a round may send.
    pub fn normalized_tx_burst_limit(&self) -> (r: usize)
        ensures
            r == self.burst(),
            r >= 1,
    {
        if self.tx_burst_limit == 0 {
            1
        } else {
            self.tx_burst_limit
        }
    }

    /// Whether payloads from this address are accepted.
    pub open spec fn allows(self, from: u8) -> bool {
        self.allowed_reply_from matches Some(only) ==> from == only
    }

    /// The address that is reported for a sender.
    pub open spec fn reported(self, from: u8) -> u8 {
        match self.fixed_reply_to {
            Some(fixed) => fixed,
            None => from,
        }
    }
}

impl Default for ActorConfig {
    fn default() -> (r: Self)
        ensures
            r.recv_poll_timeout@ == 1_000_000,
            r.tx_burst_limit == 8,
            r.fixed_reply_to is None,
            r.allowed_reply_from is None,
    {
        ActorConfig {
            recv_poll_timeout: Duration::from_millis(1),
            tx_burst_limit: 8,
            fixed_reply_to: None,
            allowed_reply_from: None,
        }
    }
}

/// Observer of an actor.
pub trait ActorHooks<E> {
    /// The actor started.
    fn on_actor_started(&self) {
    }

    /// A request is about to be sent.
    fn on_tx_request(&self, _to: u8, _is_functional: bool, _len: usize, _timeout: Duration) {
    }

    /// What a request came to.
    fn on_tx_result(&self, _result: &Result<(), SendError<QueueIsoTpError<E>>>) {
    }

    /// A payload is about to be handed over.
    fn on_rx_delivered(&self, _from: u8, _len: usize) {
    }

    /// A payload from the wrong address was dropped.
    fn on_rx_filtered_source(&self, _expected: u8, _got: u8, _len: usize) {
    }

    /// A payload did not fit in the actor's buffer.
    fn on_rx_buffer_too_small(&self, _needed: usize, _got: usize) {
    }

    /// The transport failed to receive.
    fn on_rx_backend_error(&self, _err: &E) {
    }

    /// Something had to wait for room in a queue.
    fn on_queue_backpressure(&self, _queue: QueueKind, _blocked_for: Duration) {
    }
}

/// Observer that does nothing.
#[derive(Clone, Copy, Debug, Default)]
pub struct NoopHooks;

impl<E> ActorHooks<E> for NoopHooks {

}

/// What the actor does next.
#[derive(Clone, Copy, Debug, PartialEq, Eq, Structural)]
pub enum ActorStep {
    /// Look for a send request.
    TakeRequest,
    /// Receive for at most this long.
    Receive(Duration),
}

/// Where the actor stands in its round: first requests, then one receive.
#[derive(Clone, Copy, Debug)]
pub struct Actor {
    cfg: ActorConfig,
    sent: usize,
    drained: bool,
}

impl Actor {
    /// Its configuration.
    pub closed spec fn cfg_spec(&self) -> ActorConfig {
        self.cfg
    }

    /// Number of requests sent in this round.
    pub closed spec fn sent_spec(&self) -> nat {
        self.sent as nat
    }

    /// Whether the request queue was found empty in this round.
    pub closed spec fn drained_spec(&self) -> bool {
        self.drained
    }

    /// No round sends more requests than the limit.
    pub open spec fn wf(&self) -> bool {
        self.sent_spec() <= self.cfg_spec().burst()
    }

    /// Whether requests may still be sent in this round.
    pub open spec fn sending(&self) -> bool {
        !self.drained_spec() && self.sent_spec() < self.cfg_spec().burst()
    }

    /// An actor at the start of a round.
    pub fn new(cfg: ActorConfig) -> (r: Self)
        ensures
            r.wf(),
            r.cfg_spec() == cfg,
            r.sent_spec() == 0,
            !r.drained_spec(),
            r.sending(),
    {
        Actor { cfg, sent: 0, drained: false }
    }

    /// The next step of the round.
    pub fn step(&self) -> (r: ActorStep)
        ensures
            r == (if self.sending() {
                ActorStep::TakeRequest
            } else {
                ActorStep::Receive(self.cfg_spec().recv_poll_timeout)
            }),
    {
        if !self.drained && self.sent < self.cfg.normalized_tx_burst_limit() {
            ActorStep::TakeRequest
        } else {
            ActorStep::Receive(self.cfg.recv_poll_timeout)
        }
    }

    /// A request was taken from the queue.
    pub fn on_request(&mut self)
        requires
            old(self).wf(),
            old(self).sending(),
        ensures
            final(self).wf(),
            final(self).cfg_spec() == old(self).cfg_spec(),
            final(self).sent_spec() == old(self).sent_spec() + 1,
            !final(self).drained_spec(),
    {
        self.sent = self.sent + 1;
    }

    /// The request queue was empty, or closed.
    pub fn on_no_request(&mut self)
        requires
            old(self).wf(),
        ensures
            final(self).wf(),
            final(self).cfg_spec() == old(self).cfg_spec(),
            final(self).sent_spec() == old(self).sent_spec(),
            final(self).drained_spec(),
            !final(self).sending(),
    {
        self.drained = true;
    }

    /// The receive of the round is over: the next round starts.
    pub fn on_received(&mut self)
        requires
            old(self).wf(),
        ensures
            final(self).wf(),
            final(self).cfg_spec() == old(self).cfg_spec(),
            final(self).sent_spec() == 0,
            !final(self).drained_spec(),
            final(self).sending(),
    {
        self.sent = 0;
        self.drained = false;
    }
}

/// However many requests wait, a receive comes after at most the burst limit of them: a round goes
/// on sending exactly while requests are there and fewer than the limit were sent.
pub proof fn receiving_is_not_starved(a: Actor)
    requires
        a.wf(),
    ensures
        !a.sending() <==> a.drained_spec() || a.sent_spec() == a.cfg_spec().burst(),
        a.cfg_spec().burst() >= 1,
{
}

/// What a send of the transport is to the endpoint.
pub open spec fn sent<E>(result: Result<(), SendError<E>>) -> Result<
    (),
    SendError<QueueIsoTpError<E>>,
> {
    match result {
        Ok(_) => Ok(()),
        Err(SendError::Timeout) => Err(SendError::Timeout),
        Err(SendError::Backend(e)) => Err(SendError::Backend(QueueIsoTpError::Transport(e))),
    }
}

/// Pass the result of a send on to the endpoint.
pub fn map_tx_result<E>(result: Result<(), SendError<E>>) -> (r: Result<
    (),
    SendError<QueueIsoTpError<E>>,
>)
    ensures
        r == sent(result),
{
    match result {
        Ok(()) => Ok(()),
        Err(SendError::Timeout) => Err(SendError::Timeout),
        Err(SendError::Backend(err)) => Err(SendError::Backend(QueueIsoTpError::Transport(err))),
    }
}

/// Answer to a send request.
#[derive(Debug)]
pub enum IsoTpTxResponse<E> {
    /// It was sent.
    Sent,
    /// It was not sent in time.
    Timeout,
    /// The transport failed.
    Backend(E),
}

/// What an answer tells the endpoint.
pub open spec fn answered<E>(resp: IsoTpTxResponse<E>) -> Result<(), SendError<QueueIsoTpError<E>>> {
    match resp {
        IsoTpTxResponse::Sent => Ok(()),
        IsoTpTxResponse::Timeout => Err(SendError::Timeout),
        IsoTpTxResponse::Backend(e) => Err(SendError::Backend(QueueIsoTpError::Transport(e))),
    }
}

/// Put the result of a send into an answer.
pub fn tx_response<E>(result: Result<(), SendError<QueueIsoTpError<E>>>) -> (r: Option<
    IsoTpTxResponse<E>,
>)
    ensures
        match r {
            Some(resp) => match result {
                Ok(_) => resp is Sent,
                Err(e) => answered(resp) == Err::<(), SendError<QueueIsoTpError<E>>>(e),
            },
            None => result matches Err(SendError::Backend(e)) && !(e is Transport),
        },
{
    match result {
        Ok(()) => Some(IsoTpTxResponse::Sent),
        Err(SendError::Timeout) => Some(IsoTpTxResponse::Timeout),
        Err(SendError::Backend(QueueIsoTpError::Transport(e))) => Some(IsoTpTxResponse::Backend(e)),
        Err(SendError::Backend(_)) => None,
    }
}

/// What an answer tells the endpoint.
pub fn map_tx_response<E>(resp: IsoTpTxResponse<E>) -> (r: Result<
    (),
    SendError<QueueIsoTpError<E>>,
>)
    ensures
        r == answered(resp),
{
    match resp {
        IsoTpTxResponse::Sent => Ok(()),
        IsoTpTxResponse::Timeout => Err(SendError::Timeout),
        IsoTpTxResponse::Backend(e) => Err(SendError::Backend(QueueIsoTpError::Transport(e))),
    }
}

/// Every result of the transport has an answer: the errors that have none arise at the endpoint.
pub proof fn every_result_has_an_answer<E>(result: Result<(), SendError<E>>)
    ensures
        sent(result) matches Err(SendError::Backend(e)) ==> e is Transport,
        exists|resp: IsoTpTxResponse<E>| #[trigger] answered(resp) == sent(result),
{
    let resp = match result {
        Ok(_) => IsoTpTxResponse::Sent,
        Err(SendError::Timeout) => IsoTpTxResponse::Timeout,
        Err(SendError::Backend(e)) => IsoTpTxResponse::Backend(e),
    };
    assert(answered(resp) == sent(result));
}

/// Check that a payload fits in a request.
pub fn check_payload<E>(len: usize, capacity: usize) -> (r: Result<
    (),
    SendError<QueueIsoTpError<E>>,
>)
    ensures
        r == (if len <= capacity {
            Ok::<(), SendError<QueueIsoTpError<E>>>(())
        } else {
            Err(SendError::Backend(QueueIsoTpError::PayloadTooLarge { needed: len, capacity }))
        }),
{
    if len > capacity {
        return Err(SendError::Backend(QueueIsoTpError::PayloadTooLarge { needed: len, capacity }));
    }
    Ok(())
}

/// A send request with room for `MAX_PAYLOAD` bytes.
#[derive(Debug)]
pub struct IsoTpTxRequest<const MAX_PAYLOAD: usize> {
    /// Address to send to.
    pub to: u8,
    /// Whether that is a functional address.
    pub is_functional: bool,
    /// Time the send may take.
    pub timeout: Duration,
    /// Number of payload bytes.
    pub len: usize,
    /// The payload, and what follows it.
    pub payload: [u8; MAX_PAYLOAD],
}

impl<const MAX_PAYLOAD: usize> IsoTpTxRequest<MAX_PAYLOAD> {
    /// The payload lies within its room.
    pub open spec fn wf(&self) -> bool {
        self.len <= MAX_PAYLOAD
    }

    /// The payload.
    pub open spec fn bytes(&self) -> Seq<u8> {
        self.payload@.take(self.len as int)
    }

    /// A request to send a payload, laid out over `room`.
    pub fn new<E>(
        to: u8,
        is_functional: bool,
        payload: &[u8],
        timeout: Duration,
        room: [u8; MAX_PAYLOAD],
    ) -> (r: Result<Self, SendError<QueueIsoTpError<E>>>)
        ensures
            match r {
                Ok(req) => {
                    &&& req.wf()
                    &&& req.to == to
                    &&& req.is_functional == is_functional
                    &&& req.timeout == timeout
                    &&& req.bytes() == payload@
                    &&& req.payload@ == rx::overwritten(room@, 0, payload@)
                },
                Err(e) => payload@.len() > MAX_PAYLOAD && e == SendError::Backend(
                    QueueIsoTpError::PayloadTooLarge::<E> {
                        needed: payload.len(),
                        capacity: MAX_PAYLOAD,
                    },
                ),
            },
    {
        if payload.len() > MAX_PAYLOAD {
            return Err(
                SendError::Backend(
                    QueueIsoTpError::PayloadTooLarge {
                        needed: payload.len(),
                        capacity: MAX_PAYLOAD,
                    },
                ),
            );
        }
        let mut room = room;
        rx::write_at(&mut room, 0, payload, payload.len());
        assert(rx::overwritten(room@, 0, payload@).take(payload@.len() as int) =~= payload@);
        Ok(IsoTpTxRequest { to, is_functional, timeout, len: payload.len(), payload: room })
    }

    /// The payload.
    pub fn data(&self) -> (r: &[u8])
        requires
            self.wf(),
        ensures
            r@ == self.bytes(),
    {
        slice_subrange(self.payload.as_slice(), 0, self.len)
    }
}

/// Something the actor received, with room for `MAX_PAYLOAD` bytes.
#[derive(Debug)]
pub enum IsoTpRxEvent<E, const MAX_PAYLOAD: usize> {
    /// A payload.
    Delivered {
        /// Address to reply to.
        from: u8,
        /// Number of payload bytes.
        len: usize,
        /// The payload, and what follows it.
        payload: [u8; MAX_PAYLOAD],
    },
    /// A payload did not fit in the actor's buffer.
    BufferTooSmall { needed: usize, got: usize },
    /// The transport failed.
    Backend(E),
}

/// Something the actor received, with the payload in memory of its own.
#[derive(Debug)]
pub enum QueuedRxEvent<E> {
    /// A payload.
    Delivered { from: u8, payload: Vec<u8> },
    /// A payload did not fit in the actor's buffer.
    BufferTooSmall { needed: usize, got: usize },
    /// The transport failed.
    Backend(E),
}

/// Hand a payload over to the caller's buffer, which is left alone if it is too small.
pub fn deliver_into<E>(from: u8, payload: &[u8], out: &mut [u8]) -> (r: Result<
    RecvMetaIntoStatus,
    RecvError<QueueIsoTpError<E>>,
>)
    ensures
        if payload@.len() <= old(out)@.len() {
            r == Ok::<RecvMetaIntoStatus, RecvError<QueueIsoTpError<E>>>(
                RecvMetaIntoStatus::DeliveredOne {
                    meta: RecvMeta { reply_to: from },
                    len: payload.len(),
                },
            ) && final(out)@ == rx::overwritten(old(out)@, 0, payload@)
        } else {
            r == Err::<RecvMetaIntoStatus, RecvError<QueueIsoTpError<E>>>(
                RecvError::BufferTooSmall { needed: payload.len(), got: old(out).len() },
            ) && final(out)@ == old(out)@
        },
{
    if out.len() < payload.len() {
        return Err(RecvError::BufferTooSmall { needed: payload.len(), got: out.len() });
    }
    rx::write_at(out, 0, payload, payload.len());
    Ok(
        RecvMetaIntoStatus::DeliveredOne {
            meta: RecvMeta { reply_to: from },
            len: payload.len(),
        },
    )
}

/// What a buffer and a report are after an event that carries `payload`, if it carries one.
pub open spec fn event_into<E>(
    payload: Option<(u8, Seq<u8>)>,
    failure: RecvError<QueueIsoTpError<E>>,
    before: Seq<u8>,
    after: Seq<u8>,
    r: Result<RecvMetaIntoStatus, RecvError<QueueIsoTpError<E>>>,
) -> bool {
    match payload {
        None => r == Err::<RecvMetaIntoStatus, RecvError<QueueIsoTpError<E>>>(failure) && after
            == before,
        Some((from, bytes)) => if bytes.len() <= before.len() {
            &&& r matches Ok(RecvMetaIntoStatus::DeliveredOne { meta, len })
            &&& meta.reply_to == from
            &&& len == bytes.len()
            &&& after == rx::overwritten(before, 0, bytes)
        } else {
            &&& r matches Err(RecvError::BufferTooSmall { needed, got })
            &&& needed == bytes.len()
            &&& got == before.len()
            &&& after == before
        },
    }
}

impl<E> QueuedRxEvent<E> {
    /// What a receive into `out` comes to once this event is taken from the queue.
    pub fn recv_into(self, out: &mut [u8]) -> (r: Result<
        RecvMetaIntoStatus,
        RecvError<QueueIsoTpError<E>>,
    >)
        ensures
            match self {
                QueuedRxEvent::Delivered { from, payload } => event_into(
                    Some((from, payload@)),
                    arbitrary(),
                    old(out)@,
                    final(out)@,
                    r,
                ),
                QueuedRxEvent::BufferTooSmall { needed, got } => event_into(
                    None,
                    RecvError::BufferTooSmall { needed, got },
                    old(out)@,
                    final(out)@,
                    r,
                ),
                QueuedRxEvent::Backend(e) => event_into(
                    None,
                    RecvError::Backend(QueueIsoTpError::Transport(e)),
                    old(out)@,
                    final(out)@,
                    r,
                ),
            },
    {
        match self {
            QueuedRxEvent::Delivered { from, payload } => deliver_into(
                from,
                payload.as_slice(),
                out,
            ),
            QueuedRxEvent::BufferTooSmall { needed, got } => Err(
                RecvError::BufferTooSmall { needed, got },
            ),
            QueuedRxEvent::Backend(err) => Err(RecvError::Backend(QueueIsoTpError::Transport(err))),
        }
    }
}

impl<E, const MAX_PAYLOAD: usize> IsoTpRxEvent<E, MAX_PAYLOAD> {
    /// A payload lies within its room.
    pub open spec fn wf(&self) -> bool {
        self matches IsoTpRxEvent::Delivered { len, .. } ==> len <= MAX_PAYLOAD
    }

    /// The event of a payload in the actor's buffer, laid out over `room`.
    pub fn delivered(from: u8, payload: &[u8], room: [u8; MAX_PAYLOAD]) -> (r: Self)
        requires
            payload@.len() <= MAX_PAYLOAD,
        ensures
            r.wf(),
            r matches IsoTpRxEvent::Delivered { from: f, len, payload: p } && f == from && len
                == payload@.len() && p@.take(len as int) == payload@,
    {
        let mut room = room;
        rx::write_at(&mut room, 0, payload, payload.len());
        assert(rx::overwritten(room@, 0, payload@).take(payload@.len() as int) =~= payload@);
        IsoTpRxEvent::Delivered { from, len: payload.len(), payload: room }
    }

    /// What a receive into `out` comes to once this event is taken from the queue.
    pub fn recv_into(self, out: &mut [u8]) -> (r: Result<
        RecvMetaIntoStatus,
        RecvError<QueueIsoTpError<E>>,
    >)
        requires
            self.wf(),
        ensures
            match self {
                IsoTpRxEvent::Delivered { from, len, payload } => event_into(
                    Some((from, payload@.take(len as int))),
                    arbitrary(),
                    old(out)@,
                    final(out)@,
                    r,
                ),
                IsoTpRxEvent::BufferTooSmall { needed, got } => event_into(
                    None,
                    RecvError::BufferTooSmall { needed, got },
                    old(out)@,
                    final(out)@,
                    r,
                ),
                IsoTpRxEvent::Backend(e) => event_into(
                    None,
                    RecvError::Backend(QueueIsoTpError::Transport(e)),
                    old(out)@,
                    final(out)@,
                    r,
                ),
            },
    {
        match self {
            IsoTpRxEvent::Delivered { from, len, payload } => deliver_into(
                from,
                slice_subrange(payload.as_slice(), 0, len),
                out,
            ),
            IsoTpRxEvent::BufferTooSmall { needed, got } => Err(
                RecvError::BufferTooSmall { needed, got },
            ),
            IsoTpRxEvent::Backend(err) => Err(RecvError::Backend(QueueIsoTpError::Transport(err))),
        }
    }
}

/// What a receive of the transport means to the actor.
#[derive(Debug)]
pub enum ReceiveStep<E> {
    /// Let other tasks run.
    Yield,
    /// Hand the payload over under this address.
    Deliver { from: u8 },
    /// Drop the payload, which came from the wrong address.
    Filtered { expected: u8, got: u8 },
    /// Nothing was delivered after all.
    Skip,
    /// Report that a payload did not fit.
    BufferTooSmall { needed: usize, got: usize },
    /// Report the failure of the transport.
    Backend(E),
}

/// What a received payload means to the actor.
pub open spec fn by_source<E>(cfg: ActorConfig, from: u8) -> ReceiveStep<E> {
    match cfg.allowed_reply_from {
        Some(expected) if from != expected => ReceiveStep::Filtered { expected, got: from },
        _ => ReceiveStep::Deliver { from: cfg.reported(from) },
    }
}

fn sort_by_source<E>(cfg: &ActorConfig, from: u8) -> (r: ReceiveStep<E>)
    ensures
        r == by_source::<E>(*cfg, from),
{
    if let Some(expected) = cfg.allowed_reply_from {
        if from != expected {
            return ReceiveStep::Filtered { expected, got: from };
        }
    }
    let reported: u8 = match cfg.fixed_reply_to {
        Some(fixed) => fixed,
        None => from,
    };
    ReceiveStep::Deliver { from: reported }
}

/// Decide what follows a receive whose callback saw a payload from `delivered`, if from anyone.
pub fn on_recv_one<E>(
    cfg: &ActorConfig,
    received: Result<RecvStatus, RecvError<E>>,
    delivered: Option<u8>,
) -> (r: ReceiveStep<E>)
    ensures
        r == (match received {
            Ok(RecvStatus::TimedOut) => ReceiveStep::Yield,
            Ok(RecvStatus::DeliveredOne) => match delivered {
                Some(from) => by_source::<E>(*cfg, from),
                None => ReceiveStep::Skip,
            },
            Err(RecvError::BufferTooSmall { needed, got }) => ReceiveStep::BufferTooSmall {
                needed,
                got,
            },
            Err(RecvError::Backend(e)) => ReceiveStep::Backend(e),
        }),
{
    match received {
        Ok(RecvStatus::TimedOut) => ReceiveStep::Yield,
        Ok(RecvStatus::DeliveredOne) => match delivered {
            Some(from) => sort_by_source(cfg, from),
            None => ReceiveStep::Skip,
        },
        Err(RecvError::BufferTooSmall { needed, got }) => ReceiveStep::BufferTooSmall {
            needed,
            got,
        },
        Err(RecvError::Backend(err)) => ReceiveStep::Backend(err),
    }
}

/// Decide what follows a receive into the actor's own buffer.
pub fn on_recv_one_into<E>(
    cfg: &ActorConfig,
    received: Result<RecvMetaIntoStatus, RecvError<E>>,
) -> (r: ReceiveStep<E>)
    ensures
        r == (match received {
            Ok(RecvMetaIntoStatus::TimedOut) => ReceiveStep::Yield,
            Ok(RecvMetaIntoStatus::DeliveredOne { meta, len: _ }) => by_source::<E>(
                *cfg,
                meta.reply_to,
            ),
            Err(RecvError::BufferTooSmall { needed, got }) => ReceiveStep::BufferTooSmall {
                needed,
                got,
            },
            Err(RecvError::Backend(e)) => ReceiveStep::Backend(e),
        }),
{
    match received {
        Ok(RecvMetaIntoStatus::TimedOut) => ReceiveStep::Yield,
        Ok(RecvMetaIntoStatus::DeliveredOne { meta, len: _ }) => sort_by_source(cfg, meta.reply_to),
        Err(RecvError::BufferTooSmall { needed, got }) => ReceiveStep::BufferTooSmall {
            needed,
            got,
        },
        Err(RecvError::Backend(err)) => ReceiveStep::Backend(err),
    }
}

/// A payload from an address that is not allowed never reaches the endpoint, and every other one
/// does, under the address that the configuration fixes or else the sender's own.
pub proof fn only_allowed_sources_are_delivered<E>(cfg: ActorConfig, from: u8)
    ensures
        cfg.allows(from) ==> by_source::<E>(cfg, from) == (ReceiveStep::<E>::Deliver {
            from: cfg.reported(from),
        }),
        !cfg.allows(from) ==> by_source::<E>(cfg, from) is Filtered,
{
}

/// Whether having waited this long for room in a queue is reported: from one millisecond on.
pub fn reports_backpressure(blocked_for: Duration) -> (r: bool)
    ensures
        r == (blocked_for@ >= 1_000_000),
{
    !blocked_for.shorter_than(Duration::from_millis(1))
}

/// Depth of a queue: what was asked for, but at least one.
pub fn queue_depth(depth: usize) -> (r: usize)
    ensures
        r == (if depth == 0 {
            1
        } else {
            depth
        }),
{
    if depth == 0 {
        1
    } else {
        depth
    }
}

/// Whole microseconds of a duration, at most `u64::MAX`.
pub fn clamped_micros(d: Duration) -> (r: u64)
    ensures
        r == (if d@ / 1000 <= u64::MAX {
            (d@ / 1000) as int
        } else {
            u64::MAX as int
        }),
{
    let micros: u128 = d.as_micros();
    if micros <= 0xFFFF_FFFF_FFFF_FFFF {
        micros as u64
    } else {
        u64::MAX
    }
}

/// A round sends up to the limit of requests, and one where the limit is zero; then it receives for
/// as long as configured. It receives earlier exactly when no request was found.
pub proof fn rounds_send_and_then_receive(a: &Actor, step: ActorStep)
    requires
        a.wf(),
        call_ensures(Actor::step, (a,), step),
    ensures
        ({
            let limit = a.cfg_spec().tx_burst_limit;
            let most: int = if limit > 0 {
                limit as int
            } else {
                1
            };
            step == (if a.drained_spec() || a.sent_spec() >= most {
                ActorStep::Receive(a.cfg_spec().recv_poll_timeout)
            } else {
                ActorStep::TakeRequest
            })
        }),
{
}

/// Neither the answer to a request nor its result at the transport is changed on the way to the
/// endpoint: success is success, a timeout a timeout, and a failure of the transport is that
/// failure.
pub proof fn results_reach_the_endpoint<E>(
    result: Result<(), SendError<E>>,
    resp: IsoTpTxResponse<E>,
)
    ensures
        sent(result) is Ok <==> result is Ok,
        (sent(result) matches Err(SendError::Timeout)) <==> (result matches Err(SendError::Timeout)),
        result matches Err(SendError::Backend(e)) ==> sent(result) == Err::<
            (),
            SendError<QueueIsoTpError<E>>,
        >(SendError::Backend(QueueIsoTpError::Transport(e))),
        answered(resp) is Ok <==> resp is Sent,
        (answered(resp) matches Err(SendError::Timeout)) <==> resp is Timeout,
        resp matches IsoTpTxResponse::Backend(e) ==> answered(resp) == Err::<
            (),
            SendError<QueueIsoTpError<E>>,
        >(SendError::Backend(QueueIsoTpError::Transport(e))),
{
}

/// The result of a send, put into an answer and taken out again, is that result.
pub proof fn answers_give_results_back<E>(
    result: Result<(), SendError<E>>,
    resp: Option<IsoTpTxResponse<E>>,
)
    requires
        call_ensures(tx_response::<E>, (sent(result),), resp),
    ensures
        resp matches Some(answer) && answered(answer) == sent(result),
{
}

/// Payloads are taken from whoever may send them, which is anyone where nobody is named, and handed
/// over under the fixed address where one is set, and else under the sender's. Others are dropped
/// with both addresses told.
pub proof fn payloads_are_sorted_by_source<E>(cfg: ActorConfig, from: u8)
    ensures
        cfg.allowed_reply_from is None || cfg.allowed_reply_from == Some(from) ==> by_source::<E>(
            cfg,
            from,
        ) == (ReceiveStep::<E>::Deliver {
            from: if cfg.fixed_reply_to is Some {
                cfg.fixed_reply_to->0
            } else {
                from
            },
        }),
        cfg.allowed_reply_from matches Some(only) ==> (only != from ==> by_source::<E>(cfg, from)
            == (ReceiveStep::<E>::Filtered { expected: only, got: from })),
{
}

/// What a receive of the transport came to decides what the actor does: it lets others run when
/// nothing came, sorts a payload by its source, and reports what went wrong as it is.
pub proof fn receives_decide<E>(
    cfg: &ActorConfig,
    received: Result<RecvMetaIntoStatus, RecvError<E>>,
    r: ReceiveStep<E>,
)
    requires
        call_ensures(on_recv_one_into::<E>, (cfg, received), r),
    ensures
        r is Yield <==> (received matches Ok(RecvMetaIntoStatus::TimedOut)),
        received matches Ok(RecvMetaIntoStatus::DeliveredOne { meta, len }) ==> r == by_source::<E>(
            *cfg,
            meta.reply_to,
        ),
        received matches Err(RecvError::BufferTooSmall { needed, got }) ==> r == (
        ReceiveStep::<E>::BufferTooSmall { needed, got }),
        received matches Err(RecvError::Backend(e)) ==> r == ReceiveStep::Backend(e),
{
}

/// The same goes for a receive whose callback saw the payload; without one, nothing follows.
pub proof fn callback_receives_decide<E>(
    cfg: &ActorConfig,
    received: Result<RecvStatus, RecvError<E>>,
    delivered: Option<u8>,
    r: ReceiveStep<E>,
)
    requires
        call_ensures(on_recv_one::<E>, (cfg, received, delivered), r),
    ensures
        r is Yield <==> (received matches Ok(RecvStatus::TimedOut)),
        r is Skip <==> (received matches Ok(RecvStatus::DeliveredOne)) && delivered is None,
        received matches Ok(RecvStatus::DeliveredOne) ==> (delivered matches Some(from) ==> r
            == by_source::<E>(*cfg, from)),
        received matches Err(RecvError::BufferTooSmall { needed, got }) ==> r == (
        ReceiveStep::<E>::BufferTooSmall { needed, got }),
        received matches Err(RecvError::Backend(e)) ==> r == ReceiveStep::Backend(e),
{
}

/// A payload reaches the caller's buffer whole, at its front and with nothing else changed, or not
/// at all where the buffer is too small.
pub proof fn payloads_reach_the_buffer_whole<E>(
    from: u8,
    bytes: Seq<u8>,
    failure: RecvError<QueueIsoTpError<E>>,
    before: Seq<u8>,
    after: Seq<u8>,
    r: Result<RecvMetaIntoStatus, RecvError<QueueIsoTpError<E>>>,
)
    requires
        event_into(Some((from, bytes)), failure, before, after, r),
    ensures
        after.len() == before.len(),
        r is Ok <==> bytes.len() <= before.len(),
        r matches Ok(status) ==> {
            &&& status matches RecvMetaIntoStatus::DeliveredOne { meta, len } && meta.reply_to
                == from && len == bytes.len()
            &&& after.take(bytes.len() as int) == bytes
            &&& after.skip(bytes.len() as int) == before.skip(bytes.len() as int)
        },
        r is Err ==> after == before && (r matches Err(RecvError::BufferTooSmall { needed, got })
            && needed == bytes.len() && got == before.len()),
{
    if bytes.len() <= before.len() {
        assert(after.take(bytes.len() as int) =~= bytes);
        assert(after.skip(bytes.len() as int) =~= before.skip(bytes.len() as int));
    }
}

/// An event without a payload leaves the buffer alone and is reported as it is.
pub proof fn failures_leave_the_buffer_alone<E>(
    failure: RecvError<QueueIsoTpError<E>>,
    before: Seq<u8>,
    after: Seq<u8>,
    r: Result<RecvMetaIntoStatus, RecvError<QueueIsoTpError<E>>>,
)
    requires
        event_into(None, failure, before, after, r),
    ensures
        after == before,
        r == Err::<RecvMetaIntoStatus, RecvError<QueueIsoTpError<E>>>(failure),
{
}

/// A request counts against the limit of its round; finding none ends the sending of the round; and
/// a receive starts the next round with nothing sent.
pub proof fn rounds_count_their_requests(a: &mut Actor, b: &mut Actor, c: &mut Actor)
    requires
        call_ensures(Actor::on_request, (a,), ()),
        call_ensures(Actor::on_no_request, (b,), ()),
        call_ensures(Actor::on_received, (c,), ()),
    ensures
        final(a).sent_spec() == old(a).sent_spec() + 1 && !final(a).drained_spec(),
        final(b).drained_spec() && final(b).sent_spec() == old(b).sent_spec(),
        final(c).sent_spec() == 0 && !final(c).drained_spec(),
        final(a).cfg_spec() == old(a).cfg_spec(),
        final(b).cfg_spec() == old(b).cfg_spec(),
        final(c).cfg_spec() == old(c).cfg_spec(),
{
}

/// A payload goes into a request exactly when it fits, whole and at the front of its room; one that
/// does not is refused with both lengths told.
pub proof fn requests_hold_their_payload<E, const N: usize>(
    to: u8,
    is_functional: bool,
    payload: &[u8],
    timeout: Duration,
    room: [u8; N],
    r: Result<IsoTpTxRequest<N>, SendError<QueueIsoTpError<E>>>,
    checked: Result<(), SendError<QueueIsoTpError<E>>>,
)
    requires
        call_ensures(
            IsoTpTxRequest::<N>::new::<E>,
            (to, is_functional, payload, timeout, room),
            r,
        ),
        call_ensures(check_payload::<E>, (payload.len(), N), checked),
    ensures
        r is Ok <==> payload@.len() <= N,
        checked is Ok <==> payload@.len() <= N,
        r matches Ok(req) ==> req.to == to && req.is_functional == is_functional && req.timeout
            == timeout && req.len == payload@.len() && req.payload@.take(req.len as int)
            == payload@,
        r matches Err(e) ==> e == SendError::Backend(
            QueueIsoTpError::PayloadTooLarge::<E> { needed: payload.len(), capacity: N },
        ),
        checked matches Err(e) ==> e == SendError::Backend(
            QueueIsoTpError::PayloadTooLarge::<E> { needed: payload.len(), capacity: N },
        ),
{
    if let Ok(req) = r {
        assert(req.bytes().len() == req.len);
    }
}

/// A queue has room for at least one entry; a wait for room is told from one millisecond on, in
/// whole microseconds.
pub proof fn queues_and_their_backpressure(
    depth: usize,
    room: usize,
    blocked_for: Duration,
    told: bool,
    micros: u64,
)
    requires
        call_ensures(queue_depth, (depth,), room),
        call_ensures(reports_backpressure, (blocked_for,), told),
        call_ensures(clamped_micros, (blocked_for,), micros),
    ensures
        room >= 1,
        depth > 0 ==> room == depth,
        depth == 0 ==> room == 1,
        told <==> blocked_for@ >= 1_000_000,
        micros * 1_000 <= blocked_for@,
        micros < 0xFFFF_FFFF_FFFF_FFFF ==> blocked_for@ < micros * 1_000 + 1_000,
{
}

/// The limits of an actor are set one by one.
pub proof fn actor_settings_are_kept_apart(
    cfg: ActorConfig,
    fixed: Option<u8>,
    allowed: Option<u8>,
    a: ActorConfig,
    b: ActorConfig,
)
    requires
        call_ensures(ActorConfig::with_fixed_reply_to, (cfg, fixed), a),
        call_ensures(ActorConfig::with_allowed_reply_from, (cfg, allowed), b),
    ensures
        a.fixed_reply_to == fixed && a.allowed_reply_from == cfg.allowed_reply_from,
        b.allowed_reply_from == allowed && b.fixed_reply_to == cfg.fixed_reply_to,
        a.tx_burst_limit == cfg.tx_burst_limit && b.tx_burst_limit == cfg.tx_burst_limit,
        a.recv_poll_timeout == cfg.recv_poll_timeout && b.recv_poll_timeout
            == cfg.recv_poll_timeout,
{
}

} // verus!
