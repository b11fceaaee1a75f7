//! The simulated CAN bus behind the Unix-domain socket server.
//!
//! [`Bus`] holds the connected clients and their acceptance filters. Commands from clients go in,
//! messages to clients come out; sockets and threads are the caller's.

use crate::id::{Id, IdMask, IdMaskFilter};
use crate::unix_frame::UnixFrame;
use crate::wire;
use crate::wire::{
    decode_filters, decode_send_frame, encode_ack_into, encode_frame_into, write_msg, ACK_NO_ACK,
    ACK_OK, ACK_SERVER_ERR, MSG_ACK, MSG_FILTERS_ACK, MSG_FRAME, MSG_HELLO, MSG_SEND_FRAME,
    MSG_SET_FILTERS,
};
use vstd::prelude::*;
use vstd::slice::slice_subrange;

verus! {

/// Number by which a connected client is known.
pub type ClientId = u64;

/// What clients, and those who accept their connections, ask of the bus.
pub enum BusCommand {
    /// A client connected.
    AddClient { id: ClientId },
    /// A client is gone.
    RemoveClient { id: ClientId },
    /// A client puts a frame on the bus.
    SendFrame { id: ClientId, seq: u64, expect_ack: bool, frame: UnixFrame },
    /// A client replaces its acceptance filters.
    SetFilters { id: ClientId, seq: u64, filters: Vec<IdMaskFilter> },
    /// The bus stops.
    Shutdown,
}

/// A message to a client.
#[derive(Debug, Clone, Copy)]
pub enum ServerMsg {
    /// A frame from the bus.
    Frame(UnixFrame),
    /// What became of a frame.
    Ack { seq: u64, status: u8 },
    /// Greeting.
    Hello,
    /// What became of acceptance filters.
    FiltersAck { seq: u64, status: u8 },
}

/// A message on its way to a client.
#[derive(Debug, Clone, Copy)]
pub struct Outgoing {
    /// The client.
    pub to: ClientId,
    /// The message.
    pub msg: ServerMsg,
}

struct ClientState {
    id: ClientId,
    filters: Vec<IdMaskFilter>,
}

struct PendingFilters {
    id: ClientId,
    seq: u64,
    filters: Vec<IdMaskFilter>,
}

/// A connected client.
pub struct ClientModel {
    /// Number of the client.
    pub id: ClientId,
    /// Its acceptance filters.
    pub filters: Seq<IdMaskFilter>,
}

/// Acceptance filters of a client that is not connected yet.
pub struct PendingModel {
    /// Number of the client.
    pub id: ClientId,
    /// Number of the request.
    pub seq: u64,
    /// The filters.
    pub filters: Seq<IdMaskFilter>,
}

impl View for ClientState {
    type V = ClientModel;

    closed spec fn view(&self) -> ClientModel {
        ClientModel { id: self.id, filters: self.filters@ }
    }
}

impl View for PendingFilters {
    type V = PendingModel;

    closed spec fn view(&self) -> PendingModel {
        PendingModel { id: self.id, seq: self.seq, filters: self.filters@ }
    }
}

/// State of the bus.
pub struct BusModel {
    /// Connected clients.
    pub clients: Seq<ClientModel>,
    /// Filters that arrived before their client.
    pub pending: Seq<PendingModel>,
}

/// Whether filters accept a frame: no filter accepts every frame, else one of them has to.
pub open spec fn accepted(filters: Seq<IdMaskFilter>, id: Id) -> bool {
    filters.len() == 0 || exists|i: int|
        0 <= i < filters.len() && (#[trigger] filters[i]).accepts(id)
}

/// The messages that carry a frame to the clients whose filters accept it.
pub open spec fn broadcast(clients: Seq<ClientModel>, frame: UnixFrame) -> Seq<Outgoing>
    decreases clients.len(),
{
    if clients.len() == 0 {
        Seq::empty()
    } else {
        let earlier = broadcast(clients.drop_last(), frame);
        if accepted(clients.last().filters, frame@.id) {
            earlier.push(Outgoing { to: clients.last().id, msg: ServerMsg::Frame(frame) })
        } else {
            earlier
        }
    }
}

impl BusModel {
    /// The client at this index has this number.
    pub open spec fn is_client(self, i: int, id: ClientId) -> bool {
        0 <= i < self.clients.len() && self.clients[i].id == id
    }

    /// The filters at this index are for the client of this number.
    pub open spec fn is_pending(self, i: int, id: ClientId) -> bool {
        0 <= i < self.pending.len() && self.pending[i].id == id
    }

    /// Index of a connected client.
    pub open spec fn client(self, id: ClientId) -> Option<int> {
        if exists|i: int| self.is_client(i, id) {
            Some(choose|i: int| self.is_client(i, id))
        } else {
            None
        }
    }

    /// Index of the filters that wait for a client.
    pub open spec fn waiting(self, id: ClientId) -> Option<int> {
        if exists|i: int| self.is_pending(i, id) {
            Some(choose|i: int| self.is_pending(i, id))
        } else {
            None
        }
    }

    /// No client is connected twice, and no client has two sets of filters waiting.
    pub open spec fn wf(self) -> bool {
        &&& forall|i: int, j: int|
            0 <= i < j < self.clients.len() ==> (#[trigger] self.clients[i]).id != (
            #[trigger] self.clients[j]).id
        &&& forall|i: int, j: int|
            0 <= i < j < self.pending.len() ==> (#[trigger] self.pending[i]).id != (
            #[trigger] self.pending[j]).id
    }

    /// The bus without filters that wait for a client.
    pub open spec fn without_pending(self, id: ClientId) -> BusModel {
        match self.waiting(id) {
            Some(i) => BusModel { pending: self.pending.remove(i), ..self },
            None => self,
        }
    }

    /// The bus without a client.
    pub open spec fn without_client(self, id: ClientId) -> BusModel {
        match self.client(id) {
            Some(i) => BusModel { clients: self.clients.remove(i), ..self },
            None => self,
        }
    }

    /// The bus with a client that has these filters.
    pub open spec fn with_client(self, id: ClientId, filters: Seq<IdMaskFilter>) -> BusModel {
        match self.client(id) {
            Some(i) => BusModel {
                clients: self.clients.update(i, ClientModel { id, filters }),
                ..self
            },
            None => BusModel { clients: self.clients.push(ClientModel { id, filters }), ..self },
        }
    }

    /// The bus with filters that wait for a client.
    pub open spec fn with_pending(
        self,
        id: ClientId,
        seq: u64,
        filters: Seq<IdMaskFilter>,
    ) -> BusModel {
        match self.waiting(id) {
            Some(i) => BusModel {
                pending: self.pending.update(i, PendingModel { id, seq, filters }),
                ..self
            },
            None => BusModel {
                pending: self.pending.push(PendingModel { id, seq, filters }),
                ..self
            },
        }
    }

    /// The bus after a command, and the messages that go out.
    pub open spec fn handled(self, cmd: BusCommand) -> (BusModel, Seq<Outgoing>) {
        match cmd {
            BusCommand::AddClient { id } => {
                let hello = Outgoing { to: id, msg: ServerMsg::Hello };
                match self.waiting(id) {
                    Some(i) => (
                        self.without_pending(id).with_client(id, self.pending[i].filters),
                        seq![
                            hello,
                            Outgoing {
                                to: id,
                                msg: ServerMsg::FiltersAck {
                                    seq: self.pending[i].seq,
                                    status: ACK_OK,
                                },
                            },
                        ],
                    ),
                    None => (self.with_client(id, Seq::empty()), seq![hello]),
                }
            },
            BusCommand::RemoveClient { id } => (
                self.without_client(id).without_pending(id),
                Seq::empty(),
            ),
            BusCommand::SendFrame { id, seq, expect_ack, frame } => {
                let frames = broadcast(self.clients, frame);
                let status = if self.clients.len() <= 1 {
                    ACK_NO_ACK
                } else {
                    ACK_OK
                };
                (
                    self,
                    if expect_ack && self.client(id) is Some {
                        frames.push(Outgoing { to: id, msg: ServerMsg::Ack { seq, status } })
                    } else {
                        frames
                    },
                )
            },
            BusCommand::SetFilters { id, seq, filters } => {
                let status = if seq == 0 {
                    ACK_SERVER_ERR
                } else {
                    ACK_OK
                };
                let ack = if self.client(id) is Some {
                    seq![Outgoing { to: id, msg: ServerMsg::FiltersAck { seq, status } }]
                } else {
                    Seq::empty()
                };
                (
                    if seq == 0 {
                        self
                    } else if self.client(id) is Some {
                        self.with_client(id, filters@)
                    } else {
                        self.with_pending(id, seq, filters@)
                    },
                    ack,
                )
            },
            BusCommand::Shutdown => (self, Seq::empty()),
        }
    }
}

/// Whether one filter accepts an identifier.
pub fn filter_match(filter: &IdMaskFilter, id: Id) -> (r: bool)
    ensures
        r == filter.accepts(id),
{
    match (filter.id, filter.mask, id) {
        (Id::Standard(want), IdMask::Standard(mask), Id::Standard(got)) => got.as_raw() & mask
            == want.as_raw() & mask,
        (Id::Extended(want), IdMask::Extended(mask), Id::Extended(got)) => got.as_raw() & mask
            == want.as_raw() & mask,
        _ => false,
    }
}

/// Whether filters accept a frame.
pub fn filters_match(filters: &[IdMaskFilter], frame: &UnixFrame) -> (r: bool)
    ensures
        r == accepted(filters@, frame@.id),
{
    if filters.len() == 0 {
        return true;
    }
    let mut i: usize = 0;
    while i < filters.len()
        invariant
            i <= filters@.len(),
            forall|j: int| 0 <= j < i ==> !(#[trigger] filters@[j]).accepts(frame@.id),
        decreases filters@.len() - i,
    {
        if filter_match(&filters[i], frame.id()) {
            assert(filters@[i as int].accepts(frame@.id));
            return true;
        }
        i += 1;
    }
    false
}

/// The simulated bus.
pub struct Bus {
    clients: Vec<ClientState>,
    pending: Vec<PendingFilters>,
}

impl View for Bus {
    type V = BusModel;

    closed spec fn view(&self) -> BusModel {
        BusModel {
            clients: self.clients@.map_values(|c: ClientState| c@),
            pending: self.pending@.map_values(|p: PendingFilters| p@),
        }
    }
}

impl Bus {
    /// The invariant of the bus.
    pub open spec fn wf(&self) -> bool {
        self@.wf()
    }

    /// A bus without clients.
    pub fn new() -> (r: Self)
        ensures
            r.wf(),
            r@.clients.len() == 0,
            r@.pending.len() == 0,
    {
        Bus { clients: Vec::new(), pending: Vec::new() }
    }

    fn find_client(&self, id: ClientId) -> (r: Option<usize>)
        requires
            self.wf(),
        ensures
            match r {
                Some(i) => self@.is_client(i as int, id) && self@.client(id) == Some(i as int),
                None => self@.client(id) is None,
            },
    {
        let mut i: usize = 0;
        while i < self.clients.len()
            invariant
                i <= self.clients@.len(),
                self.wf(),
                forall|j: int| 0 <= j < i ==> !self@.is_client(j, id),
            decreases self.clients@.len() - i,
        {
            if self.clients[i].id == id {
                assert(self@.is_client(i as int, id));
                return Some(i);
            }
            assert(!self@.is_client(i as int, id));
            i += 1;
        }
        None
    }

    fn find_pending(&self, id: ClientId) -> (r: Option<usize>)
        requires
            self.wf(),
        ensures
            match r {
                Some(i) => self@.is_pending(i as int, id) && self@.waiting(id) == Some(i as int),
                None => self@.waiting(id) is None,
            },
    {
        let mut i: usize = 0;
        while i < self.pending.len()
            invariant
                i <= self.pending@.len(),
                self.wf(),
                forall|j: int| 0 <= j < i ==> !self@.is_pending(j, id),
            decreases self.pending@.len() - i,
        {
            if self.pending[i].id == id {
                assert(self@.is_pending(i as int, id));
                return Some(i);
            }
            assert(!self@.is_pending(i as int, id));
            i += 1;
        }
        None
    }

    fn take_pending(&mut self, id: ClientId) -> (r: Option<PendingFilters>)
        requires
            old(self).wf(),
        ensures
            final(self).wf(),
            final(self)@ == old(self)@.without_pending(id),
            match old(self)@.waiting(id) {
                Some(i) => r matches Some(p) && p@ == old(self)@.pending[i],
                None => r is None,
            },
    {
        match self.find_pending(id) {
            Some(i) => {
                let p = self.pending.remove(i);
                proof {
                    let before = old(self)@;
                    assert(self@.pending =~= before.pending.remove(i as int));
                    assert(self@.clients =~= before.clients);
                    assert forall|a: int, b: int| 0 <= a < b < self@.pending.len() implies (
                    #[trigger] self@.pending[a]).id != (#[trigger] self@.pending[b]).id by {
                        let x = if a < i {
                            a
                        } else {
                            a + 1
                        };
                        let y = if b < i {
                            b
                        } else {
                            b + 1
                        };
                        assert(before.pending[x].id != before.pending[y].id);
                    }
                }
                Some(p)
            },
            None => None,
        }
    }

    fn put_client(&mut self, id: ClientId, filters: Vec<IdMaskFilter>)
        requires
            old(self).wf(),
        ensures
            final(self).wf(),
            final(self)@ == old(self)@.with_client(id, filters@),
    {
        let state = ClientState { id, filters };
        match self.find_client(id) {
            Some(i) => {
                self.clients[i] = state;
            },
            None => {
                self.clients.push(state);
            },
        }
        proof {
            let before = old(self)@;
            let after = before.with_client(id, filters@);
            assert(self@.clients =~= after.clients);
            assert(self@.pending =~= after.pending);
            assert forall|a: int, b: int| 0 <= a < b < after.clients.len() implies (
            #[trigger] after.clients[a]).id != (#[trigger] after.clients[b]).id by {
                if b == before.clients.len() {
                    assert(!before.is_client(a, id));
                } else {
                    assert(before.clients[a].id != before.clients[b].id);
                }
            }
        }
    }

    fn remove_client(&mut self, id: ClientId)
        requires
            old(self).wf(),
        ensures
            final(self).wf(),
            final(self)@ == old(self)@.without_client(id),
    {
        if let Some(i) = self.find_client(id) {
            let _gone = self.clients.remove(i);
            proof {
                let before = old(self)@;
                assert(self@.clients =~= before.clients.remove(i as int));
                assert(self@.pending =~= before.pending);
                assert forall|a: int, b: int| 0 <= a < b < self@.clients.len() implies (
                #[trigger] self@.clients[a]).id != (#[trigger] self@.clients[b]).id by {
                    let x = if a < i {
                        a
                    } else {
                        a + 1
                    };
                    let y = if b < i {
                        b
                    } else {
                        b + 1
                    };
                    assert(before.clients[x].id != before.clients[y].id);
                }
            }
        }
    }

    fn put_pending(&mut self, id: ClientId, seq: u64, filters: Vec<IdMaskFilter>)
        requires
            old(self).wf(),
        ensures
            final(self).wf(),
            final(self)@ == old(self)@.with_pending(id, seq, filters@),
    {
        let entry = PendingFilters { id, seq, filters };
        match self.find_pending(id) {
            Some(i) => {
                self.pending[i] = entry;
            },
            None => {
                self.pending.push(entry);
            },
        }
        proof {
            let before = old(self)@;
            let after = before.with_pending(id, seq, filters@);
            assert(self@.clients =~= after.clients);
            assert(self@.pending =~= after.pending);
            assert forall|a: int, b: int| 0 <= a < b < after.pending.len() implies (
            #[trigger] after.pending[a]).id != (#[trigger] after.pending[b]).id by {
                if b == before.pending.len() {
                    assert(!before.is_pending(a, id));
                } else {
                    assert(before.pending[a].id != before.pending[b].id);
                }
            }
        }
    }

    fn broadcast_frame(&self, frame: &UnixFrame) -> (r: Vec<Outgoing>)
        ensures
            r@ == broadcast(self@.clients, *frame),
    {
        let mut out: Vec<Outgoing> = Vec::new();
        let mut i: usize = 0;
        assert(self@.clients.take(0) =~= Seq::empty());
        while i < self.clients.len()
            invariant
                i <= self.clients@.len(),
                out@ == broadcast(self@.clients.take(i as int), *frame),
            decreases self.clients@.len() - i,
        {
            proof {
                assert(self@.clients.take(i + 1).drop_last() =~= self@.clients.take(i as int));
                assert(self@.clients[i as int] == self.clients@[i as int]@);
            }
            if filters_match(self.clients[i].filters.as_slice(), frame) {
                out.push(Outgoing { to: self.clients[i].id, msg: ServerMsg::Frame(*frame) });
            }
            i += 1;
        }
        assert(self@.clients.take(i as int) =~= self@.clients);
        out
    }

    /// Act on a command; the messages that go out, in order.
    pub fn handle_command(&mut self, cmd: BusCommand) -> (r: Vec<Outgoing>)
        requires
            old(self).wf(),
        ensures
            final(self).wf(),
            (final(self)@, r@) == old(self)@.handled(cmd),
    {
        let mut out: Vec<Outgoing> = Vec::new();
        match cmd {
            BusCommand::AddClient { id } => {
                out.push(Outgoing { to: id, msg: ServerMsg::Hello });
                match self.take_pending(id) {
                    Some(pending) => {
                        let seq: u64 = pending.seq;
                        self.put_client(id, pending.filters);
                        out.push(
                            Outgoing { to: id, msg: ServerMsg::FiltersAck { seq, status: ACK_OK } },
                        );
                    },
                    None => {
                        let none: Vec<IdMaskFilter> = Vec::new();
                        assert(none@ =~= Seq::empty());
                        self.put_client(id, none);
                    },
                }
                assert(out@ =~= old(self)@.handled(cmd).1);
            },
            BusCommand::RemoveClient { id } => {
                self.remove_client(id);
                let _filters = self.take_pending(id);
                assert(out@ =~= Seq::empty());
            },
            BusCommand::SendFrame { id, seq, expect_ack, frame } => {
                let status: u8 = if self.clients.len() <= 1 {
                    ACK_NO_ACK
                } else {
                    ACK_OK
                };
                assert(self@.clients.len() == self.clients@.len());
                out = self.broadcast_frame(&frame);
                if expect_ack && self.find_client(id).is_some() {
                    out.push(Outgoing { to: id, msg: ServerMsg::Ack { seq, status } });
                }
            },
            BusCommand::SetFilters { id, seq, filters } => {
                let known = self.find_client(id).is_some();
                if known {
                    let status: u8 = if seq == 0 {
                        ACK_SERVER_ERR
                    } else {
                        ACK_OK
                    };
                    out.push(Outgoing { to: id, msg: ServerMsg::FiltersAck { seq, status } });
                }
                if seq != 0 {
                    if known {
                        self.put_client(id, filters);
                    } else {
                        self.put_pending(id, seq, filters);
                    }
                }
                assert(out@ =~= old(self)@.handled(cmd).1);
            },
            BusCommand::Shutdown => {
                assert(out@ =~= Seq::empty());
            },
        }
        out
    }
}

/// What becomes of a message from a client.
pub enum ReaderStep {
    /// Hand the command to the bus.
    Command(BusCommand),
    /// Disconnect the client.
    Disconnect,
    /// Nothing.
    Ignore,
}

/// Whether a step is the one for this message: a frame is put on the bus, a malformed one ends the
/// connection; filters are replaced, malformed ones are reported with request number zero; other
/// messages are ignored.
pub open spec fn is_reader_step(id: ClientId, msg_type: u8, payload: Seq<u8>, step: ReaderStep) -> bool {
    if msg_type == MSG_SEND_FRAME {
        let parsed = wire::frame_in(payload.skip(8), "invalid send frame payload length"@);
        match step {
            ReaderStep::Command(BusCommand::SendFrame { id: from, seq, expect_ack, frame }) => {
                &&& payload.len() >= 14
                &&& parsed == Ok::<crate::unix_frame::UnixFrameView, Seq<char>>(frame@)
                &&& from == id
                &&& seq == wire::le_value(payload.take(8))
                &&& expect_ack == (payload[8] / 4 % 2 == 1)
            },
            ReaderStep::Disconnect => payload.len() < 14 || parsed is Err,
            _ => false,
        }
    } else if msg_type == MSG_SET_FILTERS {
        let well_formed = payload.len() >= 10 && payload.len() == 10 + 9
            * wire::announced_filters(payload) && wire::filters_in(
            payload.skip(10),
            wire::announced_filters(payload),
        ) is Ok;
        &&& step matches ReaderStep::Command(
            BusCommand::SetFilters { id: from, seq, filters },
        )
        &&& from == id
        &&& if well_formed {
            &&& seq == wire::le_value(payload.take(8))
            &&& wire::filters_in(payload.skip(10), wire::announced_filters(payload)) == Ok::<
                Seq<IdMaskFilter>,
                Seq<char>,
            >(filters@)
        } else {
            seq == 0 && filters@.len() == 0
        }
    } else {
        step is Ignore
    }
}

/// Decide on a message from a client.
pub fn on_client_msg(id: ClientId, msg_type: u8, payload: &[u8]) -> (r: ReaderStep)
    ensures
        is_reader_step(id, msg_type, payload@, r),
{
    if msg_type == MSG_SEND_FRAME {
        match decode_send_frame(payload) {
            Ok(send) => ReaderStep::Command(
                BusCommand::SendFrame {
                    id,
                    seq: send.seq,
                    expect_ack: send.expect_ack,
                    frame: send.frame,
                },
            ),
            Err(_) => ReaderStep::Disconnect,
        }
    } else if msg_type == MSG_SET_FILTERS {
        match decode_filters(payload) {
            Ok((seq, filters)) => ReaderStep::Command(BusCommand::SetFilters { id, seq, filters }),
            Err(_) => ReaderStep::Command(
                BusCommand::SetFilters { id, seq: 0, filters: Vec::new() },
            ),
        }
    } else {
        ReaderStep::Ignore
    }
}

/// The bytes of a message to a client.
pub open spec fn server_msg(msg: ServerMsg) -> Seq<u8> {
    match msg {
        ServerMsg::Frame(frame) => wire::message(MSG_FRAME, wire::frame_fields(frame@, false)),
        ServerMsg::Ack { seq, status } => wire::message(MSG_ACK, wire::ack_bytes(seq, status)),
        ServerMsg::Hello => wire::message(MSG_HELLO, Seq::empty()),
        ServerMsg::FiltersAck { seq, status } => wire::message(
            MSG_FILTERS_ACK,
            wire::ack_bytes(seq, status),
        ),
    }
}

/// Build the bytes of a message to a client.
pub fn server_msg_bytes(msg: &ServerMsg) -> (r: Result<Vec<u8>, &'static str>)
    ensures
        r matches Ok(bytes) && bytes@ == server_msg(*msg),
{
    let mut frame_buf: [u8; 70] = [0u8;70];
    let mut ack_buf: [u8; 9] = [0u8;9];
    match msg {
        ServerMsg::Frame(frame) => {
            let len: usize = encode_frame_into(&mut frame_buf, frame);
            proof {
                wire::frame_fields_len(frame@, false);
            }
            let body = slice_subrange(frame_buf.as_slice(), 0, len);
            assert(body@ =~= wire::frame_fields(frame@, false));
            write_msg(MSG_FRAME, body)
        },
        ServerMsg::Ack { seq, status } => {
            encode_ack_into(&mut ack_buf, *seq, *status);
            write_msg(MSG_ACK, ack_buf.as_slice())
        },
        ServerMsg::Hello => {
            let body = slice_subrange(ack_buf.as_slice(), 0, 0);
            assert(body@ =~= Seq::empty());
            write_msg(MSG_HELLO, body)
        },
        ServerMsg::FiltersAck { seq, status } => {
            encode_ack_into(&mut ack_buf, *seq, *status);
            write_msg(MSG_FILTERS_ACK, ack_buf.as_slice())
        },
    }
}

proof fn broadcast_reaches(clients: Seq<ClientModel>, frame: UnixFrame, i: int)
    requires
        0 <= i < clients.len(),
        accepted(clients[i].filters, frame@.id),
    ensures
        broadcast(clients, frame).contains(
            Outgoing { to: clients[i].id, msg: ServerMsg::Frame(frame) },
        ),
    decreases clients.len(),
{
    let out = broadcast(clients, frame);
    let item = Outgoing { to: clients[i].id, msg: ServerMsg::Frame(frame) };
    if i == clients.len() - 1 {
        assert(out[out.len() - 1] == item);
    } else {
        let front = clients.drop_last();
        broadcast_reaches(front, frame, i);
        let earlier = broadcast(front, frame);
        let k = choose|k: int| 0 <= k < earlier.len() && earlier[k] == item;
        assert(out[k] == item);
    }
}

proof fn broadcast_reaches_only(clients: Seq<ClientModel>, frame: UnixFrame, k: int)
    requires
        0 <= k < broadcast(clients, frame).len(),
    ensures
        exists|i: int|
            0 <= i < clients.len() && accepted((#[trigger] clients[i]).filters, frame@.id)
                && broadcast(clients, frame)[k] == (Outgoing {
                to: clients[i].id,
                msg: ServerMsg::Frame(frame),
            }),
    decreases clients.len(),
{
    let front = clients.drop_last();
    let earlier = broadcast(front, frame);
    if k < earlier.len() {
        broadcast_reaches_only(front, frame, k);
        let i = choose|i: int|
            0 <= i < front.len() && accepted((#[trigger] front[i]).filters, frame@.id)
                && earlier[k] == (Outgoing { to: front[i].id, msg: ServerMsg::Frame(frame) });
        assert(clients[i] == front[i]);
    } else {
        assert(accepted(clients[clients.len() - 1].filters, frame@.id));
    }
}

/// A frame goes to a connected client exactly when the client has no filters, or one of its filters
/// accepts the frame's identifier; the sender is no exception.
pub proof fn frame_reaches_exactly_accepting_clients(m: BusModel, frame: UnixFrame, i: int)
    requires
        m.wf(),
        0 <= i < m.clients.len(),
    ensures
        broadcast(m.clients, frame).contains(
            Outgoing { to: m.clients[i].id, msg: ServerMsg::Frame(frame) },
        ) <==> m.clients[i].filters.len() == 0 || exists|k: int|
            0 <= k < m.clients[i].filters.len() && (
            #[trigger] m.clients[i].filters[k]).accepts(frame@.id),
{
    let item = Outgoing { to: m.clients[i].id, msg: ServerMsg::Frame(frame) };
    let out = broadcast(m.clients, frame);
    if accepted(m.clients[i].filters, frame@.id) {
        broadcast_reaches(m.clients, frame, i);
    }
    if out.contains(item) {
        let k = choose|k: int| 0 <= k < out.len() && out[k] == item;
        broadcast_reaches_only(m.clients, frame, k);
        let j = choose|j: int|
            0 <= j < m.clients.len() && accepted((#[trigger] m.clients[j]).filters, frame@.id)
                && out[k] == (Outgoing { to: m.clients[j].id, msg: ServerMsg::Frame(frame) });
        if j < i {
            assert(m.clients[j].id != m.clients[i].id);
        } else if i < j {
            assert(m.clients[i].id != m.clients[j].id);
        }
    }
}

/// A client that was removed is neither connected nor waited for.
pub proof fn removed_client_is_gone(m: BusModel, id: ClientId)
    requires
        m.wf(),
    ensures
        m.handled(BusCommand::RemoveClient { id }).0.client(id) is None,
        m.handled(BusCommand::RemoveClient { id }).0.waiting(id) is None,
{
    let after = m.handled(BusCommand::RemoveClient { id }).0;
    if exists|i: int| after.is_client(i, id) {
        let i = choose|i: int| after.is_client(i, id);
        let at = m.client(id)->0;
        let j = if i < at {
            i
        } else {
            i + 1
        };
        if m.client(id) is Some {
            assert(m.clients[j].id == id);
            assert(m.is_client(at, id));
        } else {
            assert(m.is_client(i, id));
        }
    }
    let mid = m.without_client(id);
    if exists|i: int| after.is_pending(i, id) {
        let i = choose|i: int| after.is_pending(i, id);
        let at = mid.waiting(id)->0;
        let j = if i < at {
            i
        } else {
            i + 1
        };
        if mid.waiting(id) is Some {
            assert(mid.pending[j].id == id);
            assert(mid.is_pending(at, id));
        } else {
            assert(mid.is_pending(i, id));
        }
    }
}

/// What a client asks to put on the bus is what the bus is told: from the bytes of the request, with
/// whatever follows them, comes the command with the request's number and frame.
pub proof fn send_request_becomes_its_command(
    id: ClientId,
    seq: u64,
    expect_ack: bool,
    frame: UnixFrame,
    rest: Seq<u8>,
    step: ReaderStep,
)
    requires
        frame@.bytes.len() <= 64,
        frame@.id.in_range(),
        is_reader_step(
            id,
            MSG_SEND_FRAME,
            wire::send_frame_bytes(seq, expect_ack, frame@),
            step,
        ),
    ensures
        wire::first_msg(
            wire::message(MSG_SEND_FRAME, wire::send_frame_bytes(seq, expect_ack, frame@)) + rest,
        ) == wire::FirstMsg::Msg(
            MSG_SEND_FRAME,
            wire::send_frame_bytes(seq, expect_ack, frame@),
        ),
        step matches ReaderStep::Command(
            BusCommand::SendFrame { id: from, seq: number, expect_ack: ack, frame: put },
        ) && from == id && number == seq && ack == expect_ack && put@ == frame@,
{
    let payload = wire::send_frame_bytes(seq, expect_ack, frame@);
    wire::send_frame_round_trip(
        seq,
        expect_ack,
        frame@,
        "invalid send frame payload length"@,
    );
    wire::message_round_trip(MSG_SEND_FRAME, payload, rest);
}

/// The filters that a client asks for are the filters that the bus is told, as long as each mask has
/// the width of its identifier and the request does not exceed the payload limit.
pub proof fn filter_request_becomes_its_command(
    id: ClientId,
    seq: u64,
    filters: Seq<IdMaskFilter>,
    rest: Seq<u8>,
    step: ReaderStep,
)
    requires
        10 + 9 * filters.len() <= wire::MAX_PAYLOAD_LEN,
        forall|i: int|
            0 <= i < filters.len() ==> wire::widths_agree(#[trigger] filters[i])
                && filters[i].id.in_range(),
        is_reader_step(id, MSG_SET_FILTERS, wire::filters_bytes(seq, filters), step),
    ensures
        wire::first_msg(
            wire::message(MSG_SET_FILTERS, wire::filters_bytes(seq, filters)) + rest,
        ) == wire::FirstMsg::Msg(MSG_SET_FILTERS, wire::filters_bytes(seq, filters)),
        step matches ReaderStep::Command(
            BusCommand::SetFilters { id: from, seq: number, filters: set },
        ) && from == id && number == seq && set@ == filters,
{
    wire::filters_round_trip(seq, filters);
    wire::message_round_trip(MSG_SET_FILTERS, wire::filters_bytes(seq, filters), rest);
}

/// The filters of a client, if it is connected.
pub open spec fn filters_of(m: BusModel, id: ClientId) -> Option<Seq<IdMaskFilter>> {
    match m.client(id) {
        Some(i) => Some(m.clients[i].filters),
        None => None,
    }
}

/// A connected client is found at its place.
proof fn client_at(m: BusModel, i: int)
    requires
        m.wf(),
        0 <= i < m.clients.len(),
    ensures
        m.client(m.clients[i].id) == Some(i),
        filters_of(m, m.clients[i].id) == Some(m.clients[i].filters),
{
    let id = m.clients[i].id;
    assert(m.is_client(i, id));
    let k = m.client(id)->0;
    assert(m.is_client(k, id));
    if k < i {
        assert(m.clients[k].id != m.clients[i].id);
    } else if i < k {
        assert(m.clients[i].id != m.clients[k].id);
    }
}

/// Whether two buses have the same clients with the same filters, but for one.
pub open spec fn same_but(m: BusModel, n: BusModel, id: ClientId) -> bool {
    forall|other: ClientId| other != id ==> #[trigger] filters_of(n, other) == filters_of(m, other)
}

/// Giving a client filters gives them to that client alone.
proof fn with_client_sets(m: BusModel, id: ClientId, filters: Seq<IdMaskFilter>)
    requires
        m.wf(),
    ensures
        m.with_client(id, filters).wf(),
        filters_of(m.with_client(id, filters), id) == Some(filters),
        same_but(m, m.with_client(id, filters), id),
{
    let n = m.with_client(id, filters);
    let at = match m.client(id) {
        Some(i) => i,
        None => m.clients.len() as int,
    };
    if m.client(id) is Some {
        assert(m.is_client(at, id));
    }
    assert forall|i: int, j: int| 0 <= i < j < n.clients.len() implies (#[trigger] n.clients[i]).id
        != (#[trigger] n.clients[j]).id by {
        if m.client(id) is None && j == at {
            assert(!m.is_client(i, id));
        } else {
            assert(m.clients[i].id != m.clients[j].id);
        }
    }
    assert(n.clients[at] == (ClientModel { id, filters }));
    client_at(n, at);
    assert forall|other: ClientId| other != id implies #[trigger] filters_of(n, other)
        == filters_of(m, other) by {
        if exists|i: int| m.is_client(i, other) {
            let i = choose|i: int| m.is_client(i, other);
            client_at(m, i);
            assert(n.clients[i] == m.clients[i]);
            client_at(n, i);
        } else if exists|i: int| n.is_client(i, other) {
            let i = choose|i: int| n.is_client(i, other);
            assert(m.is_client(i, other));
        }
    }
}

/// Setting filters: a connected client has them from then on, and is told so with the number of its
/// request; every other client keeps its own. A request without a number is refused and changes
/// nothing. Filters for a client that is not connected yet wait for it.
pub proof fn filters_are_set_for_their_client(
    m: BusModel,
    id: ClientId,
    seq: u64,
    filters: Vec<IdMaskFilter>,
)
    requires
        m.wf(),
    ensures
        ({
            let (n, out) = m.handled(BusCommand::SetFilters { id, seq, filters });
            let connected = exists|i: int| m.is_client(i, id);
            &&& same_but(m, n, id)
            &&& seq == 0 ==> n == m
            &&& seq > 0 && connected ==> filters_of(n, id) == Some(filters@) && n.pending
                == m.pending
            &&& seq > 0 && !connected ==> {
                &&& n.clients == m.clients
                &&& exists|k: int|
                    n.is_pending(k, id) && (#[trigger] n.pending[k]).seq == seq
                        && n.pending[k].filters == filters@
            }
            &&& out == (if connected {
                seq![
                    Outgoing {
                        to: id,
                        msg: ServerMsg::FiltersAck {
                            seq,
                            status: if seq == 0 {
                                3u8
                            } else {
                                0u8
                            },
                        },
                    },
                ]
            } else {
                Seq::empty()
            })
        }),
{
    let (n, out) = m.handled(BusCommand::SetFilters { id, seq, filters });
    if seq > 0 {
        if m.client(id) is Some {
            with_client_sets(m, id, filters@);
        } else {
            let k = match m.waiting(id) {
                Some(k) => k,
                None => m.pending.len() as int,
            };
            if m.waiting(id) is Some {
                assert(m.is_pending(k, id));
            }
            assert(n.pending[k] == (PendingModel { id, seq, filters: filters@ }));
            assert(n.is_pending(k, id));
            assert forall|other: ClientId| other != id implies #[trigger] filters_of(n, other)
                == filters_of(m, other) by {
                assert(forall|i: int| n.is_client(i, other) == m.is_client(i, other));
                if exists|i: int| m.is_client(i, other) {
                    let i = choose|i: int| m.is_client(i, other);
                    client_at(m, i);
                    assert(n.wf()) by {
                        assert(n.clients == m.clients);
                        assert forall|a: int, b: int| 0 <= a < b < n.pending.len() implies (
                        #[trigger] n.pending[a]).id != (#[trigger] n.pending[b]).id by {
                            if m.waiting(id) is None && b == k {
                                assert(!m.is_pending(a, id));
                            } else {
                                assert(m.pending[a].id != m.pending[b].id);
                            }
                        }
                    }
                    client_at(n, i);
                }
            }
        }
    }
}

/// A client that connects is greeted first. It starts without filters, or with those that waited for
/// it, of which it is then told; every other client keeps its own.
pub proof fn new_client_is_greeted(m: BusModel, id: ClientId)
    requires
        m.wf(),
    ensures
        ({
            let (n, out) = m.handled(BusCommand::AddClient { id });
            &&& same_but(m, n, id)
            &&& out.len() > 0 && out[0] == (Outgoing { to: id, msg: ServerMsg::Hello })
            &&& forall|k: int| #[trigger]
                m.is_pending(k, id) ==> {
                    &&& filters_of(n, id) == Some(m.pending[k].filters)
                    &&& out.len() == 2
                    &&& out[1] == (Outgoing {
                        to: id,
                        msg: ServerMsg::FiltersAck { seq: m.pending[k].seq, status: 0 },
                    })
                }
            &&& (forall|k: int| !m.is_pending(k, id)) ==> {
                &&& filters_of(n, id) == Some(Seq::<IdMaskFilter>::empty())
                &&& out.len() == 1
            }
            &&& forall|k: int| !n.is_pending(k, id)
        }),
{
    let (n, out) = m.handled(BusCommand::AddClient { id });
    match m.waiting(id) {
        Some(i) => {
            assert(m.is_pending(i, id));
            assert forall|k: int| #[trigger] m.is_pending(k, id) implies k == i by {
                if k < i {
                    assert(m.pending[k].id != m.pending[i].id);
                } else if i < k {
                    assert(m.pending[i].id != m.pending[k].id);
                }
            }
            let mid = m.without_pending(id);
            assert(mid.wf()) by {
                assert forall|a: int, b: int| 0 <= a < b < mid.pending.len() implies (
                #[trigger] mid.pending[a]).id != (#[trigger] mid.pending[b]).id by {
                    let x = if a < i {
                        a
                    } else {
                        a + 1
                    };
                    let y = if b < i {
                        b
                    } else {
                        b + 1
                    };
                    assert(m.pending[x].id != m.pending[y].id);
                }
            }
            with_client_sets(mid, id, m.pending[i].filters);
            assert forall|other: ClientId| other != id implies #[trigger] filters_of(n, other)
                == filters_of(m, other) by {
                assert(filters_of(n, other) == filters_of(mid, other));
                assert(forall|x: int| mid.is_client(x, other) == m.is_client(x, other));
                if exists|x: int| m.is_client(x, other) {
                    let x = choose|x: int| m.is_client(x, other);
                    client_at(m, x);
                    client_at(mid, x);
                }
            }
            assert forall|k: int| !n.is_pending(k, id) by {
                if n.is_pending(k, id) {
                    let x = if k < i {
                        k
                    } else {
                        k + 1
                    };
                    assert(m.is_pending(x, id));
                }
            }
        },
        None => {
            with_client_sets(m, id, Seq::empty());
            assert forall|k: int| !n.is_pending(k, id) by {
                assert(!m.is_pending(k, id));
            }
        },
    }
}

/// No two messages of a broadcast go to the same client, and none of them is anything but the frame.
proof fn broadcast_goes_once(clients: Seq<ClientModel>, frame: UnixFrame)
    requires
        forall|i: int, j: int|
            0 <= i < j < clients.len() ==> (#[trigger] clients[i]).id != (
            #[trigger] clients[j]).id,
    ensures
        forall|a: int, b: int|
            0 <= a < b < broadcast(clients, frame).len() ==> (
            #[trigger] broadcast(clients, frame)[a]).to != (
            #[trigger] broadcast(clients, frame)[b]).to,
    decreases clients.len(),
{
    if clients.len() > 0 {
        let front = clients.drop_last();
        broadcast_goes_once(front, frame);
        let earlier = broadcast(front, frame);
        let out = broadcast(clients, frame);
        assert forall|a: int, b: int| 0 <= a < b < out.len() implies (#[trigger] out[a]).to != (
        #[trigger] out[b]).to by {
            if b == earlier.len() {
                broadcast_reaches_only(front, frame, a);
                let i = choose|i: int|
                    0 <= i < front.len() && accepted((#[trigger] front[i]).filters, frame@.id)
                        && earlier[a] == (Outgoing {
                        to: front[i].id,
                        msg: ServerMsg::Frame(frame),
                    });
                assert(clients[i].id != clients[clients.len() - 1].id);
            } else {
                assert(earlier[a].to != earlier[b].to);
            }
        }
    }
}

/// A frame on the bus: each client that accepts it gets it once, and before any acknowledgement. The
/// sender is told, if it asked and is connected, that the frame was taken when another client is
/// connected, whatever that client's filters, and that nobody took it otherwise. Nothing changes.
pub proof fn frame_is_broadcast_and_acknowledged(
    m: BusModel,
    id: ClientId,
    seq: u64,
    expect_ack: bool,
    frame: UnixFrame,
)
    requires
        m.wf(),
    ensures
        ({
            let (n, out) = m.handled(BusCommand::SendFrame { id, seq, expect_ack, frame });
            let asked = expect_ack && exists|i: int| m.is_client(i, id);
            let others = exists|i: int|
                0 <= i < m.clients.len() && (#[trigger] m.clients[i]).id != id;
            let frames = if asked {
                out.drop_last()
            } else {
                out
            };
            &&& n == m
            &&& asked ==> out.len() > 0 && out.last() == (Outgoing {
                to: id,
                msg: ServerMsg::Ack {
                    seq,
                    status: if others {
                        0u8
                    } else {
                        1u8
                    },
                },
            })
            &&& forall|a: int, b: int|
                0 <= a < b < frames.len() ==> (#[trigger] frames[a]).to != (
                #[trigger] frames[b]).to
            &&& forall|a: int|
                0 <= a < frames.len() ==> (#[trigger] frames[a]).msg == ServerMsg::Frame(frame)
            &&& forall|i: int|
                #![trigger m.clients[i]]
                0 <= i < m.clients.len() ==> (frames.contains(
                    Outgoing { to: m.clients[i].id, msg: ServerMsg::Frame(frame) },
                ) <==> m.clients[i].filters.len() == 0 || exists|k: int|
                    0 <= k < m.clients[i].filters.len() && (
                    #[trigger] m.clients[i].filters[k]).accepts(frame@.id))
        }),
{
    let (n, out) = m.handled(BusCommand::SendFrame { id, seq, expect_ack, frame });
    let frames = broadcast(m.clients, frame);
    broadcast_goes_once(m.clients, frame);
    assert forall|a: int| 0 <= a < frames.len() implies (#[trigger] frames[a]).msg
        == ServerMsg::Frame(frame) by {
        broadcast_reaches_only(m.clients, frame, a);
    }
    assert forall|i: int|
        #![trigger m.clients[i]]
        0 <= i < m.clients.len() implies (frames.contains(
        Outgoing { to: m.clients[i].id, msg: ServerMsg::Frame(frame) },
    ) <==> m.clients[i].filters.len() == 0 || exists|k: int|
        0 <= k < m.clients[i].filters.len() && (#[trigger] m.clients[i].filters[k]).accepts(
            frame@.id,
        )) by {
        frame_reaches_exactly_accepting_clients(m, frame, i);
    }
    if expect_ack && m.client(id) is Some {
        assert(out.drop_last() =~= frames);
        let at = m.client(id)->0;
        assert(m.is_client(at, id));
        if m.clients.len() > 1 {
            let other = if at == 0 {
                1int
            } else {
                0int
            };
            if other < at {
                assert(m.clients[other].id != m.clients[at].id);
            } else {
                assert(m.clients[at].id != m.clients[other].id);
            }
        }
    }
}

/// A client that leaves takes its filters along, and nobody else's; the bus says nothing.
pub proof fn leaving_client_changes_no_other(m: BusModel, id: ClientId)
    requires
        m.wf(),
    ensures
        ({
            let (n, out) = m.handled(BusCommand::RemoveClient { id });
            &&& out.len() == 0
            &&& filters_of(n, id) is None
            &&& forall|i: int|
                0 <= i < m.clients.len() && (#[trigger] m.clients[i]).id != id
                    ==> n.clients.contains(m.clients[i])
            &&& m.handled(BusCommand::Shutdown) == (m, Seq::<Outgoing>::empty())
        }),
{
    removed_client_is_gone(m, id);
    let n = m.handled(BusCommand::RemoveClient { id }).0;
    assert forall|i: int|
        0 <= i < m.clients.len() && (
        #[trigger] m.clients[i]).id != id implies n.clients.contains(m.clients[i]) by {
        match m.client(id) {
            Some(at) => {
                assert(m.is_client(at, id));
                let x = if i < at {
                    i
                } else {
                    i - 1
                };
                assert(n.clients[x] == m.clients[i]);
            },
            None => {
                assert(n.clients[i] == m.clients[i]);
            },
        }
    }
}

/// Messages to a client are numbered: 2 for a frame, 3 for what became of a frame, 5 for the
/// greeting, 6 for what became of filters. A frame from the bus asks for no acknowledgement.
pub proof fn server_messages_by_number(msg: ServerMsg)
    ensures
        ({
            let bytes = server_msg(msg);
            &&& bytes.len() >= 5
            &&& match msg {
                ServerMsg::Frame(frame) => bytes[0] == 2 && bytes.skip(5) == wire::frame_fields(
                    frame@,
                    false,
                ),
                ServerMsg::Ack { seq, status } => bytes[0] == 3 && bytes.skip(5) == wire::ack_bytes(
                    seq,
                    status,
                ),
                ServerMsg::Hello => bytes[0] == 5 && bytes.len() == 5,
                ServerMsg::FiltersAck { seq, status } => bytes[0] == 6 && bytes.skip(5)
                    == wire::ack_bytes(seq, status),
            }
        }),
{
    let (number, body) = match msg {
        ServerMsg::Frame(frame) => (2u8, wire::frame_fields(frame@, false)),
        ServerMsg::Ack { seq, status } => (3u8, wire::ack_bytes(seq, status)),
        ServerMsg::Hello => (5u8, Seq::empty()),
        ServerMsg::FiltersAck { seq, status } => (6u8, wire::ack_bytes(seq, status)),
    };
    wire::message_has_its_payload(number, body);
}

/// Messages from a client are numbered: 1 puts a frame on the bus, 4 replaces its filters, and all
/// others are ignored. A frame that cannot be read ends the connection; filters that cannot be read
/// are replaced by none, under request number zero.
pub proof fn client_messages_by_number(
    id: ClientId,
    msg_type: u8,
    payload: Seq<u8>,
    step: ReaderStep,
)
    requires
        is_reader_step(id, msg_type, payload, step),
    ensures
        step is Ignore <==> msg_type != 1 && msg_type != 4,
        step is Disconnect <==> msg_type == 1 && (payload.len() < 14 || wire::frame_in(
            payload.skip(8),
            "invalid send frame payload length"@,
        ) is Err),
        step matches ReaderStep::Command(cmd) ==> match cmd {
            BusCommand::SendFrame { id: from, seq, expect_ack, frame } => {
                &&& msg_type == 1
                &&& from == id
                &&& seq == wire::le_value(payload.take(8))
                &&& expect_ack <==> payload[8] / 4 % 2 == 1
                &&& wire::frame_in(payload.skip(8), "invalid send frame payload length"@) == Ok::<
                    crate::unix_frame::UnixFrameView,
                    Seq<char>,
                >(frame@)
            },
            BusCommand::SetFilters { id: from, seq, filters } => {
                let count = payload[8] + payload[9] * 0x100;
                let read = wire::filters_in(payload.skip(10), count as nat);
                &&& msg_type == 4
                &&& from == id
                &&& if payload.len() >= 10 && payload.len() == 10 + 9 * count && read is Ok {
                    seq == wire::le_value(payload.take(8)) && read == Ok::<
                        Seq<IdMaskFilter>,
                        Seq<char>,
                    >(filters@)
                } else {
                    seq == 0 && filters@.len() == 0
                }
            },
            _ => false,
        },
{
    if payload.len() >= 10 {
        wire::numbers_are_little_endian(payload.subrange(8, 10));
    }
}

/// A frame passes a list of filters exactly when the list is empty or one of them, wherever it
/// stands, accepts its identifier.
pub proof fn any_filter_lets_a_frame_pass(filters: &[IdMaskFilter], frame: &UnixFrame, r: bool)
    requires
        call_ensures(filters_match, (filters, frame), r),
    ensures
        r <==> filters@.len() == 0 || exists|i: int|
            0 <= i < filters@.len() && (#[trigger] filters@[i]).accepts(frame@.id),
{
}

/// The bus acts on a command as its clients and the command say, and sends just what that asks for.
pub proof fn bus_acts_on_commands(bus: &mut Bus, cmd: BusCommand, r: Vec<Outgoing>)
    requires
        call_ensures(Bus::handle_command, (bus, cmd), r),
    ensures
        final(bus)@ == old(bus)@.handled(cmd).0,
        r@ == old(bus)@.handled(cmd).1,
        cmd is Shutdown || cmd is SendFrame ==> final(bus)@ == old(bus)@,
        cmd is Shutdown || cmd is RemoveClient ==> r@.len() == 0,
        cmd matches BusCommand::AddClient { id } ==> r@.len() > 0 && r@[0].to == id
            && r@[0].msg is Hello,
{
}

/// What a client sent becomes the step that its bytes say, and a message to a client has the bytes
/// that it stands for.
pub proof fn messages_are_read_and_written(
    id: ClientId,
    msg_type: u8,
    payload: &[u8],
    step: ReaderStep,
    msg: &ServerMsg,
    bytes: Result<Vec<u8>, &'static str>,
)
    requires
        call_ensures(on_client_msg, (id, msg_type, payload), step),
        call_ensures(server_msg_bytes, (msg,), bytes),
    ensures
        is_reader_step(id, msg_type, payload@, step),
        bytes matches Ok(b) && b@ == server_msg(*msg),
{
}

} // verus!
