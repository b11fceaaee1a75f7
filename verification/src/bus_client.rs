//! Client side of the Unix-domain CAN bus.
//!
//! [`BusClient`] turns bytes from the server into messages and frames, and requests into bytes; the
//! socket is the caller's.

use crate::bus;
use crate::bus::ServerMsg;
use crate::id::IdMaskFilter;
use crate::time::Duration;
use crate::unix_frame::UnixFrame;
use crate::wire;
use crate::wire::{
    decode_ack, decode_frame, encode_filters, encode_send_frame_into, read_header, write_msg,
    ACK_BAD_FRAME, ACK_NO_ACK, ACK_OK, ACK_SERVER_ERR, MSG_ACK, MSG_FILTERS_ACK, MSG_FRAME,
    MSG_HELLO, MSG_SEND_FRAME, MSG_SET_FILTERS,
};
use std::collections::VecDeque;
use vstd::prelude::*;
use vstd::slice::{slice_subrange, slice_to_vec};

verus! {

/// `std::io::Error`, which is passed on as it is.
#[verifier::external_type_specification]
#[verifier::external_body]
pub struct ExIoError(std::io::Error);

/// Errors produced by the Unix-domain CAN client.
#[derive(Debug)]
pub enum UnixCanError {
    /// I/O error from the underlying Unix socket.
    Io(std::io::Error),
    /// Malformed or unexpected protocol message.
    Protocol(&'static str),
    /// Operation timed out waiting for data.
    Timeout,
    /// Operation would block in nonblocking mode.
    WouldBlock,
    /// Server disconnected unexpectedly.
    Disconnected,
    /// Frame was not acknowledged by any other node.
    NoAck,
}

/// What the operating system's error says about a socket operation.
#[derive(Debug, Clone, Copy, PartialEq, Eq, Structural)]
pub enum IoFailure {
    /// It would have to wait.
    WouldBlock,
    /// It ran out of time.
    TimedOut,
    /// Anything else.
    Other,
}

/// The client's error for a failed socket operation.
pub fn io_failure(kind: IoFailure, err: std::io::Error) -> (r: UnixCanError)
    ensures
        r == (match kind {
            IoFailure::WouldBlock => UnixCanError::WouldBlock,
            IoFailure::TimedOut => UnixCanError::Timeout,
            IoFailure::Other => UnixCanError::Io(err),
        }),
{
    match kind {
        IoFailure::WouldBlock => UnixCanError::WouldBlock,
        IoFailure::TimedOut => UnixCanError::Timeout,
        IoFailure::Other => UnixCanError::Io(err),
    }
}

/// A message from the server.
#[derive(Debug, Clone, Copy)]
pub enum DecodedMsg {
    /// A frame from the bus.
    Frame(UnixFrame),
    /// What became of a frame.
    Ack { seq: u64, status: u8 },
    /// What became of acceptance filters.
    FiltersAck { seq: u64, status: u8 },
    /// Greeting.
    Hello,
    /// Something else.
    Unknown,
}

/// Whether a message decodes to `r`.
pub open spec fn decodes_to(msg_type: u8, body: Seq<u8>, r: Result<DecodedMsg, Seq<char>>) -> bool {
    if msg_type == MSG_FRAME {
        let parsed = wire::frame_in(body, "invalid frame payload length"@);
        match r {
            Ok(DecodedMsg::Frame(frame)) => parsed == Ok::<
                crate::unix_frame::UnixFrameView,
                Seq<char>,
            >(frame@),
            Ok(_) => false,
            Err(e) => parsed == Err::<crate::unix_frame::UnixFrameView, Seq<char>>(e),
        }
    } else if msg_type == MSG_ACK || msg_type == MSG_FILTERS_ACK {
        let (seq, status) = (wire::le_value(body.take(8)) as u64, body[8]);
        r == (if body.len() != wire::ACK_LEN {
            Err(wire_ack_error())
        } else if msg_type == MSG_ACK {
            Ok(DecodedMsg::Ack { seq, status })
        } else {
            Ok(DecodedMsg::FiltersAck { seq, status })
        })
    } else if msg_type == MSG_HELLO {
        r == Ok::<DecodedMsg, Seq<char>>(DecodedMsg::Hello)
    } else {
        r == Ok::<DecodedMsg, Seq<char>>(DecodedMsg::Unknown)
    }
}

/// The error for an acknowledgement of the wrong length.
pub open spec fn wire_ack_error() -> Seq<char> {
    "invalid ack payload length"@
}

/// The text of a protocol error, or the message.
pub open spec fn text_of(r: Result<DecodedMsg, &'static str>) -> Result<DecodedMsg, Seq<char>> {
    match r {
        Ok(msg) => Ok(msg),
        Err(e) => Err(e@),
    }
}

fn decode_msg(msg_type: u8, payload: &[u8]) -> (r: Result<DecodedMsg, &'static str>)
    ensures
        decodes_to(msg_type, payload@, text_of(r)),
{
    if msg_type == MSG_FRAME {
        match decode_frame(payload) {
            Ok(frame) => Ok(DecodedMsg::Frame(frame)),
            Err(e) => Err(e),
        }
    } else if msg_type == MSG_ACK {
        match decode_ack(payload) {
            Ok((seq, status)) => Ok(DecodedMsg::Ack { seq, status }),
            Err(e) => Err(e),
        }
    } else if msg_type == MSG_FILTERS_ACK {
        match decode_ack(payload) {
            Ok((seq, status)) => Ok(DecodedMsg::FiltersAck { seq, status }),
            Err(e) => Err(e),
        }
    } else if msg_type == MSG_HELLO {
        Ok(DecodedMsg::Hello)
    } else {
        Ok(DecodedMsg::Unknown)
    }
}

/// State of a client.
pub struct ClientModel {
    /// Frames received while waiting for something else, oldest first.
    pub queue: Seq<UnixFrame>,
    /// Bytes from the server that no message was made of yet.
    pub unread: Seq<u8>,
    /// Number of the next request.
    pub next_seq: u64,
    /// Acceptance filters last set.
    pub filters: Seq<IdMaskFilter>,
}

impl ClientModel {
    /// The client with one more request made.
    pub open spec fn counted(self) -> ClientModel {
        ClientModel {
            next_seq: if self.next_seq == u64::MAX {
                0
            } else {
                (self.next_seq + 1) as u64
            },
            ..self
        }
    }

    /// The client with a frame kept for later.
    pub open spec fn kept(self, msg: DecodedMsg) -> ClientModel {
        match msg {
            DecodedMsg::Frame(frame) => ClientModel { queue: self.queue.push(frame), ..self },
            _ => self,
        }
    }
}

/// Client-side state of a connection to a Unix-domain bus server.
pub struct BusClient {
    rx_queue: VecDeque<UnixFrame>,
    rx_bytes: Vec<u8>,
    rx_off: usize,
    next_seq: u64,
    filters: Vec<IdMaskFilter>,
}

impl View for BusClient {
    type V = ClientModel;

    closed spec fn view(&self) -> ClientModel {
        ClientModel {
            queue: self.rx_queue@,
            unread: self.rx_bytes@.skip(self.rx_off as int),
            next_seq: self.next_seq,
            filters: self.filters@,
        }
    }
}

/// Outcome of a request, by the status of its acknowledgement.
pub open spec fn ack_result(status: u8) -> Result<(), UnixCanError> {
    if status == ACK_OK {
        Ok(())
    } else if status == ACK_NO_ACK {
        Err(UnixCanError::NoAck)
    } else if status == ACK_BAD_FRAME {
        Err(UnixCanError::Protocol("bad frame"))
    } else if status == ACK_SERVER_ERR {
        Err(UnixCanError::Protocol("server error"))
    } else {
        Err(UnixCanError::Protocol("unknown ack status"))
    }
}

/// Outcome of setting filters, by the status of the acknowledgement.
pub open spec fn filters_ack_result(status: u8) -> Result<(), UnixCanError> {
    if status == ACK_OK {
        Ok(())
    } else if status == ACK_SERVER_ERR {
        Err(UnixCanError::Protocol("server error"))
    } else {
        Err(UnixCanError::Protocol("filters ack failed"))
    }
}

/// The first frame in a stream of messages: the result of taking messages until one holds a frame,
/// and the bytes left. `None` where the stream ends before.
pub open spec fn next_frame_is(
    unread: Seq<u8>,
    r: Result<Option<UnixFrame>, UnixCanError>,
    rest: Seq<u8>,
) -> bool
    decreases unread.len(),
{
    match wire::first_msg(unread) {
        wire::FirstMsg::Incomplete => r == Ok::<Option<UnixFrame>, UnixCanError>(None) && rest
            == unread,
        wire::FirstMsg::TooLong => r == Err::<Option<UnixFrame>, UnixCanError>(
            UnixCanError::Protocol("payload exceeds limit"),
        ) && rest == unread,
        wire::FirstMsg::Msg(msg_type, body) => {
            let tail = unread.skip(5 + body.len() as int);
            if msg_type == MSG_FRAME {
                match r {
                    Ok(Some(frame)) => decodes_to(msg_type, body, Ok(DecodedMsg::Frame(frame)))
                        && rest == tail,
                    Err(UnixCanError::Protocol(e)) => decodes_to(msg_type, body, Err(e@)) && rest
                        == unread,
                    _ => false,
                }
            } else if (msg_type == MSG_ACK || msg_type == MSG_FILTERS_ACK) && body.len()
                != wire::ACK_LEN {
                r matches Err(UnixCanError::Protocol(e)) && e@ == wire_ack_error() && rest
                    == unread
            } else if tail.len() < unread.len() {
                next_frame_is(tail, r, rest)
            } else {
                false
            }
        },
    }
}

impl BusClient {
    /// What every client keeps.
    pub closed spec fn wf(&self) -> bool {
        self.rx_off <= self.rx_bytes@.len()
    }

    /// A client that has just connected.
    pub fn new() -> (r: Self)
        ensures
            r.wf(),
            r@.queue.len() == 0,
            r@.unread.len() == 0,
            r@.next_seq == 1,
            r@.filters.len() == 0,
    {
        BusClient {
            rx_queue: VecDeque::new(),
            rx_bytes: Vec::new(),
            rx_off: 0,
            next_seq: 1,
            filters: Vec::new(),
        }
    }

    /// Take in bytes from the server.
    pub fn push_bytes(&mut self, bytes: &[u8])
        requires
            old(self).wf(),
        ensures
            final(self).wf(),
            final(self)@ == (ClientModel { unread: old(self)@.unread + bytes@, ..old(self)@ }),
    {
        let ghost before = self.rx_bytes@;
        let mut i: usize = 0;
        while i < bytes.len()
            invariant
                i <= bytes@.len(),
                self.rx_off == old(self).rx_off,
                self.rx_off <= before.len(),
                self.rx_bytes@ == before + bytes@.take(i as int),
                self.rx_queue == old(self).rx_queue,
                self.next_seq == old(self).next_seq,
                self.filters == old(self).filters,
                before == old(self).rx_bytes@,
            decreases bytes@.len() - i,
        {
            self.rx_bytes.push(bytes[i]);
            i += 1;
            assert(self.rx_bytes@ =~= before + bytes@.take(i as int));
        }
        assert(bytes@.take(i as int) =~= bytes@);
        assert(self@.unread =~= old(self)@.unread + bytes@);
    }

    /// The next message from the server, once it is complete. A malformed one stays where it is.
    pub fn next_decoded_msg(&mut self) -> (r: Result<Option<DecodedMsg>, UnixCanError>)
        requires
            old(self).wf(),
        ensures
            final(self).wf(),
            match wire::first_msg(old(self)@.unread) {
                wire::FirstMsg::Incomplete => r == Ok::<Option<DecodedMsg>, UnixCanError>(None)
                    && final(self)@ == old(self)@,
                wire::FirstMsg::TooLong => r == Err::<Option<DecodedMsg>, UnixCanError>(
                    UnixCanError::Protocol("payload exceeds limit"),
                ) && final(self)@ == old(self)@,
                wire::FirstMsg::Msg(msg_type, body) => match r {
                    Ok(Some(msg)) => decodes_to(msg_type, body, Ok(msg)) && final(self)@ == (
                    ClientModel {
                        unread: old(self)@.unread.skip(5 + body.len() as int),
                        ..old(self)@
                    }) && final(self)@.unread.len() < old(self)@.unread.len(),
                    Err(UnixCanError::Protocol(e)) => decodes_to(msg_type, body, Err(e@))
                        && final(self)@ == old(self)@,
                    _ => false,
                },
            },
    {
        let avail: usize = self.rx_bytes.len() - self.rx_off;
        if avail < 5 {
            return Ok(None);
        }
        let unread = slice_subrange(self.rx_bytes.as_slice(), self.rx_off, self.rx_bytes.len());
        assert(unread@ =~= self@.unread);
        let (msg_type, len): (u8, usize) = match read_header(unread) {
            Ok(h) => h,
            Err(_) => {
                return Err(UnixCanError::Protocol("payload exceeds limit"));
            },
        };
        let total: usize = 5 + len;
        if avail < total {
            return Ok(None);
        }
        let body = slice_subrange(unread, 5, total);
        let msg = match decode_msg(msg_type, body) {
            Ok(msg) => msg,
            Err(e) => {
                return Err(UnixCanError::Protocol(e));
            },
        };
        self.rx_off = self.rx_off + total;
        assert(self@.unread =~= old(self)@.unread.skip(total as int));
        if self.rx_off >= 4096 && self.rx_off >= self.rx_bytes.len() / 2 {
            let rest = self.rx_bytes.split_off(self.rx_off);
            self.rx_bytes = rest;
            self.rx_off = 0;
            assert(self@.unread =~= old(self)@.unread.skip(total as int));
        }
        Ok(Some(msg))
    }

    /// Take messages until one holds a frame; `None` where the bytes end before.
    pub fn next_frame(&mut self) -> (r: Result<Option<UnixFrame>, UnixCanError>)
        requires
            old(self).wf(),
        ensures
            final(self).wf(),
            next_frame_is(old(self)@.unread, r, final(self)@.unread),
            final(self)@ == (ClientModel { unread: final(self)@.unread, ..old(self)@ }),
    {
        loop
            invariant
                self.wf(),
                forall|r: Result<Option<UnixFrame>, UnixCanError>, rest: Seq<u8>|
                    #[trigger] next_frame_is(self@.unread, r, rest) ==> next_frame_is(
                        old(self)@.unread,
                        r,
                        rest,
                    ),
                self@ == (ClientModel { unread: self@.unread, ..old(self)@ }),
            decreases self@.unread.len(),
        {
            let ghost before = self@.unread;
            match self.next_decoded_msg() {
                Ok(Some(DecodedMsg::Frame(frame))) => {
                    let r: Result<Option<UnixFrame>, UnixCanError> = Ok(Some(frame));
                    assert(next_frame_is(before, r, self@.unread));
                    return r;
                },
                Ok(Some(_)) => {
                    assert forall|r: Result<Option<UnixFrame>, UnixCanError>, rest: Seq<u8>|
                        #[trigger] next_frame_is(self@.unread, r, rest) implies next_frame_is(
                        old(self)@.unread,
                        r,
                        rest,
                    ) by {
                        assert(next_frame_is(before, r, rest));
                    }
                },
                Ok(None) => {
                    let r: Result<Option<UnixFrame>, UnixCanError> = Ok(None);
                    assert(next_frame_is(before, r, self@.unread));
                    return r;
                },
                Err(e) => {
                    let r: Result<Option<UnixFrame>, UnixCanError> = Err(e);
                    assert(next_frame_is(before, r, self@.unread));
                    return r;
                },
            }
        }
    }

    /// The oldest frame that was kept while waiting for something else.
    pub fn pop_frame(&mut self) -> (r: Option<UnixFrame>)
        ensures
            match r {
                Some(frame) => old(self)@.queue.len() > 0 && frame == old(self)@.queue[0]
                    && final(self)@ == (ClientModel {
                    queue: old(self)@.queue.skip(1),
                    ..old(self)@
                }),
                None => old(self)@.queue.len() == 0 && final(self)@ == old(self)@,
            },
            old(self).wf() ==> final(self).wf(),
    {
        let r = self.rx_queue.pop_front();
        if r.is_some() {
            assert(self@.queue =~= old(self)@.queue.skip(1));
        }
        r
    }

    /// Whether frames were kept while waiting for something else.
    pub fn has_frames(&self) -> (r: bool)
        ensures
            r == (self@.queue.len() > 0),
    {
        self.rx_queue.len() > 0
    }

    fn keep(&mut self, msg: DecodedMsg)
        ensures
            final(self)@ == old(self)@.kept(msg),
            old(self).wf() ==> final(self).wf(),
    {
        if let DecodedMsg::Frame(frame) = msg {
            self.rx_queue.push_back(frame);
        }
    }

    /// While waiting for the greeting: whether this message is it. Frames are kept.
    pub fn on_hello(&mut self, msg: DecodedMsg) -> (r: bool)
        ensures
            r == (msg is Hello),
            final(self)@ == old(self)@.kept(msg),
            old(self).wf() ==> final(self).wf(),
    {
        self.keep(msg);
        match msg {
            DecodedMsg::Hello => true,
            _ => false,
        }
    }

    /// While waiting for the acknowledgement of request `seq`: the outcome, if this message brings
    /// it. Frames are kept.
    pub fn on_ack(&mut self, seq: u64, msg: DecodedMsg) -> (r: Option<Result<(), UnixCanError>>)
        ensures
            r == (match msg {
                DecodedMsg::Ack { seq: got, status } if got == seq => Some(ack_result(status)),
                _ => None,
            }),
            final(self)@ == old(self)@.kept(msg),
            old(self).wf() ==> final(self).wf(),
    {
        self.keep(msg);
        if let DecodedMsg::Ack { seq: got, status } = msg {
            if got == seq {
                return Some(
                    if status == ACK_OK {
                        Ok(())
                    } else if status == ACK_NO_ACK {
                        Err(UnixCanError::NoAck)
                    } else if status == ACK_BAD_FRAME {
                        Err(UnixCanError::Protocol("bad frame"))
                    } else if status == ACK_SERVER_ERR {
                        Err(UnixCanError::Protocol("server error"))
                    } else {
                        Err(UnixCanError::Protocol("unknown ack status"))
                    },
                );
            }
        }
        None
    }

    /// While waiting for the acknowledgement of filters set by request `seq`: the outcome, if this
    /// message brings it. Frames are kept.
    pub fn on_filters_ack(&mut self, seq: u64, msg: DecodedMsg) -> (r: Option<
        Result<(), UnixCanError>,
    >)
        ensures
            r == (match msg {
                DecodedMsg::FiltersAck { seq: got, status } if got == seq => Some(
                    filters_ack_result(status),
                ),
                _ => None,
            }),
            final(self)@ == old(self)@.kept(msg),
            old(self).wf() ==> final(self).wf(),
    {
        self.keep(msg);
        if let DecodedMsg::FiltersAck { seq: got, status } = msg {
            if got == seq {
                return Some(
                    if status == ACK_OK {
                        Ok(())
                    } else if status == ACK_SERVER_ERR {
                        Err(UnixCanError::Protocol("server error"))
                    } else {
                        Err(UnixCanError::Protocol("filters ack failed"))
                    },
                );
            }
        }
        None
    }

    fn next_seq(&mut self) -> (seq: u64)
        ensures
            seq == old(self)@.next_seq,
            final(self)@ == old(self)@.counted(),
            old(self).wf() ==> final(self).wf(),
    {
        let seq: u64 = self.next_seq;
        self.next_seq = if seq == u64::MAX {
            0
        } else {
            seq + 1
        };
        seq
    }

    /// Request to put a frame on the bus: its number, and the bytes to send.
    pub fn send_frame(&mut self, frame: &UnixFrame, expect_ack: bool) -> (r: (
        u64,
        Result<Vec<u8>, &'static str>,
    ))
        ensures
            r.0 == old(self)@.next_seq,
            r.1 matches Ok(bytes) && bytes@ == wire::message(
                MSG_SEND_FRAME,
                wire::send_frame_bytes(r.0, expect_ack, frame@),
            ),
            final(self)@ == old(self)@.counted(),
            old(self).wf() ==> final(self).wf(),
    {
        let seq: u64 = self.next_seq();
        let mut buf: [u8; 78] = [0u8;78];
        let len: usize = encode_send_frame_into(&mut buf, seq, expect_ack, frame);
        let body = slice_subrange(buf.as_slice(), 0, len);
        proof {
            wire::frame_fields_len(frame@, expect_ack);
            wire::le_bytes_of_seq_len(seq);
            assert(body@ =~= wire::le_bytes(seq as nat, 8) + wire::frame_fields(
                frame@,
                expect_ack,
            ));
        }
        (seq, write_msg(MSG_SEND_FRAME, body))
    }

    /// Request to replace the acceptance filters: its number, and the bytes to send.
    pub fn set_filters(&mut self, filters: &[IdMaskFilter]) -> (r: (
        u64,
        Result<Vec<u8>, &'static str>,
    ))
        ensures
            r.0 == old(self)@.next_seq,
            final(self)@ == (ClientModel { filters: filters@, ..old(self)@.counted() }),
            match r.1 {
                Ok(bytes) => bytes@ == wire::message(
                    MSG_SET_FILTERS,
                    wire::filters_bytes(r.0, filters@),
                ),
                Err(e) => wire::filters_bytes(r.0, filters@).len() > u32::MAX && e@
                    == "payload too large"@,
            },
            old(self).wf() ==> final(self).wf(),
    {
        self.filters = slice_to_vec(filters);
        let seq: u64 = self.next_seq();
        let body = encode_filters(seq, filters);
        (seq, write_msg(MSG_SET_FILTERS, body.as_slice()))
    }

    /// The acceptance filters last set.
    pub fn filters(&self) -> (r: &[IdMaskFilter])
        ensures
            r@ == self@.filters,
    {
        self.filters.as_slice()
    }
}

/// Time to wait in a poll, in milliseconds: forever (`-1`) without a deadline, else what is left of
/// it, unless nothing is.
pub fn remaining_ms(left: Option<Duration>) -> (r: Result<i32, UnixCanError>)
    ensures
        match left {
            None => r matches Ok(ms) && ms == -1,
            Some(d) => if d@ == 0 {
                r == Err::<i32, UnixCanError>(UnixCanError::Timeout)
            } else {
                r matches Ok(ms) && ms == (if d@ / 1_000_000 <= i32::MAX {
                    d@ / 1_000_000
                } else {
                    i32::MAX as nat
                })
            },
        },
{
    match left {
        None => Ok(-1),
        Some(d) => {
            if d.is_zero() {
                return Err(UnixCanError::Timeout);
            }
            let ms: u128 = d.as_millis();
            if ms <= i32::MAX as u128 {
                Ok(ms as i32)
            } else {
                Ok(i32::MAX)
            }
        },
    }
}

/// However a stream of bytes is cut into pieces, the same messages come out of it: a message that is
/// complete stays the first one when more bytes follow.
pub proof fn more_bytes_change_no_message(unread: Seq<u8>, more: Seq<u8>)
    requires
        wire::first_msg(unread) !is Incomplete,
    ensures
        match wire::first_msg(unread) {
            wire::FirstMsg::Msg(msg_type, body) => wire::first_msg(unread + more)
                == wire::FirstMsg::Msg(msg_type, body) && (unread + more).skip(
                5 + body.len() as int,
            ) == unread.skip(5 + body.len() as int) + more,
            other => wire::first_msg(unread + more) == other,
        },
{
    assert((unread + more).subrange(1, 5) =~= unread.subrange(1, 5));
    if let wire::FirstMsg::Msg(_, body) = wire::first_msg(unread) {
        let n = body.len() as int;
        assert((unread + more).subrange(5, 5 + n) =~= unread.subrange(5, 5 + n));
        assert((unread + more).skip(5 + n) =~= unread.skip(5 + n) + more);
    }
}

/// Whether a decoded message says what the server said.
pub open spec fn says(got: DecodedMsg, msg: ServerMsg) -> bool {
    match msg {
        ServerMsg::Frame(frame) => got matches DecodedMsg::Frame(f) && f@ == frame@,
        ServerMsg::Ack { seq, status } => got == (DecodedMsg::Ack { seq, status }),
        ServerMsg::Hello => got is Hello,
        ServerMsg::FiltersAck { seq, status } => got == (DecodedMsg::FiltersAck { seq, status }),
    }
}

/// What the server says is what the client reads: the bytes of a message, with whatever follows
/// them, decode to that message and leave what follows.
pub proof fn server_messages_are_understood(msg: ServerMsg, rest: Seq<u8>)
    requires
        msg matches ServerMsg::Frame(frame) ==> frame@.bytes.len() <= 64 && frame@.id.in_range(),
    ensures
        ({
            let stream = bus::server_msg(msg) + rest;
            &&& wire::first_msg(stream) matches wire::FirstMsg::Msg(msg_type, body)
            &&& stream.skip(5 + body.len() as int) == rest
            &&& forall|r: Result<DecodedMsg, Seq<char>>| #[trigger]
                decodes_to(msg_type, body, r) ==> r is Ok && says(r->Ok_0, msg)
        }),
{
    let (msg_type, body) = match msg {
        ServerMsg::Frame(frame) => (MSG_FRAME, wire::frame_fields(frame@, false)),
        ServerMsg::Ack { seq, status } => (MSG_ACK, wire::ack_bytes(seq, status)),
        ServerMsg::Hello => (MSG_HELLO, Seq::empty()),
        ServerMsg::FiltersAck { seq, status } => (MSG_FILTERS_ACK, wire::ack_bytes(seq, status)),
    };
    match msg {
        ServerMsg::Frame(frame) => {
            wire::frame_fields_len(frame@, false);
            wire::frame_round_trip(frame@, false, "invalid frame payload length"@);
        },
        ServerMsg::Ack { seq, status } => wire::ack_round_trip(seq, status),
        ServerMsg::FiltersAck { seq, status } => wire::ack_round_trip(seq, status),
        ServerMsg::Hello => {},
    }
    wire::message_round_trip(msg_type, body, rest);
    assert((bus::server_msg(msg) + rest).skip(5 + body.len() as int) =~= rest);
}

/// A status of 0 is success. Of a frame, 1 says that no other node saw it, 2 that it was malformed,
/// and 3 that the server failed; of filters, 3 says that the server failed. Anything else is a
/// failure too.
pub proof fn statuses_by_number(status: u8)
    ensures
        ack_result(status) is Ok <==> status == 0,
        ack_result(status) == Err::<(), UnixCanError>(UnixCanError::NoAck) <==> status == 1,
        status == 2 ==> ack_result(status) == Err::<(), UnixCanError>(
            UnixCanError::Protocol("bad frame"),
        ),
        status == 3 ==> ack_result(status) == Err::<(), UnixCanError>(
            UnixCanError::Protocol("server error"),
        ),
        status > 3 ==> ack_result(status) == Err::<(), UnixCanError>(
            UnixCanError::Protocol("unknown ack status"),
        ),
        filters_ack_result(status) is Ok <==> status == 0,
        status == 3 ==> filters_ack_result(status) == Err::<(), UnixCanError>(
            UnixCanError::Protocol("server error"),
        ),
        status != 0 && status != 3 ==> filters_ack_result(status) == Err::<(), UnixCanError>(
            UnixCanError::Protocol("filters ack failed"),
        ),
{
}

/// Messages from the server are numbered: 2 for a frame, 3 and 6 for acknowledgements, 5 for the
/// greeting. A frame or an acknowledgement that is malformed is an error; a message of another
/// number is none.
pub proof fn messages_by_number(msg_type: u8, body: Seq<u8>, r: Result<DecodedMsg, Seq<char>>)
    requires
        decodes_to(msg_type, body, r),
    ensures
        r matches Ok(DecodedMsg::Frame(frame)) ==> msg_type == 2 && wire::frame_in(
            body,
            "invalid frame payload length"@,
        ) == Ok::<crate::unix_frame::UnixFrameView, Seq<char>>(frame@),
        r matches Ok(DecodedMsg::Ack { seq, status }) ==> msg_type == 3 && body.len() == 9 && seq
            == wire::le_value(body.take(8)) && status == body[8],
        r matches Ok(DecodedMsg::FiltersAck { seq, status }) ==> msg_type == 6 && body.len() == 9
            && seq == wire::le_value(body.take(8)) && status == body[8],
        r matches Ok(DecodedMsg::Hello) <==> msg_type == 5,
        r matches Ok(DecodedMsg::Unknown) <==> msg_type < 2 || msg_type == 4 || msg_type > 6,
        r is Err <==> (msg_type == 2 && wire::frame_in(
            body,
            "invalid frame payload length"@,
        ) is Err) || ((msg_type == 3 || msg_type == 6) && body.len() != 9),
{
    if body.len() == 9 {
        wire::number_fits(body.take(8));
    }
}

/// Requests are numbered one after the other, starting over behind the last number.
pub proof fn requests_are_numbered_in_turn(m: ClientModel)
    ensures
        m.next_seq < 0xFFFF_FFFF_FFFF_FFFF ==> m.counted().next_seq == m.next_seq + 1,
        m.next_seq == 0xFFFF_FFFF_FFFF_FFFF ==> m.counted().next_seq == 0,
        m.counted().queue == m.queue && m.counted().unread == m.unread && m.counted().filters
            == m.filters,
{
}

/// A frame that comes while something else is waited for is kept behind those that came before it;
/// other messages are not kept.
pub proof fn frames_are_kept_in_order(m: ClientModel, msg: DecodedMsg)
    ensures
        msg matches DecodedMsg::Frame(frame) ==> {
            &&& m.kept(msg).queue.len() == m.queue.len() + 1
            &&& m.kept(msg).queue.last() == frame
            &&& m.kept(msg).queue.drop_last() == m.queue
        },
        !(msg is Frame) ==> m.kept(msg).queue == m.queue,
        m.kept(msg).unread == m.unread && m.kept(msg).next_seq == m.next_seq && m.kept(msg).filters
            == m.filters,
{
    if let DecodedMsg::Frame(frame) = msg {
        assert(m.queue.push(frame).drop_last() =~= m.queue);
    }
}

/// The next frame is the first one in what the server sent: other messages before it are passed
/// over, what follows it stays, and while no message is complete there is none.
pub proof fn next_frame_is_the_first_sent(
    msg: ServerMsg,
    more: Seq<u8>,
    r: Result<Option<UnixFrame>, UnixCanError>,
    rest: Seq<u8>,
)
    requires
        msg matches ServerMsg::Frame(frame) ==> frame@.bytes.len() <= 64 && frame@.id.in_range(),
    ensures
        !(msg is Frame) ==> (next_frame_is(bus::server_msg(msg) + more, r, rest) <==> next_frame_is(
            more,
            r,
            rest,
        )),
        msg matches ServerMsg::Frame(frame) ==> (next_frame_is(
            bus::server_msg(msg) + more,
            r,
            rest,
        ) <==> rest == more && (r matches Ok(Some(got)) && got@ == frame@)),
        wire::first_msg(more) is Incomplete ==> (next_frame_is(more, r, rest) <==> rest == more
            && r == Ok::<Option<UnixFrame>, UnixCanError>(None)),
{
    let (number, body) = match msg {
        ServerMsg::Frame(frame) => (2u8, wire::frame_fields(frame@, false)),
        ServerMsg::Ack { seq, status } => (3u8, wire::ack_bytes(seq, status)),
        ServerMsg::Hello => (5u8, Seq::empty()),
        ServerMsg::FiltersAck { seq, status } => (6u8, wire::ack_bytes(seq, status)),
    };
    match msg {
        ServerMsg::Frame(frame) => {
            wire::frame_fields_len(frame@, false);
            wire::frame_round_trip(frame@, false, "invalid frame payload length"@);
        },
        ServerMsg::Ack { seq, status } => wire::ack_round_trip(seq, status),
        ServerMsg::FiltersAck { seq, status } => wire::ack_round_trip(seq, status),
        ServerMsg::Hello => {},
    }
    wire::message_round_trip(number, body, more);
    let stream = bus::server_msg(msg) + more;
    assert(stream.skip(5 + body.len() as int) =~= more);
    assert(stream.len() == 5 + body.len() + more.len());
    assert(wire::first_msg(stream) == wire::FirstMsg::Msg(number, body));
}

/// A request is answered by the acknowledgement of its own number, with the outcome that its status
/// says, and by nothing else; frames that come before are kept in order.
pub proof fn requests_are_answered_by_number(
    client: &mut BusClient,
    seq: u64,
    msg: DecodedMsg,
    r: Option<Result<(), UnixCanError>>,
)
    requires
        call_ensures(BusClient::on_ack, (client, seq, msg), r),
    ensures
        r is Some <==> (msg matches DecodedMsg::Ack { seq: got, status } && got == seq),
        msg matches DecodedMsg::Ack { seq: got, status } ==> (got == seq ==> r == Some(
            ack_result(status),
        )),
        final(client)@.queue == (match msg {
            DecodedMsg::Frame(frame) => old(client)@.queue.push(frame),
            _ => old(client)@.queue,
        }),
        final(client)@.unread == old(client)@.unread,
        final(client)@.next_seq == old(client)@.next_seq,
        final(client)@.filters == old(client)@.filters,
{
}

/// Filters are answered by the acknowledgement of their own number in the same way.
pub proof fn filters_are_answered_by_number(
    client: &mut BusClient,
    seq: u64,
    msg: DecodedMsg,
    r: Option<Result<(), UnixCanError>>,
)
    requires
        call_ensures(BusClient::on_filters_ack, (client, seq, msg), r),
    ensures
        r is Some <==> (msg matches DecodedMsg::FiltersAck { seq: got, status } && got == seq),
        msg matches DecodedMsg::FiltersAck { seq: got, status } ==> (got == seq ==> r == Some(
            filters_ack_result(status),
        )),
        final(client)@.queue == (match msg {
            DecodedMsg::Frame(frame) => old(client)@.queue.push(frame),
            _ => old(client)@.queue,
        }),
        final(client)@.unread == old(client)@.unread,
        final(client)@.next_seq == old(client)@.next_seq,
        final(client)@.filters == old(client)@.filters,
{
}

/// The greeting ends the wait for it, and nothing else does; frames that come before are kept.
pub proof fn greeting_is_waited_for(client: &mut BusClient, msg: DecodedMsg, r: bool)
    requires
        call_ensures(BusClient::on_hello, (client, msg), r),
    ensures
        r <==> msg is Hello,
        final(client)@.queue == (match msg {
            DecodedMsg::Frame(frame) => old(client)@.queue.push(frame),
            _ => old(client)@.queue,
        }),
        final(client)@.unread == old(client)@.unread,
{
}

/// A frame to put on the bus is asked for under the next request number, in a message numbered 1 that
/// says whether an answer is wanted; filters are replaced in one numbered 4, and noted.
pub proof fn requests_have_their_number(
    a: &mut BusClient,
    frame: &UnixFrame,
    expect_ack: bool,
    sent: (u64, Result<Vec<u8>, &'static str>),
    b: &mut BusClient,
    filters: &[IdMaskFilter],
    set: (u64, Result<Vec<u8>, &'static str>),
)
    requires
        call_ensures(BusClient::send_frame, (a, frame, expect_ack), sent),
        call_ensures(BusClient::set_filters, (b, filters), set),
    ensures
        sent.0 == old(a)@.next_seq && final(a)@ == old(a)@.counted(),
        sent.1 matches Ok(bytes) && bytes@[0] == 1 && bytes@.skip(5) == wire::le_bytes(
            sent.0 as nat,
            8,
        ) + wire::frame_fields(frame@, expect_ack),
        set.0 == old(b)@.next_seq && final(b)@.next_seq == old(b)@.counted().next_seq,
        final(b)@.filters == filters@,
        set.1 matches Ok(bytes) ==> bytes@[0] == 4 && bytes@.skip(5) == wire::filters_bytes(
            set.0,
            filters@,
        ),
        final(b)@.queue == old(b)@.queue && final(b)@.unread == old(b)@.unread,
{
    wire::message_has_its_payload(1, wire::send_frame_bytes(sent.0, expect_ack, frame@));
    wire::message_has_its_payload(4, wire::filters_bytes(set.0, filters@));
}

/// Frames that were kept are given out in the order in which they came.
pub proof fn kept_frames_come_out_in_order(client: &mut BusClient, r: Option<UnixFrame>)
    requires
        call_ensures(BusClient::pop_frame, (client,), r),
    ensures
        r is Some <==> old(client)@.queue.len() > 0,
        r matches Some(frame) ==> frame == old(client)@.queue[0] && final(client)@.queue
            == old(client)@.queue.skip(1),
        r is None ==> final(client)@ == old(client)@,
        final(client)@.unread == old(client)@.unread,
{
}

/// Without a deadline a poll waits forever; with one it waits for what is left, in whole
/// milliseconds; and once nothing is left the wait timed out.
pub proof fn polls_wait_for_what_is_left(left: Option<Duration>, r: Result<i32, UnixCanError>)
    requires
        call_ensures(remaining_ms, (left,), r),
    ensures
        left is None ==> (r matches Ok(ms) && ms == -1),
        left matches Some(d) ==> (r is Err <==> d@ == 0),
        left matches Some(d) ==> (r matches Ok(ms) ==> 0 <= ms && ms * 1_000_000 <= d@ && (d@ < ms
            * 1_000_000 + 1_000_000 || ms == 0x7FFF_FFFF)),
        r matches Err(e) ==> e is Timeout,
{
}

/// A message that cannot be read is an error and stays where it is: one that is too long, a frame
/// that is malformed, an acknowledgement of another length.
pub proof fn unreadable_messages_stay(
    unread: Seq<u8>,
    r: Result<Option<UnixFrame>, UnixCanError>,
    rest: Seq<u8>,
)
    requires
        next_frame_is(unread, r, rest),
        match wire::first_msg(unread) {
            wire::FirstMsg::TooLong => true,
            wire::FirstMsg::Incomplete => false,
            wire::FirstMsg::Msg(msg_type, body) => (msg_type == 2 && wire::frame_in(
                body,
                "invalid frame payload length"@,
            ) is Err) || ((msg_type == 3 || msg_type == 6) && body.len() != 9),
        },
    ensures
        r matches Err(UnixCanError::Protocol(_)),
        rest == unread,
{
}

} // verus!
