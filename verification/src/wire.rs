//! Wire format of the Unix-domain CAN bus.
//!
//! A message is one byte of type, four bytes of payload length, and the payload. Numbers are
//! little-endian.

use crate::id;
use crate::id::{ExtendedId, Id, IdMask, IdMaskFilter, StandardId};
use crate::rx;
use crate::unix_frame;
use crate::unix_frame::UnixFrame;
use vstd::prelude::*;
use vstd::slice::slice_subrange;

verus! {

/// Client to server: a frame to put on the bus.
pub const MSG_SEND_FRAME: u8 = 1;

/// Server to client: a frame from the bus.
pub const MSG_FRAME: u8 = 2;

/// Server to client: what became of a frame.
pub const MSG_ACK: u8 = 3;

/// Client to server: acceptance filters.
pub const MSG_SET_FILTERS: u8 = 4;

/// Server to client: greeting.
pub const MSG_HELLO: u8 = 5;

/// Server to client: what became of acceptance filters.
pub const MSG_FILTERS_ACK: u8 = 6;

/// Another node saw the frame.
pub const ACK_OK: u8 = 0;

/// No other node saw the frame.
pub const ACK_NO_ACK: u8 = 1;

/// The frame was malformed.
pub const ACK_BAD_FRAME: u8 = 2;

/// The server could not do it.
pub const ACK_SERVER_ERR: u8 = 3;

/// Longest payload that is accepted.
pub const MAX_PAYLOAD_LEN: usize = 4096;

/// Most data bytes in a frame.
pub const MAX_DATA_LEN: usize = 64;

/// Bytes before the data in a frame to put on the bus.
pub const SEND_FRAME_HDR_LEN: usize = 14;

/// Bytes before the data in a frame from the bus.
pub const FRAME_HDR_LEN: usize = 6;

/// Length of an acknowledgement.
pub const ACK_LEN: usize = 9;

/// The `n` low bytes of a number, lowest first.
pub open spec fn le_bytes(x: nat, n: nat) -> Seq<u8>
    decreases n,
{
    if n == 0 {
        Seq::empty()
    } else {
        seq![(x % 256) as u8] + le_bytes(x / 256, (n - 1) as nat)
    }
}

/// The number whose bytes these are, lowest first.
pub open spec fn le_value(s: Seq<u8>) -> nat
    decreases s.len(),
{
    if s.len() == 0 {
        0
    } else {
        s[0] as nat + 256 * le_value(s.skip(1))
    }
}

/// One more than the largest number of `n` bytes.
pub open spec fn byte_range(n: nat) -> nat
    decreases n,
{
    if n == 0 {
        1
    } else {
        256 * byte_range((n - 1) as nat)
    }
}

proof fn byte_ranges()
    ensures
        byte_range(2) == 0x1_0000,
        byte_range(4) == 0x1_0000_0000,
        byte_range(8) == 0x1_0000_0000_0000_0000,
{
    reveal_with_fuel(byte_range, 9);
}

proof fn byte_range_grows(m: nat, n: nat)
    requires
        m <= n,
    ensures
        byte_range(m) <= byte_range(n),
        byte_range(m) >= 1,
    decreases n,
{
    if m < n {
        byte_range_grows(m, (n - 1) as nat);
    } else if m > 0 {
        byte_range_grows((m - 1) as nat, (n - 1) as nat);
    }
}

proof fn le_bytes_len(x: nat, n: nat)
    ensures
        le_bytes(x, n).len() == n,
    decreases n,
{
    if n > 0 {
        le_bytes_len(x / 256, (n - 1) as nat);
    }
}

/// Length of a request number on the wire.
pub proof fn le_bytes_of_seq_len(seq: u64)
    ensures
        le_bytes(seq as nat, 8).len() == 8,
{
    le_bytes_len(seq as nat, 8);
}

proof fn le_value_bound(s: Seq<u8>)
    ensures
        le_value(s) < byte_range(s.len()),
    decreases s.len(),
{
    if s.len() > 0 {
        le_value_bound(s.skip(1));
    }
}

/// A number that fits in `n` bytes is the value of its `n` low bytes.
pub proof fn le_round_trip(x: nat, n: nat)
    requires
        x < byte_range(n),
    ensures
        le_bytes(x, n).len() == n,
        le_value(le_bytes(x, n)) == x,
    decreases n,
{
    le_bytes_len(x, n);
    if n > 0 {
        le_round_trip(x / 256, (n - 1) as nat);
        assert(le_bytes(x, n).skip(1) =~= le_bytes(x / 256, (n - 1) as nat));
    }
}

/// Append the `n` low bytes of a number.
fn push_le(out: &mut Vec<u8>, x: u64, n: usize)
    ensures
        final(out)@ == old(out)@ + le_bytes(x as nat, n as nat),
{
    let mut rest: u64 = x;
    let mut i: usize = 0;
    assert(out@ + le_bytes(x as nat, n as nat) =~= old(out)@ + le_bytes(x as nat, n as nat));
    while i < n
        invariant
            i <= n,
            out@ + le_bytes(rest as nat, (n - i) as nat) == old(out)@ + le_bytes(
                x as nat,
                n as nat,
            ),
        decreases n - i,
    {
        let ghost before = out@;
        let ghost value = rest as nat;
        out.push((rest % 256) as u8);
        rest = rest / 256;
        i += 1;
        assert(out@ + le_bytes(rest as nat, (n - i) as nat) =~= before + (seq![
            (value % 256) as u8,
        ] + le_bytes(value / 256, (n - i) as nat)));
    }
    assert(out@ + le_bytes(rest as nat, 0) =~= out@);
}

/// The number whose bytes stand at `at`.
fn read_le(s: &[u8], at: usize, n: usize) -> (r: u64)
    requires
        at + n <= s@.len(),
        n <= 8,
    ensures
        r == le_value(s@.subrange(at as int, at + n)),
        r < byte_range(n as nat),
{
    let total: usize = s.len();
    let mut acc: u64 = 0;
    let mut i: usize = n;
    assert(s@.subrange(at + n, at + n) =~= Seq::empty());
    while i > 0
        invariant
            i <= n <= 8,
            at + n <= s@.len() == total,
            acc == le_value(s@.subrange(at + i, at + n)),
        decreases i,
    {
        let ghost part = s@.subrange(at + i, at + n);
        let ghost more = s@.subrange(at + i - 1, at + n);
        proof {
            assert(more.skip(1) =~= part);
            le_value_bound(more);
            byte_range_grows(more.len(), 8);
            byte_ranges();
        }
        i -= 1;
        acc = s[at + i] as u64 + 256 * acc;
    }
    proof {
        le_value_bound(s@.subrange(at as int, at + n));
    }
    acc
}

/// A message: type, payload length, payload.
pub open spec fn message(msg_type: u8, payload: Seq<u8>) -> Seq<u8> {
    seq![msg_type] + le_bytes(payload.len(), 4) + payload
}

/// Build a message.
pub fn write_msg(msg_type: u8, payload: &[u8]) -> (r: Result<Vec<u8>, &'static str>)
    ensures
        match r {
            Ok(bytes) => payload@.len() <= u32::MAX && bytes@ == message(msg_type, payload@),
            Err(e) => payload@.len() > u32::MAX && e@ == "payload too large"@,
        },
{
    let len: usize = payload.len();
    if len > u32::MAX as usize {
        return Err("payload too large");
    }
    let mut out: Vec<u8> = Vec::new();
    out.push(msg_type);
    push_le(&mut out, len as u64, 4);
    let mut i: usize = 0;
    let ghost head = out@;
    while i < len
        invariant
            i <= len == payload@.len(),
            out@ == head + payload@.take(i as int),
        decreases len - i,
    {
        out.push(payload[i]);
        i += 1;
        assert(out@ =~= head + payload@.take(i as int));
    }
    assert(out@ =~= message(msg_type, payload@));
    Ok(out)
}

/// Type and payload length in the first five bytes of a message; the length is refused where it
/// exceeds the limit.
pub open spec fn header(bytes: Seq<u8>) -> Option<(u8, nat)> {
    let len = le_value(bytes.subrange(1, 5));
    if len > MAX_PAYLOAD_LEN {
        None
    } else {
        Some((bytes[0], len))
    }
}

/// Read type and payload length from the first five bytes of a message.
pub fn read_header(bytes: &[u8]) -> (r: Result<(u8, usize), &'static str>)
    requires
        bytes@.len() >= 5,
    ensures
        match r {
            Ok((msg_type, len)) => header(bytes@) == Some((msg_type, len as nat)),
            Err(e) => header(bytes@) is None && e@ == "payload exceeds limit"@,
        },
{
    let len: u64 = read_le(bytes, 1, 4);
    if len > MAX_PAYLOAD_LEN as u64 {
        return Err("payload exceeds limit");
    }
    Ok((bytes[0], len as usize))
}

/// The first message in a stream of bytes.
pub enum FirstMsg {
    /// The message is not complete yet.
    Incomplete,
    /// The message is longer than allowed.
    TooLong,
    /// A message of this type, with this payload.
    Msg(u8, Seq<u8>),
}

/// The first message in a stream of bytes.
pub open spec fn first_msg(bytes: Seq<u8>) -> FirstMsg {
    if bytes.len() < 5 {
        FirstMsg::Incomplete
    } else {
        match header(bytes) {
            None => FirstMsg::TooLong,
            Some((msg_type, len)) => if bytes.len() < 5 + len {
                FirstMsg::Incomplete
            } else {
                FirstMsg::Msg(msg_type, bytes.subrange(5, 5 + len as int))
            },
        }
    }
}

/// Read the first message of a stream of bytes into `payload`: its type, or `None` while it is not
/// complete.
pub fn read_msg_into(bytes: &[u8], payload: &mut Vec<u8>) -> (r: Result<Option<u8>, &'static str>)
    ensures
        match first_msg(bytes@) {
            FirstMsg::Incomplete => r == Ok::<Option<u8>, &'static str>(None) && final(payload)@
                == old(payload)@,
            FirstMsg::TooLong => r matches Err(e) && e@ == "payload exceeds limit"@
                && final(payload)@ == old(payload)@,
            FirstMsg::Msg(msg_type, body) => r == Ok::<Option<u8>, &'static str>(Some(msg_type))
                && final(payload)@ == body,
        },
{
    if bytes.len() < 5 {
        return Ok(None);
    }
    let (msg_type, len): (u8, usize) = match read_header(bytes) {
        Ok(h) => h,
        Err(e) => {
            return Err(e);
        },
    };
    if bytes.len() < 5 + len {
        return Ok(None);
    }
    payload.clear();
    let mut i: usize = 0;
    while i < len
        invariant
            i <= len <= MAX_PAYLOAD_LEN,
            5 + len <= bytes@.len(),
            payload@ == bytes@.subrange(5, 5 + i as int),
        decreases len - i,
    {
        payload.push(bytes[5 + i]);
        i += 1;
        assert(payload@ =~= bytes@.subrange(5, 5 + i as int));
    }
    Ok(Some(msg_type))
}

/// A message that is not too long is the first message of any stream that begins with it.
pub proof fn message_round_trip(msg_type: u8, payload: Seq<u8>, rest: Seq<u8>)
    requires
        payload.len() <= MAX_PAYLOAD_LEN,
    ensures
        message(msg_type, payload).len() == 5 + payload.len(),
        first_msg(message(msg_type, payload) + rest) == FirstMsg::Msg(msg_type, payload),
{
    byte_ranges();
    le_round_trip(payload.len(), 4);
    let bytes = message(msg_type, payload) + rest;
    assert(bytes.subrange(1, 5) =~= le_bytes(payload.len(), 4));
    assert(bytes.subrange(5, 5 + payload.len() as int) =~= payload);
}

/// No message is complete before its last byte arrived.
pub proof fn message_prefix_is_incomplete(msg_type: u8, payload: Seq<u8>, n: int)
    requires
        payload.len() <= MAX_PAYLOAD_LEN,
        0 <= n < message(msg_type, payload).len(),
    ensures
        first_msg(message(msg_type, payload).take(n)) is Incomplete,
{
    byte_ranges();
    le_round_trip(payload.len(), 4);
    let bytes = message(msg_type, payload).take(n);
    if n >= 5 {
        assert(bytes.subrange(1, 5) =~= le_bytes(payload.len(), 4));
    }
}

/// A request to put a frame on the bus.
#[derive(Debug, Clone, Copy)]
pub struct SendFrame {
    /// Number by which the acknowledgement refers to the request.
    pub seq: u64,
    /// Whether an acknowledgement is asked for.
    pub expect_ack: bool,
    /// The frame.
    pub frame: UnixFrame,
}

/// Flag byte: 1 for a remote frame, 2 for a 29-bit identifier, 4 for an acknowledgement asked for.
pub open spec fn flags(remote: bool, extended: bool, expect_ack: bool) -> u8 {
    ((if remote {
        1int
    } else {
        0
    }) + (if extended {
        2int
    } else {
        0
    }) + (if expect_ack {
        4int
    } else {
        0
    })) as u8
}

/// Fields of a frame behind its flags.
pub open spec fn frame_fields(frame: unix_frame::UnixFrameView, expect_ack: bool) -> Seq<u8> {
    seq![flags(frame.remote, frame.id.extended(), expect_ack)] + le_bytes(
        frame.id.raw() as nat,
        4,
    ) + seq![frame.bytes.len() as u8] + frame.bytes
}

/// Length of the fields of a frame.
pub proof fn frame_fields_len(frame: unix_frame::UnixFrameView, expect_ack: bool)
    ensures
        frame_fields(frame, expect_ack).len() == FRAME_HDR_LEN + frame.bytes.len(),
{
    le_bytes_len(frame.id.raw() as nat, 4);
}

fn frame_flags(frame: &UnixFrame, expect_ack: bool) -> (r: u8)
    ensures
        r == flags(frame@.remote, frame@.id.extended(), expect_ack),
{
    let remote: u8 = if frame.is_remote() {
        1
    } else {
        0
    };
    let extended: u8 = if frame.is_extended() {
        2
    } else {
        0
    };
    let ack: u8 = if expect_ack {
        4
    } else {
        0
    };
    remote + extended + ack
}

fn frame_id_raw(id: Id) -> (r: u32)
    ensures
        r == id.raw(),
{
    match id {
        Id::Standard(id) => id.as_raw() as u32,
        Id::Extended(id) => id.as_raw(),
    }
}

fn push_frame(out: &mut Vec<u8>, frame: &UnixFrame, expect_ack: bool)
    ensures
        final(out)@ == old(out)@ + frame_fields(frame@, expect_ack),
        frame@.bytes.len() <= 64,
{
    out.push(frame_flags(frame, expect_ack));
    push_le(out, frame_id_raw(frame.id()) as u64, 4);
    out.push(frame.dlc_u8());
    let data = frame.data_bytes();
    let n: usize = frame.dlc();
    let ghost head = out@;
    let mut i: usize = 0;
    while i < n
        invariant
            i <= n == data@.len(),
            out@ == head + data@.take(i as int),
        decreases n - i,
    {
        out.push(data[i]);
        i += 1;
        assert(out@ =~= head + data@.take(i as int));
    }
    assert(out@ =~= old(out)@ + frame_fields(frame@, expect_ack));
}

/// Write a request to put a frame on the bus to the front of `out`; the number of bytes written.
pub fn encode_send_frame_into(out: &mut [u8; 78], seq: u64, expect_ack: bool, frame: &UnixFrame) -> (r:
    usize)
    ensures
        r == SEND_FRAME_HDR_LEN + frame@.bytes.len(),
        r <= 78,
        final(out)@ == rx::overwritten(
            old(out)@,
            0,
            le_bytes(seq as nat, 8) + frame_fields(frame@, expect_ack),
        ),
{
    let mut bytes: Vec<u8> = Vec::new();
    push_le(&mut bytes, seq, 8);
    push_frame(&mut bytes, frame, expect_ack);
    proof {
        le_bytes_len(seq as nat, 8);
        le_bytes_len(frame@.id.raw() as nat, 4);
        assert(bytes@ =~= le_bytes(seq as nat, 8) + frame_fields(frame@, expect_ack));
        assert(bytes@.take(bytes@.len() as int) =~= bytes@);
    }
    let n: usize = bytes.len();
    rx::write_at(out, 0, bytes.as_slice(), n);
    n
}

/// Write a frame from the bus to the front of `out`; the number of bytes written.
pub fn encode_frame_into(out: &mut [u8; 70], frame: &UnixFrame) -> (r: usize)
    ensures
        r == FRAME_HDR_LEN + frame@.bytes.len(),
        r <= 70,
        final(out)@ == rx::overwritten(old(out)@, 0, frame_fields(frame@, false)),
{
    let mut bytes: Vec<u8> = Vec::new();
    push_frame(&mut bytes, frame, false);
    proof {
        le_bytes_len(frame@.id.raw() as nat, 4);
        assert(bytes@ =~= frame_fields(frame@, false));
        assert(bytes@.take(bytes@.len() as int) =~= bytes@);
    }
    let n: usize = bytes.len();
    rx::write_at(out, 0, bytes.as_slice(), n);
    n
}

/// The identifier with this flag and number. Of the number of an 11-bit identifier the low 16 bits
/// count.
pub open spec fn id_from(flags: u8, raw: nat) -> Result<Id, Seq<char>> {
    if flags / 2 % 2 == 1 {
        if raw > id::EXT_ID_MAX {
            Err("invalid extended id"@)
        } else {
            Ok(id::ext_id(raw as u32))
        }
    } else if raw % 0x1_0000 > id::STD_ID_MAX {
        Err("invalid standard id"@)
    } else {
        Ok(id::std_id((raw % 0x1_0000) as u16))
    }
}

fn decode_id(flags: u8, raw: u32) -> (r: Result<Id, &'static str>)
    ensures
        match r {
            Ok(id) => id_from(flags, raw as nat) == Ok::<Id, Seq<char>>(id),
            Err(e) => id_from(flags, raw as nat) == Err::<Id, Seq<char>>(e@),
        },
{
    if flags / 2 % 2 == 1 {
        match ExtendedId::new(raw) {
            Some(ext) => {
                proof {
                    id::ext_id_has_its_number(raw);
                    id::equal_raw_ids_are_equal(Id::Extended(ext), id::ext_id(raw));
                }
                Ok(Id::Extended(ext))
            },
            None => Err("invalid extended id"),
        }
    } else {
        let low: u16 = (raw % 0x1_0000) as u16;
        match StandardId::new(low) {
            Some(short) => {
                proof {
                    id::std_id_has_its_number(low);
                    id::equal_raw_ids_are_equal(Id::Standard(short), id::std_id(low));
                }
                Ok(Id::Standard(short))
            },
            None => Err("invalid standard id"),
        }
    }
}

/// The frame in these fields; `wrong_length` is the error for fields that are too short or too
/// long.
pub open spec fn frame_in(fields: Seq<u8>, wrong_length: Seq<char>) -> Result<
    unix_frame::UnixFrameView,
    Seq<char>,
> {
    if fields.len() < 6 {
        Err(wrong_length)
    } else if fields[5] > 64 {
        Err("invalid dlc"@)
    } else if fields.len() != 6 + fields[5] {
        Err(wrong_length)
    } else {
        match id_from(fields[0], le_value(fields.subrange(1, 5))) {
            Err(e) => Err(e),
            Ok(id) => Ok(
                unix_frame::UnixFrameView {
                    id,
                    remote: fields[0] % 2 == 1,
                    bytes: fields.skip(6),
                },
            ),
        }
    }
}

fn decode_fields(fields: &[u8], wrong_length: &'static str) -> (r: Result<
    UnixFrame,
    &'static str,
>)
    ensures
        match r {
            Ok(frame) => frame_in(fields@, wrong_length@) == Ok::<
                unix_frame::UnixFrameView,
                Seq<char>,
            >(frame@),
            Err(e) => frame_in(fields@, wrong_length@) == Err::<
                unix_frame::UnixFrameView,
                Seq<char>,
            >(e@),
        },
{
    if fields.len() < 6 {
        return Err(wrong_length);
    }
    let dlc: u8 = fields[5];
    if dlc > 64 {
        return Err("invalid dlc");
    }
    if fields.len() != 6 + dlc as usize {
        return Err(wrong_length);
    }
    let raw: u64 = read_le(fields, 1, 4);
    proof {
        byte_ranges();
    }
    let id = match decode_id(fields[0], raw as u32) {
        Ok(id) => id,
        Err(e) => {
            return Err(e);
        },
    };
    let bytes = slice_subrange(fields, 6, fields.len());
    match UnixFrame::from_parts(id, bytes, fields[0] % 2 == 1) {
        Some(frame) => Ok(frame),
        None => Err("invalid frame"),
    }
}

/// Decode a request to put a frame on the bus.
pub fn decode_send_frame(payload: &[u8]) -> (r: Result<SendFrame, &'static str>)
    ensures
        match r {
            Ok(send) => {
                &&& payload@.len() >= 14
                &&& send.seq == le_value(payload@.take(8))
                &&& send.expect_ack == (payload@[8] / 4 % 2 == 1)
                &&& frame_in(payload@.skip(8), "invalid send frame payload length"@) == Ok::<
                    unix_frame::UnixFrameView,
                    Seq<char>,
                >(send.frame@)
            },
            Err(e) => if payload@.len() < 14 {
                e@ == "invalid send frame payload length"@
            } else {
                frame_in(payload@.skip(8), "invalid send frame payload length"@) == Err::<
                    unix_frame::UnixFrameView,
                    Seq<char>,
                >(e@)
            },
        },
{
    if payload.len() < SEND_FRAME_HDR_LEN {
        return Err("invalid send frame payload length");
    }
    let seq: u64 = read_le(payload, 0, 8);
    assert(payload@.subrange(0, 8) =~= payload@.take(8));
    let fields = slice_subrange(payload, 8, payload.len());
    assert(fields@ =~= payload@.skip(8));
    match decode_fields(fields, "invalid send frame payload length") {
        Ok(frame) => Ok(SendFrame { seq, expect_ack: payload[8] / 4 % 2 == 1, frame }),
        Err(e) => Err(e),
    }
}

/// Decode a frame from the bus.
pub fn decode_frame(payload: &[u8]) -> (r: Result<UnixFrame, &'static str>)
    ensures
        match r {
            Ok(frame) => frame_in(payload@, "invalid frame payload length"@) == Ok::<
                unix_frame::UnixFrameView,
                Seq<char>,
            >(frame@),
            Err(e) => frame_in(payload@, "invalid frame payload length"@) == Err::<
                unix_frame::UnixFrameView,
                Seq<char>,
            >(e@),
        },
{
    decode_fields(payload, "invalid frame payload length")
}

/// A frame survives its encoding.
pub proof fn frame_round_trip(
    frame: unix_frame::UnixFrameView,
    expect_ack: bool,
    wrong_length: Seq<char>,
)
    requires
        frame.bytes.len() <= 64,
        frame.id.in_range(),
    ensures
        frame_in(frame_fields(frame, expect_ack), wrong_length) == Ok::<
            unix_frame::UnixFrameView,
            Seq<char>,
        >(frame),
        frame_fields(frame, expect_ack)[0] / 4 % 2 == 1 <==> expect_ack,
{
    byte_ranges();
    le_round_trip(frame.id.raw() as nat, 4);
    let fields = frame_fields(frame, expect_ack);
    assert(fields.subrange(1, 5) =~= le_bytes(frame.id.raw() as nat, 4));
    assert(fields.skip(6) =~= frame.bytes);
    if frame.id is Extended {
        id::ext_id_has_its_number(frame.id.raw());
        id::equal_raw_ids_are_equal(frame.id, id::ext_id(frame.id.raw()));
    } else {
        id::std_id_has_its_number(frame.id.raw() as u16);
        id::equal_raw_ids_are_equal(frame.id, id::std_id(frame.id.raw() as u16));
    }
}

/// The payload of a request to put a frame on the bus.
pub open spec fn send_frame_bytes(
    seq: u64,
    expect_ack: bool,
    frame: unix_frame::UnixFrameView,
) -> Seq<u8> {
    le_bytes(seq as nat, 8) + frame_fields(frame, expect_ack)
}

/// A request to put a frame on the bus survives its encoding.
pub proof fn send_frame_round_trip(
    seq: u64,
    expect_ack: bool,
    frame: unix_frame::UnixFrameView,
    wrong_length: Seq<char>,
)
    requires
        frame.bytes.len() <= 64,
        frame.id.in_range(),
    ensures
        ({
            let payload = send_frame_bytes(seq, expect_ack, frame);
            &&& payload.len() == SEND_FRAME_HDR_LEN + frame.bytes.len()
            &&& le_value(payload.take(8)) == seq
            &&& payload[8] / 4 % 2 == 1 <==> expect_ack
            &&& frame_in(payload.skip(8), wrong_length) == Ok::<
                unix_frame::UnixFrameView,
                Seq<char>,
            >(frame)
        }),
{
    byte_ranges();
    le_round_trip(seq as nat, 8);
    frame_fields_len(frame, expect_ack);
    frame_round_trip(frame, expect_ack, wrong_length);
    let payload = send_frame_bytes(seq, expect_ack, frame);
    assert(payload.take(8) =~= le_bytes(seq as nat, 8));
    assert(payload.skip(8) =~= frame_fields(frame, expect_ack));
    assert(payload[8] == frame_fields(frame, expect_ack)[0]);
}

/// An acknowledgement: the number of the request, then a status.
pub open spec fn ack_bytes(seq: u64, status: u8) -> Seq<u8> {
    le_bytes(seq as nat, 8).push(status)
}

/// Write an acknowledgement.
pub fn encode_ack_into(out: &mut [u8; 9], seq: u64, status: u8)
    ensures
        final(out)@ == ack_bytes(seq, status),
{
    let mut bytes: Vec<u8> = Vec::new();
    push_le(&mut bytes, seq, 8);
    bytes.push(status);
    proof {
        le_bytes_len(seq as nat, 8);
        assert(bytes@ =~= ack_bytes(seq, status));
        assert(bytes@.take(9) =~= bytes@);
    }
    rx::write_at(out, 0, bytes.as_slice(), 9);
    assert(out@ =~= ack_bytes(seq, status));
}

/// Decode an acknowledgement.
pub fn decode_ack(payload: &[u8]) -> (r: Result<(u64, u8), &'static str>)
    ensures
        match r {
            Ok((seq, status)) => payload@.len() == ACK_LEN && seq == le_value(payload@.take(8))
                && status == payload@[8],
            Err(e) => payload@.len() != ACK_LEN && e@ == "invalid ack payload length"@,
        },
{
    if payload.len() != ACK_LEN {
        return Err("invalid ack payload length");
    }
    let seq: u64 = read_le(payload, 0, 8);
    assert(payload@.subrange(0, 8) =~= payload@.take(8));
    Ok((seq, payload[8]))
}

/// An acknowledgement survives its encoding.
pub proof fn ack_round_trip(seq: u64, status: u8)
    ensures
        ack_bytes(seq, status).len() == ACK_LEN,
        le_value(ack_bytes(seq, status).take(8)) == seq,
        ack_bytes(seq, status)[8] == status,
{
    byte_ranges();
    le_round_trip(seq as nat, 8);
    assert(ack_bytes(seq, status).take(8) =~= le_bytes(seq as nat, 8));
}

/// One acceptance filter: width flag, identifier, mask. A mask of the other width is dropped.
pub open spec fn filter_fields(filter: IdMaskFilter) -> Seq<u8> {
    let mask = match (filter.id, filter.mask) {
        (Id::Standard(_), IdMask::Standard(mask)) => mask as nat,
        (Id::Extended(_), IdMask::Extended(mask)) => mask as nat,
        _ => 0,
    };
    seq![flags(false, filter.id.extended(), false)] + le_bytes(filter.id.raw() as nat, 4)
        + le_bytes(mask, 4)
}

/// Acceptance filters one after the other.
pub open spec fn all_filter_fields(filters: Seq<IdMaskFilter>) -> Seq<u8>
    decreases filters.len(),
{
    if filters.len() == 0 {
        Seq::empty()
    } else {
        all_filter_fields(filters.drop_last()) + filter_fields(filters.last())
    }
}

/// A request to replace the acceptance filters: its number, the number of filters (two bytes), and
/// the filters.
pub open spec fn filters_bytes(seq: u64, filters: Seq<IdMaskFilter>) -> Seq<u8> {
    le_bytes(seq as nat, 8) + le_bytes(filters.len() % 0x1_0000, 2) + all_filter_fields(filters)
}

/// Encode a request to replace the acceptance filters.
pub fn encode_filters(seq: u64, filters: &[IdMaskFilter]) -> (r: Vec<u8>)
    ensures
        r@ == filters_bytes(seq, filters@),
{
    let mut out: Vec<u8> = Vec::new();
    push_le(&mut out, seq, 8);
    push_le(&mut out, (filters.len() % 0x1_0000) as u64, 2);
    let ghost head = out@;
    assert(out@ =~= head + all_filter_fields(filters@.take(0)));
    let mut i: usize = 0;
    while i < filters.len()
        invariant
            i <= filters@.len(),
            out@ == head + all_filter_fields(filters@.take(i as int)),
        decreases filters@.len() - i,
    {
        let filter = filters[i];
        let (flag, raw, mask): (u8, u32, u32) = match filter.id {
            Id::Standard(id) => match filter.mask {
                IdMask::Standard(mask) => (0u8, id.as_raw() as u32, mask as u32),
                IdMask::Extended(_) => (0u8, id.as_raw() as u32, 0u32),
            },
            Id::Extended(id) => match filter.mask {
                IdMask::Extended(mask) => (2u8, id.as_raw(), mask),
                IdMask::Standard(_) => (2u8, id.as_raw(), 0u32),
            },
        };
        let ghost before = out@;
        out.push(flag);
        push_le(&mut out, raw as u64, 4);
        push_le(&mut out, mask as u64, 4);
        proof {
            assert(out@ =~= before + filter_fields(filter));
            assert(filters@.take(i + 1).drop_last() =~= filters@.take(i as int));
            assert(out@ =~= head + all_filter_fields(filters@.take(i + 1)));
        }
        i += 1;
    }
    assert(filters@.take(i as int) =~= filters@);
    assert(out@ =~= filters_bytes(seq, filters@));
    out
}

/// The acceptance filter in nine bytes. Of the mask of an 11-bit identifier the low 16 bits count.
pub open spec fn filter_in(fields: Seq<u8>) -> Result<IdMaskFilter, Seq<char>> {
    let mask = le_value(fields.subrange(5, 9));
    match id_from(fields[0], le_value(fields.subrange(1, 5))) {
        Err(e) => Err(e),
        Ok(id) => Ok(
            IdMaskFilter {
                id,
                mask: if fields[0] / 2 % 2 == 1 {
                    IdMask::Extended(mask as u32)
                } else {
                    IdMask::Standard((mask % 0x1_0000) as u16)
                },
            },
        ),
    }
}

/// The first `n` acceptance filters in these bytes, or the error of the first one that is
/// malformed.
pub open spec fn filters_in(fields: Seq<u8>, n: nat) -> Result<Seq<IdMaskFilter>, Seq<char>>
    decreases n,
{
    if n == 0 {
        Ok(Seq::empty())
    } else {
        match filters_in(fields, (n - 1) as nat) {
            Err(e) => Err(e),
            Ok(filters) => match filter_in(fields.subrange(9 * (n - 1), 9 * (n as int))) {
                Err(e) => Err(e),
                Ok(filter) => Ok(filters.push(filter)),
            },
        }
    }
}

proof fn filters_error_stays(fields: Seq<u8>, m: nat, n: nat)
    requires
        m <= n,
        filters_in(fields, m) is Err,
    ensures
        filters_in(fields, n) == filters_in(fields, m),
    decreases n - m,
{
    if m < n {
        filters_error_stays(fields, m, (n - 1) as nat);
    }
}

/// The number of filters that a request announces.
pub open spec fn announced_filters(payload: Seq<u8>) -> nat {
    le_value(payload.subrange(8, 10))
}

/// Decode a request to replace the acceptance filters.
pub fn decode_filters(payload: &[u8]) -> (r: Result<(u64, Vec<IdMaskFilter>), &'static str>)
    ensures
        if payload@.len() < 10 || payload@.len() != 10 + 9 * announced_filters(payload@) {
            r matches Err(e) && e@ == "invalid filters payload length"@
        } else {
            match filters_in(payload@.skip(10), announced_filters(payload@)) {
                Ok(filters) => r matches Ok((seq, got)) && seq == le_value(payload@.take(8))
                    && got@ == filters,
                Err(e) => r matches Err(got) && got@ == e,
            }
        },
{
    if payload.len() < 10 {
        return Err("invalid filters payload length");
    }
    let seq: u64 = read_le(payload, 0, 8);
    assert(payload@.subrange(0, 8) =~= payload@.take(8));
    let count: u64 = read_le(payload, 8, 2);
    proof {
        byte_ranges();
    }
    let count: usize = count as usize;
    if payload.len() != 10 + count * 9 {
        return Err("invalid filters payload length");
    }
    let ghost fields = payload@.skip(10);
    let mut filters: Vec<IdMaskFilter> = Vec::new();
    let mut i: usize = 0;
    while i < count
        invariant
            i <= count < 0x1_0000,
            payload@.len() == 10 + count * 9,
            count == announced_filters(payload@),
            fields == payload@.skip(10),
            filters_in(fields, i as nat) == Ok::<Seq<IdMaskFilter>, Seq<char>>(filters@),
        decreases count - i,
    {
        let at: usize = 10 + 9 * i;
        let entry = slice_subrange(payload, at, at + 9);
        assert(entry@ =~= fields.subrange(9 * i as int, 9 * (i + 1)));
        let flag: u8 = entry[0];
        let raw: u64 = read_le(entry, 1, 4);
        let mask: u64 = read_le(entry, 5, 4);
        proof {
            byte_ranges();
        }
        match decode_id(flag, raw as u32) {
            Ok(id) => {
                let mask = if flag / 2 % 2 == 1 {
                    IdMask::Extended(mask as u32)
                } else {
                    IdMask::Standard((mask % 0x1_0000) as u16)
                };
                filters.push(IdMaskFilter { id, mask });
            },
            Err(e) => {
                proof {
                    assert(filters_in(fields, (i + 1) as nat) is Err);
                    filters_error_stays(fields, (i + 1) as nat, count as nat);
                }
                return Err(e);
            },
        }
        i += 1;
    }
    Ok((seq, filters))
}

/// A filter whose mask has the width of its identifier.
pub open spec fn widths_agree(filter: IdMaskFilter) -> bool {
    filter.id is Standard <==> filter.mask is Standard
}

proof fn filter_round_trip(filter: IdMaskFilter)
    requires
        widths_agree(filter),
        filter.id.in_range(),
    ensures
        filter_fields(filter).len() == 9,
        filter_in(filter_fields(filter)) == Ok::<IdMaskFilter, Seq<char>>(filter),
{
    byte_ranges();
    let fields = filter_fields(filter);
    let mask = match filter.mask {
        IdMask::Standard(mask) => mask as nat,
        IdMask::Extended(mask) => mask as nat,
    };
    le_round_trip(filter.id.raw() as nat, 4);
    le_round_trip(mask, 4);
    assert(fields.subrange(1, 5) =~= le_bytes(filter.id.raw() as nat, 4));
    assert(fields.subrange(5, 9) =~= le_bytes(mask, 4));
    if filter.id is Extended {
        id::ext_id_has_its_number(filter.id.raw());
        id::equal_raw_ids_are_equal(filter.id, id::ext_id(filter.id.raw()));
    } else {
        id::std_id_has_its_number(filter.id.raw() as u16);
        id::equal_raw_ids_are_equal(filter.id, id::std_id(filter.id.raw() as u16));
    }
}

proof fn all_filters_round_trip(filters: Seq<IdMaskFilter>, rest: Seq<u8>)
    requires
        forall|i: int|
            0 <= i < filters.len() ==> widths_agree(#[trigger] filters[i])
                && filters[i].id.in_range(),
    ensures
        all_filter_fields(filters).len() == 9 * filters.len(),
        filters_in(all_filter_fields(filters) + rest, filters.len()) == Ok::<
            Seq<IdMaskFilter>,
            Seq<char>,
        >(filters),
    decreases filters.len(),
{
    if filters.len() > 0 {
        let front = filters.drop_last();
        let last = filters.last();
        assert(widths_agree(filters[filters.len() - 1]));
        filter_round_trip(last);
        assert forall|i: int| 0 <= i < front.len() implies widths_agree(#[trigger] front[i])
            && front[i].id.in_range() by {
            assert(widths_agree(filters[i]));
        }
        all_filters_round_trip(front, filter_fields(last) + rest);
        let fields = all_filter_fields(filters) + rest;
        assert(fields =~= all_filter_fields(front) + (filter_fields(last) + rest));
        let n = filters.len() as int;
        assert(fields.subrange(9 * (n - 1), 9 * n) =~= filter_fields(last));
        assert(front.push(last) =~= filters);
    } else {
        assert(filters =~= Seq::empty());
    }
}

/// Acceptance filters survive their encoding, as long as each mask has the width of its identifier
/// and two bytes can count them.
pub proof fn filters_round_trip(seq: u64, filters: Seq<IdMaskFilter>)
    requires
        filters.len() < 0x1_0000,
        forall|i: int|
            0 <= i < filters.len() ==> widths_agree(#[trigger] filters[i])
                && filters[i].id.in_range(),
    ensures
        ({
            let payload = filters_bytes(seq, filters);
            &&& announced_filters(payload) == filters.len()
            &&& payload.len() == 10 + 9 * filters.len()
            &&& le_value(payload.take(8)) == seq
            &&& filters_in(payload.skip(10), announced_filters(payload)) == Ok::<
                Seq<IdMaskFilter>,
                Seq<char>,
            >(filters)
        }),
{
    byte_ranges();
    let payload = filters_bytes(seq, filters);
    le_round_trip(seq as nat, 8);
    le_round_trip(filters.len(), 2);
    all_filters_round_trip(filters, Seq::empty());
    assert(payload.take(8) =~= le_bytes(seq as nat, 8));
    assert(payload.subrange(8, 10) =~= le_bytes(filters.len(), 2));
    assert(payload.skip(10) =~= all_filter_fields(filters) + Seq::<u8>::empty());
}

/// Numbers of two, four and eight bytes stand lowest byte first.
pub proof fn numbers_are_little_endian(s: Seq<u8>)
    ensures
        s.len() == 2 ==> le_value(s) == s[0] + s[1] * 0x100,
        s.len() == 4 ==> le_value(s) == s[0] + s[1] * 0x100 + s[2] * 0x1_0000 + s[3] * 0x100_0000,
        s.len() == 8 ==> le_value(s) == s[0] + s[1] * 0x100 + s[2] * 0x1_0000 + s[3] * 0x100_0000
            + s[4] * 0x1_0000_0000 + s[5] * 0x100_0000_0000 + s[6] * 0x1_0000_0000_0000 + s[7]
            * 0x100_0000_0000_0000,
{
    reveal_with_fuel(le_value, 9);
}

/// A message is its type, four bytes of length, lowest first, and its payload.
pub proof fn message_layout(msg_type: u8, payload: Seq<u8>)
    requires
        payload.len() <= 0xFFFF_FFFF,
    ensures
        ({
            let bytes = message(msg_type, payload);
            &&& bytes.len() == 5 + payload.len()
            &&& bytes[0] == msg_type
            &&& bytes[1] + bytes[2] * 0x100 + bytes[3] * 0x1_0000 + bytes[4] * 0x100_0000
                == payload.len()
            &&& bytes.skip(5) == payload
        }),
{
    byte_ranges();
    le_round_trip(payload.len(), 4);
    let bytes = message(msg_type, payload);
    let len = le_bytes(payload.len(), 4);
    numbers_are_little_endian(len);
    assert(bytes.subrange(1, 5) =~= len);
    assert(bytes[1] == len[0] && bytes[2] == len[1] && bytes[3] == len[2] && bytes[4] == len[3]);
    assert(bytes.skip(5) =~= payload);
}

/// A message ends with its payload, whatever its length.
pub proof fn message_has_its_payload(msg_type: u8, payload: Seq<u8>)
    ensures
        message(msg_type, payload).len() == 5 + payload.len(),
        message(msg_type, payload)[0] == msg_type,
        message(msg_type, payload).skip(5) == payload,
{
    le_bytes_len(payload.len(), 4);
    assert(message(msg_type, payload).skip(5) =~= payload);
}

/// Eight bytes are a number that 64 bits hold.
pub proof fn number_fits(s: Seq<u8>)
    requires
        s.len() == 8,
    ensures
        le_value(s) <= 0xFFFF_FFFF_FFFF_FFFF,
{
    numbers_are_little_endian(s);
}

/// What stands first in a stream is refused when it announces more than 4096 bytes, taken when all
/// that it announces is there, and waited for otherwise.
pub proof fn first_message_by_its_length(bytes: Seq<u8>)
    ensures
        bytes.len() < 5 ==> first_msg(bytes) is Incomplete,
        bytes.len() >= 5 ==> ({
            let announced = bytes[1] + bytes[2] * 0x100 + bytes[3] * 0x1_0000 + bytes[4]
                * 0x100_0000;
            if announced > 4096 {
                first_msg(bytes) is TooLong
            } else if bytes.len() < 5 + announced {
                first_msg(bytes) is Incomplete
            } else {
                first_msg(bytes) == FirstMsg::Msg(bytes[0], bytes.subrange(5, 5 + announced))
            }
        }),
{
    if bytes.len() >= 5 {
        numbers_are_little_endian(bytes.subrange(1, 5));
    }
}

/// A frame is a byte of flags (1 for remote, 2 for 29 bits, 4 for an acknowledgement asked for),
/// four bytes of identifier, a byte of length, and its data.
pub proof fn frame_layout(frame: unix_frame::UnixFrameView, expect_ack: bool)
    requires
        frame.bytes.len() <= 64,
    ensures
        ({
            let fields = frame_fields(frame, expect_ack);
            &&& fields.len() == 6 + frame.bytes.len()
            &&& fields[0] % 2 == 1 <==> frame.remote
            &&& fields[0] / 2 % 2 == 1 <==> frame.id is Extended
            &&& fields[0] / 4 % 2 == 1 <==> expect_ack
            &&& fields[0] < 8
            &&& fields[1] + fields[2] * 0x100 + fields[3] * 0x1_0000 + fields[4] * 0x100_0000
                == frame.id.raw()
            &&& fields[5] == frame.bytes.len()
            &&& fields.skip(6) == frame.bytes
        }),
{
    byte_ranges();
    le_round_trip(frame.id.raw() as nat, 4);
    let raw = le_bytes(frame.id.raw() as nat, 4);
    let fields = frame_fields(frame, expect_ack);
    numbers_are_little_endian(raw);
    assert(fields[1] == raw[0] && fields[2] == raw[1] && fields[3] == raw[2] && fields[4]
        == raw[3]);
    assert(fields.skip(6) =~= frame.bytes);
}

/// Bytes are read as a frame exactly when they announce at most 64 bytes of data, hold just these,
/// and give an identifier that fits its width, of which an 11-bit one is read from two bytes. The
/// frame is then what the bytes say.
pub proof fn frames_are_read_by_their_fields(fields: Seq<u8>, wrong_length: Seq<char>)
    ensures
        ({
            let raw = fields[1] + fields[2] * 0x100 + fields[3] * 0x1_0000 + fields[4]
                * 0x100_0000;
            let wide = fields[0] / 2 % 2 == 1;
            let number = if wide {
                raw
            } else {
                fields[1] + fields[2] * 0x100
            };
            let shaped = fields.len() >= 6 && fields[5] <= 64 && fields.len() == 6 + fields[5];
            let got = frame_in(fields, wrong_length);
            &&& got is Ok <==> shaped && number < (if wide {
                0x2000_0000int
            } else {
                0x800
            })
            &&& got matches Ok(frame) ==> {
                &&& frame.remote <==> fields[0] % 2 == 1
                &&& frame.id is Extended <==> wide
                &&& frame.id.raw() == number
                &&& frame.bytes == fields.skip(6)
            }
            &&& got matches Err(e) ==> e == (if fields.len() < 6 {
                wrong_length
            } else if fields[5] > 64 {
                "invalid dlc"@
            } else if !shaped {
                wrong_length
            } else if wide {
                "invalid extended id"@
            } else {
                "invalid standard id"@
            })
        }),
{
    if fields.len() >= 6 {
        let part = fields.subrange(1, 5);
        numbers_are_little_endian(part);
        let raw = le_value(part);
        assert(raw % 0x1_0000 == part[0] + part[1] * 0x100);
        id::ext_id_has_its_number(raw as u32);
        id::std_id_has_its_number((raw % 0x1_0000) as u16);
    }
}

/// An acknowledgement is eight bytes of request number, lowest first, and one of status.
pub proof fn ack_layout(seq: u64, status: u8)
    ensures
        ({
            let bytes = ack_bytes(seq, status);
            &&& bytes.len() == 9
            &&& bytes[0] + bytes[1] * 0x100 + bytes[2] * 0x1_0000 + bytes[3] * 0x100_0000 + bytes[4]
                * 0x1_0000_0000 + bytes[5] * 0x100_0000_0000 + bytes[6] * 0x1_0000_0000_0000
                + bytes[7] * 0x100_0000_0000_0000 == seq
            &&& bytes[8] == status
        }),
{
    byte_ranges();
    le_round_trip(seq as nat, 8);
    let number = le_bytes(seq as nat, 8);
    numbers_are_little_endian(number);
    assert(forall|i: int| 0 <= i < 8 ==> ack_bytes(seq, status)[i] == number[i]);
}

/// A filter is a byte that is 2 for 29 bits and 0 for 11, four bytes of identifier, and four of
/// mask, which are zero where the mask has the other width.
pub proof fn filter_layout(filter: IdMaskFilter)
    ensures
        ({
            let fields = filter_fields(filter);
            let mask: int = match filter.mask {
                IdMask::Standard(mask) => if filter.id is Standard {
                    mask as int
                } else {
                    0
                },
                IdMask::Extended(mask) => if filter.id is Extended {
                    mask as int
                } else {
                    0
                },
            };
            &&& fields.len() == 9
            &&& fields[0] == (if filter.id is Extended {
                2u8
            } else {
                0
            })
            &&& fields[1] + fields[2] * 0x100 + fields[3] * 0x1_0000 + fields[4] * 0x100_0000
                == filter.id.raw()
            &&& fields[5] + fields[6] * 0x100 + fields[7] * 0x1_0000 + fields[8] * 0x100_0000
                == mask
        }),
{
    byte_ranges();
    let mask: nat = match (filter.id, filter.mask) {
        (Id::Standard(_), IdMask::Standard(mask)) => mask as nat,
        (Id::Extended(_), IdMask::Extended(mask)) => mask as nat,
        _ => 0,
    };
    le_round_trip(filter.id.raw() as nat, 4);
    le_round_trip(mask, 4);
    let raw = le_bytes(filter.id.raw() as nat, 4);
    let bits = le_bytes(mask, 4);
    numbers_are_little_endian(raw);
    numbers_are_little_endian(bits);
    let fields = filter_fields(filter);
    assert(fields[1] == raw[0] && fields[2] == raw[1] && fields[3] == raw[2] && fields[4]
        == raw[3]);
    assert(fields[5] == bits[0] && fields[6] == bits[1] && fields[7] == bits[2] && fields[8]
        == bits[3]);
}

/// Nine bytes are read as a filter exactly when the identifier fits its width; the filter is then
/// what the bytes say, with a mask of the identifier's width.
pub proof fn filters_are_read_by_their_fields(fields: Seq<u8>)
    requires
        fields.len() == 9,
    ensures
        ({
            let wide = fields[0] / 2 % 2 == 1;
            let number = if wide {
                fields[1] + fields[2] * 0x100 + fields[3] * 0x1_0000 + fields[4] * 0x100_0000
            } else {
                fields[1] + fields[2] * 0x100
            };
            &&& filter_in(fields) is Ok <==> number < (if wide {
                0x2000_0000int
            } else {
                0x800
            })
            &&& filter_in(fields) matches Ok(filter) ==> {
                &&& filter.id is Extended <==> wide
                &&& filter.id.raw() == number
                &&& match filter.mask {
                    IdMask::Extended(mask) => wide && mask == fields[5] + fields[6] * 0x100
                        + fields[7] * 0x1_0000 + fields[8] * 0x100_0000,
                    IdMask::Standard(mask) => !wide && mask == fields[5] + fields[6] * 0x100,
                }
            }
        }),
{
    let part = fields.subrange(1, 5);
    let bits = fields.subrange(5, 9);
    numbers_are_little_endian(part);
    numbers_are_little_endian(bits);
    let raw = le_value(part);
    assert(raw % 0x1_0000 == part[0] + part[1] * 0x100);
    assert(le_value(bits) % 0x1_0000 == bits[0] + bits[1] * 0x100);
    id::ext_id_has_its_number(raw as u32);
    id::std_id_has_its_number((raw % 0x1_0000) as u16);
}

proof fn filter_fields_stand_in_order(filters: Seq<IdMaskFilter>)
    ensures
        all_filter_fields(filters).len() == 9 * filters.len(),
        forall|i: int|
            0 <= i < filters.len() ==> all_filter_fields(filters).subrange(9 * i, 9 * i + 9)
                == filter_fields(#[trigger] filters[i]),
    decreases filters.len(),
{
    if filters.len() > 0 {
        let front = filters.drop_last();
        filter_fields_stand_in_order(front);
        filter_layout(filters.last());
        let all = all_filter_fields(filters);
        assert forall|i: int| 0 <= i < filters.len() implies all.subrange(9 * i, 9 * i + 9)
            == filter_fields(#[trigger] filters[i]) by {
            if i < front.len() {
                assert(front[i] == filters[i]);
                assert(all.subrange(9 * i, 9 * i + 9) =~= all_filter_fields(front).subrange(
                    9 * i,
                    9 * i + 9,
                ));
            } else {
                assert(all.subrange(9 * i, 9 * i + 9) =~= filter_fields(filters.last()));
            }
        }
    }
}

/// A request to replace the filters is eight bytes of request number, two of the number of filters,
/// and the filters in order, nine bytes each.
pub proof fn filters_request_layout(seq: u64, filters: Seq<IdMaskFilter>)
    requires
        filters.len() < 0x1_0000,
    ensures
        ({
            let bytes = filters_bytes(seq, filters);
            &&& bytes.len() == 10 + 9 * filters.len()
            &&& le_value(bytes.take(8)) == seq
            &&& bytes[8] + bytes[9] * 0x100 == filters.len()
            &&& forall|i: int|
                0 <= i < filters.len() ==> bytes.subrange(10 + 9 * i, 19 + 9 * i) == filter_fields(
                    #[trigger] filters[i],
                )
        }),
{
    byte_ranges();
    le_round_trip(seq as nat, 8);
    le_round_trip(filters.len(), 2);
    filter_fields_stand_in_order(filters);
    let bytes = filters_bytes(seq, filters);
    let count = le_bytes(filters.len(), 2);
    numbers_are_little_endian(count);
    assert(bytes.take(8) =~= le_bytes(seq as nat, 8));
    assert(bytes[8] == count[0] && bytes[9] == count[1]);
    assert forall|i: int| 0 <= i < filters.len() implies bytes.subrange(10 + 9 * i, 19 + 9 * i)
        == filter_fields(#[trigger] filters[i]) by {
        assert(bytes.subrange(10 + 9 * i, 19 + 9 * i) =~= all_filter_fields(filters).subrange(
            9 * i,
            9 * i + 9,
        ));
    }
}

/// A row of filters is read as the filters in its nine-byte pieces, in order; it cannot be read
/// exactly when one of them cannot, and then the first such piece says why.
pub proof fn filters_are_read_in_order(fields: Seq<u8>, n: nat)
    requires
        fields.len() >= 9 * n,
    ensures
        filters_in(fields, n) is Ok <==> forall|i: int|
            0 <= i < n ==> filter_in(#[trigger] fields.subrange(9 * i, 9 * i + 9)) is Ok,
        filters_in(fields, n) matches Ok(filters) ==> filters.len() == n && forall|i: int|
            0 <= i < n ==> filter_in(fields.subrange(9 * i, 9 * i + 9)) == Ok::<
                IdMaskFilter,
                Seq<char>,
            >(#[trigger] filters[i]),
        filters_in(fields, n) matches Err(e) ==> exists|i: int|
            0 <= i < n && filter_in(#[trigger] fields.subrange(9 * i, 9 * i + 9)) == Err::<
                IdMaskFilter,
                Seq<char>,
            >(e) && filters_in(fields, i as nat) is Ok,
    decreases n,
{
    if n > 0 {
        let m = (n - 1) as nat;
        filters_are_read_in_order(fields, m);
        let last = fields.subrange(9 * m as int, 9 * m as int + 9);
        assert(9 * (n as int) == 9 * m as int + 9);
        if filters_in(fields, m) is Ok {
            if filter_in(last) is Ok {
                let before = filters_in(fields, m)->Ok_0;
                let after = filters_in(fields, n)->Ok_0;
                assert(after == before.push(filter_in(last)->Ok_0));
                assert forall|i: int| 0 <= i < n implies filter_in(
                    fields.subrange(9 * i, 9 * i + 9),
                ) == Ok::<IdMaskFilter, Seq<char>>(#[trigger] after[i]) by {
                    if i < m {
                        assert(after[i] == before[i]);
                    }
                }
                assert forall|i: int| 0 <= i < n implies filter_in(
                    #[trigger] fields.subrange(9 * i, 9 * i + 9),
                ) is Ok by {
                    assert(filter_in(fields.subrange(9 * i, 9 * i + 9)) == Ok::<
                        IdMaskFilter,
                        Seq<char>,
                    >(after[i]));
                }
            }
        }
    }
}

/// Messages, requests and acknowledgements are written and read as they are laid out; a payload of
/// another length than its kind has is refused.
pub proof fn messages_are_written_and_read(
    msg_type: u8,
    payload: &[u8],
    written: Result<Vec<u8>, &'static str>,
    ack: Result<(u64, u8), &'static str>,
    frame: Result<UnixFrame, &'static str>,
    send: Result<SendFrame, &'static str>,
)
    requires
        call_ensures(write_msg, (msg_type, payload), written),
        call_ensures(decode_ack, (payload,), ack),
        call_ensures(decode_frame, (payload,), frame),
        call_ensures(decode_send_frame, (payload,), send),
    ensures
        written is Ok <==> payload@.len() <= 0xFFFF_FFFF,
        written matches Ok(bytes) ==> bytes@[0] == msg_type && bytes@.skip(5) == payload@
            && bytes@.len() == 5 + payload@.len(),
        ack is Ok <==> payload@.len() == 9,
        ack matches Ok((seq, status)) ==> seq == le_value(payload@.take(8)) && status
            == payload@[8],
        frame is Ok <==> frame_in(payload@, "invalid frame payload length"@) is Ok,
        frame matches Ok(f) ==> frame_in(payload@, "invalid frame payload length"@)->Ok_0 == f@,
        send is Ok <==> payload@.len() >= 14 && frame_in(
            payload@.skip(8),
            "invalid send frame payload length"@,
        ) is Ok,
        send matches Ok(s) ==> s.seq == le_value(payload@.take(8)) && (s.expect_ack <==> payload@[8]
            / 4 % 2 == 1) && frame_in(
            payload@.skip(8),
            "invalid send frame payload length"@,
        )->Ok_0 == s.frame@,
{
    message_has_its_payload(msg_type, payload@);
}

/// Frames, acknowledgements and filters are written into their buffers at the front, with the length
/// told, and with nothing else touched.
pub proof fn buffers_are_written_at_the_front(
    a: &mut [u8; 78],
    b: &mut [u8; 70],
    c: &mut [u8; 9],
    seq: u64,
    expect_ack: bool,
    status: u8,
    frame: &UnixFrame,
    sent: usize,
    got: usize,
)
    requires
        call_ensures(encode_send_frame_into, (a, seq, expect_ack, frame), sent),
        call_ensures(encode_frame_into, (b, frame), got),
        call_ensures(encode_ack_into, (c, seq, status), ()),
    ensures
        sent == 14 + frame@.bytes.len() && got == 6 + frame@.bytes.len(),
        final(a)@.take(sent as int) == send_frame_bytes(seq, expect_ack, frame@),
        final(a)@.skip(sent as int) == old(a)@.skip(sent as int),
        final(b)@.take(got as int) == frame_fields(frame@, false),
        final(b)@.skip(got as int) == old(b)@.skip(got as int),
        final(c)@ == ack_bytes(seq, status),
{
    le_bytes_len(seq as nat, 8);
    frame_fields_len(frame@, expect_ack);
    frame_fields_len(frame@, false);
    assert(final(a)@.take(sent as int) =~= send_frame_bytes(seq, expect_ack, frame@));
    assert(final(a)@.skip(sent as int) =~= old(a)@.skip(sent as int));
    assert(final(b)@.take(got as int) =~= frame_fields(frame@, false));
    assert(final(b)@.skip(got as int) =~= old(b)@.skip(got as int));
}

} // verus!
