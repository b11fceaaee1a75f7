//! Encode and decode ISO-TP protocol control information.

use crate::config;
use crate::config::IsoTpConfig;
use crate::errors::IsoTpError;
use crate::id;
use crate::id::{Frame, Id};
use crate::time;
use crate::time::Duration;
use vstd::prelude::*;
use vstd::slice::slice_subrange;

verus! {

/// Flow control status.
#[derive(Debug, Clone, Copy, PartialEq, Eq, Structural)]
pub enum FlowStatus {
    /// Clear to send more consecutive frames.
    ClearToSend,
    /// Wait before resuming.
    Wait,
    /// Abort due to overflow.
    Overflow,
}

impl FlowStatus {
    /// The nibble that stands for the status in a Flow Control frame.
    pub open spec fn nibble(self) -> u8 {
        match self {
            FlowStatus::ClearToSend => 0u8,
            FlowStatus::Wait => 1u8,
            FlowStatus::Overflow => 2u8,
        }
    }
}

/// The number of a flow status, as it stands in a Flow Control frame.
pub fn flow_status_code(status: FlowStatus) -> (r: u8)
    ensures
        r == status.nibble(),
{
    match status {
        FlowStatus::ClearToSend => 0,
        FlowStatus::Wait => 1,
        FlowStatus::Overflow => 2,
    }
}

/// Parsed ISO-TP Protocol Data Unit (PDU).
///
/// This enum is used by the encoder/decoder and by the send/receive state machines.
#[derive(Debug, Clone, Copy, PartialEq, Eq)]
pub enum Pdu<'a> {
    /// Single Frame payload.
    SingleFrame { len: u8, data: &'a [u8] },
    /// First Frame with total length and first bytes.
    FirstFrame { len: u16, data: &'a [u8] },
    /// Consecutive Frame carrying sequence and bytes.
    ConsecutiveFrame { sn: u8, data: &'a [u8] },
    /// Flow Control feedback.
    FlowControl {
        /// Flow status from receiver to sender.
        status: FlowStatus,
        /// Block size requested by receiver (0 = unlimited).
        block_size: u8,
        /// STmin (encoded byte form, not a `Duration`).
        st_min: u8,
    },
}

/// A PDU with its bytes as a mathematical sequence.
pub enum PduView {
    /// Single Frame payload.
    SingleFrame { len: u8, data: Seq<u8> },
    /// First Frame with total length and first bytes.
    FirstFrame { len: u16, data: Seq<u8> },
    /// Consecutive Frame carrying sequence and bytes.
    ConsecutiveFrame { sn: u8, data: Seq<u8> },
    /// Flow Control feedback.
    FlowControl { status: FlowStatus, block_size: u8, st_min: u8 },
}

impl<'a> View for Pdu<'a> {
    type V = PduView;

    open spec fn view(&self) -> PduView {
        match *self {
            Pdu::SingleFrame { len, data } => PduView::SingleFrame { len, data: data@ },
            Pdu::FirstFrame { len, data } => PduView::FirstFrame { len, data: data@ },
            Pdu::ConsecutiveFrame { sn, data } => PduView::ConsecutiveFrame { sn, data: data@ },
            Pdu::FlowControl { status, block_size, st_min } => PduView::FlowControl {
                status,
                block_size,
                st_min,
            },
        }
    }
}

/// The addressing byte, where there is one.
pub open spec fn prefix_bytes(prefix: Option<u8>) -> Seq<u8> {
    match prefix {
        Some(byte) => seq![byte],
        None => Seq::empty(),
    }
}

/// PCI and data bytes of a PDU in a frame of at most `frame_len` bytes whose first `offset` bytes
/// are taken by addressing, or `None` where the PDU cannot be carried.
pub open spec fn body_bytes(pdu: PduView, offset: int, frame_len: int) -> Option<Seq<u8>> {
    match pdu {
        PduView::SingleFrame { len, data } => if len > data.len() {
            None
        } else if len <= 7 - offset {
            Some(seq![len] + data.take(len as int))
        } else if frame_len <= 8 || offset + 2 + len > frame_len {
            None
        } else {
            Some(seq![0u8, len] + data.take(len as int))
        },
        PduView::FirstFrame { len, data } => if len <= config::single_frame_room(frame_len, offset)
            || len > 4095 || data.len() == 0 {
            None
        } else {
            let room = frame_len - 2 - offset;
            let kept = if data.len() <= room {
                data
            } else {
                data.take(room)
            };
            Some(seq![(0x10 + len / 256) as u8, (len % 256) as u8] + kept)
        },
        PduView::ConsecutiveFrame { sn, data } => if data.len() > frame_len - 1 - offset {
            None
        } else {
            Some(seq![(0x20 + sn % 16) as u8] + data)
        },
        PduView::FlowControl { status, block_size, st_min } => Some(
            seq![(0x30 + status.nibble()) as u8, block_size, st_min],
        ),
    }
}

/// Fill a frame up to `frame_len` bytes where a padding byte is given.
pub open spec fn padded(bytes: Seq<u8>, padding: Option<u8>, frame_len: int) -> Seq<u8> {
    match padding {
        Some(pad) => bytes + Seq::new((frame_len - bytes.len()) as nat, |i: int| pad),
        None => bytes,
    }
}

/// The bytes of the frame that carries `pdu`, or `None` where none can.
pub open spec fn frame_bytes(
    pdu: PduView,
    padding: Option<u8>,
    prefix: Option<u8>,
    frame_len: int,
) -> Option<Seq<u8>> {
    if 8 <= frame_len <= 64 {
        match body_bytes(pdu, config::prefix_len(prefix), frame_len) {
            Some(body) => Some(padded(prefix_bytes(prefix) + body, padding, frame_len)),
            None => None,
        }
    } else {
        None
    }
}

/// The PDU that a received frame holds when its PCI stands at `offset`, or `None` where the frame
/// is malformed.
pub open spec fn parsed(data: Seq<u8>, offset: int) -> Option<PduView> {
    if !(0 <= offset <= 1) || data.len() <= offset {
        None
    } else {
        let kind = data[offset] / 16;
        let low = (data[offset] % 16) as u8;
        let rest = data.len() - offset - 1;
        if kind == 0 {
            if low == 0 && data.len() > 8 {
                let len = data[offset + 1];
                if rest < 1 + len {
                    None
                } else {
                    Some(
                        PduView::SingleFrame {
                            len,
                            data: data.subrange(offset + 2, offset + 2 + len),
                        },
                    )
                }
            } else if low > 7 || rest < low {
                None
            } else {
                Some(
                    PduView::SingleFrame {
                        len: low,
                        data: data.subrange(offset + 1, offset + 1 + low),
                    },
                )
            }
        } else if kind == 1 {
            if rest < 1 {
                None
            } else {
                let len = (low * 256 + data[offset + 1]) as u16;
                if len <= config::single_frame_room(data.len() as int, offset) {
                    None
                } else {
                    Some(PduView::FirstFrame { len, data: data.skip(offset + 2) })
                }
            }
        } else if kind == 2 {
            Some(PduView::ConsecutiveFrame { sn: low, data: data.skip(offset + 1) })
        } else if kind == 3 {
            if rest < 2 || low > 2 {
                None
            } else {
                Some(
                    PduView::FlowControl {
                        status: if low == 0 {
                            FlowStatus::ClearToSend
                        } else if low == 1 {
                            FlowStatus::Wait
                        } else {
                            FlowStatus::Overflow
                        },
                        block_size: data[offset + 1],
                        st_min: data[offset + 2],
                    },
                )
            }
        } else {
            None
        }
    }
}

/// Append the first `n` bytes of `src`.
fn push_prefix(dst: &mut Vec<u8>, src: &[u8], n: usize)
    requires
        n <= src@.len(),
    ensures
        final(dst)@ == old(dst)@ + src@.take(n as int),
{
    let mut i: usize = 0;
    while i < n
        invariant
            i <= n <= src@.len(),
            dst@ == old(dst)@ + src@.take(i as int),
        decreases n - i,
    {
        dst.push(src[i]);
        i += 1;
        assert(dst@ =~= old(dst)@ + src@.take(i as int));
    }
}

/// Append PCI and data bytes of a PDU.
fn push_body(buf: &mut Vec<u8>, pdu: &Pdu<'_>, offset: usize, frame_len: usize) -> (r: Result<
    (),
    IsoTpError<()>,
>)
    requires
        offset <= 1,
        8 <= frame_len <= 64,
    ensures
        match r {
            Ok(_) => body_bytes(pdu@, offset as int, frame_len as int) matches Some(body)
                && final(buf)@ == old(buf)@ + body && body.len() + offset <= frame_len,
            Err(e) => e is InvalidFrame && body_bytes(pdu@, offset as int, frame_len as int) is None,
        },
{
    match *pdu {
        Pdu::SingleFrame { len, data } => {
            let payload_len: usize = len as usize;
            if payload_len > data.len() {
                return Err(IsoTpError::InvalidFrame);
            }
            if payload_len <= 7 - offset {
                buf.push(len);
                push_prefix(buf, data, payload_len);
                assert(buf@ =~= old(buf)@ + (seq![len] + data@.take(len as int)));
            } else {
                // CAN FD extended Single Frame length encoding: a zero length nibble, then an
                // 8-bit length.
                if frame_len <= 8 || offset + 2 + payload_len > frame_len {
                    return Err(IsoTpError::InvalidFrame);
                }
                buf.push(0);
                buf.push(len);
                push_prefix(buf, data, payload_len);
                assert(buf@ =~= old(buf)@ + (seq![0u8, len] + data@.take(len as int)));
            }
            Ok(())
        },
        Pdu::FirstFrame { len, data } => push_first(buf, len, data, offset, frame_len),
        Pdu::ConsecutiveFrame { sn, data } => {
            if data.len() > frame_len - (1 + offset) {
                return Err(IsoTpError::InvalidFrame);
            }
            buf.push(0x20 + sn % 16);
            push_prefix(buf, data, data.len());
            assert(data@.take(data@.len() as int) =~= data@);
            assert(buf@ =~= old(buf)@ + (seq![(0x20 + sn % 16) as u8] + data@));
            Ok(())
        },
        Pdu::FlowControl { status, block_size, st_min } => {
            buf.push(0x30 + flow_status_code(status));
            buf.push(block_size);
            buf.push(st_min);
            assert(buf@ =~= old(buf)@ + seq![(0x30 + status.nibble()) as u8, block_size, st_min]);
            Ok(())
        },
    }
}

/// Append PCI and data bytes of a First Frame.
fn push_first(buf: &mut Vec<u8>, len: u16, data: &[u8], offset: usize, frame_len: usize) -> (r:
    Result<(), IsoTpError<()>>)
    requires
        offset <= 1,
        8 <= frame_len <= 64,
    ensures
        ({
            let body = body_bytes(
                PduView::FirstFrame { len, data: data@ },
                offset as int,
                frame_len as int,
            );
            match r {
                Ok(_) => body is Some && final(buf)@ == old(buf)@ + body->0 && (body->0).len()
                    + offset <= frame_len,
                Err(e) => e is InvalidFrame && body is None,
            }
        }),
{
    let max_sf: usize = if frame_len > 8 {
        frame_len - (2 + offset)
    } else {
        7 - offset
    };
    if (len as usize) <= max_sf || len > 4095 || data.len() == 0 {
        return Err(IsoTpError::InvalidFrame);
    }
    buf.push((0x10 + len / 256) as u8);
    buf.push((len % 256) as u8);
    let room: usize = frame_len - (2 + offset);
    let data_len: usize = if data.len() <= room {
        data.len()
    } else {
        room
    };
    push_prefix(buf, data, data_len);
    assert(data@.take(data@.len() as int) =~= data@);
    assert(buf@ =~= old(buf)@ + (seq![(0x10 + len / 256) as u8, (len % 256) as u8] + data@.take(
        data_len as int,
    )));
    Ok(())
}

/// Fill a frame up to `frame_len` bytes where a padding byte is given.
fn push_padding(buf: &mut Vec<u8>, padding: Option<u8>, frame_len: usize)
    requires
        old(buf)@.len() <= frame_len,
    ensures
        final(buf)@ == padded(old(buf)@, padding, frame_len as int),
{
    if let Some(pad) = padding {
        let ghost plain = buf@;
        while buf.len() < frame_len
            invariant
                plain.len() <= buf@.len() <= frame_len,
                buf@ == plain + Seq::new((buf@.len() - plain.len()) as nat, |i: int| pad),
            decreases frame_len - buf.len(),
        {
            buf.push(pad);
            assert(buf@ =~= plain + Seq::new((buf@.len() - plain.len()) as nat, |i: int| pad));
        }
    }
}

/// Number of bytes taken by addressing.
pub fn pci_offset_from_prefix(prefix: Option<u8>) -> (r: usize)
    ensures
        r == config::prefix_len(prefix),
{
    if prefix.is_some() {
        1
    } else {
        0
    }
}

/// Build a CAN frame representing the given PDU.
///
/// This uses "normal addressing" (no addressing prefix byte). For extended/mixed addressing, use
/// [`encode_with_prefix`].
pub fn encode(id: Id, pdu: &Pdu<'_>, padding: Option<u8>) -> (r: Result<Frame, IsoTpError<()>>)
    ensures
        match r {
            Ok(frame) => frame.id == id && frame_bytes(pdu@, padding, None, 8) == Some(frame.data@),
            Err(e) => e is InvalidFrame && frame_bytes(pdu@, padding, None, 8) is None,
        },
{
    encode_with_prefix(id, pdu, padding, None)
}

/// Build a CAN frame representing the given PDU with an optional addressing prefix byte.
///
/// - `prefix = None` means the PCI starts at byte 0.
/// - `prefix = Some(x)` means byte 0 is the addressing byte and the PCI starts at byte 1.
pub fn encode_with_prefix(
    id: Id,
    pdu: &Pdu<'_>,
    padding: Option<u8>,
    prefix: Option<u8>,
) -> (r: Result<Frame, IsoTpError<()>>)
    ensures
        match r {
            Ok(frame) => frame.id == id && frame_bytes(pdu@, padding, prefix, 8) == Some(
                frame.data@,
            ),
            Err(e) => e is InvalidFrame && frame_bytes(pdu@, padding, prefix, 8) is None,
        },
{
    encode_with_prefix_sized(id, pdu, padding, prefix, 8)
}

/// Like [`encode_with_prefix`], but allows a larger CAN payload length (e.g. CAN FD).
///
/// `frame_len` is the desired CAN payload size. Most classic CAN drivers only support 8.
pub fn encode_with_prefix_sized(
    id: Id,
    pdu: &Pdu<'_>,
    padding: Option<u8>,
    prefix: Option<u8>,
    frame_len: usize,
) -> (r: Result<Frame, IsoTpError<()>>)
    ensures
        match r {
            Ok(frame) => frame.id == id && frame_bytes(pdu@, padding, prefix, frame_len as int)
                == Some(frame.data@),
            Err(e) => e is InvalidFrame && frame_bytes(pdu@, padding, prefix, frame_len as int) is None,
        },
{
    if frame_len < 8 || frame_len > 64 {
        return Err(IsoTpError::InvalidFrame);
    }
    let mut buf: Vec<u8> = Vec::new();
    let offset: usize = pci_offset_from_prefix(prefix);
    if let Some(byte) = prefix {
        buf.push(byte);
    }
    assert(buf@ =~= prefix_bytes(prefix));
    match push_body(&mut buf, pdu, offset, frame_len) {
        Ok(()) => {
            push_padding(&mut buf, padding, frame_len);
            Ok(Frame { id, data: buf })
        },
        Err(e) => Err(e),
    }
}

/// The frame that carries `pdu` under a node's configuration, or `None` where none can.
pub open spec fn frame_for(cfg: IsoTpConfig, pdu: PduView) -> Option<id::FrameView> {
    match frame_bytes(pdu, cfg.padding, cfg.tx_addr, cfg.frame_len as int) {
        Some(data) => Some(id::FrameView { id: cfg.tx_id, data }),
        None => None,
    }
}

/// Build the CAN frame that carries `pdu` under a node's configuration.
pub fn encode_for(cfg: &IsoTpConfig, pdu: &Pdu<'_>) -> (r: Result<Frame, IsoTpError<()>>)
    ensures
        match r {
            Ok(frame) => frame_for(*cfg, pdu@) == Some(frame@),
            Err(e) => e is InvalidFrame && frame_for(*cfg, pdu@) is None,
        },
{
    encode_with_prefix_sized(cfg.tx_id, pdu, cfg.padding, cfg.tx_addr, cfg.frame_len)
}

/// Whether a received frame is meant for a node: its identifier is the one listened to, and its
/// addressing byte, where one is configured, is the expected one.
pub open spec fn addressed(cfg: IsoTpConfig, frame: id::FrameView) -> bool {
    &&& frame.id == cfg.rx_id
    &&& has_address(cfg, frame.data)
}

/// Whether the first byte is the expected addressing byte, where one is configured.
pub open spec fn has_address(cfg: IsoTpConfig, data: Seq<u8>) -> bool {
    cfg.rx_addr matches Some(expected) ==> data.len() > 0 && data[0] == expected
}

/// Whether the first byte is the expected addressing byte, where one is configured.
pub fn carries_address(cfg: &IsoTpConfig, data: &[u8]) -> (r: bool)
    ensures
        r == has_address(*cfg, data@),
{
    match cfg.rx_addr {
        Some(expected) => data.len() > 0 && data[0] == expected,
        None => true,
    }
}

/// The PDU in a frame that is meant for a node, or `None` where the frame is malformed.
pub open spec fn pdu_in(cfg: IsoTpConfig, data: Seq<u8>) -> Option<PduView> {
    parsed(data, config::prefix_len(cfg.rx_addr))
}

/// Decode raw CAN data into a PDU view.
///
/// This interprets the PCI at byte offset 0. For extended/mixed addressing, use
/// [`decode_with_offset`] with `pci_offset = 1`.
pub fn decode<'a>(data: &'a [u8]) -> (r: Result<Pdu<'a>, IsoTpError<()>>)
    ensures
        match r {
            Ok(pdu) => parsed(data@, 0) == Some(pdu@),
            Err(e) => e is InvalidFrame && parsed(data@, 0) is None,
        },
{
    decode_with_offset(data, 0)
}

/// Decode raw CAN data into a PDU view, interpreting the PCI at the provided byte offset.
///
/// `pci_offset` is expected to be 0 (normal addressing) or 1 (extended/mixed addressing). Other
/// offsets are rejected.
pub fn decode_with_offset<'a>(data: &'a [u8], pci_offset: usize) -> (r: Result<
    Pdu<'a>,
    IsoTpError<()>,
>)
    ensures
        match r {
            Ok(pdu) => parsed(data@, pci_offset as int) == Some(pdu@),
            Err(e) => e is InvalidFrame && parsed(data@, pci_offset as int) is None,
        },
{
    if pci_offset > 1 || data.len() <= pci_offset {
        return Err(IsoTpError::InvalidFrame);
    }
    let kind: u8 = data[pci_offset] / 16;
    let low: u8 = data[pci_offset] % 16;
    let rest: usize = data.len() - pci_offset - 1;
    match kind {
        0 => {
            if low == 0 && data.len() > 8 {
                // CAN FD extended Single Frame length encoding.
                let len: u8 = data[pci_offset + 1];
                let start: usize = pci_offset + 2;
                if rest < 1 + len as usize {
                    return Err(IsoTpError::InvalidFrame);
                }
                Ok(Pdu::SingleFrame { len, data: slice_subrange(data, start, start + len as usize) })
            } else {
                let start: usize = pci_offset + 1;
                if low > 7 || rest < low as usize {
                    return Err(IsoTpError::InvalidFrame);
                }
                Ok(
                    Pdu::SingleFrame {
                        len: low,
                        data: slice_subrange(data, start, start + low as usize),
                    },
                )
            }
        },
        1 => {
            if rest < 1 {
                return Err(IsoTpError::InvalidFrame);
            }
            let len: u16 = low as u16 * 256 + data[pci_offset + 1] as u16;
            let max_sf: usize = if data.len() > 8 {
                data.len() - (2 + pci_offset)
            } else {
                7 - pci_offset
            };
            if (len as usize) <= max_sf {
                return Err(IsoTpError::InvalidFrame);
            }
            Ok(
                Pdu::FirstFrame {
                    len,
                    data: slice_subrange(data, pci_offset + 2, data.len()),
                },
            )
        },
        2 => Ok(
            Pdu::ConsecutiveFrame {
                sn: low,
                data: slice_subrange(data, pci_offset + 1, data.len()),
            },
        ),
        3 => {
            if rest < 2 {
                return Err(IsoTpError::InvalidFrame);
            }
            let status = match low {
                0 => FlowStatus::ClearToSend,
                1 => FlowStatus::Wait,
                2 => FlowStatus::Overflow,
                _ => return Err(IsoTpError::InvalidFrame),
            };
            Ok(
                Pdu::FlowControl {
                    status,
                    block_size: data[pci_offset + 1],
                    st_min: data[pci_offset + 2],
                },
            )
        },
        _ => Err(IsoTpError::InvalidFrame),
    }
}

/// Separation time that an STmin byte stands for, in nanoseconds; `None` for reserved values.
pub open spec fn st_min_nanos(raw: u8) -> Option<nat> {
    if raw <= 0x7F {
        Some(raw as nat * 1_000_000)
    } else if 0xF1 <= raw <= 0xF9 {
        Some((raw - 0xF0) as nat * 100_000)
    } else {
        None
    }
}

/// STmin byte for a separation time in nanoseconds: a multiple of 100 microseconds below one
/// millisecond, else whole milliseconds, at most 127.
pub open spec fn st_min_byte(nanos: nat) -> u8 {
    let micros = nanos / 1_000;
    let millis = nanos / 1_000_000;
    if 100 <= micros <= 900 && micros % 100 == 0 {
        (0xF0 + micros / 100) as u8
    } else if millis <= 0x7F {
        millis as u8
    } else {
        0x7F
    }
}

/// Convert STmin byte to a Duration, returning None for reserved values.
pub fn st_min_to_duration(raw: u8) -> (r: Option<Duration>)
    ensures
        match r {
            Some(d) => st_min_nanos(raw) == Some(d@) && d == time::span(d@),
            None => st_min_nanos(raw) is None,
        },
{
    let d = if raw <= 0x7F {
        Duration::from_millis(raw as u64)
    } else if 0xF1 <= raw && raw <= 0xF9 {
        Duration::from_micros((raw as u64 - 0xF0) * 100)
    } else {
        return None;
    };
    proof {
        time::span_has_its_length(d@);
        time::equal_lengths_are_equal(d, time::span(d@));
    }
    Some(d)
}

/// Encode a Duration into an STmin byte, clamping to the supported range.
pub fn duration_to_st_min(duration: Duration) -> (r: u8)
    ensures
        r == st_min_byte(duration@),
{
    let micros: u128 = duration.as_micros();
    if micros == 0 {
        return 0;
    }
    if 100 <= micros && micros <= 900 && micros % 100 == 0 {
        return 0xF0 + (micros / 100) as u8;
    }
    let millis: u128 = duration.as_millis();
    if millis <= 0x7F {
        millis as u8
    } else {
        0x7F
    }
}

/// Every STmin byte that is not reserved survives conversion to a separation time and back.
pub proof fn st_min_round_trip(raw: u8)
    requires
        st_min_nanos(raw) is Some,
    ensures
        st_min_byte(st_min_nanos(raw)->0) == raw,
{
}

/// Encoding a separation time never gives a reserved byte and never asks for a longer time.
pub proof fn st_min_rounds_down(nanos: nat)
    ensures
        st_min_nanos(st_min_byte(nanos)) matches Some(n) && n <= nanos,
{
}

/// A Single Frame decodes to the payload it was built from.
///
/// The one exception is an empty payload in a frame longer than 8 bytes that is filled up with a
/// nonzero byte: there the fill is read as an extended length.
pub proof fn single_frame_round_trip(
    len: u8,
    data: Seq<u8>,
    padding: Option<u8>,
    prefix: Option<u8>,
    frame_len: int,
)
    requires
        frame_bytes(PduView::SingleFrame { len, data }, padding, prefix, frame_len) is Some,
        len > 0 || frame_len == 8 || padding is None || padding == Some(0u8),
    ensures
        parsed(
            frame_bytes(PduView::SingleFrame { len, data }, padding, prefix, frame_len)->0,
            config::prefix_len(prefix),
        ) == Some(PduView::SingleFrame { len, data: data.take(len as int) }),
{
    let offset = config::prefix_len(prefix);
    let bytes = frame_bytes(PduView::SingleFrame { len, data }, padding, prefix, frame_len)->0;
    if len <= 7 - offset {
        assert(bytes[offset] == len);
        if len == 0 && bytes.len() > 8 {
            assert(bytes.subrange(offset + 2, offset + 2) =~= data.take(0));
        } else {
            assert(bytes.subrange(offset + 1, offset + 1 + len) =~= data.take(len as int));
        }
    } else {
        assert(bytes[offset] == 0);
        assert(bytes[offset + 1] == len);
        assert(bytes.subrange(offset + 2, offset + 2 + len) =~= data.take(len as int));
    }
}

/// A First Frame decodes to the announced length and the bytes it carries; fill bytes, which occur
/// only where the frame was not full, follow them.
pub proof fn first_frame_round_trip(
    len: u16,
    data: Seq<u8>,
    padding: Option<u8>,
    prefix: Option<u8>,
    frame_len: int,
)
    requires
        frame_bytes(PduView::FirstFrame { len, data }, padding, prefix, frame_len) is Some,
    ensures
        ({
            let room = frame_len - 2 - config::prefix_len(prefix);
            let kept = if data.len() <= room {
                data
            } else {
                data.take(room)
            };
            parsed(
                frame_bytes(PduView::FirstFrame { len, data }, padding, prefix, frame_len)->0,
                config::prefix_len(prefix),
            ) == Some(
                PduView::FirstFrame { len, data: padded(kept, padding, room) },
            )
        }),
{
    let offset = config::prefix_len(prefix);
    let bytes = frame_bytes(PduView::FirstFrame { len, data }, padding, prefix, frame_len)->0;
    let room = frame_len - 2 - offset;
    let kept = if data.len() <= room {
        data
    } else {
        data.take(room)
    };
    assert(bytes[offset] == (0x10 + len / 256) as u8);
    assert(bytes[offset + 1] == (len % 256) as u8);
    assert(bytes.skip(offset + 2) =~= padded(kept, padding, room));
}

/// A Consecutive Frame decodes to its sequence number modulo 16 and its bytes; fill bytes, which
/// occur only where the frame was not full, follow them.
pub proof fn consecutive_frame_round_trip(
    sn: u8,
    data: Seq<u8>,
    padding: Option<u8>,
    prefix: Option<u8>,
    frame_len: int,
)
    requires
        frame_bytes(PduView::ConsecutiveFrame { sn, data }, padding, prefix, frame_len) is Some,
    ensures
        parsed(
            frame_bytes(PduView::ConsecutiveFrame { sn, data }, padding, prefix, frame_len)->0,
            config::prefix_len(prefix),
        ) == Some(
            PduView::ConsecutiveFrame {
                sn: (sn % 16) as u8,
                data: padded(
                    data,
                    padding,
                    frame_len - 1 - config::prefix_len(prefix),
                ),
            },
        ),
{
    let offset = config::prefix_len(prefix);
    let bytes = frame_bytes(
        PduView::ConsecutiveFrame { sn, data },
        padding,
        prefix,
        frame_len,
    )->0;
    assert(bytes[offset] == (0x20 + sn % 16) as u8);
    assert(bytes.skip(offset + 1) =~= padded(data, padding, frame_len - 1 - offset));
}

/// A Flow Control frame decodes to exactly what was encoded, filled up or not.
pub proof fn flow_control_round_trip(
    status: FlowStatus,
    block_size: u8,
    st_min: u8,
    padding: Option<u8>,
    prefix: Option<u8>,
    frame_len: int,
)
    requires
        8 <= frame_len <= 64,
    ensures
        frame_bytes(
            PduView::FlowControl { status, block_size, st_min },
            padding,
            prefix,
            frame_len,
        ) is Some,
        parsed(
            frame_bytes(
                PduView::FlowControl { status, block_size, st_min },
                padding,
                prefix,
                frame_len,
            )->0,
            config::prefix_len(prefix),
        ) == Some(PduView::FlowControl { status, block_size, st_min }),
{
    let offset = config::prefix_len(prefix);
    let bytes = frame_bytes(
        PduView::FlowControl { status, block_size, st_min },
        padding,
        prefix,
        frame_len,
    )->0;
    assert(bytes[offset] == (0x30 + status.nibble()) as u8);
    assert(bytes[offset + 1] == block_size);
    assert(bytes[offset + 2] == st_min);
}

/// A frame of these bytes: the addressing byte, where there is one, the bytes of the PCI, the data,
/// and behind them nothing, or the padding byte up to `frame_len` bytes.
pub open spec fn laid_out(
    bytes: Seq<u8>,
    prefix: Option<u8>,
    pci: Seq<u8>,
    data: Seq<u8>,
    padding: Option<u8>,
    frame_len: int,
) -> bool {
    let at: int = if prefix is Some {
        1
    } else {
        0
    };
    let end = at + pci.len() + data.len();
    &&& prefix matches Some(byte) ==> bytes[0] == byte
    &&& end <= bytes.len()
    &&& bytes.subrange(at, at + pci.len()) == pci
    &&& bytes.subrange(at + pci.len(), end) == data
    &&& match padding {
        Some(pad) => bytes.len() == frame_len && forall|i: int|
            end <= i < frame_len ==> #[trigger] bytes[i] == pad,
        None => bytes.len() == end,
    }
}

proof fn padding_lays_out(
    prefix: Option<u8>,
    pci: Seq<u8>,
    data: Seq<u8>,
    padding: Option<u8>,
    frame_len: int,
)
    requires
        (if prefix is Some {
            1int
        } else {
            0
        }) + pci.len() + data.len() <= frame_len,
    ensures
        laid_out(
            padded(prefix_bytes(prefix) + (pci + data), padding, frame_len),
            prefix,
            pci,
            data,
            padding,
            frame_len,
        ),
{
    let bytes = padded(prefix_bytes(prefix) + (pci + data), padding, frame_len);
    let at: int = if prefix is Some {
        1
    } else {
        0
    };
    assert(bytes.subrange(at, at + pci.len()) =~= pci);
    assert(bytes.subrange(at + pci.len(), at + pci.len() + data.len()) =~= data);
}

/// A Single Frame of classic size holds up to 7 bytes behind one byte of length, and a longer frame
/// up to what is left behind a zero and a byte of length; the short form is used where it will do.
/// The addressing byte takes one byte of room. What does not fit is in no frame.
pub proof fn single_frame_layout(
    len: u8,
    data: Seq<u8>,
    padding: Option<u8>,
    prefix: Option<u8>,
    frame_len: int,
)
    ensures
        ({
            let at: int = if prefix is Some {
                1
            } else {
                0
            };
            let frame = frame_bytes(
                PduView::SingleFrame { len, data },
                padding,
                prefix,
                frame_len,
            );
            &&& frame is Some <==> 8 <= frame_len <= 64 && len <= data.len() && at + len <= (if frame_len
                == 8 {
                7
            } else {
                frame_len - 2
            })
            &&& frame matches Some(bytes) ==> (if at + len <= 7 {
                laid_out(bytes, prefix, seq![len], data.take(len as int), padding, frame_len)
            } else {
                laid_out(bytes, prefix, seq![0u8, len], data.take(len as int), padding, frame_len)
            })
        }),
{
    let at: int = if prefix is Some {
        1
    } else {
        0
    };
    if 8 <= frame_len <= 64 && len <= data.len() {
        if at + len <= 7 {
            padding_lays_out(prefix, seq![len], data.take(len as int), padding, frame_len);
        } else if at + 2 + len <= frame_len {
            padding_lays_out(prefix, seq![0u8, len], data.take(len as int), padding, frame_len);
        }
    }
}

/// A First Frame is for payloads of up to 4095 bytes that no Single Frame of this size can hold. It
/// gives their length in 12 bits behind the digit 1, and carries as many bytes as fit.
pub proof fn first_frame_layout(
    len: u16,
    data: Seq<u8>,
    padding: Option<u8>,
    prefix: Option<u8>,
    frame_len: int,
)
    ensures
        ({
            let at: int = if prefix is Some {
                1
            } else {
                0
            };
            let frame = frame_bytes(PduView::FirstFrame { len, data }, padding, prefix, frame_len);
            &&& frame is Some <==> 8 <= frame_len <= 64 && data.len() > 0 && len <= 4095 && at + len
                > (if frame_len == 8 {
                7
            } else {
                frame_len - 2
            })
            &&& frame matches Some(bytes) ==> {
                let kept = if data.len() <= frame_len - 2 - at {
                    data
                } else {
                    data.take(frame_len - 2 - at)
                };
                laid_out(
                    bytes,
                    prefix,
                    seq![(0x10 + len / 0x100) as u8, (len % 0x100) as u8],
                    kept,
                    padding,
                    frame_len,
                )
            }
        }),
{
    let at: int = if prefix is Some {
        1
    } else {
        0
    };
    if frame_bytes(PduView::FirstFrame { len, data }, padding, prefix, frame_len) is Some {
        let kept = if data.len() <= frame_len - 2 - at {
            data
        } else {
            data.take(frame_len - 2 - at)
        };
        let hi = (0x10 + len / 256) as u8;
        let lo = (len % 256) as u8;
        padding_lays_out(prefix, seq![hi, lo], kept, padding, frame_len);
    }
}

/// A Consecutive Frame carries its bytes behind the digit 2 and the last four bits of its number,
/// as long as they fit.
pub proof fn consecutive_frame_layout(
    sn: u8,
    data: Seq<u8>,
    padding: Option<u8>,
    prefix: Option<u8>,
    frame_len: int,
)
    ensures
        ({
            let at: int = if prefix is Some {
                1
            } else {
                0
            };
            let frame = frame_bytes(
                PduView::ConsecutiveFrame { sn, data },
                padding,
                prefix,
                frame_len,
            );
            &&& frame is Some <==> 8 <= frame_len <= 64 && at + 1 + data.len() <= frame_len
            &&& frame matches Some(bytes) ==> laid_out(
                bytes,
                prefix,
                seq![(0x20 + sn % 16) as u8],
                data,
                padding,
                frame_len,
            )
        }),
{
    if frame_bytes(
        PduView::ConsecutiveFrame { sn, data },
        padding,
        prefix,
        frame_len,
    ) is Some {
        let pci = (0x20 + sn % 16) as u8;
        padding_lays_out(prefix, seq![pci], data, padding, frame_len);
    }
}

/// A Flow Control frame can always be built. It is three bytes: the digit 3 and 0, 1 or 2 for clear
/// to send, wait and overflow; the block size; the separation time.
pub proof fn flow_control_layout(
    status: FlowStatus,
    block_size: u8,
    st_min: u8,
    padding: Option<u8>,
    prefix: Option<u8>,
    frame_len: int,
)
    ensures
        ({
            let frame = frame_bytes(
                PduView::FlowControl { status, block_size, st_min },
                padding,
                prefix,
                frame_len,
            );
            let first: u8 = match status {
                FlowStatus::ClearToSend => 0x30,
                FlowStatus::Wait => 0x31,
                FlowStatus::Overflow => 0x32,
            };
            &&& frame is Some <==> 8 <= frame_len <= 64
            &&& frame matches Some(bytes) ==> laid_out(
                bytes,
                prefix,
                seq![first, block_size, st_min],
                Seq::empty(),
                padding,
                frame_len,
            )
        }),
{
    if 8 <= frame_len <= 64 {
        let pci = seq![(0x30 + status.nibble()) as u8, block_size, st_min];
        padding_lays_out(prefix, pci, Seq::empty(), padding, frame_len);
        assert(pci + Seq::<u8>::empty() =~= pci);
    }
}

/// A frame can be read exactly when its first digit is that of a PDU and the frame holds all that
/// the PCI speaks of. A First Frame that announces no more than a Single Frame of its own size
/// holds cannot be read.
pub proof fn readable_frames(data: Seq<u8>, offset: int)
    ensures
        !(0 <= offset <= 1) || data.len() <= offset ==> parsed(data, offset) is None,
        0 <= offset <= 1 && data.len() > offset ==> ({
            let pci = data[offset];
            let long = pci == 0 && data.len() > 8;
            &&& long ==> (parsed(data, offset) is Some <==> offset + 2 + data[offset + 1]
                <= data.len())
            &&& !long && pci < 0x10 ==> (parsed(data, offset) is Some <==> pci <= 7 && offset + 1
                + pci <= data.len())
            &&& 0x10 <= pci < 0x20 ==> (parsed(data, offset) is Some <==> data.len() > offset + 1 && (
            pci - 0x10) * 256 + data[offset + 1] + offset > (if data.len() > 8 {
                data.len() - 2
            } else {
                7
            }))
            &&& 0x20 <= pci < 0x30 ==> parsed(data, offset) is Some
            &&& 0x30 <= pci < 0x40 ==> (parsed(data, offset) is Some <==> pci <= 0x32 && data.len()
                >= offset + 3)
            &&& 0x40 <= pci ==> parsed(data, offset) is None
        }),
{
}

/// What is read is what the bytes say: the first digit tells the kind, and the rest of the PCI the
/// length, the number or the parameters; the data stand behind it.
pub proof fn frames_are_read_by_their_bytes(data: Seq<u8>, offset: int)
    requires
        parsed(data, offset) is Some,
    ensures
        match parsed(data, offset)->0 {
            PduView::SingleFrame { len, data: got } => {
                &&& data[offset] < 0x10
                &&& got.len() == len
                &&& if data[offset] == 0 && data.len() > 8 {
                    len == data[offset + 1] && forall|i: int|
                        0 <= i < len ==> #[trigger] got[i] == data[offset + 2 + i]
                } else {
                    len == data[offset] && forall|i: int|
                        0 <= i < len ==> #[trigger] got[i] == data[offset + 1 + i]
                }
            },
            PduView::FirstFrame { len, data: got } => {
                &&& data[offset] * 256 + data[offset + 1] == 0x1000 + len
                &&& len <= 4095
                &&& got.len() == data.len() - offset - 2
                &&& forall|i: int| 0 <= i < got.len() ==> #[trigger] got[i] == data[offset + 2 + i]
            },
            PduView::ConsecutiveFrame { sn, data: got } => {
                &&& data[offset] == 0x20 + sn
                &&& sn <= 15
                &&& got.len() == data.len() - offset - 1
                &&& forall|i: int| 0 <= i < got.len() ==> #[trigger] got[i] == data[offset + 1 + i]
            },
            PduView::FlowControl { status, block_size, st_min } => {
                &&& data[offset] == (match status {
                    FlowStatus::ClearToSend => 0x30u8,
                    FlowStatus::Wait => 0x31u8,
                    FlowStatus::Overflow => 0x32u8,
                })
                &&& block_size == data[offset + 1]
                &&& st_min == data[offset + 2]
            },
        },
{
}

/// A node's frames go out under its own identifier and addressing byte, and it takes in exactly the
/// frames under the identifier, and with the addressing byte, that it listens to.
pub proof fn addressing_is_by_identifier_and_first_byte(
    cfg: IsoTpConfig,
    pdu: PduView,
    frame: id::FrameView,
)
    ensures
        frame_for(cfg, pdu) matches Some(sent) ==> sent.id == cfg.tx_id && (
        cfg.tx_addr matches Some(byte) ==> sent.data.len() > 0 && sent.data[0] == byte),
        frame_for(cfg, pdu) is Some <==> frame_bytes(
            pdu,
            cfg.padding,
            cfg.tx_addr,
            cfg.frame_len as int,
        ) is Some,
        addressed(cfg, frame) <==> frame.id == cfg.rx_id && (cfg.rx_addr is None || (frame.data.len()
            > 0 && cfg.rx_addr == Some(frame.data[0]))),
        pdu_in(cfg, frame.data) == parsed(
            frame.data,
            if cfg.rx_addr is Some {
                1
            } else {
                0
            },
        ),
{
}

/// Separation times on the wire: up to 127 whole milliseconds as their number, and 100 to 900
/// microseconds as 0xF1 to 0xF9. A time that is neither is rounded down to whole milliseconds, and
/// to 127 at most; bytes that stand for neither mean nothing.
pub proof fn separation_times_on_the_wire(raw: u8, nanos: nat)
    ensures
        raw < 0x80 ==> st_min_nanos(raw) == Some(raw as nat * 1_000_000),
        0xF1 <= raw <= 0xF9 ==> st_min_nanos(raw) == Some((raw - 0xF0) as nat * 100_000),
        0x80 <= raw <= 0xF0 || raw > 0xF9 ==> st_min_nanos(raw) is None,
        nanos >= 127_000_000 ==> st_min_byte(nanos) == 127,
        1_000_000 <= nanos < 127_000_000 ==> st_min_byte(nanos) * 1_000_000 <= nanos < st_min_byte(
            nanos,
        ) * 1_000_000 + 1_000_000,
        nanos < 1_000_000 ==> ({
            let hundreds = nanos / 100_000;
            let rest = nanos % 100_000;
            if hundreds > 0 && rest < 1_000 {
                st_min_byte(nanos) == 0xF0 + hundreds
            } else {
                st_min_byte(nanos) == 0
            }
        }),
{
}

/// A frame is built under the identifier given for it, exactly where the PDU is of a length that is
/// sent in such a frame and the frame has room for it.
pub proof fn frames_are_encoded_where_they_have_room(
    id: Id,
    pdu: &Pdu<'_>,
    padding: Option<u8>,
    prefix: Option<u8>,
    frame_len: usize,
    r: Result<Frame, IsoTpError<()>>,
)
    requires
        call_ensures(encode_with_prefix_sized, (id, pdu, padding, prefix, frame_len), r),
    ensures
        r matches Ok(frame) ==> frame.id == id && Some(frame.data@) == frame_bytes(
            pdu@,
            padding,
            prefix,
            frame_len as int,
        ),
        r matches Err(e) ==> e is InvalidFrame,
        frame_len < 8 || frame_len > 64 ==> r is Err,
        8 <= frame_len <= 64 ==> match pdu@ {
            PduView::SingleFrame { len, data } => r is Ok <==> len <= data.len() && len + (
            if prefix is Some {
                1int
            } else {
                0
            }) <= (if frame_len == 8 {
                7
            } else {
                frame_len - 2
            }),
            PduView::FirstFrame { len, data } => r is Ok <==> 0 < data.len() && len <= 4095 && len + (
            if prefix is Some {
                1int
            } else {
                0
            }) > (if frame_len == 8 {
                7
            } else {
                frame_len - 2
            }),
            PduView::ConsecutiveFrame { sn, data } => r is Ok <==> data.len() + 1 + (
            if prefix is Some {
                1int
            } else {
                0
            }) <= frame_len,
            PduView::FlowControl { .. } => r is Ok,
        },
{
}

/// Reading a frame gives what its bytes say from the PCI on, or an error where they say nothing.
pub proof fn frames_are_decoded(
    data: &[u8],
    offset: usize,
    r: Result<Pdu<'_>, IsoTpError<()>>,
    plain: Result<Pdu<'_>, IsoTpError<()>>,
)
    requires
        call_ensures(decode_with_offset, (data, offset), r),
        call_ensures(decode, (data,), plain),
    ensures
        r is Ok <==> parsed(data@, offset as int) is Some,
        r matches Ok(pdu) ==> parsed(data@, offset as int) == Some(pdu@),
        r matches Err(e) ==> e is InvalidFrame,
        offset > 1 ==> r is Err,
        plain is Ok <==> parsed(data@, 0) is Some,
        plain matches Ok(pdu) ==> parsed(data@, 0) == Some(pdu@),
{
}

/// Separation times are converted as the wire has them: a reserved byte is no time.
pub proof fn separation_times_are_converted(
    raw: u8,
    d: Option<Duration>,
    time: Duration,
    byte: u8,
)
    requires
        call_ensures(st_min_to_duration, (raw,), d),
        call_ensures(duration_to_st_min, (time,), byte),
    ensures
        d is None <==> 0x80 <= raw <= 0xF0 || raw > 0xF9,
        raw < 0x80 ==> d->0@ == raw * 1_000_000,
        0xF1 <= raw <= 0xF9 ==> d->0@ == (raw - 0xF0) * 100_000,
        time@ >= 127_000_000 ==> byte == 127,
        1_000_000 <= time@ < 127_000_000 ==> byte == time@ / 1_000_000,
{
}

} // verus!
