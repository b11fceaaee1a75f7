//! Kernel ISO-TP sockets: which settings a socket gets, and what follows each system call.

use crate::flags;
use crate::id::Id;
use crate::interface::RxFlowControl;
use crate::pdu;
use crate::pdu::{duration_to_st_min, st_min_to_duration};
use crate::time;
use crate::time::Duration;
use crate::uds29;
use crate::uds29::Uds29Kind;
use vstd::prelude::*;

verus! {

/// ISO-TP socket error type.
#[derive(Debug)]
pub enum Error {
    /// I/O error from the OS.
    Io(std::io::Error),
    /// Invalid configuration passed to the constructor.
    InvalidConfig(&'static str),
}

impl From<std::io::Error> for Error {
    fn from(err: std::io::Error) -> (r: Self) {
        Error::Io(err)
    }
}

impl vstd::std_specs::convert::FromSpecImpl<std::io::Error> for Error {
    open spec fn obeys_from_spec() -> bool {
        true
    }

    open spec fn from_spec(err: std::io::Error) -> Error {
        Error::Io(err)
    }
}

/// Socket-level ISO-TP options.
#[derive(Debug, Clone, Copy)]
pub struct IsoTpSocketOptions {
    /// Raw kernel flag bits (see [`flags`]).
    pub flags: u32,
    /// Frame transmit time (N_As/N_Ar) for the kernel in nanoseconds.
    pub frame_txtime: Option<Duration>,
    /// Extended addressing byte for TX and RX (normal extended addressing).
    pub ext_address: Option<u8>,
    /// Padding byte for transmit frames (enables TX padding flag).
    pub tx_padding: Option<u8>,
    /// Padding byte for receive frames (enables RX padding flag).
    pub rx_padding: Option<u8>,
    /// Separate RX extended address (enables RX_EXT_ADDR flag).
    pub rx_ext_address: Option<u8>,
}

impl Default for IsoTpSocketOptions {
    fn default() -> (r: Self)
        ensures
            r == (IsoTpSocketOptions {
                flags: 0,
                frame_txtime: None,
                ext_address: None,
                tx_padding: None,
                rx_padding: None,
                rx_ext_address: None,
            }),
    {
        IsoTpSocketOptions {
            flags: 0,
            frame_txtime: None,
            ext_address: None,
            tx_padding: None,
            rx_padding: None,
            rx_ext_address: None,
        }
    }
}

/// Flow control options advertised by the kernel.
#[derive(Debug, Clone, Copy)]
pub struct IsoTpFlowControlOptions {
    /// Block size (0 = unlimited).
    pub block_size: u8,
    /// STmin raw encoding as defined by ISO-TP.
    pub st_min: u8,
    /// Maximum number of wait frames.
    pub wft_max: u8,
}

impl IsoTpFlowControlOptions {
    /// Build a new flow control configuration.
    pub fn new(block_size: u8, st_min: u8, wft_max: u8) -> (r: Self)
        ensures
            r == (IsoTpFlowControlOptions { block_size, st_min, wft_max }),
    {
        IsoTpFlowControlOptions { block_size, st_min, wft_max }
    }
}

/// Link-layer options for kernel ISO-TP sockets.
#[derive(Debug, Clone, Copy)]
pub struct IsoTpLinkLayerOptions {
    /// CAN MTU to use (e.g. CAN_MTU or CANFD_MTU).
    pub mtu: u8,
    /// TX data length in bytes for CAN FD (8/12/16/20/24/32/48/64).
    pub tx_dl: u8,
    /// CAN FD flags (e.g. BRS).
    pub tx_flags: u8,
}

impl IsoTpLinkLayerOptions {
    /// Build a new link-layer configuration.
    pub fn new(mtu: u8, tx_dl: u8, tx_flags: u8) -> (r: Self)
        ensures
            r == (IsoTpLinkLayerOptions { mtu, tx_dl, tx_flags }),
    {
        IsoTpLinkLayerOptions { mtu, tx_dl, tx_flags }
    }
}

/// Kernel ISO-TP socket configuration.
#[derive(Debug, Clone, Copy)]
pub struct IsoTpKernelOptions {
    /// Maximum payload size to receive into the internal buffer.
    pub max_rx_payload: usize,
    /// Base ISO-TP socket options.
    pub socket: IsoTpSocketOptions,
    /// Flow control options (optional).
    pub flow_control: Option<IsoTpFlowControlOptions>,
    /// Link-layer options (optional).
    pub link_layer: Option<IsoTpLinkLayerOptions>,
    /// Force TX STmin (nanoseconds) regardless of FC frames.
    pub force_tx_stmin: Option<Duration>,
    /// Force RX STmin (nanoseconds) regardless of received CF timestamps.
    pub force_rx_stmin: Option<Duration>,
}

impl Default for IsoTpKernelOptions {
    fn default() -> (r: Self)
        ensures
            r == (IsoTpKernelOptions {
                max_rx_payload: 4095,
                socket: IsoTpSocketOptions {
                    flags: 0,
                    frame_txtime: None,
                    ext_address: None,
                    tx_padding: None,
                    rx_padding: None,
                    rx_ext_address: None,
                },
                flow_control: None,
                link_layer: None,
                force_tx_stmin: None,
                force_rx_stmin: None,
            }),
    {
        IsoTpKernelOptions {
            max_rx_payload: 4095,
            socket: IsoTpSocketOptions::default(),
            flow_control: None,
            link_layer: None,
            force_tx_stmin: None,
            force_rx_stmin: None,
        }
    }
}

impl IsoTpKernelOptions {
    /// Check that a socket can be opened with these options.
    pub fn check(&self) -> (r: Result<(), Error>)
        ensures
            r is Ok <==> self.max_rx_payload != 0,
            r matches Err(e) ==> e matches Error::InvalidConfig(why) && why@
                == "max_rx_payload must be > 0"@,
    {
        if self.max_rx_payload == 0 {
            return Err(Error::InvalidConfig("max_rx_payload must be > 0"));
        }
        Ok(())
    }

    /// Number of wait frames a socket with these options tolerates.
    pub fn wft_max(&self) -> (r: u8)
        ensures
            r == (match self.flow_control {
                Some(fc) => fc.wft_max,
                None => 0u8,
            }),
    {
        match self.flow_control {
            Some(fc) => fc.wft_max,
            None => 0,
        }
    }

    /// Receive-side flow control these options start with.
    pub open spec fn initial_flow_control(self) -> (u8, nat) {
        match self.flow_control {
            Some(fc) => (
                fc.block_size,
                match pdu::st_min_nanos(fc.st_min) {
                    Some(nanos) => nanos,
                    None => 0,
                },
            ),
            None => (0u8, 0),
        }
    }

    /// Receive-side flow control before anything else is asked for.
    ///
    /// A reserved STmin byte counts as no separation time.
    pub fn rx_flow_control(&self) -> (r: RxFlowControl)
        ensures
            (r.block_size, r.st_min@) == self.initial_flow_control(),
    {
        match self.flow_control {
            Some(fc) => {
                let st_min = match st_min_to_duration(fc.st_min) {
                    Some(d) => d,
                    None => Duration::from_millis(0),
                };
                RxFlowControl { block_size: fc.block_size, st_min }
            },
            None => RxFlowControl { block_size: 0, st_min: Duration::from_millis(0) },
        }
    }
}

/// Milliseconds that `poll` gets for a duration: whole milliseconds, at most `i32::MAX`.
pub open spec fn poll_millis(left: Duration) -> int {
    if left@ / 1_000_000 <= i32::MAX {
        (left@ / 1_000_000) as int
    } else {
        i32::MAX as int
    }
}

/// Milliseconds to wait in one `poll` call.
pub fn duration_to_poll_timeout(timeout: Duration) -> (r: i32)
    ensures
        r == poll_millis(timeout),
{
    let ms: u128 = timeout.as_millis();
    if ms <= 0x7FFF_FFFF {
        ms as i32
    } else {
        i32::MAX
    }
}

/// Nanoseconds of a duration, at most `u32::MAX`.
pub open spec fn clamped_nanos(d: Duration) -> u32 {
    if d@ <= u32::MAX {
        d@ as u32
    } else {
        u32::MAX
    }
}

/// A duration in nanoseconds, clamped to what 32 bits hold.
pub fn duration_to_nanos_u32(d: Duration) -> (r: u32)
    ensures
        r == clamped_nanos(d),
{
    let nanos: u128 = d.as_nanos();
    if nanos <= 0xFFFF_FFFF {
        nanos as u32
    } else {
        u32::MAX
    }
}

/// The separation time that an STmin byte stands for; `None` for a reserved byte.
pub fn isotp_stmin_to_duration(raw: u8) -> (r: Option<Duration>)
    ensures
        match r {
            Some(d) => pdu::st_min_nanos(raw) == Some(d@) && d == time::span(d@),
            None => pdu::st_min_nanos(raw) is None,
        },
{
    st_min_to_duration(raw)
}

/// The STmin byte for a separation time.
pub fn duration_to_isotp_stmin(duration: Duration) -> (r: u8)
    ensures
        r == pdu::st_min_byte(duration@),
{
    duration_to_st_min(duration)
}

/// The identifier of a physically addressed UDS message.
pub fn uds_phys_id(target: u8, source: u8) -> (r: Id)
    ensures
        r is Extended,
        r.raw() == uds29::PHYS_BASE + target * 0x100 + source,
        r == uds29::uds_id(Uds29Kind::Physical, target, source),
{
    uds29::encode_phys_id(target, source)
}

/// Base options of a socket, as the kernel reads them (`struct can_isotp_options`).
#[derive(Debug, Clone, Copy, PartialEq, Eq, Structural)]
pub struct CanIsotpOptions {
    /// Flag bits.
    pub flags: u32,
    /// Frame transmit time in nanoseconds.
    pub frame_txtime: u32,
    /// Extended addressing byte.
    pub ext_address: u8,
    /// Padding byte of sent frames.
    pub txpad_content: u8,
    /// Padding byte of received frames.
    pub rxpad_content: u8,
    /// Extended addressing byte of received frames.
    pub rx_ext_address: u8,
}

/// Flow control options of a socket, as the kernel reads them (`struct can_isotp_fc_options`).
#[derive(Debug, Clone, Copy, PartialEq, Eq, Structural)]
pub struct CanIsotpFcOptions {
    /// Block size.
    pub bs: u8,
    /// STmin byte.
    pub stmin: u8,
    /// Maximum number of wait frames.
    pub wftmax: u8,
}

/// Link-layer options of a socket, as the kernel reads them (`struct can_isotp_ll_options`).
#[derive(Debug, Clone, Copy, PartialEq, Eq, Structural)]
pub struct CanIsotpLlOptions {
    /// CAN MTU.
    pub mtu: u8,
    /// TX data length.
    pub tx_dl: u8,
    /// CAN FD flags.
    pub tx_flags: u8,
}

/// Option number of the base options.
pub const CAN_ISOTP_OPTS: i32 = 1;

/// Option number of the flow control options.
pub const CAN_ISOTP_RECV_FC: i32 = 2;

/// Option number of the forced TX STmin.
pub const CAN_ISOTP_TX_STMIN: i32 = 3;

/// Option number of the forced RX STmin.
pub const CAN_ISOTP_RX_STMIN: i32 = 4;

/// Option number of the link-layer options.
pub const CAN_ISOTP_LL_OPTS: i32 = 5;

/// `flags` with `bit` set if `on`.
pub open spec fn with_flag(flags: u32, on: bool, bit: u32) -> u32 {
    if on {
        flags | bit
    } else {
        flags
    }
}

/// Flag bits of a socket: those asked for, and one for each address and padding byte given.
pub open spec fn socket_flags(opts: IsoTpSocketOptions) -> u32 {
    with_flag(
        with_flag(
            with_flag(
                with_flag(opts.flags, opts.ext_address is Some, flags::CAN_ISOTP_EXTEND_ADDR),
                opts.tx_padding is Some,
                flags::CAN_ISOTP_TX_PADDING,
            ),
            opts.rx_padding is Some,
            flags::CAN_ISOTP_RX_PADDING,
        ),
        opts.rx_ext_address is Some,
        flags::CAN_ISOTP_RX_EXT_ADDR,
    )
}

/// The byte, or zero if none is given.
pub open spec fn byte_or_zero(byte: Option<u8>) -> u8 {
    match byte {
        Some(b) => b,
        None => 0,
    }
}

/// The base options that the socket options ask for.
pub open spec fn base_options(opts: IsoTpSocketOptions) -> CanIsotpOptions {
    CanIsotpOptions {
        flags: socket_flags(opts),
        frame_txtime: match opts.frame_txtime {
            Some(d) => clamped_nanos(d),
            None => 0,
        },
        ext_address: byte_or_zero(opts.ext_address),
        txpad_content: byte_or_zero(opts.tx_padding),
        rxpad_content: byte_or_zero(opts.rx_padding),
        rx_ext_address: byte_or_zero(opts.rx_ext_address),
    }
}

fn or_zero(byte: Option<u8>) -> (r: u8)
    ensures
        r == byte_or_zero(byte),
{
    match byte {
        Some(b) => b,
        None => 0,
    }
}

/// Lay the socket options out as the kernel reads them.
pub fn build_can_isotp_options(opts: &IsoTpSocketOptions) -> (r: CanIsotpOptions)
    ensures
        r == base_options(*opts),
{
    let mut flags: u32 = opts.flags;
    if opts.ext_address.is_some() {
        flags = flags | flags::CAN_ISOTP_EXTEND_ADDR;
    }
    if opts.tx_padding.is_some() {
        flags = flags | flags::CAN_ISOTP_TX_PADDING;
    }
    if opts.rx_padding.is_some() {
        flags = flags | flags::CAN_ISOTP_RX_PADDING;
    }
    if opts.rx_ext_address.is_some() {
        flags = flags | flags::CAN_ISOTP_RX_EXT_ADDR;
    }
    let frame_txtime: u32 = match opts.frame_txtime {
        Some(d) => duration_to_nanos_u32(d),
        None => 0,
    };
    CanIsotpOptions {
        flags,
        frame_txtime,
        ext_address: or_zero(opts.ext_address),
        txpad_content: or_zero(opts.tx_padding),
        rxpad_content: or_zero(opts.rx_padding),
        rx_ext_address: or_zero(opts.rx_ext_address),
    }
}

/// A socket has the flag of every address and padding byte that it was given, every flag that was
/// asked for, and no other.
pub proof fn flags_follow_the_options(opts: IsoTpSocketOptions)
    ensures
        opts.ext_address is Some ==> socket_flags(opts) & flags::CAN_ISOTP_EXTEND_ADDR != 0,
        opts.tx_padding is Some ==> socket_flags(opts) & flags::CAN_ISOTP_TX_PADDING != 0,
        opts.rx_padding is Some ==> socket_flags(opts) & flags::CAN_ISOTP_RX_PADDING != 0,
        opts.rx_ext_address is Some ==> socket_flags(opts) & flags::CAN_ISOTP_RX_EXT_ADDR != 0,
        opts.flags & socket_flags(opts) == opts.flags,
        forall|bit: u32|
            #![trigger socket_flags(opts) & bit]
            opts.flags & bit == 0 && (opts.ext_address is Some ==> bit
                & flags::CAN_ISOTP_EXTEND_ADDR == 0) && (opts.tx_padding is Some ==> bit
                & flags::CAN_ISOTP_TX_PADDING == 0) && (opts.rx_padding is Some ==> bit
                & flags::CAN_ISOTP_RX_PADDING == 0) && (opts.rx_ext_address is Some ==> bit
                & flags::CAN_ISOTP_RX_EXT_ADDR == 0) ==> socket_flags(opts) & bit == 0,
{
    let ext = opts.ext_address is Some;
    let tx = opts.tx_padding is Some;
    let rx = opts.rx_padding is Some;
    let rx_ext = opts.rx_ext_address is Some;
    let base = opts.flags;
    let f1 = with_flag(base, ext, flags::CAN_ISOTP_EXTEND_ADDR);
    let f2 = with_flag(f1, tx, flags::CAN_ISOTP_TX_PADDING);
    let f3 = with_flag(f2, rx, flags::CAN_ISOTP_RX_PADDING);
    let f4 = with_flag(f3, rx_ext, flags::CAN_ISOTP_RX_EXT_ADDR);
    assert(f4 == socket_flags(opts));
    assert((ext ==> f4 & 0x2u32 != 0) && (tx ==> f4 & 0x4u32 != 0) && (rx ==> f4 & 0x8u32 != 0)
        && (rx_ext ==> f4 & 0x200u32 != 0) && base & f4 == base) by (bit_vector)
        requires
            f1 == (if ext { base | 0x2u32 } else { base }),
            f2 == (if tx { f1 | 0x4u32 } else { f1 }),
            f3 == (if rx { f2 | 0x8u32 } else { f2 }),
            f4 == (if rx_ext { f3 | 0x200u32 } else { f3 }),
    ;
    assert forall|bit: u32|
        #![trigger socket_flags(opts) & bit]
        opts.flags & bit == 0 && (opts.ext_address is Some ==> bit & flags::CAN_ISOTP_EXTEND_ADDR
            == 0) && (opts.tx_padding is Some ==> bit & flags::CAN_ISOTP_TX_PADDING == 0) && (
        opts.rx_padding is Some ==> bit & flags::CAN_ISOTP_RX_PADDING == 0) && (
        opts.rx_ext_address is Some ==> bit & flags::CAN_ISOTP_RX_EXT_ADDR
            == 0) implies socket_flags(opts) & bit == 0 by {
        assert(f4 & bit == 0) by (bit_vector)
            requires
                base & bit == 0,
                ext ==> bit & 0x2u32 == 0,
                tx ==> bit & 0x4u32 == 0,
                rx ==> bit & 0x8u32 == 0,
                rx_ext ==> bit & 0x200u32 == 0,
                f1 == (if ext { base | 0x2u32 } else { base }),
                f2 == (if tx { f1 | 0x4u32 } else { f1 }),
                f3 == (if rx { f2 | 0x8u32 } else { f2 }),
                f4 == (if rx_ext { f3 | 0x200u32 } else { f3 }),
        ;
    }
}

/// One setting of a socket.
#[derive(Debug, Clone, Copy, PartialEq, Eq, Structural)]
pub enum KernelSetting {
    /// Transmit time in nanoseconds, a socket-level option.
    TxTime(u32),
    /// Base options.
    Base(CanIsotpOptions),
    /// Flow control options.
    RecvFc(CanIsotpFcOptions),
    /// Forced TX STmin in nanoseconds.
    TxStMin(u32),
    /// Forced RX STmin in nanoseconds.
    RxStMin(u32),
    /// Link-layer options.
    LinkLayer(CanIsotpLlOptions),
}

impl KernelSetting {
    /// Option number at the ISO-TP level; `None` for the socket-level transmit time.
    pub fn isotp_option(&self) -> (r: Option<i32>)
        ensures
            r == (match *self {
                KernelSetting::TxTime(_) => None::<i32>,
                KernelSetting::Base(_) => Some(CAN_ISOTP_OPTS),
                KernelSetting::RecvFc(_) => Some(CAN_ISOTP_RECV_FC),
                KernelSetting::TxStMin(_) => Some(CAN_ISOTP_TX_STMIN),
                KernelSetting::RxStMin(_) => Some(CAN_ISOTP_RX_STMIN),
                KernelSetting::LinkLayer(_) => Some(CAN_ISOTP_LL_OPTS),
            }),
    {
        match self {
            KernelSetting::TxTime(_) => None,
            KernelSetting::Base(_) => Some(CAN_ISOTP_OPTS),
            KernelSetting::RecvFc(_) => Some(CAN_ISOTP_RECV_FC),
            KernelSetting::TxStMin(_) => Some(CAN_ISOTP_TX_STMIN),
            KernelSetting::RxStMin(_) => Some(CAN_ISOTP_RX_STMIN),
            KernelSetting::LinkLayer(_) => Some(CAN_ISOTP_LL_OPTS),
        }
    }
}

/// The setting on its own, or nothing.
pub open spec fn if_asked(setting: Option<KernelSetting>) -> Seq<KernelSetting> {
    match setting {
        Some(s) => seq![s],
        None => seq![],
    }
}

/// Transmit time, if asked for.
pub open spec fn tx_time_setting(options: IsoTpKernelOptions) -> Option<KernelSetting> {
    match options.socket.frame_txtime {
        Some(d) => Some(KernelSetting::TxTime(clamped_nanos(d))),
        None => None,
    }
}

/// Flow control, if asked for.
pub open spec fn recv_fc_setting(options: IsoTpKernelOptions) -> Option<KernelSetting> {
    match options.flow_control {
        Some(fc) => Some(
            KernelSetting::RecvFc(
                CanIsotpFcOptions { bs: fc.block_size, stmin: fc.st_min, wftmax: fc.wft_max },
            ),
        ),
        None => None,
    }
}

/// Forced TX STmin, if asked for.
pub open spec fn tx_st_min_setting(options: IsoTpKernelOptions) -> Option<KernelSetting> {
    match options.force_tx_stmin {
        Some(d) => Some(KernelSetting::TxStMin(clamped_nanos(d))),
        None => None,
    }
}

/// Forced RX STmin, if asked for.
pub open spec fn rx_st_min_setting(options: IsoTpKernelOptions) -> Option<KernelSetting> {
    match options.force_rx_stmin {
        Some(d) => Some(KernelSetting::RxStMin(clamped_nanos(d))),
        None => None,
    }
}

/// Link-layer options, if asked for.
pub open spec fn link_layer_setting(options: IsoTpKernelOptions) -> Option<KernelSetting> {
    match options.link_layer {
        Some(ll) => Some(
            KernelSetting::LinkLayer(
                CanIsotpLlOptions { mtu: ll.mtu, tx_dl: ll.tx_dl, tx_flags: ll.tx_flags },
            ),
        ),
        None => None,
    }
}

/// The settings of a socket in the order in which they are made.
pub open spec fn settings(options: IsoTpKernelOptions) -> Seq<KernelSetting> {
    if_asked(tx_time_setting(options)) + seq![KernelSetting::Base(base_options(options.socket))]
        + if_asked(recv_fc_setting(options)) + if_asked(tx_st_min_setting(options)) + if_asked(
        rx_st_min_setting(options),
    ) + if_asked(link_layer_setting(options))
}

/// The settings to make on a new socket, in order, before it is bound.
pub fn apply_kernel_options(options: &IsoTpKernelOptions) -> (r: Vec<KernelSetting>)
    ensures
        r@ == settings(*options),
{
    let mut out: Vec<KernelSetting> = Vec::new();
    if let Some(txtime) = options.socket.frame_txtime {
        out.push(KernelSetting::TxTime(duration_to_nanos_u32(txtime)));
    }
    assert(out@ =~= if_asked(tx_time_setting(*options)));
    out.push(KernelSetting::Base(build_can_isotp_options(&options.socket)));
    let ghost first = out@;
    if let Some(fc) = options.flow_control {
        out.push(
            KernelSetting::RecvFc(
                CanIsotpFcOptions { bs: fc.block_size, stmin: fc.st_min, wftmax: fc.wft_max },
            ),
        );
    }
    assert(out@ =~= first + if_asked(recv_fc_setting(*options)));
    let ghost second = out@;
    if let Some(stmin) = options.force_tx_stmin {
        out.push(KernelSetting::TxStMin(duration_to_nanos_u32(stmin)));
    }
    assert(out@ =~= second + if_asked(tx_st_min_setting(*options)));
    let ghost third = out@;
    if let Some(stmin) = options.force_rx_stmin {
        out.push(KernelSetting::RxStMin(duration_to_nanos_u32(stmin)));
    }
    assert(out@ =~= third + if_asked(rx_st_min_setting(*options)));
    let ghost fourth = out@;
    if let Some(ll) = options.link_layer {
        out.push(
            KernelSetting::LinkLayer(
                CanIsotpLlOptions { mtu: ll.mtu, tx_dl: ll.tx_dl, tx_flags: ll.tx_flags },
            ),
        );
    }
    assert(out@ =~= fourth + if_asked(link_layer_setting(*options)));
    out
}

/// The setting that changes the receive-side flow control of an open socket.
pub fn flow_control_setting(fc: RxFlowControl, wft_max: u8) -> (r: KernelSetting)
    ensures
        r == KernelSetting::RecvFc(
            CanIsotpFcOptions {
                bs: fc.block_size,
                stmin: pdu::st_min_byte(fc.st_min@),
                wftmax: wft_max,
            },
        ),
{
    KernelSetting::RecvFc(
        CanIsotpFcOptions {
            bs: fc.block_size,
            stmin: duration_to_isotp_stmin(fc.st_min),
            wftmax: wft_max,
        },
    )
}

/// What a non-blocking system call on a socket came to.
#[derive(Debug, Clone, Copy, PartialEq, Eq, Structural)]
pub enum CallOutcome {
    /// It moved this many bytes.
    Moved(usize),
    /// It was interrupted by a signal.
    Interrupted,
    /// It would have had to wait.
    WouldBlock,
    /// It failed for another reason.
    Failed,
}

/// What to do after a call that receives.
#[derive(Debug, Clone, Copy, PartialEq, Eq, Structural)]
pub enum RecvNext {
    /// Hand out the payload, of this many bytes.
    Deliver(usize),
    /// Report that the socket returned no bytes.
    Eof,
    /// Call again at once.
    Retry,
    /// Wait for the socket for at most this many milliseconds, then call again if it is ready.
    Wait(i32),
    /// Report that nothing arrived in time.
    TimedOut,
    /// Report the failure.
    Fail,
}

/// What to do after a call that sends.
#[derive(Debug, Clone, Copy, PartialEq, Eq, Structural)]
pub enum SendNext {
    /// Report success.
    Done,
    /// Call again at once.
    Retry,
    /// Wait for the socket for at most this many milliseconds, then call again if it is ready.
    Wait(i32),
    /// Report that the deadline passed.
    TimedOut,
    /// Report the failure.
    Fail,
}

/// What follows a receiving call when `left` is the time until the deadline, or `None` from the
/// deadline on.
pub fn recv_next(outcome: CallOutcome, left: Option<Duration>) -> (r: RecvNext)
    ensures
        match outcome {
            CallOutcome::Moved(n) => r == (if n == 0 {
                RecvNext::Eof
            } else {
                RecvNext::Deliver(n)
            }),
            CallOutcome::Interrupted => r == RecvNext::Retry,
            CallOutcome::Failed => r == RecvNext::Fail,
            CallOutcome::WouldBlock => match left {
                None => r == RecvNext::TimedOut,
                Some(d) => r matches RecvNext::Wait(ms) && ms == poll_millis(d),
            },
        },
{
    match outcome {
        CallOutcome::Moved(n) => if n == 0 {
            RecvNext::Eof
        } else {
            RecvNext::Deliver(n)
        },
        CallOutcome::Interrupted => RecvNext::Retry,
        CallOutcome::Failed => RecvNext::Fail,
        CallOutcome::WouldBlock => match left {
            None => RecvNext::TimedOut,
            Some(d) => RecvNext::Wait(duration_to_poll_timeout(d)),
        },
    }
}

/// What follows a receiving call on a socket that was reported ready: it is not called again.
pub fn recv_one_ready(outcome: CallOutcome) -> (r: RecvNext)
    ensures
        r == (match outcome {
            CallOutcome::Moved(n) => if n == 0 {
                RecvNext::Eof
            } else {
                RecvNext::Deliver(n)
            },
            CallOutcome::WouldBlock => RecvNext::TimedOut,
            CallOutcome::Interrupted => RecvNext::Fail,
            CallOutcome::Failed => RecvNext::Fail,
        }),
{
    match outcome {
        CallOutcome::Moved(n) => if n == 0 {
            RecvNext::Eof
        } else {
            RecvNext::Deliver(n)
        },
        CallOutcome::WouldBlock => RecvNext::TimedOut,
        CallOutcome::Interrupted => RecvNext::Fail,
        CallOutcome::Failed => RecvNext::Fail,
    }
}

/// What follows a sending call when `left` is the time until the deadline, or `None` from the
/// deadline on.
pub fn send_next(outcome: CallOutcome, left: Option<Duration>) -> (r: SendNext)
    ensures
        match outcome {
            CallOutcome::Moved(_) => r == SendNext::Done,
            CallOutcome::Interrupted => r == SendNext::Retry,
            CallOutcome::Failed => r == SendNext::Fail,
            CallOutcome::WouldBlock => match left {
                None => r == SendNext::TimedOut,
                Some(d) => r matches SendNext::Wait(ms) && ms == poll_millis(d),
            },
        },
{
    match outcome {
        CallOutcome::Moved(_) => SendNext::Done,
        CallOutcome::Interrupted => SendNext::Retry,
        CallOutcome::Failed => SendNext::Fail,
        CallOutcome::WouldBlock => match left {
            None => SendNext::TimedOut,
            Some(d) => SendNext::Wait(duration_to_poll_timeout(d)),
        },
    }
}

/// What `poll` reported of one socket.
#[derive(Debug, Clone, Copy, PartialEq, Eq, Structural)]
pub struct PollEvents {
    /// Data can be read.
    pub readable: bool,
    /// The socket is in error, hung up or invalid.
    pub failed: bool,
}

/// What to do with a set of polled sockets.
#[derive(Debug, Clone, Copy, PartialEq, Eq, Structural)]
pub enum PollStep {
    /// Receive from the socket at this place.
    Receive(usize),
    /// Report a failed socket.
    Fail,
    /// Report that nothing arrived.
    TimedOut,
}

/// Whether a step is what these reports ask for: the first socket that has anything to report
/// decides.
pub open spec fn is_poll_step(events: Seq<PollEvents>, r: PollStep) -> bool {
    match r {
        PollStep::TimedOut => forall|i: int|
            0 <= i < events.len() ==> !(#[trigger] events[i]).readable && !events[i].failed,
        PollStep::Receive(n) => n < events.len() && events[n as int].readable && forall|i: int|
            0 <= i < n ==> !(#[trigger] events[i]).readable && !events[i].failed,
        PollStep::Fail => exists|n: int|
            0 <= n < events.len() && !(#[trigger] events[n]).readable && events[n].failed
                && forall|i: int|
                0 <= i < n ==> !(#[trigger] events[i]).readable && !events[i].failed,
    }
}

/// The first socket that has anything to report decides; being readable goes before failing.
pub fn poll_step(events: &[PollEvents]) -> (r: PollStep)
    ensures
        is_poll_step(events@, r),
{
    let mut i: usize = 0;
    while i < events.len()
        invariant
            i <= events@.len(),
            forall|k: int|
                0 <= k < i ==> !(#[trigger] events@[k]).readable && !events@[k].failed,
        decreases events@.len() - i,
    {
        if events[i].readable {
            return PollStep::Receive(i);
        }
        if events[i].failed {
            assert(!events@[i as int].readable && events@[i as int].failed);
            return PollStep::Fail;
        }
        i += 1;
    }
    PollStep::TimedOut
}

/// What registering a peer takes.
#[derive(Debug, Clone, Copy, PartialEq, Eq, Structural)]
pub enum PeerSlot {
    /// The peer has the socket at this place.
    Known(usize),
    /// A socket with these identifiers has to be opened for it.
    Open {
        /// Identifier received under.
        rx_id: Id,
        /// Identifier sent under.
        tx_id: Id,
    },
}

/// Demux over one kernel ISO-TP socket per peer, for UDS normal-fixed addressing
/// (`0x18DA_TA_SA`): which peers have a socket, and in which place.
#[derive(Debug)]
pub struct KernelUdsDemux {
    local_addr: u8,
    rx_flow_control: RxFlowControl,
    peers: Vec<u8>,
}

/// What a demux knows.
pub struct KernelUdsModel {
    /// Address of this node.
    pub local: u8,
    /// Flow control that sockets get.
    pub fc: RxFlowControl,
    /// Peers with a socket, in the order in which they were registered.
    pub peers: Seq<u8>,
}

impl View for KernelUdsDemux {
    type V = KernelUdsModel;

    closed spec fn view(&self) -> KernelUdsModel {
        KernelUdsModel { local: self.local_addr, fc: self.rx_flow_control, peers: self.peers@ }
    }
}

impl KernelUdsModel {
    /// No peer occurs twice, and none is this node itself.
    pub open spec fn wf(self) -> bool {
        &&& self.peers.no_duplicates()
        &&& !self.peers.contains(self.local)
    }
}

impl KernelUdsDemux {
    /// Create a demux for `local_addr` using the provided kernel options.
    pub fn new(local_addr: u8, options: &IsoTpKernelOptions) -> (r: Self)
        ensures
            r@.wf(),
            r@.local == local_addr,
            r@.peers == Seq::<u8>::empty(),
            (r@.fc.block_size, r@.fc.st_min@) == options.initial_flow_control(),
    {
        KernelUdsDemux {
            local_addr,
            rx_flow_control: options.rx_flow_control(),
            peers: Vec::new(),
        }
    }

    /// UDS local address (target address).
    pub fn local_addr(&self) -> (r: u8)
        ensures
            r == self@.local,
    {
        self.local_addr
    }

    /// Flow control that sockets get.
    pub fn rx_flow_control(&self) -> (r: RxFlowControl)
        ensures
            r == self@.fc,
    {
        self.rx_flow_control
    }

    /// Change the flow control that sockets get.
    pub fn set_rx_flow_control(&mut self, fc: RxFlowControl)
        ensures
            final(self)@ == (KernelUdsModel { fc, ..old(self)@ }),
    {
        self.rx_flow_control = fc;
    }

    /// The socket of a peer, or the identifiers to open one with.
    pub fn ensure_peer(&self, peer: u8) -> (r: Result<PeerSlot, Error>)
        requires
            self@.wf(),
        ensures
            r is Err <==> peer == self@.local,
            r matches Err(e) ==> e matches Error::InvalidConfig(why) && why@
                == "peer address must differ from local_addr"@,
            r matches Ok(PeerSlot::Known(i)) ==> i < self@.peers.len() && self@.peers[i as int]
                == peer,
            r matches Ok(PeerSlot::Open { rx_id, tx_id }) ==> !self@.peers.contains(peer) && rx_id
                == uds29::uds_id(Uds29Kind::Physical, self@.local, peer) && tx_id
                == uds29::uds_id(Uds29Kind::Physical, peer, self@.local),
    {
        if peer == self.local_addr {
            return Err(Error::InvalidConfig("peer address must differ from local_addr"));
        }
        let mut i: usize = 0;
        while i < self.peers.len()
            invariant
                i <= self.peers@.len(),
                peer != self.local_addr,
                forall|k: int| 0 <= k < i ==> self.peers@[k] != peer,
            decreases self.peers@.len() - i,
        {
            if self.peers[i] == peer {
                return Ok(PeerSlot::Known(i));
            }
            i += 1;
        }
        Ok(
            PeerSlot::Open {
                rx_id: uds_phys_id(self.local_addr, peer),
                tx_id: uds_phys_id(peer, self.local_addr),
            },
        )
    }

    /// Note that a socket was opened for a peer; it takes the next place.
    pub fn register_peer(&mut self, peer: u8) -> (r: usize)
        requires
            old(self)@.wf(),
            peer != old(self)@.local,
            !old(self)@.peers.contains(peer),
        ensures
            final(self)@.wf(),
            final(self)@ == (KernelUdsModel {
                peers: old(self)@.peers.push(peer),
                ..old(self)@
            }),
            r == old(self)@.peers.len(),
    {
        let place: usize = self.peers.len();
        self.peers.push(peer);
        proof {
            let before = old(self)@.peers;
            let after = self.peers@;
            assert(after =~= before.push(peer));
            assert forall|i: int, j: int| 0 <= i < j < after.len() implies after[i] != after[j] by {
                if j == before.len() {
                    assert(before.contains(after[i]));
                }
            }
            if after.contains(self.local_addr) {
                let k = choose|k: int| 0 <= k < after.len() && after[k] == self.local_addr;
                assert(k < before.len());
                assert(before[k] == self.local_addr);
                assert(before.contains(self.local_addr));
            }
        }
        place
    }

    /// The peer whose socket is at this place.
    pub fn peer_at(&self, place: usize) -> (r: Option<u8>)
        ensures
            r == (if place < self@.peers.len() {
                Some(self@.peers[place as int])
            } else {
                None::<u8>
            }),
    {
        if place < self.peers.len() {
            Some(self.peers[place])
        } else {
            None
        }
    }

    /// Number of peers with a socket.
    pub fn peer_count(&self) -> (r: usize)
        ensures
            r == self@.peers.len(),
    {
        self.peers.len()
    }
}

/// The sockets of different peers listen under different identifiers, and send under different
/// ones.
pub proof fn peers_have_their_own_identifiers(local: u8, a: u8, b: u8)
    requires
        a != b,
    ensures
        uds29::uds_id(Uds29Kind::Physical, local, a) != uds29::uds_id(
            Uds29Kind::Physical,
            local,
            b,
        ),
        uds29::uds_id(Uds29Kind::Physical, a, local) != uds29::uds_id(
            Uds29Kind::Physical,
            b,
            local,
        ),
{
    uds29::address_of_uds_id(Uds29Kind::Physical, local, a);
    uds29::address_of_uds_id(Uds29Kind::Physical, local, b);
    uds29::address_of_uds_id(Uds29Kind::Physical, a, local);
    uds29::address_of_uds_id(Uds29Kind::Physical, b, local);
}

/// The place of a kind of setting in the order in which settings are made: the transmit time first,
/// then the base options, flow control, forced separation times, and the link layer.
pub open spec fn setting_place(setting: KernelSetting) -> int {
    match setting {
        KernelSetting::TxTime(_) => 0,
        KernelSetting::Base(_) => 1,
        KernelSetting::RecvFc(_) => 2,
        KernelSetting::TxStMin(_) => 3,
        KernelSetting::RxStMin(_) => 4,
        KernelSetting::LinkLayer(_) => 5,
    }
}

/// The settings made on a socket are exactly those that were asked for, each with the value asked
/// for and once, in their order, and always the base options. Times are given in nanoseconds, and
/// what 32 bits cannot hold as the most that they can.
pub proof fn settings_are_what_was_asked_for(options: IsoTpKernelOptions, s: KernelSetting)
    ensures
        settings(options).contains(s) <==> match s {
            KernelSetting::TxTime(n) => options.socket.frame_txtime matches Some(d) && n == (if d@
                > 0xFFFF_FFFF {
                0xFFFF_FFFF
            } else {
                d@
            }),
            KernelSetting::Base(base) => base == base_options(options.socket),
            KernelSetting::RecvFc(fc) => options.flow_control matches Some(asked) && fc.bs
                == asked.block_size && fc.stmin == asked.st_min && fc.wftmax == asked.wft_max,
            KernelSetting::TxStMin(n) => options.force_tx_stmin matches Some(d) && n == (if d@
                > 0xFFFF_FFFF {
                0xFFFF_FFFF
            } else {
                d@
            }),
            KernelSetting::RxStMin(n) => options.force_rx_stmin matches Some(d) && n == (if d@
                > 0xFFFF_FFFF {
                0xFFFF_FFFF
            } else {
                d@
            }),
            KernelSetting::LinkLayer(ll) => options.link_layer matches Some(asked) && ll.mtu
                == asked.mtu && ll.tx_dl == asked.tx_dl && ll.tx_flags == asked.tx_flags,
        },
        forall|i: int, j: int|
            0 <= i < j < settings(options).len() ==> setting_place(#[trigger] settings(options)[i])
                < setting_place(#[trigger] settings(options)[j]),
{
    let all = settings(options);
    let a = if_asked(tx_time_setting(options));
    let c = if_asked(recv_fc_setting(options));
    let d = if_asked(tx_st_min_setting(options));
    let e = if_asked(rx_st_min_setting(options));
    let f = if_asked(link_layer_setting(options));
    let base = KernelSetting::Base(base_options(options.socket));
    assert(all[a.len() as int] == base);
    if a.len() > 0 {
        assert(all[0] == a[0]);
    }
    let at = (a.len() + 1) as int;
    if c.len() > 0 {
        assert(all[at] == c[0]);
    }
    if d.len() > 0 {
        assert(all[at + c.len()] == d[0]);
    }
    if e.len() > 0 {
        assert(all[at + c.len() + d.len()] == e[0]);
    }
    if f.len() > 0 {
        assert(all[at + c.len() + d.len() + e.len()] == f[0]);
    }
}

/// The base options hold the bytes that were given, zero where none was, and the flags that were
/// asked for together with the flag of each byte that was given: 2 and 0x200 for the two addressing
/// bytes, 4 and 8 for the padding of the two directions.
pub proof fn base_options_hold_what_was_given(opts: IsoTpSocketOptions)
    ensures
        ({
            let base = base_options(opts);
            &&& opts.ext_address matches Some(b) ==> base.ext_address == b
            &&& opts.ext_address is None ==> base.ext_address == 0
            &&& opts.tx_padding matches Some(b) ==> base.txpad_content == b
            &&& opts.tx_padding is None ==> base.txpad_content == 0
            &&& opts.rx_padding matches Some(b) ==> base.rxpad_content == b
            &&& opts.rx_padding is None ==> base.rxpad_content == 0
            &&& opts.rx_ext_address matches Some(b) ==> base.rx_ext_address == b
            &&& opts.rx_ext_address is None ==> base.rx_ext_address == 0
            &&& opts.frame_txtime matches Some(d) ==> base.frame_txtime == (if d@ > 0xFFFF_FFFF {
                0xFFFF_FFFF
            } else {
                d@
            })
            &&& opts.frame_txtime is None ==> base.frame_txtime == 0
            &&& base.flags == opts.flags | (if opts.ext_address is Some {
                2u32
            } else {
                0
            }) | (if opts.tx_padding is Some {
                4u32
            } else {
                0
            }) | (if opts.rx_padding is Some {
                8u32
            } else {
                0
            }) | (if opts.rx_ext_address is Some {
                0x200u32
            } else {
                0
            })
        }),
{
    assert(forall|x: u32| #[trigger] (x | 0u32) == x) by (bit_vector);
}

/// A wait for a socket never lasts past the deadline, and falls short of it by less than a
/// millisecond, unless that is more than `poll` can count.
pub proof fn waits_end_at_the_deadline(left: Duration)
    ensures
        0 <= poll_millis(left) <= 0x7FFF_FFFF,
        poll_millis(left) * 1_000_000 <= left@,
        poll_millis(left) < 0x7FFF_FFFF ==> left@ < poll_millis(left) * 1_000_000 + 1_000_000,
{
}

/// A socket starts out with the flow control that was asked for, a reserved separation time counting
/// as none; with none asked for, it limits neither blocks nor gaps.
pub proof fn sockets_start_with_the_flow_control_asked_for(options: IsoTpKernelOptions)
    ensures
        options.flow_control is None ==> options.initial_flow_control() == (0u8, 0nat),
        options.flow_control matches Some(fc) ==> {
            &&& options.initial_flow_control().0 == fc.block_size
            &&& options.initial_flow_control().1 == (if fc.st_min < 0x80 {
                fc.st_min * 1_000_000
            } else if 0xF1 <= fc.st_min <= 0xF9 {
                (fc.st_min - 0xF0) * 100_000
            } else {
                0
            })
        },
{
}

/// A receiving call that moved bytes hands them out, and one that moved none says so. An
/// interrupted call is made again. One that would have had to wait is waited for as long as there is
/// time, and then reported as timed out.
pub proof fn receiving_goes_on_until_the_deadline(
    outcome: CallOutcome,
    left: Option<Duration>,
    r: RecvNext,
)
    requires
        call_ensures(recv_next, (outcome, left), r),
    ensures
        outcome matches CallOutcome::Moved(n) ==> r == (if n > 0 {
            RecvNext::Deliver(n)
        } else {
            RecvNext::Eof
        }),
        r is Retry <==> outcome is Interrupted,
        r is Fail <==> outcome is Failed,
        r is TimedOut <==> outcome is WouldBlock && left is None,
        r is Wait <==> outcome is WouldBlock && left is Some,
        r matches RecvNext::Wait(ms) ==> ms * 1_000_000 <= left->0@ && (left->0@ < ms * 1_000_000
            + 1_000_000 || ms == 0x7FFF_FFFF),
{
}

/// A sending call is done when it moved anything, made again when it was interrupted, and otherwise
/// waited for until the deadline.
pub proof fn sending_goes_on_until_the_deadline(
    outcome: CallOutcome,
    left: Option<Duration>,
    r: SendNext,
)
    requires
        call_ensures(send_next, (outcome, left), r),
    ensures
        r is Done <==> outcome is Moved,
        r is Retry <==> outcome is Interrupted,
        r is Fail <==> outcome is Failed,
        r is TimedOut <==> outcome is WouldBlock && left is None,
        r is Wait <==> outcome is WouldBlock && left is Some,
        r matches SendNext::Wait(ms) ==> ms * 1_000_000 <= left->0@ && (left->0@ < ms * 1_000_000
            + 1_000_000 || ms == 0x7FFF_FFFF),
{
}

/// A socket that was reported ready is called once: it hands out what it has, or nothing arrived, or
/// it failed.
pub proof fn ready_sockets_are_called_once(outcome: CallOutcome, r: RecvNext)
    requires
        call_ensures(recv_one_ready, (outcome,), r),
    ensures
        !(r is Retry) && !(r is Wait),
        outcome matches CallOutcome::Moved(n) ==> r == (if n > 0 {
            RecvNext::Deliver(n)
        } else {
            RecvNext::Eof
        }),
        r is TimedOut <==> outcome is WouldBlock,
        r is Fail <==> outcome is Interrupted || outcome is Failed,
{
}

/// Among polled sockets the first that has anything to report decides: it is received from if it
/// can be read, and else reported as failed. Nothing is reported exactly when none has anything.
pub proof fn first_socket_with_anything_decides(events: Seq<PollEvents>, r: PollStep, first: int)
    requires
        is_poll_step(events, r),
    ensures
        r is TimedOut <==> forall|i: int|
            0 <= i < events.len() ==> !(#[trigger] events[i]).readable && !events[i].failed,
        0 <= first < events.len() && (events[first].readable || events[first].failed) && (
        forall|i: int|
            0 <= i < first ==> !(#[trigger] events[i]).readable && !events[i].failed) ==> (
        if events[first].readable {
            r matches PollStep::Receive(n) && n == first
        } else {
            r is Fail
        }),
{
}

/// A demux keeps one socket for each peer: a peer that has one gets that one, another peer gets one
/// under the identifiers that spell both addresses, and its own address gets none.
pub proof fn peers_have_one_socket(
    demux: &KernelUdsDemux,
    peer: u8,
    r: Result<PeerSlot, Error>,
)
    requires
        demux@.wf(),
        call_ensures(KernelUdsDemux::ensure_peer, (demux, peer), r),
    ensures
        r is Err <==> peer == demux@.local,
        r matches Ok(PeerSlot::Known(i)) ==> i < demux@.peers.len() && demux@.peers[i as int] == peer,
        peer != demux@.local ==> (r matches Ok(slot) && (slot is Known <==> demux@.peers.contains(
            peer,
        ))),
        r matches Ok(PeerSlot::Open { rx_id, tx_id }) ==> {
            &&& rx_id is Extended && rx_id.raw() == 0x18DA_0000 + demux@.local * 256 + peer
            &&& tx_id is Extended && tx_id.raw() == 0x18DA_0000 + peer * 256 + demux@.local
        },
{
    uds29::identifiers_spell_addresses(Uds29Kind::Physical, demux@.local, peer);
    uds29::identifiers_spell_addresses(Uds29Kind::Physical, peer, demux@.local);
}

/// New flow control reaches the socket with the block size as it is and the separation time in its
/// one byte.
pub proof fn new_flow_control_reaches_the_socket(
    fc: RxFlowControl,
    wft_max: u8,
    r: KernelSetting,
)
    requires
        call_ensures(flow_control_setting, (fc, wft_max), r),
    ensures
        r matches KernelSetting::RecvFc(got) && {
            &&& got.bs == fc.block_size
            &&& got.wftmax == wft_max
            &&& pdu::st_min_nanos(got.stmin) matches Some(n) && n <= fc.st_min@
            &&& 1_000_000 <= fc.st_min@ < 128_000_000 ==> got.stmin == fc.st_min@ / 1_000_000
        },
{
    pdu::st_min_rounds_down(fc.st_min@);
}

/// Times are handed to the kernel whole where they fit, and as the most that fits where not.
pub proof fn times_are_clamped(
    d: Duration,
    nanos: u32,
    millis: i32,
    opts: &IsoTpSocketOptions,
    base: CanIsotpOptions,
    options: &IsoTpKernelOptions,
    all: Vec<KernelSetting>,
)
    requires
        call_ensures(duration_to_nanos_u32, (d,), nanos),
        call_ensures(duration_to_poll_timeout, (d,), millis),
        call_ensures(build_can_isotp_options, (opts,), base),
        call_ensures(apply_kernel_options, (options,), all),
    ensures
        nanos == (if d@ > 0xFFFF_FFFF {
            0xFFFF_FFFF
        } else {
            d@
        }),
        millis == (if d@ / 1_000_000 > 0x7FFF_FFFF {
            0x7FFF_FFFF
        } else {
            d@ / 1_000_000
        }),
        base == base_options(*opts),
        all@ == settings(*options),
{
}

/// A socket can be opened with room for at least one byte, tolerates the wait frames asked for, and
/// none where nothing was asked for.
pub proof fn options_are_checked(
    options: &IsoTpKernelOptions,
    r: Result<(), Error>,
    wft_max: u8,
    fc: RxFlowControl,
)
    requires
        call_ensures(IsoTpKernelOptions::check, (options,), r),
        call_ensures(IsoTpKernelOptions::wft_max, (options,), wft_max),
        call_ensures(IsoTpKernelOptions::rx_flow_control, (options,), fc),
    ensures
        r is Ok <==> options.max_rx_payload > 0,
        options.flow_control is None ==> wft_max == 0 && fc.block_size == 0 && fc.st_min@ == 0,
        options.flow_control matches Some(asked) ==> wft_max == asked.wft_max && fc.block_size
            == asked.block_size && (asked.st_min < 0x80 ==> fc.st_min@ == asked.st_min * 1_000_000),
{
}

/// A demux that opens a socket for a peer remembers it behind the others; other settings do not
/// touch its peers.
pub proof fn new_sockets_are_remembered(
    a: &mut KernelUdsDemux,
    peer: u8,
    place: usize,
    b: &mut KernelUdsDemux,
    fc: RxFlowControl,
)
    requires
        call_ensures(KernelUdsDemux::register_peer, (a, peer), place),
        call_ensures(KernelUdsDemux::set_rx_flow_control, (b, fc), ()),
    ensures
        place == old(a)@.peers.len() && final(a)@.peers == old(a)@.peers + seq![peer],
        final(a)@.local == old(a)@.local && final(a)@.fc == old(a)@.fc,
        final(b)@.fc == fc && final(b)@.peers == old(b)@.peers && final(b)@.local == old(b)@.local,
{
    assert(old(a)@.peers.push(peer) =~= old(a)@.peers + seq![peer]);
}

} // verus!
