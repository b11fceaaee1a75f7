//! Flag bits of kernel ISO-TP sockets.

use vstd::prelude::*;

verus! {

/// Listen-only mode (do not send FC frames).
pub const CAN_ISOTP_LISTEN_MODE: u32 = 0x0001;

/// Enable extended addressing.
pub const CAN_ISOTP_EXTEND_ADDR: u32 = 0x0002;

/// Enable CAN frame padding on the TX path.
pub const CAN_ISOTP_TX_PADDING: u32 = 0x0004;

/// Enable CAN frame padding on the RX path.
pub const CAN_ISOTP_RX_PADDING: u32 = 0x0008;

/// Check received CAN frame padding length.
pub const CAN_ISOTP_CHK_PAD_LEN: u32 = 0x0010;

/// Check received CAN frame padding content.
pub const CAN_ISOTP_CHK_PAD_DATA: u32 = 0x0020;

/// Half-duplex error state handling.
pub const CAN_ISOTP_HALF_DUPLEX: u32 = 0x0040;

/// Ignore STmin from received FC frames.
pub const CAN_ISOTP_FORCE_TXSTMIN: u32 = 0x0080;

/// Ignore CFs depending on RX STmin.
pub const CAN_ISOTP_FORCE_RXSTMIN: u32 = 0x0100;

/// Different RX extended addressing.
pub const CAN_ISOTP_RX_EXT_ADDR: u32 = 0x0200;

/// Wait for TX completion.
pub const CAN_ISOTP_WAIT_TX_DONE: u32 = 0x0400;

/// 1-to-N functional addressing (single frame).
pub const CAN_ISOTP_SF_BROADCAST: u32 = 0x0800;

/// 1-to-N transmission without FC.
pub const CAN_ISOTP_CF_BROADCAST: u32 = 0x1000;

/// Dynamic FC parameters.
pub const CAN_ISOTP_DYN_FC_PARMS: u32 = 0x2000;

} // verus!
