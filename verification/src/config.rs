//! ISO-TP configuration container.

use crate::id;
use crate::id::{Id, StandardId};
use crate::time::Duration;
use vstd::prelude::*;

verus! {

/// Configuration for an ISO-TP node.
#[derive(Debug, Clone, Copy)]
pub struct IsoTpConfig {
    /// CAN identifier used when transmitting ISO-TP PDUs.
    pub tx_id: Id,
    /// CAN identifier expected when receiving ISO-TP PDUs.
    pub rx_id: Id,
    /// Optional first payload byte to prepend to transmitted frames (extended/mixed addressing).
    pub tx_addr: Option<u8>,
    /// Optional first payload byte expected on received frames (extended/mixed addressing).
    pub rx_addr: Option<u8>,
    /// Number of consecutive frames allowed before requesting a new flow control (0 = unlimited).
    pub block_size: u8,
    /// Minimum separation time enforced between consecutive frames.
    pub st_min: Duration,
    /// Maximum number of FlowControl::Wait responses accepted before failing.
    pub wft_max: u8,
    /// Optional padding byte for transmitted frames (None = no padding).
    pub padding: Option<u8>,
    /// Maximum application payload length accepted.
    pub max_payload_len: usize,
    /// Timeout waiting for transmit availability.
    pub n_as: Duration,
    /// Timeout waiting for receive availability.
    pub n_ar: Duration,
    /// Timeout waiting for flow control after First Frame.
    pub n_bs: Duration,
    /// Timeout waiting for Consecutive Frame while receiving.
    pub n_br: Duration,
    /// Timeout between consecutive frame transmissions.
    pub n_cs: Duration,
    /// Maximum CAN payload size (DLC) supported by the backend.
    ///
    /// - Classic CAN uses 8 bytes.
    /// - CAN FD can carry up to 64 bytes (if supported by the backend frame type).
    pub frame_len: usize,
}

/// Whether an addressing byte precedes the PCI, as a number of bytes.
pub open spec fn prefix_len(addr: Option<u8>) -> int {
    if addr is Some {
        1
    } else {
        0
    }
}

/// Application bytes that fit in a Single Frame of `frame_len` bytes behind `offset` prefix bytes.
pub open spec fn single_frame_room(frame_len: int, offset: int) -> int {
    if frame_len > 8 {
        frame_len - 2 - offset
    } else {
        7 - offset
    }
}

impl Default for IsoTpConfig {
    /// Baseline config with zeroed IDs and 4 KB payload limits.
    fn default() -> (r: Self)
        ensures
            r.tx_id is Standard && r.tx_id.raw() == 0,
            r.rx_id is Standard && r.rx_id.raw() == 0,
            r.tx_addr is None && r.rx_addr is None,
            r.block_size == 0 && r.wft_max == 0,
            r.st_min@ == 0,
            r.padding is None,
            r.max_payload_len == 4095,
            r.n_as@ == 1_000_000_000,
            r.n_ar@ == 1_000_000_000,
            r.n_bs@ == 1_000_000_000,
            r.n_br@ == 1_000_000_000,
            r.n_cs@ == 1_000_000_000,
            r.frame_len == 8,
    {
        let zero = Id::Standard(StandardId::new(0).unwrap());
        IsoTpConfig {
            tx_id: zero,
            rx_id: zero,
            tx_addr: None,
            rx_addr: None,
            block_size: 0,
            st_min: Duration::from_millis(0),
            wft_max: 0,
            padding: None,
            max_payload_len: 4095,
            n_as: Duration::from_millis(1000),
            n_ar: Duration::from_millis(1000),
            n_bs: Duration::from_millis(1000),
            n_br: Duration::from_millis(1000),
            n_cs: Duration::from_millis(1000),
            frame_len: 8,
        }
    }
}

impl IsoTpConfig {
    /// Payload limit between 1 and 4095 bytes.
    pub open spec fn payload_limit_ok(self) -> bool {
        0 < self.max_payload_len <= 4095
    }

    /// Frame size that CAN or CAN FD can carry.
    pub open spec fn frame_len_ok(self) -> bool {
        8 <= self.frame_len <= 64
    }

    /// What tells a node's own frames from those of its peer: different identifiers, or different
    /// addressing bytes in both directions.
    pub open spec fn directions_differ(self) -> bool {
        self.tx_id != self.rx_id || (self.tx_addr matches Some(t) && self.rx_addr matches Some(r)
            && t != r)
    }

    /// A configuration that `validate` accepts.
    pub open spec fn valid(self) -> bool {
        self.payload_limit_ok() && self.frame_len_ok() && self.directions_differ()
    }

    /// Largest Single Frame payload.
    pub open spec fn sf_room(self) -> int {
        single_frame_room(self.frame_len as int, prefix_len(self.tx_addr))
    }

    /// Largest First Frame payload.
    pub open spec fn ff_room(self) -> int {
        if self.frame_len >= 2 + prefix_len(self.tx_addr) {
            self.frame_len - 2 - prefix_len(self.tx_addr)
        } else {
            0
        }
    }

    /// Largest Consecutive Frame payload.
    pub open spec fn cf_room(self) -> int {
        if self.frame_len >= 1 + prefix_len(self.tx_addr) {
            self.frame_len - 1 - prefix_len(self.tx_addr)
        } else {
            0
        }
    }

    /// Reject invalid limits or mirrored IDs.
    pub fn validate(&self) -> (r: Result<(), ()>)
        ensures
            r is Ok <==> self.valid(),
    {
        if self.max_payload_len == 0 || self.max_payload_len > 4095 {
            return Err(());
        }
        if self.frame_len < 8 || self.frame_len > 64 {
            return Err(());
        }
        if self.tx_id == self.rx_id && (self.tx_addr.is_none() || self.rx_addr.is_none()
            || self.tx_addr == self.rx_addr) {
            return Err(());
        }
        Ok(())
    }

    /// Index within an outgoing CAN payload where the PCI starts.
    pub fn tx_pci_offset(&self) -> (r: usize)
        ensures
            r == prefix_len(self.tx_addr),
    {
        if self.tx_addr.is_some() {
            1
        } else {
            0
        }
    }

    /// Index within an incoming CAN payload where the PCI starts.
    pub fn rx_pci_offset(&self) -> (r: usize)
        ensures
            r == prefix_len(self.rx_addr),
    {
        if self.rx_addr.is_some() {
            1
        } else {
            0
        }
    }

    /// Max application bytes in a Single Frame under the configured transmit addressing.
    pub fn max_single_frame_payload(&self) -> (r: usize)
        ensures
            r == self.sf_room(),
    {
        let offset: usize = self.tx_pci_offset();
        if self.frame_len > 8 {
            self.frame_len - (2 + offset)
        } else {
            7 - offset
        }
    }

    /// Max application bytes carried in a First Frame under the configured transmit addressing.
    pub fn max_first_frame_payload(&self) -> (r: usize)
        ensures
            r == self.ff_room(),
    {
        let head: usize = 2 + self.tx_pci_offset();
        if self.frame_len >= head {
            self.frame_len - head
        } else {
            0
        }
    }

    /// Max application bytes carried in a Consecutive Frame under the configured transmit
    /// addressing.
    pub fn max_consecutive_frame_payload(&self) -> (r: usize)
        ensures
            r == self.cf_room(),
    {
        let head: usize = 1 + self.tx_pci_offset();
        if self.frame_len >= head {
            self.frame_len - head
        } else {
            0
        }
    }
}

/// Receive-side ISO-TP flow-control parameters (BS/STmin).
///
/// These values are advertised to the remote sender in FlowControl (FC) frames. Updating them at
/// runtime allows shaping the sender's rate based on backpressure.
#[derive(Debug, Clone, Copy, PartialEq, Eq, Structural)]
pub struct RxFlowControl {
    /// Block size (0 = unlimited).
    pub block_size: u8,
    /// Minimum separation time between consecutive frames.
    pub st_min: Duration,
}

impl RxFlowControl {
    /// Flow-control parameters of a node's static configuration.
    pub open spec fn of(cfg: IsoTpConfig) -> RxFlowControl {
        RxFlowControl { block_size: cfg.block_size, st_min: cfg.st_min }
    }

    /// Build flow-control parameters from a node's static configuration.
    pub fn from_config(cfg: &IsoTpConfig) -> (r: Self)
        ensures
            r == RxFlowControl::of(*cfg),
    {
        RxFlowControl { block_size: cfg.block_size, st_min: cfg.st_min }
    }
}

/// A configuration is accepted exactly when it takes payloads of 1 to 4095 bytes, its frames have 8
/// to 64 bytes, and its own frames can be told from those of its peer: by the identifier, or by
/// addressing bytes that both directions have and that differ.
pub proof fn accepted_configurations(cfg: IsoTpConfig)
    ensures
        cfg.valid() <==> {
            &&& 1 <= cfg.max_payload_len <= 4095
            &&& 8 <= cfg.frame_len <= 64
            &&& cfg.tx_id.extended() != cfg.rx_id.extended() || cfg.tx_id.raw() != cfg.rx_id.raw()
                || (cfg.tx_addr is Some && cfg.rx_addr is Some && cfg.tx_addr->0 != cfg.rx_addr->0)
        },
{
    if cfg.tx_id.extended() == cfg.rx_id.extended() && cfg.tx_id.raw() == cfg.rx_id.raw() {
        id::equal_raw_ids_are_equal(cfg.tx_id, cfg.rx_id);
    }
}

/// What a frame of a valid configuration holds: all its bytes but the addressing byte and the PCI,
/// which is one byte for a Consecutive Frame and for a Single Frame of 8 bytes, and two otherwise.
pub proof fn room_in_frames(cfg: IsoTpConfig)
    requires
        cfg.valid(),
    ensures
        ({
            let head: int = if cfg.tx_addr is Some {
                1
            } else {
                0
            };
            &&& cfg.cf_room() + head + 1 == cfg.frame_len
            &&& cfg.ff_room() + head + 2 == cfg.frame_len
            &&& cfg.sf_room() + head + (if cfg.frame_len == 8 {
                1int
            } else {
                2
            }) == cfg.frame_len
        }),
{
}

/// The parameters that a receiver starts out with are those of its configuration.
pub proof fn flow_control_follows_the_configuration(cfg: IsoTpConfig)
    ensures
        RxFlowControl::of(cfg).block_size == cfg.block_size,
        RxFlowControl::of(cfg).st_min == cfg.st_min,
{
}

/// Checking a configuration accepts the valid ones and no others.
pub proof fn configurations_are_checked(
    cfg: &IsoTpConfig,
    r: Result<(), ()>,
    sf: usize,
    ff: usize,
    cf: usize,
)
    requires
        call_ensures(IsoTpConfig::validate, (cfg,), r),
        call_ensures(IsoTpConfig::max_single_frame_payload, (cfg,), sf),
        call_ensures(IsoTpConfig::max_first_frame_payload, (cfg,), ff),
        call_ensures(IsoTpConfig::max_consecutive_frame_payload, (cfg,), cf),
    ensures
        r is Ok <==> {
            &&& 1 <= cfg.max_payload_len <= 4095
            &&& 8 <= cfg.frame_len <= 64
            &&& cfg.tx_id != cfg.rx_id || (cfg.tx_addr is Some && cfg.rx_addr is Some && cfg.tx_addr
                != cfg.rx_addr)
        },
        r is Ok ==> ({
            let head: int = if cfg.tx_addr is Some {
                1
            } else {
                0
            };
            &&& cf == cfg.frame_len - head - 1
            &&& ff == cfg.frame_len - head - 2
            &&& sf == cfg.frame_len - head - (if cfg.frame_len == 8 {
                1int
            } else {
                2
            })
        }),
{
}

} // verus!
