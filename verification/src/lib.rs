//! ISO-TP (ISO 15765-2) transport layer for CAN.
//!
//! Frames are moved by the caller; this crate decides which frame to send next, what a received
//! frame means, and how long to wait. Around the protocol engine stand the addressing schemes of
//! UDS over 29-bit identifiers, demultiplexing by source address, a virtual CAN bus over byte
//! streams, and the settings and acceptance filters of several CAN interfaces.

pub mod address;
pub mod async_demux;
pub mod async_io;
pub mod async_node;
pub mod async_send;
pub mod bus;
pub mod bus_client;
pub mod config;
pub mod demux;
pub mod demuxing;
pub mod errors;
pub mod flags;
pub mod helpers;
pub mod id;
pub mod interface;
pub mod interface_impl;
pub mod kernel;
pub mod node;
pub mod non_linux;
pub mod operations;
pub mod pdu;
pub mod provenance;
pub mod queue;
pub mod ready_queue;
pub mod receiving;
pub mod rx;
pub mod sending;
pub mod socketcan;
pub mod stm32;
pub mod time;
pub mod timer;
pub mod transfer;
pub mod tx;
pub mod uds29;
pub mod unix_frame;
pub mod wire;

pub use address::{IsoTpAddress, RxAddress, TargetAddressType, TxAddress};
pub use async_demux::{AppRecvIntoError, IsoTpAsyncDemux};
pub use async_io::TimedOut;
pub use async_node::{IsoTpAsyncNode, IsoTpAsyncNodeBuilder, IsoTpAsyncNodeBuilderWithRx};
pub use config::{IsoTpConfig, RxFlowControl};
pub use demux::{rx_storages_from_buffers, IsoTpDemux};
pub use errors::{IsoTpError, TimeoutKind};
pub use interface_impl::AsyncWithRt;
pub use node::{IsoTpNode, IsoTpNodeBuilder, IsoTpNodeBuilderWithRx};
pub use rx::RxStorage;
pub use timer::{Clock, StdClock};
pub use tx::Progress;
