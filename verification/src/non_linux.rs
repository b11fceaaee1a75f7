//! SocketCAN and kernel ISO-TP adapters for targets that have neither: opening one always fails.

use crate::id::Id;
use crate::interface::{IsoTpEndpoint, RecvControl, RecvError, RecvMeta, RecvStatus, SendError};
use crate::kernel::IsoTpKernelOptions;
use crate::time::Duration;
use vstd::prelude::*;

verus! {

/// Returned when attempting to use SocketCAN adapters on a non-Linux target.
#[derive(Debug, Clone, Copy, PartialEq, Eq, Structural)]
pub struct UnsupportedPlatformError;

impl UnsupportedPlatformError {
    /// What went wrong, in words.
    pub fn message(&self) -> (r: &'static str)
        ensures
            r@ == "embedded-can-socketcan is only supported on Linux targets"@,
    {
        "embedded-can-socketcan is only supported on Linux targets"
    }
}

/// Classic CAN SocketCAN adapter.
#[derive(Debug)]
pub struct SocketCan;

impl SocketCan {
    /// Always returns [`UnsupportedPlatformError`].
    pub fn open(_iface: &str) -> (r: Result<Self, UnsupportedPlatformError>)
        ensures
            r is Err,
    {
        Err(UnsupportedPlatformError)
    }
}

impl Default for SocketCan {
    fn default() -> (r: Self)
        ensures
            r == SocketCan,
    {
        SocketCan
    }
}

/// CAN-FD SocketCAN adapter.
#[derive(Debug)]
pub struct SocketCanFd;

impl SocketCanFd {
    /// Always returns [`UnsupportedPlatformError`].
    pub fn open(_iface: &str) -> (r: Result<Self, UnsupportedPlatformError>)
        ensures
            r is Err,
    {
        Err(UnsupportedPlatformError)
    }
}

impl Default for SocketCanFd {
    fn default() -> (r: Self)
        ensures
            r == SocketCanFd,
    {
        SocketCanFd
    }
}

/// Tokio classic CAN SocketCAN adapter, which nothing can be done with.
#[derive(Debug)]
pub struct TokioSocketCan;

impl Default for TokioSocketCan {
    fn default() -> (r: Self)
        ensures
            r == TokioSocketCan,
    {
        TokioSocketCan
    }
}

/// Tokio CAN-FD SocketCAN adapter, which nothing can be done with.
#[derive(Debug)]
pub struct TokioSocketCanFd;

impl Default for TokioSocketCanFd {
    fn default() -> (r: Self)
        ensures
            r == TokioSocketCanFd,
    {
        TokioSocketCanFd
    }
}

/// Returned when attempting to use kernel ISO-TP sockets on a non-Linux target.
#[derive(Debug, Clone, Copy, PartialEq, Eq, Structural)]
pub struct Error;

impl Error {
    /// What went wrong, in words.
    pub fn message(&self) -> (r: &'static str)
        ensures
            r@ == "linux-socketcan-iso-tp is only supported on Linux targets"@,
    {
        "linux-socketcan-iso-tp is only supported on Linux targets"
    }
}

/// Kernel ISO-TP endpoint using a single socket.
#[derive(Debug)]
pub struct SocketCanIsoTp;

impl SocketCanIsoTp {
    /// Always returns [`Error`].
    pub fn open(_iface: &str, _rx_id: Id, _tx_id: Id, _options: &IsoTpKernelOptions) -> (r: Result<
        Self,
        Error,
    >)
        ensures
            r is Err,
    {
        Err(Error)
    }
}

impl IsoTpEndpoint for SocketCanIsoTp {
    type Error = Error;

    fn send_to(&mut self, _to: u8, _payload: &[u8], _timeout: Duration) -> (r: Result<
        (),
        SendError<Error>,
    >)
        ensures
            r == Err::<(), SendError<Error>>(SendError::Backend(Error)),
    {
        Err(SendError::Backend(Error))
    }

    fn recv_one<Cb>(&mut self, _timeout: Duration, _on_payload: Cb) -> (r: Result<
        RecvStatus,
        RecvError<Error>,
    >) where Cb: FnMut(RecvMeta, &[u8]) -> Result<RecvControl, Error>
        ensures
            r == Err::<RecvStatus, RecvError<Error>>(RecvError::Backend(Error)),
    {
        Err(RecvError::Backend(Error))
    }
}

/// Kernel-backed ISO-TP demux for UDS normal-fixed addressing (`0x18DA_TA_SA`).
#[derive(Debug)]
pub struct KernelUdsDemux {
    local_addr: u8,
}

impl KernelUdsDemux {
    /// UDS local address.
    pub closed spec fn local_spec(&self) -> u8 {
        self.local_addr
    }

    /// A demux that no peer can be registered with.
    pub fn new(_iface: &str, local_addr: u8, _options: IsoTpKernelOptions) -> (r: Self)
        ensures
            r.local_spec() == local_addr,
    {
        KernelUdsDemux { local_addr }
    }

    /// UDS local address (target address).
    pub fn local_addr(&self) -> (r: u8)
        ensures
            r == self.local_spec(),
    {
        self.local_addr
    }

    /// Always returns [`Error`].
    pub fn register_peer(&mut self, _peer: u8) -> (r: Result<(), Error>)
        ensures
            r is Err,
            *final(self) == *old(self),
    {
        Err(Error)
    }
}

impl IsoTpEndpoint for KernelUdsDemux {
    type Error = Error;

    fn send_to(&mut self, _to: u8, _payload: &[u8], _timeout: Duration) -> (r: Result<
        (),
        SendError<Error>,
    >)
        ensures
            r == Err::<(), SendError<Error>>(SendError::Backend(Error)),
    {
        Err(SendError::Backend(Error))
    }

    fn recv_one<Cb>(&mut self, _timeout: Duration, _on_payload: Cb) -> (r: Result<
        RecvStatus,
        RecvError<Error>,
    >) where Cb: FnMut(RecvMeta, &[u8]) -> Result<RecvControl, Error>
        ensures
            r == Err::<RecvStatus, RecvError<Error>>(RecvError::Backend(Error)),
    {
        Err(RecvError::Backend(Error))
    }
}

} // verus!
