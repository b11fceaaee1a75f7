//! What the results of nodes and demuxes are to callers of the transport traits.

use crate::async_demux::AppRecvIntoError;
use crate::config;
use crate::errors::{IsoTpError, TimeoutKind};
use crate::interface::{
    RecvError, RecvMeta, RecvMetaIntoStatus, RecvStatus, RxFlowControl, SendError,
};
use crate::rx;
use vstd::prelude::*;

verus! {

/// Adapter that captures a runtime reference alongside an async node or demux.
#[derive(Debug)]
pub struct AsyncWithRt<'rt, Rt, Inner> {
    rt: &'rt Rt,
    inner: Inner,
}

impl<'rt, Rt, Inner> AsyncWithRt<'rt, Rt, Inner> {
    /// The runtime.
    pub closed spec fn rt_spec(&self) -> Rt {
        *self.rt
    }

    /// The node or demux.
    pub closed spec fn inner_spec(&self) -> Inner {
        self.inner
    }

    /// Put a runtime and a node or demux together.
    pub fn new(rt: &'rt Rt, inner: Inner) -> (r: Self)
        ensures
            r.rt_spec() == *rt,
            r.inner_spec() == inner,
    {
        AsyncWithRt { rt, inner }
    }

    /// The runtime.
    pub fn rt(&self) -> (r: &'rt Rt)
        ensures
            *r == self.rt_spec(),
    {
        self.rt
    }

    /// The node or demux.
    pub fn inner(&self) -> (r: &Inner)
        ensures
            *r == self.inner_spec(),
    {
        &self.inner
    }

    /// The node or demux, to change it.
    pub fn inner_mut(&mut self) -> (r: &mut Inner)
        ensures
            *r == old(self).inner_spec(),
            final(self).inner_spec() == *final(r),
            final(self).rt_spec() == old(self).rt_spec(),
    {
        &mut self.inner
    }

    /// Take the node or demux out.
    pub fn into_inner(self) -> (r: Inner)
        ensures
            r == self.inner_spec(),
    {
        self.inner
    }
}

impl From<RxFlowControl> for config::RxFlowControl {
    /// The same parameters, for a node.
    fn from(fc: RxFlowControl) -> (r: Self) {
        config::RxFlowControl { block_size: fc.block_size, st_min: fc.st_min }
    }
}

impl vstd::std_specs::convert::FromSpecImpl<RxFlowControl> for config::RxFlowControl {
    open spec fn obeys_from_spec() -> bool {
        true
    }

    open spec fn from_spec(fc: RxFlowControl) -> config::RxFlowControl {
        config::RxFlowControl { block_size: fc.block_size, st_min: fc.st_min }
    }
}

/// What a send came to: a link that does not take frames in time is a timeout, every other error
/// is the backend's.
pub fn send_result<E>(sent: Result<(), IsoTpError<E>>) -> (r: Result<(), SendError<IsoTpError<E>>>)
    ensures
        match sent {
            Ok(_) => r is Ok,
            Err(IsoTpError::Timeout(TimeoutKind::NAs)) => r == Err::<(), SendError<IsoTpError<E>>>(
                SendError::Timeout,
            ),
            Err(e) => r == Err::<(), SendError<IsoTpError<E>>>(SendError::Backend(e)),
        },
{
    match sent {
        Ok(()) => Ok(()),
        Err(IsoTpError::Timeout(TimeoutKind::NAs)) => Err(SendError::Timeout),
        Err(other) => Err(SendError::Backend(other)),
    }
}

/// What a receive came to, `delivered` telling whether the callback ran and `refused` what it
/// refused with. A timeout of any phase is no error.
pub fn recv_result<E>(
    received: Result<(), IsoTpError<E>>,
    delivered: bool,
    refused: Option<IsoTpError<E>>,
) -> (r: Result<RecvStatus, RecvError<IsoTpError<E>>>)
    ensures
        match (refused, received) {
            (Some(e), _) => r == Err::<RecvStatus, RecvError<IsoTpError<E>>>(RecvError::Backend(e)),
            (None, Ok(_)) => r == Ok::<RecvStatus, RecvError<IsoTpError<E>>>(
                if delivered {
                    RecvStatus::DeliveredOne
                } else {
                    RecvStatus::TimedOut
                },
            ),
            (None, Err(IsoTpError::Timeout(_))) => r == Ok::<RecvStatus, RecvError<IsoTpError<E>>>(
                RecvStatus::TimedOut,
            ),
            (None, Err(e)) => r == Err::<RecvStatus, RecvError<IsoTpError<E>>>(
                RecvError::Backend(e),
            ),
        },
{
    if let Some(e) = refused {
        return Err(RecvError::Backend(e));
    }
    match received {
        Ok(()) => Ok(
            if delivered {
                RecvStatus::DeliveredOne
            } else {
                RecvStatus::TimedOut
            },
        ),
        Err(IsoTpError::Timeout(_)) => Ok(RecvStatus::TimedOut),
        Err(e) => Err(RecvError::Backend(e)),
    }
}

/// Copy a payload into the caller's buffer, which is left alone if it is too small.
pub fn copy_payload<E>(payload: &[u8], out: &mut [u8]) -> (r: Result<usize, RecvError<E>>)
    ensures
        if payload@.len() <= old(out)@.len() {
            r == Ok::<usize, RecvError<E>>(payload.len()) && final(out)@ == rx::overwritten(
                old(out)@,
                0,
                payload@,
            )
        } else {
            r == Err::<usize, RecvError<E>>(
                RecvError::BufferTooSmall { needed: payload.len(), got: old(out).len() },
            ) && final(out)@ == old(out)@
        },
{
    if payload.len() > out.len() {
        return Err(RecvError::BufferTooSmall { needed: payload.len(), got: out.len() });
    }
    rx::write_at(out, 0, payload, payload.len());
    Ok(payload.len())
}

/// What a receive into a buffer came to, `copied` telling what became of the payload.
///
/// The payload comes from the one peer of a node, whose address is not known: it is given as zero.
pub fn recv_into_result<E>(
    received: Result<(), IsoTpError<E>>,
    copied: Option<Result<usize, RecvError<IsoTpError<E>>>>,
) -> (r: Result<RecvMetaIntoStatus, RecvError<IsoTpError<E>>>)
    ensures
        match (copied, received) {
            (Some(Err(e)), _) => r == Err::<RecvMetaIntoStatus, RecvError<IsoTpError<E>>>(e),
            (_, Ok(_)) => r == Ok::<RecvMetaIntoStatus, RecvError<IsoTpError<E>>>(
                RecvMetaIntoStatus::DeliveredOne {
                    meta: RecvMeta { reply_to: 0 },
                    len: match copied {
                        Some(Ok(n)) => n,
                        _ => 0,
                    },
                },
            ),
            (_, Err(IsoTpError::Timeout(_))) => r == Ok::<
                RecvMetaIntoStatus,
                RecvError<IsoTpError<E>>,
            >(RecvMetaIntoStatus::TimedOut),
            (_, Err(e)) => r == Err::<RecvMetaIntoStatus, RecvError<IsoTpError<E>>>(
                RecvError::Backend(e),
            ),
        },
{
    let len: usize = match copied {
        Some(Err(e)) => {
            return Err(e);
        },
        Some(Ok(n)) => n,
        None => 0,
    };
    match received {
        Ok(()) => Ok(RecvMetaIntoStatus::DeliveredOne { meta: RecvMeta { reply_to: 0 }, len }),
        Err(IsoTpError::Timeout(_)) => Ok(RecvMetaIntoStatus::TimedOut),
        Err(e) => Err(RecvError::Backend(e)),
    }
}

/// What a receive from the async demux came to.
pub fn app_recv_result<E>(received: Result<Option<(u8, usize)>, AppRecvIntoError<E>>) -> (r: Result<
    RecvMetaIntoStatus,
    RecvError<IsoTpError<E>>,
>)
    ensures
        r == (match received {
            Ok(None) => Ok::<RecvMetaIntoStatus, RecvError<IsoTpError<E>>>(
                RecvMetaIntoStatus::TimedOut,
            ),
            Ok(Some((reply_to, len))) => Ok(
                RecvMetaIntoStatus::DeliveredOne { meta: RecvMeta { reply_to }, len },
            ),
            Err(AppRecvIntoError::BufferTooSmall { needed, got }) => Err(
                RecvError::BufferTooSmall { needed, got },
            ),
            Err(AppRecvIntoError::IsoTp(e)) => Err(RecvError::Backend(e)),
        }),
{
    match received {
        Ok(None) => Ok(RecvMetaIntoStatus::TimedOut),
        Ok(Some((reply_to, len))) => Ok(
            RecvMetaIntoStatus::DeliveredOne { meta: RecvMeta { reply_to }, len },
        ),
        Err(AppRecvIntoError::BufferTooSmall { needed, got }) => Err(
            RecvError::BufferTooSmall { needed, got },
        ),
        Err(AppRecvIntoError::IsoTp(e)) => Err(RecvError::Backend(e)),
    }
}

/// Of the ways in which a send can fail, only a link that does not take frames in time counts as a
/// timeout; the others are handed on.
pub proof fn only_a_full_link_times_out<E>(
    sent: Result<(), IsoTpError<E>>,
    r: Result<(), SendError<IsoTpError<E>>>,
)
    requires
        call_ensures(send_result::<E>, (sent,), r),
    ensures
        r is Ok <==> sent is Ok,
        (r matches Err(SendError::Timeout)) <==> (sent matches Err(IsoTpError::Timeout(kind)) && kind
            == TimeoutKind::NAs),
        sent matches Err(e) ==> (!(e matches IsoTpError::Timeout(kind) && kind
            == TimeoutKind::NAs) ==> r == Err::<(), SendError<IsoTpError<E>>>(
            SendError::Backend(e),
        )),
{
}

/// A receive that timed out, in whatever phase, is no error. What the callback refused with goes
/// before anything else.
pub proof fn timeouts_of_a_receive_are_no_errors<E>(
    received: Result<(), IsoTpError<E>>,
    delivered: bool,
    refused: Option<IsoTpError<E>>,
    r: Result<RecvStatus, RecvError<IsoTpError<E>>>,
)
    requires
        call_ensures(recv_result::<E>, (received, delivered, refused), r),
    ensures
        refused matches Some(e) ==> r == Err::<RecvStatus, RecvError<IsoTpError<E>>>(
            RecvError::Backend(e),
        ),
        refused is None ==> {
            &&& (r matches Ok(RecvStatus::DeliveredOne)) <==> received is Ok && delivered
            &&& (r matches Ok(RecvStatus::TimedOut)) <==> (received is Ok && !delivered) || (
            received matches Err(IsoTpError::Timeout(_)))
            &&& received matches Err(e) ==> (!(e is Timeout) ==> r == Err::<
                RecvStatus,
                RecvError<IsoTpError<E>>,
            >(RecvError::Backend(e)))
        },
{
}

/// A receive into a buffer reports the length of what was copied, under address zero; that the
/// payload could not be copied goes before anything else.
pub proof fn receives_into_a_buffer<E>(
    received: Result<(), IsoTpError<E>>,
    copied: Option<Result<usize, RecvError<IsoTpError<E>>>>,
    r: Result<RecvMetaIntoStatus, RecvError<IsoTpError<E>>>,
)
    requires
        call_ensures(recv_into_result::<E>, (received, copied), r),
    ensures
        copied matches Some(Err(e)) ==> r == Err::<RecvMetaIntoStatus, RecvError<IsoTpError<E>>>(e),
        !(copied matches Some(Err(_))) ==> {
            &&& received is Ok ==> (r matches Ok(RecvMetaIntoStatus::DeliveredOne { meta, len })
                && meta.reply_to == 0 && (copied matches Some(Ok(n)) ==> len == n) && (copied is None
                ==> len == 0))
            &&& received matches Err(e) ==> r == (if e is Timeout {
                Ok::<RecvMetaIntoStatus, RecvError<IsoTpError<E>>>(RecvMetaIntoStatus::TimedOut)
            } else {
                Err(RecvError::Backend(e))
            })
        },
{
}

/// A receive from the demux names the peer to reply to and the length of its payload; that nothing
/// arrived is no error.
pub proof fn receives_name_their_peer<E>(
    received: Result<Option<(u8, usize)>, AppRecvIntoError<E>>,
    r: Result<RecvMetaIntoStatus, RecvError<IsoTpError<E>>>,
)
    requires
        call_ensures(app_recv_result::<E>, (received,), r),
    ensures
        r is Ok <==> received is Ok,
        (r matches Ok(RecvMetaIntoStatus::TimedOut)) <==> (received matches Ok(None)),
        received matches Ok(Some(from)) ==> (r matches Ok(
            RecvMetaIntoStatus::DeliveredOne { meta, len },
        ) && meta.reply_to == from.0 && len == from.1),
        received matches Err(e) ==> match e {
            AppRecvIntoError::BufferTooSmall { needed, got } => r == Err::<
                RecvMetaIntoStatus,
                RecvError<IsoTpError<E>>,
            >(RecvError::BufferTooSmall { needed, got }),
            AppRecvIntoError::IsoTp(inner) => r == Err::<
                RecvMetaIntoStatus,
                RecvError<IsoTpError<E>>,
            >(RecvError::Backend(inner)),
        },
{
}

/// A payload is copied whole to the front of a buffer that holds it, and leaves any other alone.
pub proof fn payloads_are_copied_whole<E>(
    payload: &[u8],
    out: &mut [u8],
    r: Result<usize, RecvError<E>>,
)
    requires
        call_ensures(copy_payload::<E>, (payload, out), r),
    ensures
        r is Ok <==> payload@.len() <= old(out)@.len(),
        r matches Ok(n) ==> n == payload@.len() && final(out)@.take(n as int) == payload@
            && final(out)@.skip(n as int) == old(out)@.skip(n as int),
        r is Err ==> final(out)@ == old(out)@ && (r matches Err(
            RecvError::BufferTooSmall { needed, got },
        ) && needed == payload@.len() && got == old(out)@.len()),
{
    if payload@.len() <= old(out)@.len() {
        rx::writing_changes_only_its_place(old(out)@, 0, payload@);
        assert(final(out)@.take(payload@.len() as int) =~= payload@);
    }
}

} // verus!
