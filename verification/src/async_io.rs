//! Outcomes of operations that an async runtime bounds in time.

use crate::errors::{IsoTpError, TimeoutKind};
use crate::time::Duration;
use vstd::prelude::*;

verus! {

/// Timeout marker: the operation did not finish in the time it was given.
#[derive(Debug, Clone, Copy, PartialEq, Eq, Structural)]
pub struct TimedOut;

/// What is left of `timeout` after `elapsed`, or `None` once it is exceeded.
pub fn remaining(timeout: Duration, elapsed: Duration) -> (r: Option<Duration>)
    ensures
        match r {
            Some(left) => elapsed@ <= timeout@ && left@ == timeout@ - elapsed@,
            None => elapsed@ > timeout@,
        },
{
    timeout.checked_sub(elapsed)
}

/// Time that an operation may take, or the timeout to report once none is left.
pub fn budget(timeout: Duration, elapsed: Duration, kind: TimeoutKind) -> (r: Result<
    Duration,
    IsoTpError<()>,
>)
    ensures
        match r {
            Ok(left) => elapsed@ <= timeout@ && left@ == timeout@ - elapsed@,
            Err(e) => elapsed@ > timeout@ && e == IsoTpError::<()>::Timeout(kind),
        },
{
    match remaining(timeout, elapsed) {
        Some(left) => Ok(left),
        None => Err(IsoTpError::Timeout(kind)),
    }
}

/// Time to sleep: as long as asked for, but no longer than what is left.
pub fn sleep_budget(
    timeout: Duration,
    elapsed: Duration,
    kind: TimeoutKind,
    duration: Duration,
) -> (r: Result<Duration, IsoTpError<()>>)
    ensures
        match r {
            Ok(d) => elapsed@ <= timeout@ && d@ == (if duration@ <= timeout@ - elapsed@ {
                duration@ as int
            } else {
                timeout@ - elapsed@
            }),
            Err(e) => elapsed@ > timeout@ && e == IsoTpError::<()>::Timeout(kind),
        },
{
    match budget(timeout, elapsed, kind) {
        Ok(left) => Ok(duration.shorter(left)),
        Err(e) => Err(e),
    }
}

/// Result of a CAN operation that was bounded in time.
pub fn link_outcome<T, E>(outcome: Result<Result<T, E>, TimedOut>, kind: TimeoutKind) -> (r: Result<
    T,
    IsoTpError<E>,
>)
    ensures
        r == (match outcome {
            Ok(Ok(v)) => Ok(v),
            Ok(Err(e)) => Err(IsoTpError::LinkError(e)),
            Err(_) => Err(IsoTpError::Timeout(kind)),
        }),
{
    match outcome {
        Ok(Ok(v)) => Ok(v),
        Ok(Err(e)) => Err(IsoTpError::LinkError(e)),
        Err(_) => Err(IsoTpError::Timeout(kind)),
    }
}

/// An error that no backend was involved in, as an error of any backend.
pub fn widen<E>(e: IsoTpError<()>) -> (r: IsoTpError<E>)
    ensures
        r == widened::<E>(e),
{
    match e {
        IsoTpError::Timeout(kind) => IsoTpError::Timeout(kind),
        IsoTpError::UnexpectedPdu => IsoTpError::UnexpectedPdu,
        IsoTpError::BadSequence => IsoTpError::BadSequence,
        IsoTpError::Overflow => IsoTpError::Overflow,
        IsoTpError::InvalidFrame => IsoTpError::InvalidFrame,
        IsoTpError::InvalidConfig => IsoTpError::InvalidConfig,
        IsoTpError::WouldBlock => IsoTpError::WouldBlock,
        IsoTpError::RxOverflow => IsoTpError::RxOverflow,
        IsoTpError::NotIdle => IsoTpError::NotIdle,
        IsoTpError::LinkError(_) => IsoTpError::InvalidFrame,
    }
}

/// An error that no backend was involved in, as an error of any backend.
pub open spec fn widened<E>(e: IsoTpError<()>) -> IsoTpError<E> {
    match e {
        IsoTpError::Timeout(kind) => IsoTpError::Timeout(kind),
        IsoTpError::UnexpectedPdu => IsoTpError::UnexpectedPdu,
        IsoTpError::BadSequence => IsoTpError::BadSequence,
        IsoTpError::Overflow => IsoTpError::Overflow,
        IsoTpError::InvalidFrame => IsoTpError::InvalidFrame,
        IsoTpError::InvalidConfig => IsoTpError::InvalidConfig,
        IsoTpError::WouldBlock => IsoTpError::WouldBlock,
        IsoTpError::RxOverflow => IsoTpError::RxOverflow,
        IsoTpError::NotIdle => IsoTpError::NotIdle,
        IsoTpError::LinkError(_) => IsoTpError::InvalidFrame,
    }
}

/// An error keeps its kind, and a timeout the phase that it was in, whatever backend it is reported
/// for. An error of the backend itself does not occur there; it would be an invalid frame.
pub proof fn errors_keep_their_kind<E>(e: IsoTpError<()>)
    ensures
        e matches IsoTpError::Timeout(kind) ==> widened::<E>(e) == IsoTpError::<E>::Timeout(kind),
        widened::<E>(e) is Timeout <==> e is Timeout,
        widened::<E>(e) is UnexpectedPdu <==> e is UnexpectedPdu,
        widened::<E>(e) is BadSequence <==> e is BadSequence,
        widened::<E>(e) is Overflow <==> e is Overflow,
        widened::<E>(e) is InvalidFrame <==> e is InvalidFrame || e is LinkError,
        widened::<E>(e) is InvalidConfig <==> e is InvalidConfig,
        widened::<E>(e) is WouldBlock <==> e is WouldBlock,
        widened::<E>(e) is RxOverflow <==> e is RxOverflow,
        widened::<E>(e) is NotIdle <==> e is NotIdle,
        !(widened::<E>(e) is LinkError),
{
}

/// An operation that was bounded in time gives its own result, its own failure, or the timeout of
/// the phase that it was bounded for.
pub proof fn bounded_operations<T, E>(
    outcome: Result<Result<T, E>, TimedOut>,
    kind: TimeoutKind,
    r: Result<T, IsoTpError<E>>,
)
    requires
        call_ensures(link_outcome::<T, E>, (outcome, kind), r),
    ensures
        outcome is Err ==> r == Err::<T, IsoTpError<E>>(IsoTpError::Timeout(kind)),
        outcome matches Ok(done) ==> match done {
            Ok(v) => r == Ok::<T, IsoTpError<E>>(v),
            Err(e) => r == Err::<T, IsoTpError<E>>(IsoTpError::LinkError(e)),
        },
{
}

/// What is left of a time is its length without what has passed. Once more has passed, the timeout
/// of the phase is reported. A sleep is as long as asked for, or as long as what is left.
pub proof fn time_runs_out(
    timeout: Duration,
    elapsed: Duration,
    kind: TimeoutKind,
    duration: Duration,
    left: Option<Duration>,
    within: Result<Duration, IsoTpError<()>>,
    sleep: Result<Duration, IsoTpError<()>>,
)
    requires
        call_ensures(remaining, (timeout, elapsed), left),
        call_ensures(budget, (timeout, elapsed, kind), within),
        call_ensures(sleep_budget, (timeout, elapsed, kind, duration), sleep),
    ensures
        elapsed@ <= timeout@ ==> {
            &&& left matches Some(d) && elapsed@ + d@ == timeout@
            &&& within matches Ok(d) && elapsed@ + d@ == timeout@
            &&& sleep matches Ok(d) && d@ <= duration@ && elapsed@ + d@ <= timeout@ && (d@
                == duration@ || elapsed@ + d@ == timeout@)
        },
        elapsed@ > timeout@ ==> {
            &&& left is None
            &&& within == Err::<Duration, IsoTpError<()>>(IsoTpError::Timeout(kind))
            &&& sleep == Err::<Duration, IsoTpError<()>>(IsoTpError::Timeout(kind))
        },
{
}

} // verus!
