//! Adaptation layers over the blocking transport operations.
//!
//! The transport is non-blocking at heart: an operation that cannot make
//! progress reports not-ready instead of waiting. Three adaptations sit on
//! top. The pollable form turns not-ready into a pending signal for a
//! cooperative scheduler that re-polls (there is no wakeup registration).
//! The stream form keeps not-ready distinguishable from hard failures. The
//! protocol-engine form narrows every hard failure to one generic numeric
//! code, dropping detail at that boundary by design.

use vstd::prelude::*;
use crate::VirtioSerialError;
use crate::device::SerialDeviceHandle;
use crate::port::VirtioSerialPort;

verus! {

/// Outcome of one poll attempt over a transport operation.
#[derive(Clone, Copy, Debug, PartialEq, Eq, Structural)]
pub enum TransportPoll {
    /// The operation completed and moved this many bytes.
    Ready(usize),
    /// The device was not ready; the caller should reschedule and re-poll.
    Pending,
    /// The operation failed for good; pending is never reported here.
    Failed(VirtioSerialError),
}

/// How one attempt's result reads as a poll outcome.
pub open spec fn spec_poll(r: Result<usize, VirtioSerialError>) -> TransportPoll {
    match r {
        Ok(n) => TransportPoll::Ready(n),
        Err(VirtioSerialError::NotReady) => TransportPoll::Pending,
        Err(e) => TransportPoll::Failed(e),
    }
}

/// Classify one attempt's result: not-ready suspends, any other error
/// terminates the poll, success completes it.
pub fn poll_result(r: Result<usize, VirtioSerialError>) -> (p: TransportPoll)
    ensures
        p == spec_poll(r),
        p == TransportPoll::Pending <==> r == Err::<usize, VirtioSerialError>(
            VirtioSerialError::NotReady,
        ),
{
    match r {
        Ok(n) => TransportPoll::Ready(n),
        Err(VirtioSerialError::NotReady) => TransportPoll::Pending,
        Err(e) => TransportPoll::Failed(e),
    }
}

/// Failure classes at the stream (read/write) boundary: not-ready stays
/// distinguishable as would-block; everything else is one generic failure.
#[derive(Clone, Copy, Debug, PartialEq, Eq, Structural)]
pub enum StreamError {
    /// The transient not-ready condition: retry, do not treat as failure.
    WouldBlock,
    /// Any other device-level failure, detail dropped at this boundary.
    Failed,
}

/// Map a device-level error to its stream-level class.
pub fn stream_error(e: VirtioSerialError) -> (s: StreamError)
    ensures
        s == StreamError::WouldBlock <==> e == VirtioSerialError::NotReady,
{
    match e {
        VirtioSerialError::NotReady => StreamError::WouldBlock,
        _ => StreamError::Failed,
    }
}

/// Generic code the protocol engine sees when a send fails terminally.
pub const ENGINE_SEND_FAIL: usize = 1;

/// Generic code the protocol engine sees when a receive fails terminally.
pub const ENGINE_RECV_FAIL: usize = 2;

/// Outcome at the protocol-engine device-I/O boundary.
#[derive(Clone, Copy, Debug, PartialEq, Eq, Structural)]
pub enum EngineIo {
    /// The operation completed and moved this many bytes.
    Done(usize),
    /// Not ready yet: suspend and re-poll; never a failure.
    Retry,
    /// Terminal failure, narrowed to one generic numeric code.
    Fail(usize),
}

/// Narrow a send attempt's result for the protocol engine: success passes
/// through, not-ready stays a retry signal, any other failure becomes the
/// one generic send-failure code.
pub fn engine_send_io(r: Result<usize, VirtioSerialError>) -> (q: EngineIo)
    ensures
        r matches Ok(n) ==> q == EngineIo::Done(n),
        r == Err::<usize, VirtioSerialError>(VirtioSerialError::NotReady) ==> q == EngineIo::Retry,
        (r matches Err(e) && e != VirtioSerialError::NotReady) ==> q == EngineIo::Fail(
            ENGINE_SEND_FAIL,
        ),
{
    match r {
        Ok(n) => EngineIo::Done(n),
        Err(VirtioSerialError::NotReady) => EngineIo::Retry,
        Err(_) => EngineIo::Fail(ENGINE_SEND_FAIL),
    }
}

/// Narrow a receive attempt's result for the protocol engine, as
/// `engine_send_io` does for sends.
pub fn engine_recv_io(r: Result<usize, VirtioSerialError>) -> (q: EngineIo)
    ensures
        r matches Ok(n) ==> q == EngineIo::Done(n),
        r == Err::<usize, VirtioSerialError>(VirtioSerialError::NotReady) ==> q == EngineIo::Retry,
        (r matches Err(e) && e != VirtioSerialError::NotReady) ==> q == EngineIo::Fail(
            ENGINE_RECV_FAIL,
        ),
{
    match r {
        Ok(n) => EngineIo::Done(n),
        Err(VirtioSerialError::NotReady) => EngineIo::Retry,
        Err(_) => EngineIo::Fail(ENGINE_RECV_FAIL),
    }
}

impl VirtioSerialPort {
    /// One poll attempt at sending `data`: calls the underlying send once
    /// and classifies its outcome; never retries internally.
    pub fn poll_send(&self, device: &mut SerialDeviceHandle, data: &[u8]) -> (p: TransportPoll)
        requires
            old(device).wf(),
        ensures
            final(device).wf(),
            !old(device).is_initialized() ==> p == TransportPoll::Failed(
                VirtioSerialError::InvalidParameter,
            ) && *final(device) == *old(device),
            old(device).is_initialized() && !old(device).tx_ready_of(self.port_id) ==> p
                == TransportPoll::Pending && *final(device) == *old(device),
            old(device).is_initialized() && old(device).tx_ready_of(self.port_id) ==> {
                &&& p == TransportPoll::Ready(data@.len() as usize)
                &&& final(device).sent_of(self.port_id) == old(device).sent_of(
                    self.port_id,
                ).push(data@)
                &&& final(device).rx_of(self.port_id) == old(device).rx_of(self.port_id)
                &&& final(device).allocated(self.port_id) == old(device).allocated(self.port_id)
                &&& final(device).tx_ready_of(self.port_id) == old(device).tx_ready_of(
                    self.port_id,
                )
                &&& SerialDeviceHandle::agrees_except(*old(device), *final(device), self.port_id)
            },
    {
        let r = self.send_data(device, data);
        poll_result(r)
    }

    /// One poll attempt at receiving into `data`: calls the underlying
    /// receive once and classifies its outcome; never retries internally.
    pub fn poll_recv(&mut self, device: &mut SerialDeviceHandle, data: &mut Vec<u8>) -> (p:
        TransportPoll)
        requires
            old(self).wf(),
            old(device).wf(),
        ensures
            final(self).wf(),
            final(device).wf(),
            final(self).port_id == old(self).port_id,
            final(data)@.len() == old(data)@.len(),
            old(self).cache@.len() == 0 && !old(device).is_initialized() ==> {
                &&& p == TransportPoll::Failed(VirtioSerialError::InvalidParameter)
                &&& *final(self) == *old(self)
                &&& *final(device) == *old(device)
                &&& final(data)@ == old(data)@
            },
            old(self).cache@.len() == 0 && old(device).is_initialized() && old(device).rx_of(
                old(self).port_id,
            ).len() == 0 ==> {
                &&& p == TransportPoll::Pending
                &&& *final(self) == *old(self)
                &&& *final(device) == *old(device)
                &&& final(data)@ == old(data)@
            },
            (old(self).cache@.len() > 0 || (old(device).is_initialized() && old(device).rx_of(
                old(self).port_id,
            ).len() > 0)) ==> {
                let avail = old(self).avail_bytes(*old(device));
                let n = vstd::math::min(old(data)@.len() as int, avail.len() as int);
                &&& p == TransportPoll::Ready(n as usize)
                &&& final(data)@ == avail.take(n) + old(data)@.skip(n)
                &&& final(self).cache_bytes() == avail.skip(n)
            },
    {
        let r = self.recv(device, data);
        poll_result(r)
    }

    /// Flush the write side: the transport keeps no internal write buffer,
    /// so there is nothing to do and flushing always succeeds.
    pub fn flush(&self) -> (r: Result<(), VirtioSerialError>)
        ensures
            r == Ok::<(), VirtioSerialError>(()),
    {
        Ok(())
    }

    /// The protocol engine's flush capability: same no-op as `flush`,
    /// reported in the engine's narrowed form.
    pub fn flush_all(&self) -> (r: Result<(), usize>)
        ensures
            r == Ok::<(), usize>(()),
    {
        Ok(())
    }
}

} // verus!
