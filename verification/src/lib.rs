//! Secure-transport and attestation bootstrap layer for a confidential-VM
//! migration agent: a byte-stream transport over a packet-oriented
//! paravirtual serial device, the session bootstrap that configures the
//! handshake for either role, and the bridge that binds a freshness value
//! into a hardware quote request.

use vstd::prelude::*;

pub mod adapt;
pub mod attest;
pub mod device;
pub mod port;
pub mod session;

verus! {

/// Failure classes of the transport layer.
///
/// `NotReady` is transient and always retryable; it must stay distinguishable
/// from the other classes at every adaptation layer. `InvalidParameter`
/// reports an uninitialized device handle. `Device` covers every other
/// device-level failure.
#[derive(Clone, Copy, Debug, PartialEq, Eq, Structural)]
pub enum VirtioSerialError {
    InvalidParameter,
    NotReady,
    Device,
}

} // verus!
