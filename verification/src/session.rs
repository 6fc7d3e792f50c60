//! Session bootstrap: fixed protocol parameters and a handshake context for
//! either role, wired to a port transport.
//!
//! Initiator and responder must agree on version and algorithm suite for the
//! handshake to succeed; agreement is enforced here by building both roles
//! from the same literal configuration. Provisioning information
//! (credentials, certificates) is deliberately left empty: provisioning is an
//! external collaborator's responsibility.

use vstd::prelude::*;
use crate::port::VirtioSerialPort;

verus! {

/// Capability bit: messages are encrypted.
pub const CAP_ENCRYPT: u32 = 0x01;

/// Capability bit: messages carry a message-authentication code.
pub const CAP_MAC: u32 = 0x02;

/// Capability bit: mutual authentication.
pub const CAP_MUT_AUTH: u32 = 0x04;

/// Capability bit: key exchange.
pub const CAP_KEY_EXCHANGE: u32 = 0x08;

/// Capability bit: peers are identified by a public key.
pub const CAP_PUB_KEY_ID: u32 = 0x10;

/// Capability bit: the handshake itself is framed in the clear.
pub const CAP_HANDSHAKE_IN_CLEAR: u32 = 0x20;

/// Capability bit: chunked transfer of large messages.
pub const CAP_CHUNK: u32 = 0x40;

/// The full capability set both roles are built with: encryption, MAC,
/// mutual authentication, key exchange, public-key identification,
/// clear-text handshake framing and chunking.
pub const REQ_CAPABILITIES: u32 = 0x7F;

/// Pinned protocol version: major 1, minor 2, as one byte.
pub const PROTOCOL_VERSION: u8 = 0x12;

/// Pinned secure-sub-protocol version byte.
pub const SECURE_VERSION: u8 = 0x12;

/// Asymmetric signature algorithm: ECDSA over the NIST P-384 curve.
pub const ALG_ECDSA_P384: u32 = 0x80;

/// Hash algorithm: SHA-384.
pub const ALG_SHA_384: u32 = 0x02;

/// Key-exchange group: SECP-384-R1.
pub const ALG_SECP_384_R1: u16 = 0x10;

/// Authenticated-encryption algorithm: AES-256-GCM.
pub const ALG_AES_256_GCM: u16 = 0x02;

/// Key-schedule algorithm: the protocol's own schedule.
pub const ALG_KEY_SCHEDULE: u16 = 0x01;

/// Opaque-data format selector.
pub const OPAQUE_DATA_FMT1: u8 = 0x02;

/// Transfer-size limit for one message fragment, in bytes.
pub const DATA_TRANSFER_SIZE: u32 = 0x1200;

/// Upper bound on a whole protocol message, in bytes.
pub const MAX_MSG_SIZE: u32 = 0x1200;

/// Handshake role: who opens the exchange.
#[derive(Clone, Copy, Debug, PartialEq, Eq, Structural)]
pub enum HandshakeRole {
    /// Drives the handshake: the migration source side.
    Initiator,
    /// Answers the handshake.
    Responder,
}

/// Immutable descriptor of the protocol parameters for one handshake role:
/// pinned versions, capability bitset and algorithm suite.
#[derive(Clone, Copy, Debug, PartialEq, Eq, Structural)]
pub struct SpdmConfig {
    /// Pinned protocol version; the only version offered.
    pub version: u8,
    /// Pinned secure-sub-protocol version.
    pub secure_version: u8,
    /// Capability bitset (the `CAP_` bits).
    pub req_capabilities: u32,
    /// Crypto-timeout exponent granted to the peer.
    pub req_ct_exponent: u8,
    /// Asymmetric signature algorithm of the suite.
    pub base_asym_algo: u32,
    /// Hash algorithm of the suite.
    pub base_hash_algo: u32,
    /// Key-exchange group of the suite.
    pub dhe_algo: u16,
    /// Authenticated-encryption algorithm of the suite.
    pub aead_algo: u16,
    /// Signature algorithm required of the requester.
    pub req_asym_algo: u16,
    /// Key-schedule algorithm of the suite.
    pub key_schedule_algo: u16,
    /// Opaque-data format selector.
    pub other_params: u8,
    /// Transfer-size limit for one fragment.
    pub data_transfer_size: u32,
    /// Upper bound on a whole message.
    pub max_msg_size: u32,
}

/// The one fixed configuration both roles are built from.
pub open spec fn spec_session_config() -> SpdmConfig {
    SpdmConfig {
        version: PROTOCOL_VERSION,
        secure_version: SECURE_VERSION,
        req_capabilities: REQ_CAPABILITIES,
        req_ct_exponent: 0,
        base_asym_algo: ALG_ECDSA_P384,
        base_hash_algo: ALG_SHA_384,
        dhe_algo: ALG_SECP_384_R1,
        aead_algo: ALG_AES_256_GCM,
        req_asym_algo: ALG_ECDSA_P384 as u16,
        key_schedule_algo: ALG_KEY_SCHEDULE,
        other_params: OPAQUE_DATA_FMT1,
        data_transfer_size: DATA_TRANSFER_SIZE,
        max_msg_size: MAX_MSG_SIZE,
    }
}

/// Build the fixed configuration used for both roles.
pub fn session_config() -> (c: SpdmConfig)
    ensures
        c == spec_session_config(),
{
    SpdmConfig {
        version: PROTOCOL_VERSION,
        secure_version: SECURE_VERSION,
        req_capabilities: REQ_CAPABILITIES,
        req_ct_exponent: 0,
        base_asym_algo: ALG_ECDSA_P384,
        base_hash_algo: ALG_SHA_384,
        dhe_algo: ALG_SECP_384_R1,
        aead_algo: ALG_AES_256_GCM,
        req_asym_algo: ALG_ECDSA_P384 as u16,
        key_schedule_algo: ALG_KEY_SCHEDULE,
        other_params: OPAQUE_DATA_FMT1,
        data_transfer_size: DATA_TRANSFER_SIZE,
        max_msg_size: MAX_MSG_SIZE,
    }
}

/// A ready-to-drive handshake description: the role, the fixed protocol
/// parameters, and the transport the protocol engine will exchange messages
/// over. Provisioning information is left empty on purpose.
pub struct HandshakeContext {
    /// Which side of the handshake this context drives.
    pub role: HandshakeRole,
    /// The protocol parameters, identical for both roles.
    pub config: SpdmConfig,
    /// The device-port transport the engine sends and receives through.
    pub transport: VirtioSerialPort,
}

/// Bootstrap the initiator side of the handshake over `stream`.
pub fn spdm_requester(stream: VirtioSerialPort) -> (ctx: HandshakeContext)
    ensures
        ctx.role == HandshakeRole::Initiator,
        ctx.config == spec_session_config(),
        ctx.transport == stream,
{
    HandshakeContext { role: HandshakeRole::Initiator, config: session_config(), transport: stream }
}

/// Bootstrap the responder side of the handshake over `stream`.
pub fn spdm_responder(stream: VirtioSerialPort) -> (ctx: HandshakeContext)
    ensures
        ctx.role == HandshakeRole::Responder,
        ctx.config == spec_session_config(),
        ctx.transport == stream,
{
    HandshakeContext { role: HandshakeRole::Responder, config: session_config(), transport: stream }
}

/// Law: contexts bootstrapped for the two roles agree on the pinned protocol
/// version and on the whole algorithm suite; in fact their configurations
/// are identical.
pub proof fn lemma_roles_agree(a: HandshakeContext, b: HandshakeContext)
    requires
        a.config == spec_session_config(),
        b.config == spec_session_config(),
    ensures
        a.config.version == b.config.version,
        a.config.secure_version == b.config.secure_version,
        a.config.base_asym_algo == b.config.base_asym_algo,
        a.config.base_hash_algo == b.config.base_hash_algo,
        a.config.dhe_algo == b.config.dhe_algo,
        a.config.aead_algo == b.config.aead_algo,
        a.config.req_asym_algo == b.config.req_asym_algo,
        a.config.key_schedule_algo == b.config.key_schedule_algo,
        a.config == b.config,
{
}

} // verus!
