//! Attestation quote bridge: binds a freshness value to a hardware report.
//!
//! The bridge hashes caller-supplied report data (typically a session
//! public-key hash), places the digest at the head of a 64-byte buffer with
//! zero padding behind it, and requests a hardware report bound to that
//! buffer through a privileged platform call. The serialized report is then
//! exchanged for a verifiable quote by an external attestation service; that
//! exchange is the caller's step. Every failure aborts the bridge with no
//! partial evidence and no retry.

use vstd::prelude::*;
use sha2::Digest;

verus! {

/// Size of the additional-data buffer a report is bound to.
pub const ADDITIONAL_DATA_SIZE: usize = 64;

/// Size of a SHA-384 digest.
pub const SHA384_DIGEST_SIZE: usize = 48;

/// Size of a serialized hardware report.
pub const TD_REPORT_SIZE: usize = 1024;

/// The SHA-384 digest of a byte sequence, as the hash function determines it.
pub uninterp spec fn sha384_of(data: Seq<u8>) -> Seq<u8>;

/// Relies on sha2::Sha384: the FIPS 180-4 SHA-384 hash, a pure function of
/// its input with a 48-byte digest.
#[verifier::external_body]
fn sha384(data: &[u8]) -> (r: Vec<u8>)
    ensures
        r@ == sha384_of(data@),
        r@.len() == SHA384_DIGEST_SIZE,
{
    sha2::Sha384::digest(data).to_vec()
}

/// `h` followed by zeros up to 64 bytes.
pub open spec fn zero_pad64(h: Seq<u8>) -> Seq<u8>
    recommends
        h.len() <= 64,
{
    h + Seq::new((64 - h.len()) as nat, |i: int| 0u8)
}

/// Law: the 64-byte bound buffer pins its leading hash exactly: two buffers
/// built from 48-byte hashes are equal precisely when the hashes are, the
/// tail being zero either way.
pub proof fn lemma_binding_pins_hash(ha: Seq<u8>, hb: Seq<u8>)
    requires
        ha.len() == SHA384_DIGEST_SIZE,
        hb.len() == SHA384_DIGEST_SIZE,
    ensures
        zero_pad64(ha).len() == 64,
        zero_pad64(hb).len() == 64,
        zero_pad64(ha) == zero_pad64(hb) <==> ha == hb,
{
    if zero_pad64(ha) == zero_pad64(hb) {
        assert forall|i: int| 0 <= i < 48 implies ha[i] == hb[i] by {
            assert(zero_pad64(ha)[i] == ha[i]);
            assert(zero_pad64(hb)[i] == hb[i]);
        }
        assert(ha =~= hb);
    }
    if ha == hb {
        assert(zero_pad64(ha) =~= zero_pad64(hb));
    }
}

/// Build the 64-byte additional-data buffer for `report_data`: its SHA-384
/// digest first, zero padding behind. The same report data always yields the
/// same buffer, and the buffer determines the digest.
pub fn report_binding(report_data: &[u8]) -> (r: Vec<u8>)
    ensures
        r@ == zero_pad64(sha384_of(report_data@)),
        r@.len() == ADDITIONAL_DATA_SIZE,
        r@.take(SHA384_DIGEST_SIZE as int) == sha384_of(report_data@),
        forall|i: int| SHA384_DIGEST_SIZE <= i < ADDITIONAL_DATA_SIZE ==> r@[i] == 0,
{
    let mut r = sha384(report_data);
    let ghost h = r@;
    while r.len() < 64
        invariant
            48 <= r@.len() <= 64,
            r@ == h + Seq::new((r@.len() - 48) as nat, |i: int| 0u8),
            h.len() == 48,
        decreases 64 - r@.len(),
    {
        r.push(0u8);
        proof {
            assert(r@ =~= h + Seq::new((r@.len() - 48) as nat, |i: int| 0u8));
        }
    }
    proof {
        assert(r@ =~= zero_pad64(h));
        assert(r@.take(SHA384_DIGEST_SIZE as int) =~= h);
    }
    r
}

/// Failure classes of the quote bridge; each is fatal to the invocation and
/// no partial evidence is ever returned.
#[derive(Clone, Copy, Debug, PartialEq, Eq, Structural)]
pub enum QuoteError {
    /// The privileged hardware-report call failed.
    Report,
    /// The exchange of the report for a quote failed.
    Quote,
}

#[verifier::external_type_specification]
#[verifier::external_body]
pub struct ExTdxReport(tdx_tdcall::tdreport::TdxReport);

#[verifier::external_type_specification]
#[verifier::external_body]
pub struct ExTdCallError(tdx_tdcall::TdCallError);

/// Relies on tdx_tdcall::tdreport::tdcall_report: the privileged call that
/// produces a hardware report bound to the given 64-byte additional data.
/// Its outcome depends on the executing platform, so nothing is promised of
/// either the report or the error.
#[verifier::external_body]
fn fetch_report(additional_data: &Vec<u8>) -> (r: Result<
    tdx_tdcall::tdreport::TdxReport,
    tdx_tdcall::TdCallError,
>)
    requires
        additional_data@.len() == 64,
{
    let mut buf = [0u8; 64];
    buf.copy_from_slice(additional_data.as_slice());
    tdx_tdcall::tdreport::tdcall_report(&buf)
}

/// Relies on TdxReport::as_bytes: a report serializes to its full 1024-byte
/// structure.
#[verifier::external_body]
fn report_to_bytes(report: &tdx_tdcall::tdreport::TdxReport) -> (b: Vec<u8>)
    ensures
        b@.len() == TD_REPORT_SIZE,
{
    report.as_bytes().to_vec()
}

/// Bind `report_data` into a fresh hardware report: hash it, build the
/// 64-byte bound buffer, and request the report through the privileged call.
/// On success the serialized 1024-byte report is returned for the caller to
/// exchange for a quote; on failure the bridge aborts with no partial
/// evidence and no retry.
pub fn request_report(report_data: &[u8]) -> (r: Result<Vec<u8>, QuoteError>)
    ensures
        r matches Ok(b) ==> b@.len() == TD_REPORT_SIZE,
        r matches Err(e) ==> e == QuoteError::Report,
{
    let binding = report_binding(report_data);
    match fetch_report(&binding) {
        Ok(report) => Ok(report_to_bytes(&report)),
        Err(_) => Err(QuoteError::Report),
    }
}

} // verus!
