//! Certificate + EKM report-data binding.
//!
//! A TDX quote's 64-byte `report_data` must equal
//! `SHA-512("atls:v1\n" || peer_cert_der || session_ekm)`. This proves the
//! attested process generated the TLS key material and terminated this very
//! TLS session, since the EKM depends on both endpoints' handshake secrets.

use vstd::prelude::*;

use crate::digest::{extend_bytes, sha512, sha512_of};
use crate::errors::AtlsVerificationError;
use crate::hexutil::bytes_eq;

verus! {

/// The binding domain prefix, the bytes of `"atls:v1\n"`.
pub open spec fn atls_binding_prefix() -> Seq<u8> {
    seq![97u8, 116u8, 108u8, 115u8, 58u8, 118u8, 49u8, 10u8]
}

/// What the report data must hash: prefix, certificate DER, then EKM.
pub open spec fn report_data_preimage(cert_der: Seq<u8>, ekm: Seq<u8>) -> Seq<u8> {
    atls_binding_prefix() + cert_der + ekm
}

/// The report data a server bound to this certificate and session computes.
pub open spec fn expected_report_data(cert_der: Seq<u8>, ekm: Seq<u8>) -> Seq<u8> {
    sha512_of(report_data_preimage(cert_der, ekm))
}

/// Compute the report data this session expects the quote to carry.
pub fn compute_expected_report_data(cert_der: &Vec<u8>, ekm: &Vec<u8>) -> (r: Vec<u8>)
    ensures
        r@ == expected_report_data(cert_der@, ekm@),
        r@.len() == 64,
{
    let mut preimage: Vec<u8> = Vec::new();
    preimage.push(97);
    preimage.push(116);
    preimage.push(108);
    preimage.push(115);
    preimage.push(58);
    preimage.push(118);
    preimage.push(49);
    preimage.push(10);
    proof {
        assert(preimage@ =~= atls_binding_prefix());
    }
    extend_bytes(&mut preimage, cert_der);
    extend_bytes(&mut preimage, ekm);
    proof {
        assert(preimage@ =~= report_data_preimage(cert_der@, ekm@));
    }
    sha512(&preimage)
}

/// Check that the quote's report data commits to this certificate and EKM.
///
/// Succeeds exactly when `report_data` is the SHA-512 of
/// `"atls:v1\n" || cert_der || ekm`; any other value is `ReportDataMismatch`.
pub fn check_report_data_binding(
    report_data: &Vec<u8>,
    cert_der: &Vec<u8>,
    ekm: &Vec<u8>,
) -> (r: Result<(), AtlsVerificationError>)
    ensures
        r is Ok <==> report_data@ == expected_report_data(cert_der@, ekm@),
        r is Err ==> r matches Err(AtlsVerificationError::ReportDataMismatch),
{
    let expected = compute_expected_report_data(cert_der, ekm);
    if bytes_eq(report_data, &expected) {
        Ok(())
    } else {
        Err(AtlsVerificationError::ReportDataMismatch)
    }
}

} // verus!
