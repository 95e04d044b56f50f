//! The TDX quote data the pipeline reads, as plain values.
//!
//! Parsing and signature verification of the quote binary are the DCAP
//! backend's work (see the trusted items below); everything the decision
//! logic consults is copied out into `TdQuote` and `PckInfo` so the logic
//! over it can be verified.

use vstd::prelude::*;

verus! {

/// The fields of a TDX TD report (v1.0 or v1.5 base) that verification reads.
pub struct TdQuote {
    /// TEE TCB SVN vector, 16 bytes.
    pub tee_tcb_svn: Vec<u8>,
    /// Measurement of the TD's firmware (SHA-384).
    pub mr_td: Vec<u8>,
    /// Runtime measurement registers 0..=3 (SHA-384 each).
    pub rt_mr0: Vec<u8>,
    pub rt_mr1: Vec<u8>,
    pub rt_mr2: Vec<u8>,
    pub rt_mr3: Vec<u8>,
    /// 64 bytes the attested software chose to bind.
    pub report_data: Vec<u8>,
}

impl TdQuote {
    /// Field widths of the TD report layout.
    pub open spec fn wf(&self) -> bool {
        &&& self.tee_tcb_svn@.len() == 16
        &&& self.mr_td@.len() == 48
        &&& self.rt_mr0@.len() == 48
        &&& self.rt_mr1@.len() == 48
        &&& self.rt_mr2@.len() == 48
        &&& self.rt_mr3@.len() == 48
        &&& self.report_data@.len() == 64
    }

    /// The runtime measurement register with the given index.
    pub open spec fn rtmr(&self, which: int) -> Seq<u8> {
        if which == 0 {
            self.rt_mr0@
        } else if which == 1 {
            self.rt_mr1@
        } else if which == 2 {
            self.rt_mr2@
        } else {
            self.rt_mr3@
        }
    }
}

/// What the PCK leaf certificate's Intel SGX extension carries.
pub struct PckInfo {
    /// CPU SVN vector, 16 bytes.
    pub cpu_svn: Vec<u8>,
    /// PCE SVN.
    pub pce_svn: u16,
    /// FMSPC, 6 bytes.
    pub fmspc: Vec<u8>,
}

impl PckInfo {
    pub open spec fn wf(&self) -> bool {
        &&& self.cpu_svn@.len() == 16
        &&& self.fmspc@.len() == 6
    }
}

/// What the DCAP backend reports for a verified quote: the selected TCB
/// status and its advisory IDs. Both are outside results; the gating logic
/// takes them as inputs and is verified for every value.
pub struct DcapVerdict {
    pub status: String,
    pub advisory_ids: Vec<String>,
}

/// What `dcap_qvl::quote::Quote::parse` followed by reading the TD report
/// gives for the given quote bytes: the TD report fields verification
/// consults, or nothing when the bytes do not parse as a TDX quote. Parsing
/// is a function of the bytes alone.
pub uninterp spec fn parsed_td_of(raw: Seq<u8>) -> Option<TdQuote>;

/// Relies on `dcap_qvl::quote::Quote::parse` and the TD 1.0 / TD 1.5 report
/// layouts: decodes the Intel quote binary and copies out the TD report
/// fields verification reads. `None` on malformed input or an SGX enclave
/// quote.
#[verifier::external_body]
pub fn parse_td_quote(raw: &Vec<u8>) -> (r: Option<TdQuote>)
    ensures
        r == parsed_td_of(raw@),
        r matches Some(td) ==> td.wf(),
{
    let quote = dcap_qvl::quote::Quote::parse(raw.as_slice()).ok()?;
    let base = match &quote.report {
        dcap_qvl::quote::Report::TD10(td) => td,
        dcap_qvl::quote::Report::TD15(td) => &td.base,
        dcap_qvl::quote::Report::SgxEnclave(_) => return None,
    };
    Some(TdQuote {
        tee_tcb_svn: base.tee_tcb_svn.to_vec(), mr_td: base.mr_td.to_vec(),
        rt_mr0: base.rt_mr0.to_vec(), rt_mr1: base.rt_mr1.to_vec(),
        rt_mr2: base.rt_mr2.to_vec(), rt_mr3: base.rt_mr3.to_vec(),
        report_data: base.report_data.to_vec(),
    })
}

/// What `dcap_qvl::intel::extract_cert_chain` finds in the given quote
/// bytes: the embedded PCK certificate chain, leaf first, as DER; nothing
/// when the bytes do not parse or carry no usable certification data. A
/// function of the bytes alone.
pub uninterp spec fn quote_chain_of(raw: Seq<u8>) -> Option<Seq<Seq<u8>>>;

/// Relies on `dcap_qvl::quote::Quote::parse` composed with
/// `dcap_qvl::intel::extract_cert_chain`: the PCK certificate chain embedded
/// in the quote's certification data.
#[verifier::external_body]
pub fn quote_cert_chain(raw: &Vec<u8>) -> (r: Option<Vec<Vec<u8>>>)
    ensures
        match r {
            Some(v) => quote_chain_of(raw@) == Some(v.deep_view()),
            None => quote_chain_of(raw@) is None,
        },
{
    let quote = dcap_qvl::quote::Quote::parse(raw.as_slice()).ok()?;
    dcap_qvl::intel::extract_cert_chain(&quote).ok()
}

/// What `dcap_qvl::intel::parse_pck_extension` reads from a DER-encoded PCK
/// certificate: CPU SVN, PCE SVN and FMSPC, or nothing on any other input.
/// A function of the certificate bytes alone.
pub uninterp spec fn pck_info_of(cert_der: Seq<u8>) -> Option<PckInfo>;

/// Relies on `dcap_qvl::intel::parse_pck_extension`: reads the Intel SGX
/// extension (CPU SVN, PCE SVN, FMSPC) from a DER-encoded PCK certificate.
#[verifier::external_body]
pub fn parse_pck_info(cert_der: &Vec<u8>) -> (r: Option<PckInfo>)
    ensures
        r == pck_info_of(cert_der@),
        r matches Some(p) ==> p.wf(),
{
    dcap_qvl::intel::parse_pck_extension(cert_der.as_slice()).ok().map(
        |e| PckInfo { cpu_svn: e.cpu_svn.to_vec(), pce_svn: e.pce_svn, fmspc: e.fmspc.to_vec() },
    )
}

} // verus!
