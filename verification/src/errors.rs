//! Structured failure kinds for the aTLS handshake and attestation pipeline.

use vstd::prelude::*;

verus! {

/// Everything that can abort an attested handshake.
///
/// Every failure aborts the current handshake; none are recovered locally.
/// Variants carry enough context for operator diagnosis (which register,
/// expected vs actual hex, which TCB field) but never key material.
#[derive(Debug)]
pub enum AtlsVerificationError {
    /// The requested server name is not a valid TLS server name.
    InvalidServerName(String),
    /// The TLS handshake itself failed (including EKM export failure).
    TlsHandshake(String),
    /// The peer presented no certificate.
    MissingCertificate,
    /// I/O failure while reading the attestation payload over the TLS stream.
    SubprotocolIo(String),
    /// The TDX quote binary could not be parsed.
    QuoteParse(String),
    /// The quote's signature chain did not verify (QE identity, QE report,
    /// attestation key, or TD report signature).
    QuoteSignatureInvalid(String),
    /// The PCK certificate chain did not verify to the pinned Intel root.
    PckChainInvalid(String),
    /// A certificate revocation list was invalid or listed a chain member.
    CrlInvalid(String),
    /// Collateral could not be fetched from the PCCS endpoint.
    CollateralFetch(String),
    /// The TCB info in the collateral was malformed or did not apply to
    /// this quote (FMSPC mismatch, wrong TEE family, no matching level).
    TcbInfoError(String),
    /// The selected TCB level's status is not in the policy's allow-set.
    UnacceptableTcbStatus { status: String },
    /// The TCB is `OutOfDate` and the configured grace period has elapsed.
    GracePeriodExpired { status: String, tcb_date: String, grace_period_secs: u64 },
    /// The quote's report data does not commit to this session's
    /// certificate and exported keying material.
    ReportDataMismatch,
    /// The DStack event log could not be decoded.
    EventLogMalformed(String),
    /// A replayed or expected boot-chain measurement differs from the quote.
    BootchainMismatch { which: String, expected: String, actual: String },
    /// The OS image hash in the event log differs from the policy's.
    OsImageMismatch { expected: String, actual: String },
    /// The app-compose document does not match its logged digest or the
    /// policy's expectation.
    AppComposeMismatch { expected: String, actual: String },
    /// The policy or verifier configuration is unusable as given.
    Configuration(String),
}

} // verus!
