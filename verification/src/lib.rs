//! Attested TLS (aTLS) client core.
//!
//! This library verifies that a TLS peer lives inside a genuine Intel TDX
//! trusted execution environment managed by the DStack orchestration stack.
//! It covers the policy model, the TDX quote / TCB-level pipeline with its
//! `OutOfDate` grace period, the DStack event-log replay and measurement
//! binding, the certificate + EKM report-data binding, and the JSON policy
//! wire format. Transport, collateral fetching and TLS plumbing live with
//! the caller; this crate holds the decisions and proves them.

pub mod allowlist;
pub mod appcompose;
pub mod binding;
pub mod collateral;
pub mod digest;
pub mod dstack;
pub mod errors;
pub mod eventlog;
pub mod framing;
pub mod grace;
pub mod hexutil;
pub mod http;
pub mod json;
pub mod jsonparse;
pub mod policy;
pub mod policy_codec;
pub mod quote;
pub mod strutil;
pub mod tcb;

pub use errors::AtlsVerificationError;
