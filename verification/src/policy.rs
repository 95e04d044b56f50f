//! Attestation policy types.
//!
//! A `Policy` says what to trust: which TCB statuses are acceptable, which
//! boot-chain and workload measurements are expected, where collateral comes
//! from, and how long an `OutOfDate` platform is tolerated. Policies travel
//! as JSON (see `policy_codec`) and turn into a verifier at handshake time.

use vstd::prelude::*;

use crate::json::JsonVal;

verus! {

/// Default PCCS URL for TDX collateral fetching.
pub const DEFAULT_PCCS_URL: &'static str = "https://pccs.phala.network/tdx/certification/v4";

/// The default PCCS endpoint, present unless a policy overrides it.
pub fn default_pccs_url() -> (r: Option<String>)
    ensures
        r matches Some(u) && u@ == DEFAULT_PCCS_URL@,
{
    Some(DEFAULT_PCCS_URL.to_owned())
}

/// The default allow-set: exactly `UpToDate`.
pub fn default_allowed_tcb_status() -> (r: Vec<String>)
    ensures
        r@.len() == 1,
        r@[0]@ == "UpToDate"@,
{
    let mut v: Vec<String> = Vec::new();
    v.push("UpToDate".to_owned());
    v
}

/// Expected boot-chain measurements: the four initial measurement registers,
/// each a 48-byte SHA-384 digest.
pub struct ExpectedBootchain {
    pub mrtd: Vec<u8>,
    pub rtmr0: Vec<u8>,
    pub rtmr1: Vec<u8>,
    pub rtmr2: Vec<u8>,
}

impl ExpectedBootchain {
    /// All four registers are 48-byte digests.
    pub open spec fn wf(&self) -> bool {
        &&& self.mrtd@.len() == 48
        &&& self.rtmr0@.len() == 48
        &&& self.rtmr1@.len() == 48
        &&& self.rtmr2@.len() == 48
    }
}

/// Policy configuration for DStack TDX verification.
pub struct DstackTdxPolicy {
    /// Expected boot-chain measurements (MRTD, RTMR0-2).
    pub expected_bootchain: Option<ExpectedBootchain>,
    /// Expected app-compose document.
    pub app_compose: Option<JsonVal>,
    /// Expected OS image hash (SHA-256, hex text).
    pub os_image_hash: Option<String>,
    /// Allowed TCB status values.
    pub allowed_tcb_status: Vec<String>,
    /// PCCS URL for collateral fetching.
    pub pccs_url: Option<String>,
    /// Cache collateral to avoid repeated fetches.
    pub cache_collateral: bool,
    /// Disable runtime verification (NOT RECOMMENDED for production).
    ///
    /// When false (the default), at least one of `expected_bootchain`,
    /// `app_compose` and `os_image_hash` must be provided or verifier
    /// construction fails.
    pub disable_runtime_verification: bool,
    /// Seconds an `OutOfDate` TCB is tolerated after its official date.
    pub grace_period_secs: Option<u64>,
}

impl DstackTdxPolicy {
    /// At least one runtime expectation is present, or runtime verification
    /// is explicitly disabled. Verifier construction requires this.
    pub open spec fn runtime_config_ok(&self) -> bool {
        ||| self.disable_runtime_verification
        ||| self.expected_bootchain is Some
        ||| self.app_compose is Some
        ||| self.os_image_hash is Some
    }

    /// The default policy: allow only `UpToDate`, default PCCS endpoint, no
    /// caching, runtime verification required but no expectations set (so it
    /// cannot build a verifier until expectations are added).
    pub open spec fn is_default(&self) -> bool {
        &&& self.expected_bootchain is None
        &&& self.app_compose is None
        &&& self.os_image_hash is None
        &&& self.allowed_tcb_status@.len() == 1 && self.allowed_tcb_status@[0]@ == "UpToDate"@
        &&& self.pccs_url matches Some(u) && u@ == DEFAULT_PCCS_URL@
        &&& self.cache_collateral == false
        &&& self.disable_runtime_verification == false
        &&& self.grace_period_secs is None
    }

    /// Relaxed policy for development.
    ///
    /// Accepts common TCB statuses and disables runtime verification
    /// (boot-chain, app-compose and OS-image checks are skipped).
    pub fn dev() -> (r: DstackTdxPolicy)
        ensures
            r.disable_runtime_verification == true,
            r.allowed_tcb_status@.len() == 3,
            r.allowed_tcb_status@[0]@ == "UpToDate"@,
            r.allowed_tcb_status@[1]@ == "SWHardeningNeeded"@,
            r.allowed_tcb_status@[2]@ == "OutOfDate"@,
            r.expected_bootchain is None,
            r.app_compose is None,
            r.os_image_hash is None,
            r.pccs_url matches Some(u) && u@ == DEFAULT_PCCS_URL@,
            r.cache_collateral == false,
            r.grace_period_secs is None,
    {
        let mut allowed: Vec<String> = Vec::new();
        allowed.push("UpToDate".to_owned());
        allowed.push("SWHardeningNeeded".to_owned());
        allowed.push("OutOfDate".to_owned());
        DstackTdxPolicy {
            expected_bootchain: None,
            app_compose: None,
            os_image_hash: None,
            allowed_tcb_status: allowed,
            pccs_url: default_pccs_url(),
            cache_collateral: false,
            disable_runtime_verification: true,
            grace_period_secs: None,
        }
    }
}

impl Default for DstackTdxPolicy {
    fn default() -> (r: DstackTdxPolicy)
        ensures
            r.is_default(),
    {
        DstackTdxPolicy {
            expected_bootchain: None,
            app_compose: None,
            os_image_hash: None,
            allowed_tcb_status: default_allowed_tcb_status(),
            pccs_url: default_pccs_url(),
            cache_collateral: false,
            disable_runtime_verification: false,
            grace_period_secs: None,
        }
    }
}

/// Attestation policy determining which verifier to use and its
/// configuration. A tagged union with a closed variant set; new TEE families
/// extend the tag.
pub enum Policy {
    /// TDX attestation using the DStack verifier.
    DstackTdx(DstackTdxPolicy),
}

impl Default for Policy {
    fn default() -> (r: Policy)
        ensures
            r matches Policy::DstackTdx(p) && p.is_default(),
    {
        Policy::DstackTdx(DstackTdxPolicy::default())
    }
}

impl Policy {
    /// Whether the TLS layer should accept self-signed certificates: true
    /// for every TEE policy, since trust comes from attestation rather than
    /// the CA hierarchy.
    pub fn accept_self_signed_certs(&self) -> (r: bool)
        ensures
            r == true,
    {
        match self {
            Policy::DstackTdx(_) => true,
        }
    }
}

} // verus!
