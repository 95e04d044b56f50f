//! The DStack TDX verifier: policy validation and the attestation decision.
//!
//! `DstackTdxPolicy::into_verifier` validates the policy and fixes the
//! expectations (merging the app-compose defaults once). `verify_attestation`
//! then decides one handshake: status gating with the grace period, TCB-date
//! extraction, report-data binding, and the runtime checks.

use vstd::prelude::*;

use crate::appcompose::{app_compose_ok, check_app_compose, merge_app_compose_spec, merge_with_default_app_compose};
use crate::binding::{check_report_data_binding, expected_report_data};
use crate::collateral::{dcap_verdict_of, enforce_grace_period, extract_tcb_date, grace_enforcement_ok, selected_pck_leaf, Collateral, CollateralV};
use crate::errors::AtlsVerificationError;
use crate::eventlog::{bootchain_ok, check_bootchain, check_os_image, log_view, log_wf, os_image_ok, EventLogEntry};
use crate::grace::{check_status_allowed, contains_status};
use crate::json::{JsonSpec, JsonVal};
use crate::policy::{DstackTdxPolicy, ExpectedBootchain, Policy};
use crate::quote::{parsed_td_of, pck_info_of, DcapVerdict, PckInfo, TdQuote};
use crate::strutil::clone_strings;
use crate::tcb::{select_tcb_level, tcb_family_ok, tcb_fmspc_ok, TcbInfo, TcbInfoV, TcbSelection};

verus! {

/// A validated DStack TDX verifier: the policy's expectations, fixed.
/// The app-compose expectation is stored already merged with the defaults.
pub struct DstackTdxVerifier {
    pub expected_bootchain: Option<ExpectedBootchain>,
    pub app_compose: Option<JsonVal>,
    pub os_image_hash: Option<String>,
    pub allowed_tcb_status: Vec<String>,
    pub pccs_url: Option<String>,
    pub cache_collateral: bool,
    pub disable_runtime_verification: bool,
    pub grace_period_secs: Option<u64>,
}

impl DstackTdxPolicy {
    /// Validate this policy and fix its expectations as a verifier.
    ///
    /// Construction fails with `Configuration` exactly when runtime
    /// verification is required (not disabled) while no runtime expectation
    /// (boot chain, app-compose, OS image hash) is present.
    pub fn into_verifier(self) -> (r: Result<DstackTdxVerifier, AtlsVerificationError>)
        ensures
            r is Ok <==> self.runtime_config_ok(),
            r is Err ==> r matches Err(AtlsVerificationError::Configuration(_)),
            r matches Ok(v) ==> {
                &&& v.expected_bootchain == self.expected_bootchain
                &&& match (self.app_compose, v.app_compose) {
                    (Some(u), Some(m)) => m.deep() == merge_app_compose_spec(u.deep()),
                    (None, None) => true,
                    _ => false,
                }
                &&& v.os_image_hash == self.os_image_hash
                &&& v.allowed_tcb_status == self.allowed_tcb_status
                &&& v.pccs_url == self.pccs_url
                &&& v.cache_collateral == self.cache_collateral
                &&& v.disable_runtime_verification == self.disable_runtime_verification
                &&& v.grace_period_secs == self.grace_period_secs
            },
    {
        if !self.disable_runtime_verification && self.expected_bootchain.is_none()
            && self.app_compose.is_none() && self.os_image_hash.is_none() {
            return Err(
                AtlsVerificationError::Configuration(
                    "runtime verification requires expected_bootchain, app_compose or os_image_hash (or disable it explicitly)".to_owned(),
                ),
            );
        }
        let app_compose = match self.app_compose {
            Some(user) => Some(merge_with_default_app_compose(user)),
            None => None,
        };
        Ok(
            DstackTdxVerifier {
                expected_bootchain: self.expected_bootchain,
                app_compose,
                os_image_hash: self.os_image_hash,
                allowed_tcb_status: self.allowed_tcb_status,
                pccs_url: self.pccs_url,
                cache_collateral: self.cache_collateral,
                disable_runtime_verification: self.disable_runtime_verification,
                grace_period_secs: self.grace_period_secs,
            },
        )
    }
}

impl Policy {
    /// Construct the verifier this policy asks for.
    pub fn into_verifier(self) -> (r: Result<DstackTdxVerifier, AtlsVerificationError>)
        ensures
            self matches Policy::DstackTdx(p) ==> (r is Ok <==> p.runtime_config_ok()),
            r is Err ==> r matches Err(AtlsVerificationError::Configuration(_)),
    {
        match self {
            Policy::DstackTdx(p) => p.into_verifier(),
        }
    }
}

/// The verified report of one successful attestation.
pub struct TdxReport {
    /// The selected TCB status.
    pub status: String,
    /// Advisory IDs attached to the selected TCB level.
    pub advisory_ids: Vec<String>,
    /// The selected TCB level's date, RFC 3339 text.
    pub tcb_date: String,
    /// Hex of the quote's MRTD.
    pub measurement: String,
    /// Hex of the quote's RTMR3, the runtime application register.
    pub rtmr_app: String,
    /// The policy's OS image hash expectation, where one was set.
    pub os_image_hash: Option<String>,
    /// Hex of the canonical SHA-256 of the delivered app-compose document,
    /// where runtime verification checked one.
    pub app_compose_digest: Option<String>,
}

/// The final report, tagged by TEE family.
pub enum Report {
    Tdx(TdxReport),
}

/// A host-facing attestation summary.
pub struct Attestation {
    pub trusted: bool,
    pub tee_type: String,
    pub measurement: Option<String>,
    pub tcb_status: String,
    pub advisory_ids: Vec<String>,
}

impl Report {
    /// Summarize this report for a host-language binding.
    pub fn attestation(&self) -> (r: Attestation)
        ensures
            r.trusted == true,
            r.tee_type@ == "tdx"@,
            self matches Report::Tdx(t) ==> {
                &&& r.measurement matches Some(m) && m@ == t.measurement@
                &&& r.tcb_status@ == t.status@
                &&& r.advisory_ids@ == t.advisory_ids@
            },
    {
        match self {
            Report::Tdx(t) => Attestation {
                trusted: true,
                tee_type: "tdx".to_owned(),
                measurement: Some(t.measurement.clone()),
                tcb_status: t.status.clone(),
                advisory_ids: clone_strings(&t.advisory_ids),
            },
        }
    }
}

/// The shape of an optional JSON document.
pub open spec fn opt_deep(o: Option<JsonVal>) -> Option<JsonSpec> {
    match o {
        Some(d) => Some(d.deep()),
        None => None,
    }
}

/// The payload the attestation sub-protocol delivers after the TLS
/// handshake, in decoded form.
pub struct AttestationPayload {
    /// The raw TDX quote binary.
    pub quote: Vec<u8>,
    /// The DStack event log entries, in order.
    pub event_log: Vec<EventLogEntry>,
    /// The app-compose document, where one was delivered.
    pub app_compose: Option<JsonVal>,
    /// The OS image hash hex text, where one was delivered.
    pub os_image_hash: Option<String>,
}

/// The status gate lets this verdict through: the allow-set holds it, or it
/// is an `OutOfDate` deferred to a configured grace window.
pub open spec fn status_gate_passes(v: DstackTdxVerifier, status: Seq<char>) -> bool {
    ||| contains_status(v.allowed_tcb_status@, status)
    ||| (status == "OutOfDate"@ && v.grace_period_secs is Some)
}

/// The TCB info applies to this platform and selects a level.
pub open spec fn tcb_applies(info: TcbInfoV, pck: PckInfo, tee_tcb_svn: Seq<u8>) -> bool {
    &&& tcb_fmspc_ok(info, pck.fmspc@)
    &&& tcb_family_ok(info, true)
    &&& select_tcb_level(info.tcb_levels, pck.cpu_svn@, pck.pce_svn, true, tee_tcb_svn) is Level
}

/// Everything `verify_attestation` accepts: report-data binding, the status
/// gate with its grace window, an applicable TCB info with a winning level,
/// and, unless runtime verification is disabled, the event-log replay,
/// boot-chain, OS-image and app-compose checks.
pub open spec fn attestation_ok(
    v: DstackTdxVerifier,
    td: TdQuote,
    verdict_status: Seq<char>,
    tcb_info: TcbInfoV,
    pck: PckInfo,
    log: Seq<crate::eventlog::EventLogEntryV>,
    app_doc: Option<JsonSpec>,
    cert_der: Seq<u8>,
    ekm: Seq<u8>,
    now_secs: u64,
) -> bool {
    &&& contains_status(v.allowed_tcb_status@, verdict_status) || (verdict_status == "OutOfDate"@
        && v.grace_period_secs is Some)
    &&& grace_enforcement_ok(
        verdict_status,
        tcb_info,
        true,
        td.tee_tcb_svn@,
        pck,
        v.grace_period_secs,
        now_secs,
    )
    &&& tcb_fmspc_ok(tcb_info, pck.fmspc@)
    &&& tcb_family_ok(tcb_info, true)
    &&& select_tcb_level(tcb_info.tcb_levels, pck.cpu_svn@, pck.pce_svn, true, td.tee_tcb_svn@)
        is Level
    &&& td.report_data@ == expected_report_data(cert_der, ekm)
    &&& !v.disable_runtime_verification ==> {
        &&& log_wf(log)
        &&& bootchain_ok(log, td, v.expected_bootchain)
        &&& (v.os_image_hash matches Some(h) ==> os_image_ok(log, h@))
        &&& (v.app_compose matches Some(m) ==> (app_doc matches Some(d) && app_compose_ok(
            log,
            d,
            m.deep(),
        )))
    }
}

impl DstackTdxVerifier {
    /// Decide one attested handshake from the quote's model, the DCAP
    /// verdict, the collateral's TCB info, the event log and the session's
    /// certificate and EKM.
    ///
    /// Succeeds exactly when `attestation_ok` holds of the inputs; the
    /// report then carries the verdict's status and advisories, the winning
    /// TCB level's date, and the quote's measurements as hex.
    pub fn verify_attestation(
        &self,
        td: &TdQuote,
        verdict: &DcapVerdict,
        tcb_info: &TcbInfo,
        pck: &PckInfo,
        event_log: &Vec<EventLogEntry>,
        app_doc: Option<&JsonVal>,
        cert_der: &Vec<u8>,
        ekm: &Vec<u8>,
        now_secs: u64,
    ) -> (r: Result<TdxReport, AtlsVerificationError>)
        ensures
            r is Ok <==> attestation_ok(
                *self,
                *td,
                verdict.status@,
                tcb_info@,
                *pck,
                log_view(event_log@),
                match app_doc {
                    Some(d) => Some(d.deep()),
                    None => None,
                },
                cert_der@,
                ekm@,
                now_secs,
            ),
            r matches Ok(rep) ==> {
                &&& rep.status@ == verdict.status@
                &&& rep.advisory_ids@ == verdict.advisory_ids@
                &&& select_tcb_level(
                    tcb_info@.tcb_levels,
                    pck.cpu_svn@,
                    pck.pce_svn,
                    true,
                    td.tee_tcb_svn@,
                ) matches TcbSelection::Level(i) && rep.tcb_date@
                    == tcb_info@.tcb_levels[i].tcb_date
                &&& rep.measurement@ == crate::hexutil::hex_chars_of(td.mr_td@)
                &&& rep.rtmr_app@ == crate::hexutil::hex_chars_of(td.rt_mr3@)
                &&& rep.os_image_hash == self.os_image_hash
            },
            r is Ok ==> td.report_data@ == expected_report_data(cert_der@, ekm@),
            r matches Ok(rep) ==> match app_doc {
                Some(d) => {
                    &&& (!self.disable_runtime_verification && self.app_compose is Some) ==> (
                    rep.app_compose_digest matches Some(h) && h@ == crate::hexutil::hex_chars_of(
                        crate::digest::sha256_of(crate::json::json_bytes(d.deep())),
                    ))
                    &&& (self.disable_runtime_verification || self.app_compose is None)
                        ==> rep.app_compose_digest is None
                },
                None => rep.app_compose_digest is None,
            },
            !status_gate_passes(*self, verdict.status@) ==> (r matches Err(
                AtlsVerificationError::UnacceptableTcbStatus { status: s },
            ) && s@ == verdict.status@),
            status_gate_passes(*self, verdict.status@) && !grace_enforcement_ok(
                verdict.status@,
                tcb_info@,
                true,
                td.tee_tcb_svn@,
                *pck,
                self.grace_period_secs,
                now_secs,
            ) ==> (r matches Err(AtlsVerificationError::GracePeriodExpired { .. }) || r matches Err(
                AtlsVerificationError::Configuration(_),
            ) || r matches Err(AtlsVerificationError::TcbInfoError(_))),
            ({
                let gate = status_gate_passes(*self, verdict.status@);
                let grace = grace_enforcement_ok(
                    verdict.status@,
                    tcb_info@,
                    true,
                    td.tee_tcb_svn@,
                    *pck,
                    self.grace_period_secs,
                    now_secs,
                );
                let applies = tcb_applies(tcb_info@, *pck, td.tee_tcb_svn@);
                let bound = td.report_data@ == expected_report_data(cert_der@, ekm@);
                let log = log_view(event_log@);
                &&& (gate && grace && !applies ==> r matches Err(
                    AtlsVerificationError::TcbInfoError(_),
                ))
                &&& (gate && grace && applies && !bound ==> r matches Err(
                    AtlsVerificationError::ReportDataMismatch,
                ))
                &&& (gate && grace && applies && bound && !self.disable_runtime_verification
                    && !log_wf(log) ==> r matches Err(AtlsVerificationError::EventLogMalformed(_)))
                &&& (gate && grace && applies && bound && !self.disable_runtime_verification
                    && log_wf(log) && !bootchain_ok(log, *td, self.expected_bootchain) ==> r matches
                    Err(AtlsVerificationError::BootchainMismatch { .. }))
                &&& (gate && grace && applies && bound && !self.disable_runtime_verification
                    && log_wf(log) && bootchain_ok(log, *td, self.expected_bootchain) && (
                self.os_image_hash matches Some(h) && !os_image_ok(log, h@)) ==> r matches Err(
                    AtlsVerificationError::OsImageMismatch { .. },
                ))
                &&& (gate && grace && applies && bound && !self.disable_runtime_verification
                    && log_wf(log) && bootchain_ok(log, *td, self.expected_bootchain) && (match self
                    .os_image_hash {
                    Some(h) => os_image_ok(log, h@),
                    None => true,
                }) && (self.app_compose matches Some(m) && !(app_doc matches Some(d)
                    && app_compose_ok(log, d.deep(), m.deep()))) ==> r matches Err(
                    AtlsVerificationError::AppComposeMismatch { .. },
                ))
            }),
            r is Err ==> {
                ||| r matches Err(AtlsVerificationError::UnacceptableTcbStatus { .. })
                ||| r matches Err(AtlsVerificationError::GracePeriodExpired { .. })
                ||| r matches Err(AtlsVerificationError::Configuration(_))
                ||| r matches Err(AtlsVerificationError::TcbInfoError(_))
                ||| r matches Err(AtlsVerificationError::ReportDataMismatch)
                ||| r matches Err(AtlsVerificationError::EventLogMalformed(_))
                ||| r matches Err(AtlsVerificationError::BootchainMismatch { .. })
                ||| r matches Err(AtlsVerificationError::OsImageMismatch { .. })
                ||| r matches Err(AtlsVerificationError::AppComposeMismatch { .. })
            },
    {
        check_status_allowed(
            &verdict.status,
            &self.allowed_tcb_status,
            self.grace_period_secs.is_some(),
        )?;
        enforce_grace_period(
            &verdict.status,
            tcb_info,
            true,
            &td.tee_tcb_svn,
            pck,
            self.grace_period_secs,
            now_secs,
        )?;
        let tcb_date = extract_tcb_date(tcb_info, true, &td.tee_tcb_svn, pck)?;
        check_report_data_binding(&td.report_data, cert_der, ekm)?;

        let mut app_compose_digest: Option<String> = None;
        if !self.disable_runtime_verification {
            check_log_wf(event_log)?;
            check_bootchain(event_log, td, self.expected_bootchain.as_ref())?;
            if let Some(h) = &self.os_image_hash {
                check_os_image(event_log, h)?;
            }
            if let Some(m) = &self.app_compose {
                match app_doc {
                    Some(d) => {
                        check_app_compose(event_log, d, m)?;
                        let canonical = crate::json::to_json_bytes(d);
                        app_compose_digest = Some(
                            crate::strutil::hex_string(&crate::digest::sha256(&canonical)),
                        );
                    },
                    None => {
                        return Err(
                            AtlsVerificationError::AppComposeMismatch {
                                expected: "an app-compose document".to_owned(),
                                actual: String::new(),
                            },
                        );
                    },
                }
            }
        }

        Ok(
            TdxReport {
                status: verdict.status.clone(),
                advisory_ids: clone_strings(&verdict.advisory_ids),
                tcb_date,
                measurement: crate::strutil::hex_string(&td.mr_td),
                rtmr_app: crate::strutil::hex_string(&td.rt_mr3),
                os_image_hash: match &self.os_image_hash {
                    Some(h) => Some(h.clone()),
                    None => None,
                },
                app_compose_digest,
            },
        )
    }
}

/// Reject event logs that name a register that does not exist.
fn check_log_wf(log: &Vec<EventLogEntry>) -> (r: Result<(), AtlsVerificationError>)
    ensures
        r is Ok <==> log_wf(log_view(log@)),
        r is Err ==> r matches Err(AtlsVerificationError::EventLogMalformed(_)),
{
    let mut i: usize = 0;
    while i < log.len()
        invariant
            i <= log@.len(),
            forall|j: int| 0 <= j < i ==> (#[trigger] log_view(log@)[j]).imr < 4,
        decreases log@.len() - i,
    {
        if log[i].imr >= 4 {
            proof {
                assert(log_view(log@)[i as int].imr >= 4);
            }
            return Err(
                AtlsVerificationError::EventLogMalformed(
                    "event log entry names a register out of range".to_owned(),
                ),
            );
        }
        i = i + 1;
    }
    Ok(())
}

/// Decode the attestation sub-protocol payload: four framed fields carrying
/// the raw quote, the event log JSON, the app-compose JSON (empty for none),
/// and the OS image hash text (empty for none). The framing is pinned
/// exactly; the JSON fields go through the crate's parser, whose output the
/// event-log decoder then constrains.
pub fn decode_attestation_payload(raw: &Vec<u8>) -> (r: Result<
    AttestationPayload,
    AtlsVerificationError,
>)
    ensures
        crate::framing::decode_frames_spec(raw@) is None ==> r matches Err(
            AtlsVerificationError::SubprotocolIo(_),
        ),
        crate::framing::decode_frames_spec(raw@) matches Some(fs) ==> (fs.len() != 4 ==> r matches
            Err(AtlsVerificationError::SubprotocolIo(_))),
        r matches Ok(p) ==> (crate::framing::decode_frames_spec(raw@) matches Some(fs) && {
            &&& fs.len() == 4
            &&& p.quote@ == fs[0]
            &&& (exists|v: JsonSpec|
                #[trigger] crate::eventlog::decode_log_spec(v) == Some(log_view(p.event_log@)))
            &&& log_wf(log_view(p.event_log@))
            &&& (p.app_compose is None <==> fs[2].len() == 0)
            &&& match p.os_image_hash {
                Some(h) => crate::strutil::utf8_bytes_of(h@) == fs[3] && fs[3].len() > 0,
                None => fs[3].len() == 0,
            }
        }),
{
    let fields = match crate::framing::decode_frames(raw) {
        Some(fs) => fs,
        None => {
            return Err(
                AtlsVerificationError::SubprotocolIo("malformed attestation framing".to_owned()),
            );
        },
    };
    if fields.len() != 4 {
        return Err(
            AtlsVerificationError::SubprotocolIo(
                "attestation payload must carry four fields".to_owned(),
            ),
        );
    }
    let ghost fs = crate::framing::frames_view(fields@);
    let mut fields = fields;
    let os_field = fields.remove(3);
    let app_field = fields.remove(2);
    let log_field = fields.remove(1);
    let quote = fields.remove(0);
    proof {
        assert(os_field@ == fs[3] && app_field@ == fs[2] && log_field@ == fs[1] && quote@
            == fs[0]);
    }

    let log_json = match crate::jsonparse::parse_json(&log_field) {
        Some(v) => v,
        None => {
            return Err(
                AtlsVerificationError::EventLogMalformed("event log is not valid JSON".to_owned()),
            );
        },
    };
    let event_log = crate::eventlog::decode_event_log(&log_json)?;

    let app_compose = if app_field.len() == 0 {
        None
    } else {
        match crate::jsonparse::parse_json(&app_field) {
            Some(v) => Some(v),
            None => {
                return Err(
                    AtlsVerificationError::SubprotocolIo(
                        "app-compose document is not valid JSON".to_owned(),
                    ),
                );
            },
        }
    };

    let os_image_hash = if os_field.len() == 0 {
        None
    } else {
        match crate::strutil::string_from_utf8(os_field) {
            Some(s) => Some(s),
            None => {
                return Err(
                    AtlsVerificationError::SubprotocolIo(
                        "OS image hash is not valid text".to_owned(),
                    ),
                );
            },
        }
    };

    Ok(AttestationPayload { quote, event_log, app_compose, os_image_hash })
}

/// A verifier for one TEE family: the decision core of the attested
/// handshake. The caller performs the I/O (reading the sub-protocol payload,
/// fetching collateral) and hands the values in; implementations decide.
pub trait RatlsVerifier {
    /// The TEE-specific report returned on success.
    type Outcome;

    /// Decide the handshake from the delivered payload, the session's leaf
    /// certificate and EKM, and the fetched collateral, at the given time.
    fn verify_payload(
        &self,
        payload: &AttestationPayload,
        peer_cert: &Vec<u8>,
        session_ekm: &Vec<u8>,
        collateral: &Collateral,
        now_secs: u64,
    ) -> Result<Self::Outcome, AtlsVerificationError>;
}

/// Everything `verify_payload` accepts, with every outside result tied to
/// its name: the quote bytes parse as a TD report, the DCAP backend verifies
/// them against the collateral at the given time, a PCK leaf is selected and
/// its Intel extension parses, and the attestation acceptance conditions
/// hold of those values.
pub open spec fn payload_accepted(
    v: DstackTdxVerifier,
    quote: Seq<u8>,
    log: Seq<crate::eventlog::EventLogEntryV>,
    app_doc: Option<JsonSpec>,
    cert_der: Seq<u8>,
    ekm: Seq<u8>,
    collateral: CollateralV,
    tcb_info: TcbInfoV,
    now_secs: u64,
) -> bool {
    &&& parsed_td_of(quote) matches Some(td)
    &&& dcap_verdict_of(quote, collateral, now_secs) matches Some(verdict)
    &&& selected_pck_leaf(quote, collateral.pck_certificate_chain) matches Some(leaf)
    &&& pck_info_of(leaf) matches Some(pck)
    &&& attestation_ok(
        v,
        td,
        verdict.status@,
        tcb_info,
        pck,
        log,
        app_doc,
        cert_der,
        ekm,
        now_secs,
    )
}

impl DstackTdxVerifier {
    /// Decide one attested handshake from the delivered payload and the
    /// already-decoded TCB info: parse and DCAP-verify the quote, resolve
    /// the PCK leaf, and decide via `verify_attestation`.
    ///
    /// Succeeds exactly when `payload_accepted` holds of the inputs; a
    /// quote that does not parse is `QuoteParse`, a quote the DCAP backend
    /// rejects is `QuoteSignatureInvalid`, each exactly.
    pub fn verify_with_tcb_info(
        &self,
        payload: &AttestationPayload,
        peer_cert: &Vec<u8>,
        session_ekm: &Vec<u8>,
        collateral: &Collateral,
        tcb_info: &TcbInfo,
        now_secs: u64,
    ) -> (r: Result<Report, AtlsVerificationError>)
        ensures
            r is Ok <==> payload_accepted(
                *self,
                payload.quote@,
                log_view(payload.event_log@),
                opt_deep(payload.app_compose),
                peer_cert@,
                session_ekm@,
                collateral@,
                tcb_info@,
                now_secs,
            ),
            r matches Ok(Report::Tdx(rep)) ==> (dcap_verdict_of(
                payload.quote@,
                collateral@,
                now_secs,
            ) matches Some(verdict) && rep.status@ == verdict.status@ && rep.advisory_ids@
                == verdict.advisory_ids@),
            r matches Err(AtlsVerificationError::QuoteParse(_)) <==> parsed_td_of(payload.quote@)
                is None,
            parsed_td_of(payload.quote@) is Some ==> (r matches Err(
                AtlsVerificationError::QuoteSignatureInvalid(_),
            ) <==> dcap_verdict_of(payload.quote@, collateral@, now_secs) is None),
            (parsed_td_of(payload.quote@) is Some && dcap_verdict_of(
                payload.quote@,
                collateral@,
                now_secs,
            ) is Some && selected_pck_leaf(payload.quote@, collateral@.pck_certificate_chain)
                is None) ==> r matches Err(AtlsVerificationError::TcbInfoError(_)),
    {
        let td = match crate::quote::parse_td_quote(&payload.quote) {
            Some(td) => td,
            None => {
                return Err(
                    AtlsVerificationError::QuoteParse("not a parseable TDX quote".to_owned()),
                );
            },
        };
        let verdict = match crate::collateral::dcap_verify_quote(
            &payload.quote,
            collateral,
            now_secs,
        ) {
            Ok(v) => v,
            Err(e) => {
                return Err(AtlsVerificationError::QuoteSignatureInvalid(e));
            },
        };
        let pck_leaf = crate::collateral::extract_pck_leaf_cert(&payload.quote, collateral)?;
        let pck = match crate::quote::parse_pck_info(&pck_leaf) {
            Some(p) => p,
            None => {
                return Err(
                    AtlsVerificationError::TcbInfoError("failed to parse PCK extension".to_owned()),
                );
            },
        };
        let report = self.verify_attestation(
            &td,
            &verdict,
            tcb_info,
            &pck,
            &payload.event_log,
            match &payload.app_compose {
                Some(d) => Some(d),
                None => None,
            },
            peer_cert,
            session_ekm,
            now_secs,
        )?;
        Ok(Report::Tdx(report))
    }
}

impl RatlsVerifier for DstackTdxVerifier {
    type Outcome = Report;

    /// Parse and DCAP-verify the quote, resolve the PCK leaf, decode the
    /// collateral's TCB info, and decide via `verify_attestation`. The
    /// stages that are functions of the inputs alone are pinned below; the
    /// success side conditional on the TCB-info text is carried by
    /// `verify_with_tcb_info`, which takes the decoded TCB info.
    fn verify_payload(
        &self,
        payload: &AttestationPayload,
        peer_cert: &Vec<u8>,
        session_ekm: &Vec<u8>,
        collateral: &Collateral,
        now_secs: u64,
    ) -> (r: Result<Report, AtlsVerificationError>)
        ensures
            r is Ok ==> exists|info: TcbInfoV|
                #[trigger] payload_accepted(
                    *self,
                    payload.quote@,
                    log_view(payload.event_log@),
                    opt_deep(payload.app_compose),
                    peer_cert@,
                    session_ekm@,
                    collateral@,
                    info,
                    now_secs,
                ) && (exists|v: JsonSpec|
                    #[trigger] crate::collateral::decode_tcb_info_spec(v) == Some(info)),
            r matches Err(AtlsVerificationError::QuoteParse(_)) <==> parsed_td_of(payload.quote@)
                is None,
            parsed_td_of(payload.quote@) is Some ==> (r matches Err(
                AtlsVerificationError::QuoteSignatureInvalid(_),
            ) <==> dcap_verdict_of(payload.quote@, collateral@, now_secs) is None),
            (parsed_td_of(payload.quote@) is Some && dcap_verdict_of(
                payload.quote@,
                collateral@,
                now_secs,
            ) is Some && selected_pck_leaf(payload.quote@, collateral@.pck_certificate_chain)
                is None) ==> r matches Err(AtlsVerificationError::TcbInfoError(_)),
    {
        let td = match crate::quote::parse_td_quote(&payload.quote) {
            Some(td) => td,
            None => {
                return Err(
                    AtlsVerificationError::QuoteParse("not a parseable TDX quote".to_owned()),
                );
            },
        };
        let verdict = match crate::collateral::dcap_verify_quote(
            &payload.quote,
            collateral,
            now_secs,
        ) {
            Ok(v) => v,
            Err(e) => {
                return Err(AtlsVerificationError::QuoteSignatureInvalid(e));
            },
        };
        let pck_leaf = crate::collateral::extract_pck_leaf_cert(&payload.quote, collateral)?;
        let pck = match crate::quote::parse_pck_info(&pck_leaf) {
            Some(p) => p,
            None => {
                return Err(
                    AtlsVerificationError::TcbInfoError("failed to parse PCK extension".to_owned()),
                );
            },
        };
        let tcb_text = crate::strutil::string_bytes(collateral.tcb_info.as_str());
        let tcb_json = match crate::jsonparse::parse_json(&tcb_text) {
            Some(v) => v,
            None => {
                return Err(
                    AtlsVerificationError::TcbInfoError("TCB info is not valid JSON".to_owned()),
                );
            },
        };
        let tcb_info = crate::collateral::decode_tcb_info(&tcb_json)?;

        let report = self.verify_attestation(
            &td,
            &verdict,
            &tcb_info,
            &pck,
            &payload.event_log,
            match &payload.app_compose {
                Some(d) => Some(d),
                None => None,
            },
            peer_cert,
            session_ekm,
            now_secs,
        )?;
        proof {
            assert(payload_accepted(
                *self,
                payload.quote@,
                log_view(payload.event_log@),
                opt_deep(payload.app_compose),
                peer_cert@,
                session_ekm@,
                collateral@,
                tcb_info@,
                now_secs,
            ));
            assert(crate::collateral::decode_tcb_info_spec(tcb_json.deep()) == Some(tcb_info@));
        }
        Ok(Report::Tdx(report))
    }
}

} // verus!