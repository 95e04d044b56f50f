//! Collateral handling: PCK chain resolution, TCB-date extraction, and
//! grace-period enforcement against the matched TCB level.
//!
//! Collateral is fetched (and optionally cached) by the caller; this module
//! works on the fetched values.

use vstd::prelude::*;

use crate::errors::AtlsVerificationError;
use crate::grace::{evaluate_grace_period, grace_window_admits};
use crate::json::JsonVal;
use crate::quote::{DcapVerdict, PckInfo};
use crate::strutil::str_eq;
use crate::tcb::{
    match_tcb_level, select_tcb_level, tcb_family_ok, tcb_fmspc_ok, TcbInfo, TcbLevel,
    TcbSelection,
};

verus! {

/// Quote collateral: Intel's TCB info and QE identity with their signature
/// chains, the CRLs, and optionally the PCK certificate chain.
pub struct Collateral {
    pub pck_crl_issuer_chain: String,
    pub root_ca_crl: Vec<u8>,
    pub pck_crl: Vec<u8>,
    pub tcb_info_issuer_chain: String,
    /// The TCB info JSON text.
    pub tcb_info: String,
    pub tcb_info_signature: Vec<u8>,
    pub qe_identity_issuer_chain: String,
    /// The QE identity JSON text.
    pub qe_identity: String,
    pub qe_identity_signature: Vec<u8>,
    /// PCK certificate chain in PEM, where the fetcher supplied one.
    pub pck_certificate_chain: Option<String>,
}

pub ghost struct CollateralV {
    pub pck_crl_issuer_chain: Seq<char>,
    pub root_ca_crl: Seq<u8>,
    pub pck_crl: Seq<u8>,
    pub tcb_info_issuer_chain: Seq<char>,
    pub tcb_info: Seq<char>,
    pub tcb_info_signature: Seq<u8>,
    pub qe_identity_issuer_chain: Seq<char>,
    pub qe_identity: Seq<char>,
    pub qe_identity_signature: Seq<u8>,
    pub pck_certificate_chain: Option<Seq<char>>,
}

impl View for Collateral {
    type V = CollateralV;

    open spec fn view(&self) -> CollateralV {
        CollateralV {
            pck_crl_issuer_chain: self.pck_crl_issuer_chain@,
            root_ca_crl: self.root_ca_crl@,
            pck_crl: self.pck_crl@,
            tcb_info_issuer_chain: self.tcb_info_issuer_chain@,
            tcb_info: self.tcb_info@,
            tcb_info_signature: self.tcb_info_signature@,
            qe_identity_issuer_chain: self.qe_identity_issuer_chain@,
            qe_identity: self.qe_identity@,
            qe_identity_signature: self.qe_identity_signature@,
            pck_certificate_chain: match self.pck_certificate_chain {
                Some(p) => Some(p@),
                None => None,
            },
        }
    }
}

/// What `pem::parse_many` finds in the given text: the DER contents of each
/// PEM section, in order, or nothing on malformed input.
pub uninterp spec fn pem_contents_of(text: Seq<char>) -> Option<Seq<Seq<u8>>>;

/// Relies on `pem::parse_many`: every PEM section's decoded contents, in
/// order; an error on malformed PEM text.
#[verifier::external_body]
fn pem_contents(text: &str) -> (r: Option<Vec<Vec<u8>>>)
    ensures
        match r {
            Some(v) => pem_contents_of(text@) == Some(v.deep_view()),
            None => pem_contents_of(text@) is None,
        },
{
    pem::parse_many(text).ok().map(|ps| ps.iter().map(|p| p.contents().to_vec()).collect())
}

/// What `chrono::DateTime::parse_from_rfc3339` followed by `timestamp` gives
/// for the given text: seconds since the epoch, or nothing if the text is
/// not an RFC 3339 date-time.
pub uninterp spec fn rfc3339_secs_of(text: Seq<char>) -> Option<i64>;

/// Relies on `chrono::DateTime::parse_from_rfc3339` (and `timestamp`): the
/// instant the RFC 3339 text denotes, as seconds since the epoch.
#[verifier::external_body]
pub fn parse_rfc3339_secs(text: &str) -> (r: Option<i64>)
    ensures
        r == rfc3339_secs_of(text@),
{
    chrono::DateTime::parse_from_rfc3339(text).ok().map(|d| d.timestamp())
}

/// What `dcap_qvl::verify::verify` decides for the given quote bytes,
/// collateral and instant: the selected TCB status and advisory IDs on
/// success, nothing on any verification failure. The verification is a
/// function of these three arguments alone: the time is this parameter, the
/// Intel root CA is a compile-time constant, and signature checking is
/// deterministic.
pub uninterp spec fn dcap_verdict_of(
    raw_quote: Seq<u8>,
    collateral: CollateralV,
    now_secs: u64,
) -> Option<DcapVerdict>;

/// Relies on `dcap_qvl::verify::verify`: full DCAP quote verification (QE
/// identity, signature chain, PCK chain to the pinned Intel root, CRLs, TCB
/// selection) against the given collateral at the given time.
#[verifier::external_body]
pub fn dcap_verify_quote(
    raw_quote: &Vec<u8>,
    collateral: &Collateral,
    now_secs: u64,
) -> (r: Result<DcapVerdict, String>)
    ensures
        match r {
            Ok(v) => dcap_verdict_of(raw_quote@, collateral@, now_secs) == Some(v),
            Err(_) => dcap_verdict_of(raw_quote@, collateral@, now_secs) is None,
        },
{
    let dc = dcap_qvl::QuoteCollateralV3 {
        pck_crl_issuer_chain: collateral.pck_crl_issuer_chain.clone(),
        root_ca_crl: collateral.root_ca_crl.clone(), pck_crl: collateral.pck_crl.clone(),
        tcb_info_issuer_chain: collateral.tcb_info_issuer_chain.clone(),
        tcb_info: collateral.tcb_info.clone(),
        tcb_info_signature: collateral.tcb_info_signature.clone(),
        qe_identity_issuer_chain: collateral.qe_identity_issuer_chain.clone(),
        qe_identity: collateral.qe_identity.clone(),
        qe_identity_signature: collateral.qe_identity_signature.clone(),
        pck_certificate_chain: collateral.pck_certificate_chain.clone(),
    };
    match dcap_qvl::verify::verify(raw_quote.as_slice(), &dc, now_secs) {
        Ok(report) => Ok(DcapVerdict { status: report.status, advisory_ids: report.advisory_ids }),
        Err(e) => Err(e.to_string()),
    }
}

/// Decode a PEM certificate chain into DER certificates.
///
/// Fails (`TcbInfoError`) exactly when the text is malformed PEM or holds no
/// certificate.
pub fn parse_pem_chain(pem_chain: &String) -> (r: Result<Vec<Vec<u8>>, AtlsVerificationError>)
    ensures
        r is Ok <==> (pem_contents_of(pem_chain@) matches Some(l) && l.len() > 0),
        r matches Ok(v) ==> pem_contents_of(pem_chain@) == Some(v.deep_view()),
        r is Err ==> r matches Err(AtlsVerificationError::TcbInfoError(_)),
{
    let certs = match pem_contents(pem_chain.as_str()) {
        Some(v) => v,
        None => {
            return Err(
                AtlsVerificationError::TcbInfoError(
                    "failed to parse PCK certificate chain".to_owned(),
                ),
            );
        },
    };
    if certs.len() == 0 {
        return Err(
            AtlsVerificationError::TcbInfoError("failed to parse PCK certificate chain".to_owned()),
        );
    }
    proof {
        assert(certs.deep_view().len() == certs@.len());
    }
    Ok(certs)
}

/// The PCK leaf this quote and collateral select: the first certificate of
/// the collateral's PEM chain where one was supplied, else the first of the
/// chain embedded in the quote bytes; nothing when the selected chain is
/// absent, unparseable or empty.
pub open spec fn selected_pck_leaf(raw_quote: Seq<u8>, chain: Option<Seq<char>>) -> Option<
    Seq<u8>,
> {
    match chain {
        Some(p) => match pem_contents_of(p) {
            Some(l) => if l.len() > 0 {
                Some(l[0])
            } else {
                None
            },
            None => None,
        },
        None => match crate::quote::quote_chain_of(raw_quote) {
            Some(l) => if l.len() > 0 {
                Some(l[0])
            } else {
                None
            },
            None => None,
        },
    }
}

/// The PCK leaf certificate (DER): the first certificate of the collateral's
/// PEM chain where one was supplied (the collateral overrides the quote),
/// else the first of the chain embedded in the quote. Fails, with
/// `TcbInfoError`, exactly when the selected chain is absent, unparseable or
/// empty.
pub fn extract_pck_leaf_cert(
    raw_quote: &Vec<u8>,
    collateral: &Collateral,
) -> (r: Result<Vec<u8>, AtlsVerificationError>)
    ensures
        r is Ok <==> selected_pck_leaf(raw_quote@, collateral@.pck_certificate_chain) is Some,
        r matches Ok(c) ==> selected_pck_leaf(raw_quote@, collateral@.pck_certificate_chain)
            == Some(c@),
        r is Err ==> r matches Err(AtlsVerificationError::TcbInfoError(_)),
{
    if let Some(pem_chain) = &collateral.pck_certificate_chain {
        let mut certs = parse_pem_chain(pem_chain)?;
        proof {
            assert(certs.deep_view()[0] == certs@[0]@);
        }
        let first = certs.remove(0);
        return Ok(first);
    }
    let certs = match crate::quote::quote_cert_chain(raw_quote) {
        Some(v) => v,
        None => {
            return Err(
                AtlsVerificationError::TcbInfoError(
                    "failed to extract PCK certificate chain from quote".to_owned(),
                ),
            );
        },
    };
    if certs.len() == 0 {
        return Err(
            AtlsVerificationError::TcbInfoError("PCK certificate chain is empty".to_owned()),
        );
    }
    let mut certs = certs;
    proof {
        assert(certs.deep_view()[0] == certs@[0]@);
        assert(certs.deep_view().len() == certs@.len());
    }
    let first = certs.remove(0);
    Ok(first)
}

/// The matched TCB level's date for this quote.
///
/// Succeeds exactly when the TCB info applies to the quote (FMSPC and TEE
/// family) and a level matches; the date is the winning level's.
pub fn extract_tcb_date(
    tcb_info: &TcbInfo,
    is_tdx: bool,
    tee_tcb_svn: &Vec<u8>,
    pck: &PckInfo,
) -> (r: Result<String, AtlsVerificationError>)
    ensures
        r is Ok <==> tcb_fmspc_ok(tcb_info@, pck.fmspc@) && tcb_family_ok(tcb_info@, is_tdx)
            && select_tcb_level(
            tcb_info@.tcb_levels,
            pck.cpu_svn@,
            pck.pce_svn,
            is_tdx,
            tee_tcb_svn@,
        ) is Level,
        r matches Ok(d) ==> (select_tcb_level(
            tcb_info@.tcb_levels,
            pck.cpu_svn@,
            pck.pce_svn,
            is_tdx,
            tee_tcb_svn@,
        ) matches TcbSelection::Level(i) && d@ == tcb_info@.tcb_levels[i].tcb_date),
        r is Err ==> r matches Err(AtlsVerificationError::TcbInfoError(_)),
{
    let level = match_tcb_level(tcb_info, is_tdx, tee_tcb_svn, &pck.cpu_svn, pck.pce_svn,
        &pck.fmspc)?;
    Ok(level.tcb_date.clone())
}

/// Grace-period enforcement succeeds for this status and TCB info.
pub open spec fn grace_enforcement_ok(
    status: Seq<char>,
    info: crate::tcb::TcbInfoV,
    is_tdx: bool,
    tee_tcb_svn: Seq<u8>,
    pck: PckInfo,
    grace_period: Option<u64>,
    now_secs: u64,
) -> bool {
    if grace_period is None || status != "OutOfDate"@ {
        true
    } else {
        &&& tcb_fmspc_ok(info, pck.fmspc@)
        &&& tcb_family_ok(info, is_tdx)
        &&& select_tcb_level(
            info.tcb_levels,
            pck.cpu_svn@,
            pck.pce_svn,
            is_tdx,
            tee_tcb_svn,
        ) matches TcbSelection::Level(i) && (rfc3339_secs_of(
            info.tcb_levels[i].tcb_date,
        ) matches Some(t) && grace_window_admits(t, now_secs, grace_period->Some_0))
    }
}

/// Enforce the `OutOfDate` grace period if one is configured.
///
/// With no grace period, or for any status other than `OutOfDate`, this is
/// a no-op. Otherwise the winning TCB level's date is extracted and the
/// window `tcb_date + grace >= now` decides, expiring with
/// `GracePeriodExpired`.
pub fn enforce_grace_period(
    status: &String,
    tcb_info: &TcbInfo,
    is_tdx: bool,
    tee_tcb_svn: &Vec<u8>,
    pck: &PckInfo,
    grace_period: Option<u64>,
    now_secs: u64,
) -> (r: Result<(), AtlsVerificationError>)
    ensures
        r is Ok <==> grace_enforcement_ok(
            status@,
            tcb_info@,
            is_tdx,
            tee_tcb_svn@,
            *pck,
            grace_period,
            now_secs,
        ),
        r is Err ==> (r matches Err(AtlsVerificationError::GracePeriodExpired { .. }) || r matches
            Err(AtlsVerificationError::Configuration(_)) || r matches Err(
            AtlsVerificationError::TcbInfoError(_),
        )),
        grace_period matches Some(g) ==> (status@ == "OutOfDate"@ && !(tcb_fmspc_ok(
            tcb_info@,
            pck.fmspc@,
        ) && tcb_family_ok(tcb_info@, is_tdx) && select_tcb_level(
            tcb_info@.tcb_levels,
            pck.cpu_svn@,
            pck.pce_svn,
            is_tdx,
            tee_tcb_svn@,
        ) is Level) ==> r matches Err(AtlsVerificationError::TcbInfoError(_))),
        grace_period matches Some(g) ==> (status@ == "OutOfDate"@ && (select_tcb_level(
            tcb_info@.tcb_levels,
            pck.cpu_svn@,
            pck.pce_svn,
            is_tdx,
            tee_tcb_svn@,
        ) matches TcbSelection::Level(i) && rfc3339_secs_of(tcb_info@.tcb_levels[i].tcb_date)
            is None) ==> r matches Err(AtlsVerificationError::TcbInfoError(_))),
        grace_period matches Some(g) ==> (status@ == "OutOfDate"@ && tcb_fmspc_ok(
            tcb_info@,
            pck.fmspc@,
        ) && tcb_family_ok(tcb_info@, is_tdx) ==> (select_tcb_level(
            tcb_info@.tcb_levels,
            pck.cpu_svn@,
            pck.pce_svn,
            is_tdx,
            tee_tcb_svn@,
        ) matches TcbSelection::Level(i) ==> (rfc3339_secs_of(
            tcb_info@.tcb_levels[i].tcb_date,
        ) matches Some(t) ==> ((now_secs <= i64::MAX as u64 && g <= i64::MAX as u64 && t + g
            <= i64::MAX && t + g < now_secs) ==> (r matches Err(
            AtlsVerificationError::GracePeriodExpired { status: s, tcb_date: d, grace_period_secs: gg },
        ) && s@ == status@ && d@ == tcb_info@.tcb_levels[i].tcb_date && gg == g))))),
{
    let grace = match grace_period {
        Some(g) => g,
        None => {
            return Ok(());
        },
    };
    if !str_eq(status.as_str(), "OutOfDate") {
        return Ok(());
    }

    let tcb_date = extract_tcb_date(tcb_info, is_tdx, tee_tcb_svn, pck)?;
    let tcb_date_secs = match parse_rfc3339_secs(tcb_date.as_str()) {
        Some(t) => t,
        None => {
            return Err(AtlsVerificationError::TcbInfoError("invalid TCB date".to_owned()));
        },
    };

    evaluate_grace_period(status.as_str(), tcb_date_secs, tcb_date.as_str(), now_secs, grace)
}

fn tcb_err() -> (r: AtlsVerificationError)
    ensures
        r matches AtlsVerificationError::TcbInfoError(_),
{
    AtlsVerificationError::TcbInfoError("failed to parse TCB info".to_owned())
}

/// One component: an object whose `svn` is a byte.
pub open spec fn decode_component_spec(j: crate::json::JsonSpec) -> Option<u8> {
    match j {
        crate::json::JsonSpec::Obj(fs) => {
            if crate::json::obj_get(fs, "svn"@) matches Some(crate::json::JsonSpec::Int(n)) && 0
                <= n <= 255 {
                Some(crate::json::obj_get(fs, "svn"@)->Some_0->Int_0 as u8)
            } else {
                None
            }
        },
        _ => None,
    }
}

/// A component array: every item decodes as a component.
pub open spec fn decode_components_spec(j: crate::json::JsonSpec) -> Option<Seq<u8>> {
    match j {
        crate::json::JsonSpec::Arr(items) => {
            if forall|i: int| 0 <= i < items.len() ==> (#[trigger] decode_component_spec(items[i]))
                is Some {
                Some(Seq::new(items.len(), |i: int| decode_component_spec(items[i])->Some_0))
            } else {
                None
            }
        },
        _ => None,
    }
}

/// One TCB level: a `tcb` object carrying the SGX components, optional TDX
/// components and a 16-bit PCE SVN, beside a `tcbDate` string. Unknown
/// fields are ignored.
pub open spec fn decode_level_spec(j: crate::json::JsonSpec) -> Option<crate::tcb::TcbLevelV> {
    match j {
        crate::json::JsonSpec::Obj(fs) => {
            if {
                &&& crate::json::obj_get(fs, "tcb"@) matches Some(t) && t is Obj && {
                    &&& crate::json::obj_get(t->Obj_0, "sgxtcbcomponents"@) matches Some(sc)
                        && decode_components_spec(sc) is Some
                    &&& match crate::json::obj_get(t->Obj_0, "tdxtcbcomponents"@) {
                        Some(tc) => decode_components_spec(tc) is Some,
                        None => true,
                    }
                    &&& crate::json::obj_get(t->Obj_0, "pcesvn"@) matches Some(
                        crate::json::JsonSpec::Int(p),
                    ) && 0 <= p <= 65535
                }
                &&& crate::json::obj_get(fs, "tcbDate"@) matches Some(
                    crate::json::JsonSpec::Str(_),
                )
            } {
                Some(
                    crate::tcb::TcbLevelV {
                        sgx_components: decode_components_spec(
                            crate::json::obj_get(
                                crate::json::obj_get(fs, "tcb"@)->Some_0->Obj_0,
                                "sgxtcbcomponents"@,
                            )->Some_0,
                        )->Some_0,
                        tdx_components: match crate::json::obj_get(
                            crate::json::obj_get(fs, "tcb"@)->Some_0->Obj_0,
                            "tdxtcbcomponents"@,
                        ) {
                            Some(tc) => decode_components_spec(tc)->Some_0,
                            None => Seq::empty(),
                        },
                        pce_svn: crate::json::obj_get(
                            crate::json::obj_get(fs, "tcb"@)->Some_0->Obj_0,
                            "pcesvn"@,
                        )->Some_0->Int_0 as u16,
                        tcb_date: crate::json::obj_get(fs, "tcbDate"@)->Some_0->Str_0,
                    },
                )
            } else {
                None
            }
        },
        _ => None,
    }
}

/// The whole TCB info: `id` and `fmspc` strings, a byte `version`, and a
/// `tcbLevels` array whose every item decodes as a level. Unknown fields
/// are ignored.
pub open spec fn decode_tcb_info_spec(j: crate::json::JsonSpec) -> Option<crate::tcb::TcbInfoV> {
    match j {
        crate::json::JsonSpec::Obj(fs) => {
            if {
                &&& crate::json::obj_get(fs, "id"@) matches Some(crate::json::JsonSpec::Str(_))
                &&& crate::json::obj_get(fs, "version"@) matches Some(
                    crate::json::JsonSpec::Int(n),
                ) && 0 <= n <= 255
                &&& crate::json::obj_get(fs, "fmspc"@) matches Some(crate::json::JsonSpec::Str(_))
                &&& crate::json::obj_get(fs, "tcbLevels"@) matches Some(
                    crate::json::JsonSpec::Arr(ls),
                ) && (forall|i: int|
                    0 <= i < ls.len() ==> (#[trigger] decode_level_spec(ls[i])) is Some)
            } {
                Some(
                    crate::tcb::TcbInfoV {
                        id: crate::json::obj_get(fs, "id"@)->Some_0->Str_0,
                        version: crate::json::obj_get(fs, "version"@)->Some_0->Int_0 as u8,
                        fmspc: crate::json::obj_get(fs, "fmspc"@)->Some_0->Str_0,
                        tcb_levels: Seq::new(
                            crate::json::obj_get(fs, "tcbLevels"@)->Some_0->Arr_0.len(),
                            |i: int|
                                decode_level_spec(
                                    crate::json::obj_get(fs, "tcbLevels"@)->Some_0->Arr_0[i],
                                )->Some_0,
                        ),
                    },
                )
            } else {
                None
            }
        },
        _ => None,
    }
}

fn decode_svn_components(j: &JsonVal) -> (r: Result<Vec<u8>, AtlsVerificationError>)
    ensures
        match r {
            Ok(v) => decode_components_spec(j.deep()) == Some(v@),
            Err(_) => decode_components_spec(j.deep()) is None,
        },
        r is Err ==> r matches Err(AtlsVerificationError::TcbInfoError(_)),
{
    let items = match j {
        JsonVal::Arr(items) => items,
        _ => {
            return Err(tcb_err());
        },
    };
    let ghost di = j.deep()->Arr_0;
    proof {
        assert(*j == JsonVal::Arr(*items));
        assert(di.len() == items@.len());
        assert(forall|k: int| 0 <= k < items@.len() ==> di[k] == items@[k].deep());
    }
    let mut out: Vec<u8> = Vec::new();
    let mut i: usize = 0;
    while i < items.len()
        invariant
            i <= items@.len(),
            *j == JsonVal::Arr(*items),
            di == j.deep()->Arr_0,
            di.len() == items@.len(),
            forall|k: int| 0 <= k < items@.len() ==> di[k] == items@[k].deep(),
            out@.len() == i,
            forall|k: int| 0 <= k < i ==> #[trigger] decode_component_spec(di[k]) == Some(out@[k]),
        decreases items@.len() - i,
    {
        let item = &items[i];
        let fields = match item {
            JsonVal::Obj(fields) => fields,
            _ => {
                proof {
                    assert(decode_component_spec(di[i as int]) is None);
                }
                return Err(tcb_err());
            },
        };
        proof {
            assert(*item == JsonVal::Obj(*fields));
        }
        match crate::json::json_obj_get(fields, "svn") {
            Some(JsonVal::Int(n)) => {
                if *n < 0 || *n > 255 {
                    proof {
                        assert(decode_component_spec(di[i as int]) is None);
                    }
                    return Err(tcb_err());
                }
                out.push(*n as u8);
            },
            _ => {
                proof {
                    assert(decode_component_spec(di[i as int]) is None);
                }
                return Err(tcb_err());
            },
        }
        i = i + 1;
    }
    proof {
        assert(decode_components_spec(j.deep()) matches Some(v) && v =~= out@);
    }
    Ok(out)
}

fn decode_tcb_level(j: &JsonVal) -> (r: Result<TcbLevel, AtlsVerificationError>)
    ensures
        match r {
            Ok(l) => decode_level_spec(j.deep()) == Some(l@),
            Err(_) => decode_level_spec(j.deep()) is None,
        },
        r is Err ==> r matches Err(AtlsVerificationError::TcbInfoError(_)),
{
    let fields = match j {
        JsonVal::Obj(fields) => fields,
        _ => {
            return Err(tcb_err());
        },
    };
    proof {
        assert(*j == JsonVal::Obj(*fields));
    }
    let tcb_value = match crate::json::json_obj_get(fields, "tcb") {
        Some(t) => t,
        None => {
            return Err(tcb_err());
        },
    };
    let tcb_fields = match tcb_value {
        JsonVal::Obj(tf) => tf,
        _ => {
            return Err(tcb_err());
        },
    };
    proof {
        assert(*tcb_value == JsonVal::Obj(*tcb_fields));
    }
    let sgx_components = match crate::json::json_obj_get(tcb_fields, "sgxtcbcomponents") {
        Some(x) => match decode_svn_components(x) {
            Ok(v) => v,
            Err(e) => {
                return Err(e);
            },
        },
        None => {
            return Err(tcb_err());
        },
    };
    let tdx_components = match crate::json::json_obj_get(tcb_fields, "tdxtcbcomponents") {
        Some(x) => match decode_svn_components(x) {
            Ok(v) => v,
            Err(e) => {
                return Err(e);
            },
        },
        None => Vec::new(),
    };
    let pce_svn: u16 = match crate::json::json_obj_get(tcb_fields, "pcesvn") {
        Some(JsonVal::Int(n)) => {
            if *n < 0 || *n > 65535 {
                return Err(tcb_err());
            }
            *n as u16
        },
        _ => {
            return Err(tcb_err());
        },
    };
    let tcb_date = match crate::json::json_obj_get(fields, "tcbDate") {
        Some(JsonVal::Str(s)) => s.clone(),
        _ => {
            return Err(tcb_err());
        },
    };
    let level = TcbLevel { sgx_components, tdx_components, pce_svn, tcb_date };
    proof {
        assert(decode_level_spec(j.deep()) == Some(level@));
    }
    Ok(level)
}

/// Decode Intel's TCB info JSON: the identity fields and the ordered levels,
/// each with its component SVN requirements and date. Unknown fields are
/// ignored. Succeeds exactly when `decode_tcb_info_spec` does; anything else
/// is `TcbInfoError`.
pub fn decode_tcb_info(j: &JsonVal) -> (r: Result<TcbInfo, AtlsVerificationError>)
    ensures
        match r {
            Ok(t) => decode_tcb_info_spec(j.deep()) == Some(t@),
            Err(_) => decode_tcb_info_spec(j.deep()) is None,
        },
        r is Err ==> r matches Err(AtlsVerificationError::TcbInfoError(_)),
{
    let fields = match j {
        JsonVal::Obj(fields) => fields,
        _ => {
            return Err(tcb_err());
        },
    };
    proof {
        assert(*j == JsonVal::Obj(*fields));
    }
    let id = match crate::json::json_obj_get(fields, "id") {
        Some(JsonVal::Str(s)) => s.clone(),
        _ => {
            return Err(tcb_err());
        },
    };
    let version: u8 = match crate::json::json_obj_get(fields, "version") {
        Some(JsonVal::Int(n)) => {
            if *n < 0 || *n > 255 {
                return Err(tcb_err());
            }
            *n as u8
        },
        _ => {
            return Err(tcb_err());
        },
    };
    let fmspc = match crate::json::json_obj_get(fields, "fmspc") {
        Some(JsonVal::Str(s)) => s.clone(),
        _ => {
            return Err(tcb_err());
        },
    };
    let levels_value = match crate::json::json_obj_get(fields, "tcbLevels") {
        Some(x) => x,
        None => {
            return Err(tcb_err());
        },
    };
    let level_items = match levels_value {
        JsonVal::Arr(items) => items,
        _ => {
            return Err(tcb_err());
        },
    };
    let ghost dl = levels_value.deep()->Arr_0;
    proof {
        assert(*levels_value == JsonVal::Arr(*level_items));
        assert(dl.len() == level_items@.len());
        assert(forall|k: int| 0 <= k < level_items@.len() ==> dl[k] == level_items@[k].deep());
    }
    let mut tcb_levels: Vec<TcbLevel> = Vec::new();
    let mut i: usize = 0;
    while i < level_items.len()
        invariant
            i <= level_items@.len(),
            *levels_value == JsonVal::Arr(*level_items),
            j.deep() matches crate::json::JsonSpec::Obj(fs2) && crate::json::obj_get(
                fs2,
                "tcbLevels"@,
            ) == Some(levels_value.deep()),
            dl == levels_value.deep()->Arr_0,
            dl.len() == level_items@.len(),
            forall|k: int| 0 <= k < level_items@.len() ==> dl[k] == level_items@[k].deep(),
            tcb_levels@.len() == i,
            forall|k: int|
                0 <= k < i ==> #[trigger] decode_level_spec(dl[k]) == Some(tcb_levels@[k]@),
        decreases level_items@.len() - i,
    {
        let level = match decode_tcb_level(&level_items[i]) {
            Ok(l) => l,
            Err(e) => {
                proof {
                    assert(decode_level_spec(dl[i as int]) is None);
                }
                return Err(e);
            },
        };
        let ghost prev = tcb_levels@;
        tcb_levels.push(level);
        i = i + 1;
        proof {
            assert forall|k: int|
                0 <= k < i implies #[trigger] decode_level_spec(dl[k]) == Some(
                tcb_levels@[k]@,
            ) by {
                if k < prev.len() {
                    assert(tcb_levels@[k] == prev[k]);
                }
            }
        }
    }
    let info = TcbInfo { id, version, fmspc, tcb_levels };
    proof {
        assert(decode_tcb_info_spec(j.deep()) matches Some(t) && t.tcb_levels
            =~= info@.tcb_levels && t == info@);
    }
    Ok(info)
}

} // verus!