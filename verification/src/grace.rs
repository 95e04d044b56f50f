//! Grace-period evaluation for `OutOfDate` TCB statuses.
//!
//! An `OutOfDate` platform may still be accepted for a configured number of
//! seconds after its TCB level's official date; the boundary instant
//! `tcb_date + grace == now` is still accepted.

use vstd::prelude::*;

use crate::errors::AtlsVerificationError;

verus! {

/// Whether the grace window admits the given instant: every conversion fits
/// in signed 64-bit time and `tcb_date + grace >= now`.
pub open spec fn grace_window_admits(tcb_date_secs: i64, now_secs: u64, grace: u64) -> bool {
    &&& now_secs <= i64::MAX as u64
    &&& grace <= i64::MAX as u64
    &&& tcb_date_secs + grace <= i64::MAX
    &&& tcb_date_secs + grace >= now_secs
}

/// Decide whether an `OutOfDate` TCB is still inside its grace window.
///
/// Returns `Ok(())` exactly when the window admits `now_secs`; expiry is
/// reported as `GracePeriodExpired` carrying the status, the TCB date text
/// and the configured grace period, and out-of-range conversions are
/// configuration or TCB-info errors as in the error taxonomy.
pub fn evaluate_grace_period(
    status: &str,
    tcb_date_secs: i64,
    tcb_date: &str,
    now_secs: u64,
    grace: u64,
) -> (r: Result<(), AtlsVerificationError>)
    ensures
        r is Ok <==> grace_window_admits(tcb_date_secs, now_secs, grace),
        now_secs > i64::MAX as u64 ==> r matches Err(AtlsVerificationError::TcbInfoError(_)),
        now_secs <= i64::MAX as u64 && grace > i64::MAX as u64 ==> r matches Err(
            AtlsVerificationError::Configuration(_),
        ),
        now_secs <= i64::MAX as u64 && grace <= i64::MAX as u64 && tcb_date_secs + grace
            > i64::MAX ==> r matches Err(AtlsVerificationError::Configuration(_)),
        now_secs <= i64::MAX as u64 && grace <= i64::MAX as u64 && tcb_date_secs + grace
            <= i64::MAX && tcb_date_secs + grace < now_secs ==> (r matches Err(
            AtlsVerificationError::GracePeriodExpired { status: s, tcb_date: d, grace_period_secs: g },
        ) && s@ == status@ && d@ == tcb_date@ && g == grace),
{
    if now_secs > i64::MAX as u64 {
        return Err(AtlsVerificationError::TcbInfoError("current time out of range".to_owned()));
    }
    let now_i: i64 = now_secs as i64;

    if grace > i64::MAX as u64 {
        return Err(AtlsVerificationError::Configuration("grace_period is too large".to_owned()));
    }
    let grace_i: i64 = grace as i64;

    if grace_i > 0 && tcb_date_secs > i64::MAX - grace_i {
        return Err(
            AtlsVerificationError::Configuration(
                "grace_period causes timestamp overflow".to_owned(),
            ),
        );
    }
    let expiration: i64 = tcb_date_secs + grace_i;

    if expiration < now_i {
        return Err(
            AtlsVerificationError::GracePeriodExpired {
                status: status.to_owned(),
                tcb_date: tcb_date.to_owned(),
                grace_period_secs: grace,
            },
        );
    }
    Ok(())
}

/// The allow-set holds this status.
pub open spec fn contains_status(allowed: Seq<String>, status: Seq<char>) -> bool {
    exists|i: int| 0 <= i < allowed.len() && (#[trigger] allowed[i])@ == status
}

/// Whether the allow-set holds the status.
pub fn status_allowed(status: &String, allowed: &Vec<String>) -> (r: bool)
    ensures
        r == contains_status(allowed@, status@),
{
    let mut i: usize = 0;
    while i < allowed.len()
        invariant
            i <= allowed@.len(),
            forall|j: int| 0 <= j < i ==> (#[trigger] allowed@[j])@ != status@,
        decreases allowed@.len() - i,
    {
        if allowed[i].eq(status) {
            return true;
        }
        i = i + 1;
    }
    false
}

/// Gate a TCB status against the allow-set.
///
/// Accepts statuses in the allow-set; additionally lets an `OutOfDate`
/// status pass when a grace period is configured, deferring the window
/// decision to grace-period enforcement. Everything else is
/// `UnacceptableTcbStatus`.
pub fn check_status_allowed(
    status: &String,
    allowed: &Vec<String>,
    grace_configured: bool,
) -> (r: Result<(), AtlsVerificationError>)
    ensures
        r is Ok <==> contains_status(allowed@, status@) || (status@ == "OutOfDate"@
            && grace_configured),
        r is Err ==> (r matches Err(AtlsVerificationError::UnacceptableTcbStatus { status: s })
            && s@ == status@),
{
    if status_allowed(status, allowed) {
        return Ok(());
    }
    if grace_configured && crate::strutil::str_eq(status.as_str(), "OutOfDate") {
        return Ok(());
    }
    Err(AtlsVerificationError::UnacceptableTcbStatus { status: status.clone() })
}

/// The whole status gate: the allow-set (with the `OutOfDate` bypass), and
/// the grace window wherever it applies.
pub open spec fn status_gate_ok(
    status: Seq<char>,
    allowed: Seq<String>,
    grace: Option<u64>,
    tcb_date_secs: i64,
    now_secs: u64,
) -> bool {
    &&& (contains_status(allowed, status) || (status == "OutOfDate"@ && grace is Some))
    &&& ((status == "OutOfDate"@ && grace is Some) ==> grace_window_admits(
        tcb_date_secs,
        now_secs,
        grace->Some_0,
    ))
}

/// Status gating accepts exactly the statuses the allow-set holds, plus an
/// `OutOfDate` that the grace window admits.
///
/// One family of inputs is excluded by the hypothesis: an `OutOfDate`
/// status that the allow-set itself holds, under a configured grace window
/// that has expired. That case is rejected, because an explicit grace
/// period bounds `OutOfDate` acceptance even for allow-set members.
pub proof fn lemma_allow_list_closure(
    status: Seq<char>,
    allowed: Seq<String>,
    grace: Option<u64>,
    tcb_date_secs: i64,
    now_secs: u64,
)
    requires
        !(status == "OutOfDate"@ && grace is Some && contains_status(allowed, status)
            && !grace_window_admits(tcb_date_secs, now_secs, grace->Some_0)),
    ensures
        status_gate_ok(status, allowed, grace, tcb_date_secs, now_secs) <==> (contains_status(
            allowed,
            status,
        ) || (status == "OutOfDate"@ && (grace matches Some(g) && grace_window_admits(
            tcb_date_secs,
            now_secs,
            g,
        )))),
{
}

} // verus!
