use atlas_rs::errors::AtlsVerificationError;
use atlas_rs::grace::{check_status_allowed, evaluate_grace_period, status_allowed};

#[test]
fn test_grace_period_expired() {
    let result = evaluate_grace_period("OutOfDate", 100, "2024-01-01T00:00:00Z", 200, 50);

    assert!(matches!(
        result,
        Err(AtlsVerificationError::GracePeriodExpired { .. })
    ));
}

#[test]
fn test_grace_period_allows_within_window() {
    let result = evaluate_grace_period("OutOfDate", 100, "2024-01-01T00:00:00Z", 120, 50);

    assert!(result.is_ok());
}

#[test]
fn test_grace_period_zero_expires_immediately() {
    let result = evaluate_grace_period("OutOfDate", 100, "2024-01-01T00:00:00Z", 101, 0);

    assert!(matches!(
        result,
        Err(AtlsVerificationError::GracePeriodExpired { .. })
    ));
}

#[test]
fn test_grace_period_boundary_instant_accepted() {
    // Expiring at exactly tcb_date + grace == now is accepted.
    let result = evaluate_grace_period("OutOfDate", 100, "2024-01-01T00:00:00Z", 150, 50);
    assert!(result.is_ok());
}

#[test]
fn test_grace_period_error_carries_context() {
    let result = evaluate_grace_period("OutOfDate", 100, "2024-01-01T00:00:00Z", 200, 50);
    match result {
        Err(AtlsVerificationError::GracePeriodExpired {
            status,
            tcb_date,
            grace_period_secs,
        }) => {
            assert_eq!(status, "OutOfDate");
            assert_eq!(tcb_date, "2024-01-01T00:00:00Z");
            assert_eq!(grace_period_secs, 50);
        }
        other => panic!("expected GracePeriodExpired, got {:?}", other),
    }
}

#[test]
fn test_grace_period_overflow_is_configuration_error() {
    let result = evaluate_grace_period("OutOfDate", i64::MAX - 10, "9999-12-31T23:59:59Z", 100, 50);
    assert!(matches!(
        result,
        Err(AtlsVerificationError::Configuration(_))
    ));
}

#[test]
fn test_status_allowed_membership() {
    let allowed = vec!["UpToDate".to_string(), "SWHardeningNeeded".to_string()];
    assert!(status_allowed(&"UpToDate".to_string(), &allowed));
    assert!(!status_allowed(&"OutOfDate".to_string(), &allowed));
}

#[test]
fn test_status_gate_rejects_unlisted_status() {
    let allowed = vec!["UpToDate".to_string()];
    let result = check_status_allowed(&"Revoked".to_string(), &allowed, false);
    match result {
        Err(AtlsVerificationError::UnacceptableTcbStatus { status }) => {
            assert_eq!(status, "Revoked");
        }
        other => panic!("expected UnacceptableTcbStatus, got {:?}", other),
    }
}

#[test]
fn test_status_gate_lets_out_of_date_defer_to_grace() {
    let allowed = vec!["UpToDate".to_string()];
    assert!(check_status_allowed(&"OutOfDate".to_string(), &allowed, true).is_ok());
    assert!(check_status_allowed(&"OutOfDate".to_string(), &allowed, false).is_err());
}
