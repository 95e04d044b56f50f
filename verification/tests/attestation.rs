use atlas_rs::appcompose::{check_app_compose, merge_with_default_app_compose};
use atlas_rs::binding::{check_report_data_binding, compute_expected_report_data};
use atlas_rs::collateral::parse_rfc3339_secs;
use atlas_rs::dstack::DstackTdxVerifier;
use atlas_rs::errors::AtlsVerificationError;
use atlas_rs::eventlog::{check_bootchain, check_os_image, replay_event_log, EventLogEntry};
use atlas_rs::json::{json_obj_get, jv_clone, to_json_bytes, JsonVal};
use atlas_rs::quote::{DcapVerdict, PckInfo, TdQuote};
use atlas_rs::tcb::{match_tcb_level, TcbInfo, TcbLevel};
use sha2::Digest;

fn sample_td(report_data: Vec<u8>) -> TdQuote {
    TdQuote {
        tee_tcb_svn: vec![0; 16],
        mr_td: vec![0; 48],
        rt_mr0: vec![0; 48],
        rt_mr1: vec![0; 48],
        rt_mr2: vec![0; 48],
        rt_mr3: vec![0; 48],
        report_data,
    }
}

fn sample_tcb_info() -> TcbInfo {
    TcbInfo {
        id: "TDX".to_string(),
        version: 3,
        fmspc: "001122334455".to_string(),
        tcb_levels: vec![TcbLevel {
            sgx_components: vec![0; 16],
            tdx_components: vec![0; 16],
            pce_svn: 0,
            tcb_date: "2024-01-01T00:00:00Z".to_string(),
        }],
    }
}

fn sample_pck() -> PckInfo {
    PckInfo {
        cpu_svn: vec![0; 16],
        pce_svn: 0,
        fmspc: vec![0x00, 0x11, 0x22, 0x33, 0x44, 0x55],
    }
}

fn dev_verifier() -> DstackTdxVerifier {
    DstackTdxVerifier {
        expected_bootchain: None,
        app_compose: None,
        os_image_hash: None,
        allowed_tcb_status: vec![
            "UpToDate".to_string(),
            "SWHardeningNeeded".to_string(),
            "OutOfDate".to_string(),
        ],
        pccs_url: None,
        cache_collateral: false,
        disable_runtime_verification: true,
        grace_period_secs: None,
    }
}

#[test]
fn test_dev_policy_accepts_sw_hardening_needed() {
    let cert = vec![1u8, 2, 3];
    let ekm = vec![4u8; 32];
    let td = sample_td(compute_expected_report_data(&cert, &ekm));
    let verdict = DcapVerdict {
        status: "SWHardeningNeeded".to_string(),
        advisory_ids: vec!["INTEL-SA-00001".to_string()],
    };
    let verifier = dev_verifier();
    let report = verifier
        .verify_attestation(
            &td,
            &verdict,
            &sample_tcb_info(),
            &sample_pck(),
            &Vec::new(),
            None,
            &cert,
            &ekm,
            1704067300,
        )
        .unwrap();
    assert_eq!(report.status, "SWHardeningNeeded");
    assert_eq!(report.advisory_ids, vec!["INTEL-SA-00001".to_string()]);
    assert_eq!(report.tcb_date, "2024-01-01T00:00:00Z");
    assert_eq!(report.measurement.len(), 96);
}

#[test]
fn test_grace_window_admits_through_pipeline() {
    // allowed = {UpToDate}, grace = 50, status OutOfDate, now at the
    // boundary tcb_date + grace: accepted.
    let cert = vec![9u8; 10];
    let ekm = vec![7u8; 32];
    let td = sample_td(compute_expected_report_data(&cert, &ekm));
    let verdict = DcapVerdict {
        status: "OutOfDate".to_string(),
        advisory_ids: Vec::new(),
    };
    let mut verifier = dev_verifier();
    verifier.allowed_tcb_status = vec!["UpToDate".to_string()];
    verifier.grace_period_secs = Some(50);
    let tcb_date_secs = parse_rfc3339_secs("2024-01-01T00:00:00Z").unwrap() as u64;
    let ok = verifier.verify_attestation(
        &td,
        &verdict,
        &sample_tcb_info(),
        &sample_pck(),
        &Vec::new(),
        None,
        &cert,
        &ekm,
        tcb_date_secs + 50,
    );
    assert!(ok.is_ok());
}

#[test]
fn test_grace_window_expired_through_pipeline() {
    let cert = vec![9u8; 10];
    let ekm = vec![7u8; 32];
    let td = sample_td(compute_expected_report_data(&cert, &ekm));
    let verdict = DcapVerdict {
        status: "OutOfDate".to_string(),
        advisory_ids: Vec::new(),
    };
    let mut verifier = dev_verifier();
    verifier.allowed_tcb_status = vec!["UpToDate".to_string()];
    verifier.grace_period_secs = Some(50);
    let tcb_date_secs = parse_rfc3339_secs("2024-01-01T00:00:00Z").unwrap() as u64;
    let err = verifier.verify_attestation(
        &td,
        &verdict,
        &sample_tcb_info(),
        &sample_pck(),
        &Vec::new(),
        None,
        &cert,
        &ekm,
        tcb_date_secs + 51,
    );
    assert!(matches!(
        err,
        Err(AtlsVerificationError::GracePeriodExpired { .. })
    ));
}

#[test]
fn test_report_data_mismatch() {
    // Quote report data is zeros while the cert + EKM hash is not.
    let cert = vec![1u8, 2, 3];
    let ekm = vec![4u8; 32];
    let result = check_report_data_binding(&vec![0u8; 64], &cert, &ekm);
    assert!(matches!(
        result,
        Err(AtlsVerificationError::ReportDataMismatch)
    ));
}

#[test]
fn test_report_data_binding_matches_sha512() {
    let cert = vec![5u8; 7];
    let ekm = vec![6u8; 32];
    let mut preimage = b"atls:v1\n".to_vec();
    preimage.extend_from_slice(&cert);
    preimage.extend_from_slice(&ekm);
    let expected: Vec<u8> = sha2::Sha512::digest(&preimage).to_vec();
    assert_eq!(compute_expected_report_data(&cert, &ekm), expected);
    assert!(check_report_data_binding(&expected, &cert, &ekm).is_ok());
}

#[test]
fn test_event_log_rtmr_mismatch() {
    // Replaying the supplied log yields an RTMR0 differing from the quote's.
    let td = sample_td(vec![0u8; 64]);
    let log = vec![EventLogEntry {
        imr: 0,
        event_type: 1,
        digest: vec![1u8; 48],
        event: "boot".to_string(),
        event_payload: Vec::new(),
    }];
    let result = check_bootchain(&log, &td, None);
    match result {
        Err(AtlsVerificationError::BootchainMismatch { which, .. }) => {
            assert_eq!(which, "RTMR0");
        }
        other => panic!("expected BootchainMismatch, got {:?}", other),
    }
}

#[test]
fn test_event_log_replay_matches_sha384_chain() {
    let log = vec![
        EventLogEntry {
            imr: 0,
            event_type: 1,
            digest: vec![1u8; 48],
            event: "a".to_string(),
            event_payload: Vec::new(),
        },
        EventLogEntry {
            imr: 0,
            event_type: 2,
            digest: vec![2u8; 48],
            event: "b".to_string(),
            event_payload: Vec::new(),
        },
        EventLogEntry {
            imr: 2,
            event_type: 3,
            digest: vec![3u8; 48],
            event: "c".to_string(),
            event_payload: Vec::new(),
        },
    ];
    let replayed = replay_event_log(&log);

    let mut imr0 = vec![0u8; 48];
    for digest in [[1u8; 48], [2u8; 48]] {
        let mut cat = imr0.clone();
        cat.extend_from_slice(&digest);
        imr0 = sha2::Sha384::digest(&cat).to_vec();
    }
    let mut imr2 = vec![0u8; 48];
    {
        let mut cat = imr2.clone();
        cat.extend_from_slice(&[3u8; 48]);
        imr2 = sha2::Sha384::digest(&cat).to_vec();
    }
    assert_eq!(replayed.imr0, imr0);
    assert_eq!(replayed.imr1, vec![0u8; 48]);
    assert_eq!(replayed.imr2, imr2);

    // A quote carrying exactly the replayed registers passes.
    let mut td = sample_td(vec![0u8; 64]);
    td.rt_mr0 = replayed.imr0.clone();
    td.rt_mr2 = replayed.imr2.clone();
    assert!(check_bootchain(&log, &td, None).is_ok());
}

#[test]
fn test_os_image_hash_checked_case_insensitively() {
    let log = vec![EventLogEntry {
        imr: 3,
        event_type: 1,
        digest: vec![0u8; 48],
        event: "os-image-hash".to_string(),
        event_payload: b"ABCDEF0102".to_vec(),
    }];
    assert!(check_os_image(&log, &"abcdef0102".to_string()).is_ok());
    let err = check_os_image(&log, &"abcdef0103".to_string());
    assert!(matches!(
        err,
        Err(AtlsVerificationError::OsImageMismatch { .. })
    ));
}

#[test]
fn test_app_compose_digest_and_expectation() {
    let user = JsonVal::Obj(vec![(
        "docker_compose_file".to_string(),
        JsonVal::Str("services: {}".to_string()),
    )]);
    let merged = merge_with_default_app_compose(user);
    let canonical = to_json_bytes(&merged);
    let digest: Vec<u8> = sha2::Sha256::digest(&canonical).to_vec();
    let log = vec![EventLogEntry {
        imr: 3,
        event_type: 1,
        digest: vec![0u8; 48],
        event: "app-compose".to_string(),
        event_payload: digest,
    }];
    assert!(check_app_compose(&log, &merged, &merged).is_ok());

    // A different delivered document fails.
    let other = JsonVal::Obj(Vec::new());
    assert!(matches!(
        check_app_compose(&log, &other, &merged),
        Err(AtlsVerificationError::AppComposeMismatch { .. })
    ));
}

#[test]
fn test_merge_with_default_app_compose_fills_missing_fields() {
    let user = JsonVal::Obj(vec![
        ("manifest_version".to_string(), JsonVal::Int(7)),
        ("name".to_string(), JsonVal::Str("demo".to_string())),
    ]);
    let merged = merge_with_default_app_compose(user);
    match &merged {
        JsonVal::Obj(fields) => {
            // User fields stand first and override.
            assert!(matches!(
                json_obj_get(fields, "manifest_version"),
                Some(JsonVal::Int(7))
            ));
            // Missing defaults are appended.
            assert!(matches!(
                json_obj_get(fields, "runner"),
                Some(JsonVal::Str(s)) if s == "docker-compose"
            ));
            assert!(matches!(
                json_obj_get(fields, "kms_enabled"),
                Some(JsonVal::Bool(false))
            ));
        }
        other => panic!("expected object, got {:?}", to_json_bytes(other)),
    }
}

#[test]
fn test_tcb_level_selection_order_sensitive() {
    let mut info = sample_tcb_info();
    info.tcb_levels.insert(
        0,
        TcbLevel {
            sgx_components: vec![5; 16],
            tdx_components: vec![5; 16],
            pce_svn: 5,
            tcb_date: "2025-01-01T00:00:00Z".to_string(),
        },
    );
    // Low SVNs skip the demanding first level and match the second.
    let level = match_tcb_level(&info, true, &vec![0; 16], &vec![0; 16], 0, &sample_pck().fmspc)
        .unwrap();
    assert_eq!(level.tcb_date, "2024-01-01T00:00:00Z");
    // High SVNs win the first level.
    let level = match_tcb_level(&info, true, &vec![9; 16], &vec![9; 16], 9, &sample_pck().fmspc)
        .unwrap();
    assert_eq!(level.tcb_date, "2025-01-01T00:00:00Z");
}

#[test]
fn test_tcb_fmspc_mismatch_rejected() {
    let info = sample_tcb_info();
    let wrong_fmspc = vec![0xde, 0xad, 0xbe, 0xef, 0x00, 0x00];
    let result = match_tcb_level(&info, true, &vec![0; 16], &vec![0; 16], 0, &wrong_fmspc);
    assert!(matches!(
        result,
        Err(AtlsVerificationError::TcbInfoError(_))
    ));
}

#[test]
fn test_tcb_empty_components_is_structural_error() {
    let mut info = sample_tcb_info();
    info.tcb_levels[0].sgx_components = Vec::new();
    let result = match_tcb_level(&info, true, &vec![0; 16], &vec![0; 16], 0, &sample_pck().fmspc);
    assert!(matches!(
        result,
        Err(AtlsVerificationError::TcbInfoError(_))
    ));
}

#[test]
fn test_tcb_sgx_info_for_tdx_quote_rejected() {
    let mut info = sample_tcb_info();
    info.id = "SGX".to_string();
    info.version = 2;
    let result = match_tcb_level(&info, true, &vec![0; 16], &vec![0; 16], 0, &sample_pck().fmspc);
    assert!(matches!(
        result,
        Err(AtlsVerificationError::TcbInfoError(_))
    ));
}

#[test]
fn test_report_carries_app_compose_digest() {
    let user = JsonVal::Obj(vec![(
        "docker_compose_file".to_string(),
        JsonVal::Str("services: {}".to_string()),
    )]);
    let merged = merge_with_default_app_compose(user);
    let canonical = to_json_bytes(&merged);
    let digest: Vec<u8> = sha2::Sha256::digest(&canonical).to_vec();
    let log = vec![EventLogEntry {
        imr: 3,
        event_type: 1,
        digest: vec![0u8; 48],
        event: "app-compose".to_string(),
        event_payload: digest.clone(),
    }];
    let cert = vec![1u8, 2, 3];
    let ekm = vec![4u8; 32];
    let mut td = sample_td(compute_expected_report_data(&cert, &ekm));
    let replayed = replay_event_log(&log);
    td.rt_mr3 = replayed.imr3.clone();
    let mut verifier = dev_verifier();
    verifier.disable_runtime_verification = false;
    verifier.app_compose = Some(jv_clone(&merged));
    let verdict = DcapVerdict {
        status: "UpToDate".to_string(),
        advisory_ids: Vec::new(),
    };
    let report = verifier
        .verify_attestation(
            &td,
            &verdict,
            &sample_tcb_info(),
            &sample_pck(),
            &log,
            Some(&merged),
            &cert,
            &ekm,
            0,
        )
        .unwrap();
    let expected_hex: String = digest.iter().map(|b| format!("{:02x}", b)).collect();
    assert_eq!(report.app_compose_digest.as_deref(), Some(&expected_hex[..]));
}

#[test]
fn test_report_attestation_summary() {
    let cert = vec![1u8, 2, 3];
    let ekm = vec![4u8; 32];
    let td = sample_td(compute_expected_report_data(&cert, &ekm));
    let verdict = DcapVerdict {
        status: "UpToDate".to_string(),
        advisory_ids: Vec::new(),
    };
    let report = dev_verifier()
        .verify_attestation(
            &td,
            &verdict,
            &sample_tcb_info(),
            &sample_pck(),
            &Vec::new(),
            None,
            &cert,
            &ekm,
            0,
        )
        .unwrap();
    let full = atlas_rs::dstack::Report::Tdx(report);
    let summary = full.attestation();
    assert!(summary.trusted);
    assert_eq!(summary.tee_type, "tdx");
    assert_eq!(summary.tcb_status, "UpToDate");
    assert_eq!(summary.measurement.as_deref(), Some(&"0".repeat(96)[..]));
}
