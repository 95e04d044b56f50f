use atlas_rs::errors::AtlsVerificationError;
use atlas_rs::json::to_json_bytes;
use atlas_rs::jsonparse::parse_json;
use atlas_rs::json::JsonVal;
use atlas_rs::policy::{DstackTdxPolicy, ExpectedBootchain, Policy, DEFAULT_PCCS_URL};
use atlas_rs::policy_codec::{
    dstack_policy_from_json, dstack_policy_to_json, policy_from_json, policy_to_json,
};

#[test]
fn test_dstack_tdx_policy_default() {
    let policy = DstackTdxPolicy::default();
    assert_eq!(policy.allowed_tcb_status, vec!["UpToDate"]);
    assert!(policy.expected_bootchain.is_none());
    assert!(!policy.disable_runtime_verification);
}

#[test]
fn test_dstack_tdx_policy_dev() {
    let policy = DstackTdxPolicy::dev();
    assert!(policy
        .allowed_tcb_status
        .contains(&"SWHardeningNeeded".to_string()));
    assert!(policy.disable_runtime_verification);
}

#[test]
fn test_dstack_tdx_policy_json_roundtrip() {
    let policy = DstackTdxPolicy {
        allowed_tcb_status: vec!["UpToDate".into(), "SWHardeningNeeded".into()],
        ..Default::default()
    };

    let json = dstack_policy_to_json(&policy);
    let parsed = dstack_policy_from_json(&json).unwrap();

    assert_eq!(parsed.allowed_tcb_status.len(), 2);
}

#[test]
fn test_default_policy_requires_all_fields() {
    // Default policy with no runtime fields should fail to build verifier
    let policy = DstackTdxPolicy::default();
    let result = policy.into_verifier();
    assert!(result.is_err());
}

#[test]
fn test_dev_policy_builds_without_runtime_fields() {
    // Dev policy explicitly disables runtime verification
    let policy = DstackTdxPolicy::dev();
    let result = policy.into_verifier();
    assert!(result.is_ok());
}

#[test]
fn test_policy_default() {
    let policy = Policy::default();
    match policy {
        Policy::DstackTdx(tdx) => {
            assert_eq!(tdx.allowed_tcb_status, vec!["UpToDate"]);
            assert!(tdx.expected_bootchain.is_none());
        }
    }
}

#[test]
fn test_policy_dev() {
    let policy = Policy::DstackTdx(DstackTdxPolicy::dev());
    match policy {
        Policy::DstackTdx(tdx) => {
            assert!(tdx
                .allowed_tcb_status
                .contains(&"SWHardeningNeeded".to_string()));
        }
    }
}

#[test]
fn test_policy_json_roundtrip() {
    let policy = Policy::DstackTdx(DstackTdxPolicy {
        allowed_tcb_status: vec!["UpToDate".into(), "SWHardeningNeeded".into()],
        ..Default::default()
    });

    let json = policy_to_json(&policy);
    let parsed = policy_from_json(&json).unwrap();

    match parsed {
        Policy::DstackTdx(tdx) => {
            assert_eq!(tdx.allowed_tcb_status.len(), 2);
        }
    }
}

#[test]
fn test_policy_from_json() {
    let json = r#"{"type": "dstack_tdx", "allowed_tcb_status": ["UpToDate"]}"#;
    let value = parse_json(&json.as_bytes().to_vec()).unwrap();
    let policy = policy_from_json(&value).unwrap();

    match policy {
        Policy::DstackTdx(tdx) => {
            assert_eq!(tdx.allowed_tcb_status, vec!["UpToDate"]);
        }
    }
}

#[test]
fn test_policy_from_json_applies_defaults() {
    let json = r#"{"type": "dstack_tdx"}"#;
    let value = parse_json(&json.as_bytes().to_vec()).unwrap();
    let policy = dstack_policy_from_json(&value).unwrap();
    assert_eq!(policy.allowed_tcb_status, vec!["UpToDate"]);
    assert_eq!(policy.pccs_url.as_deref(), Some(DEFAULT_PCCS_URL));
    assert!(!policy.cache_collateral);
    assert!(!policy.disable_runtime_verification);
    assert!(policy.grace_period_secs.is_none());
}

#[test]
fn test_policy_from_json_rejects_unknown_field() {
    let json = r#"{"type": "dstack_tdx", "unexpected": 1}"#;
    let value = parse_json(&json.as_bytes().to_vec()).unwrap();
    assert!(matches!(
        dstack_policy_from_json(&value),
        Err(AtlsVerificationError::Configuration(_))
    ));
}

#[test]
fn test_policy_text_roundtrip_through_printer() {
    let policy = DstackTdxPolicy {
        allowed_tcb_status: vec!["UpToDate".into()],
        grace_period_secs: Some(50),
        ..Default::default()
    };
    let text = to_json_bytes(&dstack_policy_to_json(&policy));
    let reparsed = parse_json(&text).unwrap();
    let decoded = dstack_policy_from_json(&reparsed).unwrap();
    assert_eq!(decoded.allowed_tcb_status, vec!["UpToDate"]);
    assert_eq!(decoded.grace_period_secs, Some(50));
    assert_eq!(decoded.pccs_url.as_deref(), Some(DEFAULT_PCCS_URL));
}

#[test]
fn test_policy_roundtrip_all_fields() {
    let policy = DstackTdxPolicy {
        expected_bootchain: Some(ExpectedBootchain {
            mrtd: vec![0xab; 48],
            rtmr0: vec![0x01; 48],
            rtmr1: vec![0x02; 48],
            rtmr2: vec![0x03; 48],
        }),
        app_compose: Some(JsonVal::Obj(vec![(
            "manifest_version".to_string(),
            JsonVal::Int(2),
        )])),
        os_image_hash: Some("ab".repeat(32)),
        allowed_tcb_status: vec!["UpToDate".into()],
        pccs_url: None,
        cache_collateral: true,
        disable_runtime_verification: false,
        grace_period_secs: Some(u64::MAX),
    };
    let encoded = dstack_policy_to_json(&policy);
    let text = to_json_bytes(&encoded);
    let decoded = dstack_policy_from_json(&parse_json(&text).unwrap()).unwrap();
    let bc = decoded.expected_bootchain.unwrap();
    assert_eq!(bc.mrtd, vec![0xab; 48]);
    assert_eq!(bc.rtmr0, vec![0x01; 48]);
    assert_eq!(bc.rtmr1, vec![0x02; 48]);
    assert_eq!(bc.rtmr2, vec![0x03; 48]);
    assert!(decoded.app_compose.is_some());
    assert_eq!(decoded.os_image_hash.as_deref(), Some(&"ab".repeat(32)[..]));
    assert!(decoded.pccs_url.is_none());
    assert!(decoded.cache_collateral);
    assert!(!decoded.disable_runtime_verification);
    assert_eq!(decoded.grace_period_secs, Some(u64::MAX));
}

#[test]
fn test_default_policy_rejects_construction_from_wire() {
    // A minimal wire policy without runtime expectations and without
    // disabling runtime verification fails verifier construction.
    let json = r#"{"type":"dstack_tdx", "allowed_tcb_status":["UpToDate"]}"#;
    let value = parse_json(&json.as_bytes().to_vec()).unwrap();
    let policy = policy_from_json(&value).unwrap();
    let result = policy.into_verifier();
    assert!(matches!(
        result,
        Err(AtlsVerificationError::Configuration(_))
    ));
}
