use atlas_rs::collateral::{extract_pck_leaf_cert, parse_pem_chain, parse_rfc3339_secs, Collateral};
use atlas_rs::dstack::{AttestationPayload, RatlsVerifier};
use atlas_rs::errors::AtlsVerificationError;
use atlas_rs::policy::DstackTdxPolicy;
use atlas_rs::tcb::{TcbInfo, TcbLevel};

fn empty_collateral() -> Collateral {
    Collateral {
        pck_crl_issuer_chain: String::new(),
        root_ca_crl: Vec::new(),
        pck_crl: Vec::new(),
        tcb_info_issuer_chain: String::new(),
        tcb_info: String::new(),
        tcb_info_signature: Vec::new(),
        qe_identity_issuer_chain: String::new(),
        qe_identity: String::new(),
        qe_identity_signature: Vec::new(),
        pck_certificate_chain: None,
    }
}

#[test]
fn test_verify_payload_rejects_garbage_quote() {
    let verifier = DstackTdxPolicy::dev().into_verifier().unwrap();
    let payload = AttestationPayload {
        quote: b"not a quote".to_vec(),
        event_log: Vec::new(),
        app_compose: None,
        os_image_hash: None,
    };
    let result = verifier.verify_payload(
        &payload,
        &vec![1, 2, 3],
        &vec![0; 32],
        &empty_collateral(),
        1704067200,
    );
    assert!(matches!(result, Err(AtlsVerificationError::QuoteParse(_))));
}

#[test]
fn test_parse_rfc3339_known_instant() {
    assert_eq!(parse_rfc3339_secs("1970-01-01T00:00:00Z"), Some(0));
    assert_eq!(parse_rfc3339_secs("2024-01-01T00:00:00Z"), Some(1704067200));
    assert_eq!(parse_rfc3339_secs("not a date"), None);
}

#[test]
fn test_parse_pem_chain_roundtrip() {
    // A PEM block whose DER contents are the three bytes 0x00 0x01 0x02.
    let pem_text = "-----BEGIN CERTIFICATE-----\nAAEC\n-----END CERTIFICATE-----\n".to_string();
    let certs = parse_pem_chain(&pem_text).unwrap();
    assert_eq!(certs, vec![vec![0u8, 1, 2]]);

    let empty = parse_pem_chain(&"no pem here".to_string());
    assert!(matches!(
        empty,
        Err(AtlsVerificationError::TcbInfoError(_))
    ));
}

#[test]
fn test_verify_with_tcb_info_rejects_garbage_quote() {
    let verifier = DstackTdxPolicy::dev().into_verifier().unwrap();
    let payload = AttestationPayload {
        quote: b"garbage".to_vec(),
        event_log: Vec::new(),
        app_compose: None,
        os_image_hash: None,
    };
    let tcb_info = TcbInfo {
        id: "TDX".to_string(),
        version: 3,
        fmspc: "001122334455".to_string(),
        tcb_levels: vec![TcbLevel {
            sgx_components: vec![0; 16],
            tdx_components: vec![0; 16],
            pce_svn: 0,
            tcb_date: "2024-01-01T00:00:00Z".to_string(),
        }],
    };
    let result = verifier.verify_with_tcb_info(
        &payload,
        &vec![1, 2, 3],
        &vec![0; 32],
        &empty_collateral(),
        &tcb_info,
        1704067200,
    );
    assert!(matches!(result, Err(AtlsVerificationError::QuoteParse(_))));
}

#[test]
fn test_pck_leaf_prefers_supplied_chain() {
    // The collateral's PEM chain overrides whatever the quote embeds.
    let mut collateral = empty_collateral();
    collateral.pck_certificate_chain = Some(
        "-----BEGIN CERTIFICATE-----\nAAEC\n-----END CERTIFICATE-----\n".to_string(),
    );
    let leaf = extract_pck_leaf_cert(&b"not a quote at all".to_vec(), &collateral).unwrap();
    assert_eq!(leaf, vec![0u8, 1, 2]);

    // With no supplied chain, an unparseable quote cannot yield a leaf.
    let result = extract_pck_leaf_cert(&b"not a quote at all".to_vec(), &empty_collateral());
    assert!(matches!(
        result,
        Err(AtlsVerificationError::TcbInfoError(_))
    ));

    // A supplied but empty chain fails even though the quote is ignored.
    let mut empty_chain = empty_collateral();
    empty_chain.pck_certificate_chain = Some("no pem blocks".to_string());
    let result = extract_pck_leaf_cert(&b"not a quote at all".to_vec(), &empty_chain);
    assert!(matches!(
        result,
        Err(AtlsVerificationError::TcbInfoError(_))
    ));
}
