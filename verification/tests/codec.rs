use atlas_rs::dstack::decode_attestation_payload;
use atlas_rs::errors::AtlsVerificationError;
use atlas_rs::eventlog::decode_event_log;
use atlas_rs::framing::{decode_frames, encode_frames};
use atlas_rs::hexutil::{ascii_lower_bytes, bytes_eq, hex_decode_bytes, hex_encode_bytes};
use atlas_rs::json::{jv_clone, jv_eq, to_json_bytes, JsonVal};
use atlas_rs::jsonparse::parse_json;

#[test]
fn test_hex_encode_decode_roundtrip() {
    let bytes = vec![0x00u8, 0x0f, 0xa5, 0xff];
    let hex = hex_encode_bytes(&bytes);
    assert_eq!(hex, b"000fa5ff".to_vec());
    assert_eq!(hex_decode_bytes(&hex), Some(bytes));
}

#[test]
fn test_hex_decode_rejects_bad_input() {
    assert_eq!(hex_decode_bytes(&b"abc".to_vec()), None);
    assert_eq!(hex_decode_bytes(&b"zz".to_vec()), None);
    assert_eq!(hex_decode_bytes(&b"AbCd".to_vec()), Some(vec![0xab, 0xcd]));
}

#[test]
fn test_ascii_lower_and_bytes_eq() {
    let lowered = ascii_lower_bytes(&b"AbC-19".to_vec());
    assert_eq!(lowered, b"abc-19".to_vec());
    assert!(bytes_eq(&lowered, &b"abc-19".to_vec()));
    assert!(!bytes_eq(&lowered, &b"abc-18".to_vec()));
}

#[test]
fn test_json_printer_canonical_form() {
    let v = JsonVal::Obj(vec![
        ("a".to_string(), JsonVal::Arr(vec![
            JsonVal::Int(-5),
            JsonVal::Bool(true),
            JsonVal::Null,
        ])),
        ("b".to_string(), JsonVal::Str("x\"y\\z\n".to_string())),
    ]);
    let text = to_json_bytes(&v);
    assert_eq!(
        String::from_utf8(text).unwrap(),
        "{\"a\":[-5,true,null],\"b\":\"x\\\"y\\\\z\\n\"}"
    );
}

#[test]
fn test_json_parse_print_roundtrip() {
    let text = br#" { "name" : "demo" , "count" : 12 , "flags" : [ true , false , null ] ,
        "nested" : { "esc" : "a\tb\u0001c" } } "#
        .to_vec();
    let v = parse_json(&text).unwrap();
    let printed = to_json_bytes(&v);
    let reparsed = parse_json(&printed).unwrap();
    assert!(jv_eq(&v, &reparsed));
    assert!(jv_eq(&v, &jv_clone(&v)));
}

#[test]
fn test_json_parse_rejects_malformed() {
    assert!(parse_json(&b"{".to_vec()).is_none());
    assert!(parse_json(&b"1.5".to_vec()).is_none());
    assert!(parse_json(&b"[1,]".to_vec()).is_none());
    assert!(parse_json(&b"\"unterminated".to_vec()).is_none());
    assert!(parse_json(&b"null trailing".to_vec()).is_none());
}

#[test]
fn test_json_parse_large_integers() {
    let v = parse_json(&b"18446744073709551615".to_vec()).unwrap();
    assert!(jv_eq(&v, &JsonVal::Int(18446744073709551615i128)));
    let v = parse_json(&b"-42".to_vec()).unwrap();
    assert!(jv_eq(&v, &JsonVal::Int(-42)));
}

#[test]
fn test_framing_roundtrip() {
    let fields = vec![b"quote".to_vec(), Vec::new(), b"x".to_vec()];
    let framed = encode_frames(&fields).unwrap();
    assert_eq!(framed.len(), 4 * 3 + 5 + 0 + 1);
    assert_eq!(decode_frames(&framed), Some(fields));
}

#[test]
fn test_framing_rejects_truncated() {
    let fields = vec![b"quote".to_vec()];
    let mut framed = encode_frames(&fields).unwrap();
    framed.pop();
    assert_eq!(decode_frames(&framed), None);
    assert_eq!(decode_frames(&vec![0, 0, 0]), None);
}

#[test]
fn test_decode_event_log_from_json() {
    let text = br#"[
        {"imr": 0, "event_type": 1, "digest": "00000000000000000000000000000000000000000000000000000000000000000000000000000000000000000000ffff",
         "event": "os-image-hash", "event_payload": "6162"}
    ]"#
        .to_vec();
    let v = parse_json(&text).unwrap();
    let log = decode_event_log(&v).unwrap();
    assert_eq!(log.len(), 1);
    assert_eq!(log[0].imr, 0);
    assert_eq!(log[0].digest.len(), 48);
    assert_eq!(log[0].event, "os-image-hash");
    assert_eq!(log[0].event_payload, b"ab".to_vec());
}

#[test]
fn test_decode_event_log_rejects_bad_register() {
    let text = br#"[{"imr": 9, "event_type": 1,
        "digest": "000000000000000000000000000000000000000000000000000000000000000000000000000000000000000000000000",
        "event": "x", "event_payload": ""}]"#
        .to_vec();
    let v = parse_json(&text).unwrap();
    assert!(matches!(
        decode_event_log(&v),
        Err(AtlsVerificationError::EventLogMalformed(_))
    ));
}

#[test]
fn test_decode_attestation_payload() {
    let log_json = br#"[]"#.to_vec();
    let fields = vec![
        b"not-a-real-quote".to_vec(),
        log_json,
        b"{\"manifest_version\":2}".to_vec(),
        b"aabbcc".to_vec(),
    ];
    let framed = encode_frames(&fields).unwrap();
    let payload = decode_attestation_payload(&framed).unwrap();
    assert_eq!(payload.quote, b"not-a-real-quote".to_vec());
    assert_eq!(payload.event_log.len(), 0);
    assert!(payload.app_compose.is_some());
    assert_eq!(payload.os_image_hash.as_deref(), Some("aabbcc"));

    let bad = decode_attestation_payload(&b"junk".to_vec());
    assert!(matches!(
        bad,
        Err(AtlsVerificationError::SubprotocolIo(_))
    ));
}
