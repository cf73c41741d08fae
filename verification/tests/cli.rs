use veriai::attestation::{AttestationProvider, NitroAttestationProvider};
use veriai::cli::{
    check_line, inspection_lines, parse_hex_32, parse_hex_any, payload_hash, random_nonce, session_entries, session_json,
    session_state, session_state_from_json, verdict_line,
};
use veriai::error::AttestationError;
use veriai::service::replay_state_from_entries;
use veriai::types::{VeriClaims, VerificationCheck};

#[test]
fn hex_arguments() {
    assert_eq!(parse_hex_32(&"0a".repeat(32)).unwrap(), [0x0a; 32]);
    assert_eq!(parse_hex_32(&"0a".repeat(3)), Err("Expected 32 bytes, got 3".to_string()));
    assert!(parse_hex_32("xx").unwrap_err().starts_with("Invalid hex: "));
    assert_eq!(parse_hex_any("00ff").unwrap(), vec![0x00, 0xff]);
    assert!(parse_hex_any("0").unwrap_err().starts_with("Invalid hex: "));
}

#[test]
fn inspection_report_lists_every_claim() {
    let claims = VeriClaims {
        model_hash: [0x01; 32],
        input_hash: [0x02; 32],
        output_hash: [0x03; 32],
        client_nonce: [0x04; 32],
        sequence_num: 7,
        attestation_report: vec![],
        attestation_type: 3,
        attestation_timestamp: -12,
        sdk_version: "0.1.0".to_string(),
        enclave_pubkey: [0x05; 32],
    };
    let lines = inspection_lines(&claims);
    assert_eq!(lines.len(), 10);
    assert_eq!(lines[0], "VeriAI Receipt Inspection");
    assert_eq!(lines[2], "SDK Version:       0.1.0");
    assert_eq!(lines[3], format!("Model Merkle Root: {}", "01".repeat(32)));
    assert_eq!(lines[7], "Sequence Number:   7");
    assert_eq!(lines[8], "Timestamp:         -12");
    assert_eq!(lines[9], format!("Enclave Public Key:{}", "05".repeat(32)));
}

#[test]
fn check_and_verdict_lines() {
    let ok = VerificationCheck { name: "PCR0 Check".to_string(), status: "passed".to_string(), details: None };
    let bad = VerificationCheck {
        name: "Model Hash".to_string(),
        status: "failed".to_string(),
        details: Some("Model Merkle root mismatch".to_string()),
    };
    assert_eq!(check_line(&ok), "\u{2713} PCR0 Check");
    assert_eq!(check_line(&bad), "\u{2717} Model Hash (Model Merkle root mismatch)");
    assert_eq!(verdict_line(true), "Result: VERIFIED");
    assert_eq!(verdict_line(false), "Result: FAILED");
}

#[test]
fn session_files_round_trip_and_skip_short_fingerprints() {
    let state = vec![([0xab; 32], 5u64), ([0x01; 32], 0u64)];
    let entries = session_entries(&state);
    assert_eq!(entries[0], ("ab".repeat(32), 5));
    assert_eq!(session_state(&entries).unwrap(), state);
    let mut with_short = entries.clone();
    with_short.push(("abcd".to_string(), 9));
    assert_eq!(session_state(&with_short).unwrap(), state);
    with_short.push(("zz".to_string(), 1));
    assert!(session_state(&with_short).is_err());
}

#[test]
fn replay_state_files_reject_bad_fingerprints() {
    let entries = vec![("cd".repeat(32), 3u64)];
    assert_eq!(replay_state_from_entries(&entries).unwrap(), vec![([0xcd; 32], 3)]);
    let bad = vec![("cd".repeat(32), 3u64), ("abcd".to_string(), 1)];
    assert_eq!(
        replay_state_from_entries(&bad),
        Err("invalid identity fingerprint: Expected 32 bytes, got 2".to_string())
    );
}

#[test]
fn nitro_provider_without_the_device() {
    if std::path::Path::new("/dev/nsm").exists() {
        return;
    }
    assert_eq!(
        NitroAttestationProvider::new().generate(None, None, None),
        Err(AttestationError::HardwareUnavailable("Failed to open /dev/nsm driver".to_string()))
    );
    assert_eq!(
        veriai::sdk::get_attestation_document(None, None, None),
        Err("Failed to initialize NSM driver".to_string())
    );
    assert_eq!(NitroAttestationProvider::new().verify(&[0x80], &[1, 2, 3]), Ok(false));
}

#[test]
fn session_files_round_trip_through_json() {
    let state = vec![([0xab; 32], 5u64)];
    let bytes = session_json(&state);
    assert_eq!(session_state_from_json(&bytes).unwrap(), state);
    let short = format!("{{\"{}\": 5, \"abcd\": 9}}", "ab".repeat(32));
    assert_eq!(session_state_from_json(short.as_bytes()).unwrap(), state);
    assert!(session_state_from_json(b"{\"zz\": 1}").is_err());
    assert!(session_state_from_json(b"[1, 2]").is_err());
}

#[test]
fn payload_hash_is_sha256() {
    assert_eq!(
        hex::encode(payload_hash(b"abc")),
        "ba7816bf8f01cfea414140de5dae2223b00361a396177a9cb410ff61f20015ad"
    );
    assert!(random_nonce().is_some());
}
