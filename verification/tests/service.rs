use veriai::service::{
    challenge_directory, challenge_expiry, check_challenge_expiry, decode_hex_32,
    decode_receipt_text, decode_verify_request, parse_challenge_record, parse_expected_pcr0,
    parse_u64, replay_lock_path, validate_configured_roots, CHALLENGE_TTL_SECONDS,
};
use veriai::service::{
    after_verdict, persist_failure, replay_state_from_json, replay_state_json, HandlerStep,
};
use veriai::text::claims_version_str;

#[test]
fn hex_32_accepts_exactly_32_bytes() {
    let h = "ab".repeat(32);
    assert_eq!(decode_hex_32(&h).unwrap(), [0xab; 32]);
    assert_eq!(decode_hex_32(&"AB".repeat(32)).unwrap(), [0xab; 32]);
    assert_eq!(decode_hex_32(&"ab".repeat(31)), Err("Expected 32 bytes, got 31".to_string()));
    assert!(decode_hex_32("zz").unwrap_err().starts_with("Hex decode failed: "));
    assert!(decode_hex_32("abc").unwrap_err().starts_with("Hex decode failed: "));
}

#[test]
fn pcr0_must_be_48_bytes_of_hex() {
    assert_eq!(parse_expected_pcr0(&"00".repeat(48)).unwrap(), vec![0u8; 48]);
    assert_eq!(
        parse_expected_pcr0(&"00".repeat(32)),
        Err("PCR0 must be 48 bytes, got 32".to_string())
    );
    assert!(parse_expected_pcr0("xyz").unwrap_err().starts_with("PCR0 is not valid hex: "));
}

#[test]
fn receipt_text_is_hex_or_base64() {
    assert_eq!(decode_receipt_text("d28443").unwrap(), vec![0xd2, 0x84, 0x43]);
    assert_eq!(decode_receipt_text("AQID").unwrap(), vec![1, 2, 3]);
    assert!(decode_receipt_text("!!!")
        .unwrap_err()
        .starts_with("Invalid receipt encoding (must be hex or base64): "));
}

#[test]
fn request_errors_name_the_first_bad_field() {
    let good = "11".repeat(32);
    let ok = decode_verify_request("AQID", &good, &good, &good, &good).unwrap();
    assert_eq!(ok.receipt, vec![1, 2, 3]);
    assert_eq!(ok.nonce, [0x11; 32]);
    let e = decode_verify_request("!!", "x", &good, &good, &good).err().unwrap();
    assert_eq!(e.code, "invalid_encoding");
    let e = decode_verify_request("AQID", "x", &good, &good, &good).err().unwrap();
    assert_eq!(e.code, "invalid_model_hash");
    assert!(e.error.starts_with("Invalid model_hash: Hex decode failed: "));
    let e = decode_verify_request("AQID", &good, "11", &good, &good).err().unwrap();
    assert_eq!(e.code, "invalid_input_hash");
    assert_eq!(e.error, "Invalid input_hash: Expected 32 bytes, got 1");
    let e = decode_verify_request("AQID", &good, &good, "", &good).err().unwrap();
    assert_eq!(e.code, "invalid_output_hash");
    let e = decode_verify_request("AQID", &good, &good, &good, "q").err().unwrap();
    assert_eq!(e.code, "invalid_nonce");
}

#[test]
fn side_files_sit_beside_the_state_file() {
    assert_eq!(replay_lock_path("/var/lib/state.json").unwrap(), "/var/lib/.state.json.lock");
    assert_eq!(challenge_directory("state.json").unwrap(), ".state.json.challenges");
    assert_eq!(
        replay_lock_path("/"),
        Err("state file path must end in a file name".to_string())
    );
}

#[test]
fn challenge_records_and_expiry() {
    assert_eq!(challenge_expiry(100), Some(100 + CHALLENGE_TTL_SECONDS));
    assert_eq!(challenge_expiry(u64::MAX), None);
    assert_eq!(parse_challenge_record(" 1700000300\n"), Ok(1700000300));
    assert_eq!(parse_challenge_record("soon"), Err("challenge record is invalid".to_string()));
    assert_eq!(check_challenge_expiry(10, 10), Ok(()));
    assert_eq!(check_challenge_expiry(11, 10), Err("challenge has expired".to_string()));
}

#[test]
fn u64_text_is_read_as_std_reads_it() {
    assert_eq!(parse_u64("0"), Some(0));
    assert_eq!(parse_u64("+42"), Some(42));
    assert_eq!(parse_u64("18446744073709551615"), Some(u64::MAX));
    assert_eq!(parse_u64("18446744073709551616"), None);
    assert_eq!(parse_u64(""), None);
    assert_eq!(parse_u64("+"), None);
    assert_eq!(parse_u64("-1"), None);
    assert_eq!(parse_u64("1 2"), None);
}

#[test]
fn configured_roots_are_only_checked_on_real_hardware() {
    assert_eq!(validate_configured_roots("not a pem", false), Ok(()));
    assert_eq!(
        validate_configured_roots("not a pem", true),
        Err("malformed or unexpected data in trusted root PEM".to_string())
    );
    assert_eq!(
        validate_configured_roots("", true),
        Err("trusted root PEM contains no complete certificates".to_string())
    );
}

#[test]
fn claims_version_text() {
    assert_eq!(claims_version_str("veriai-sdk/1.0.0"), "1.0.0");
    assert_eq!(claims_version_str("a/b/2"), "2");
    assert_eq!(claims_version_str("0.1.0"), "1");
    assert_eq!(claims_version_str("trailing/"), "");
}

#[test]
fn replay_state_round_trips_through_json() {
    let state = vec![([0x42; 32], 7u64)];
    let bytes = replay_state_json(&state);
    let text = String::from_utf8(bytes.clone()).unwrap();
    assert!(text.contains(&"42".repeat(32)));
    assert_eq!(replay_state_from_json(&bytes).unwrap(), state);
    assert_eq!(replay_state_from_json(b"{}").unwrap(), vec![]);
    let two = replay_state_json(&vec![([1; 32], 1u64), ([2; 32], 2u64)]);
    let mut back = replay_state_from_json(&two).unwrap();
    back.sort();
    assert_eq!(back, vec![([1; 32], 1u64), ([2; 32], 2u64)]);
}

#[test]
fn replay_state_json_errors() {
    let e = replay_state_from_json(b"not json").unwrap_err();
    assert!(e.starts_with("invalid state JSON: "), "{e}");
    let e = replay_state_from_json(b"{\"ab\": -1}").unwrap_err();
    assert!(e.starts_with("invalid state JSON: "), "{e}");
    assert_eq!(
        replay_state_from_json(b"{\"abcd\": 1}"),
        Err("invalid identity fingerprint: Expected 32 bytes, got 2".to_string())
    );
}

#[test]
fn verdicts_decide_the_handler_steps() {
    assert_eq!(after_verdict(false, true, None), HandlerStep::RestoreChallenge);
    assert_eq!(after_verdict(false, false, None), HandlerStep::RestoreChallenge);
    assert_eq!(after_verdict(true, true, None), HandlerStep::PersistState);
    assert_eq!(after_verdict(true, true, Some(false)), HandlerStep::RollBack);
    assert_eq!(after_verdict(true, true, Some(true)), HandlerStep::ConsumeChallenge);
    assert_eq!(after_verdict(true, false, None), HandlerStep::ConsumeChallenge);
    let e = persist_failure();
    assert_eq!(e.code, "replay_state_error");
    assert_eq!(e.error, "Verification succeeded but replay state could not be persisted");
}
