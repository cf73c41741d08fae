use veriai::claims::ClaimsError;
use veriai::types::{AttestationDoc, VeriClaims};

fn claims(timestamp: i64) -> VeriClaims {
    VeriClaims {
        model_hash: [0xaa; 32],
        input_hash: [0xbb; 32],
        output_hash: [0xcc; 32],
        client_nonce: [0xdd; 32],
        sequence_num: 42,
        attestation_report: vec![1, 2, 3, 4],
        attestation_type: 3,
        attestation_timestamp: timestamp,
        sdk_version: "veriai-sdk/1.0.0".to_string(),
        enclave_pubkey: [0xee; 32],
    }
}

#[test]
fn schema_test_vericlaims_roundtrip() {
    for ts in [1625097600i64, 1718300000] {
        let c = claims(ts);
        let serialized = c.to_binary().unwrap();
        let deserialized = VeriClaims::from_binary(&serialized).expect("Failed to deserialize VeriClaims");
        assert_eq!(c, deserialized);
    }
}

fn doc(module_id: &str, timestamp: u64) -> AttestationDoc {
    AttestationDoc {
        module_id: module_id.to_string(),
        timestamp,
        digest: "SHA384".to_string(),
        pcrs: vec![(0, vec![0x11; 48]), (1, vec![0x22; 48])],
        certificate: vec![5, 6, 7],
        cabundle: vec![vec![8, 9], vec![10, 11]],
        public_key: Some(vec![12, 13]),
        user_data: Some(vec![14, 15]),
        nonce: Some(vec![16, 17]),
    }
}

#[test]
fn schema_test_attestation_doc_roundtrip() {
    for d in [doc("test_module", 1625097600000), doc("test-module", 1718300000000)] {
        let serialized = d.to_binary().unwrap();
        let deserialized = AttestationDoc::from_binary(&serialized).expect("Failed to deserialize AttestationDoc");
        assert_eq!(d, deserialized);
    }
}

#[test]
fn doc_with_absent_optionals_roundtrips() {
    let mut d = doc("m", 0);
    d.public_key = None;
    d.user_data = None;
    d.nonce = None;
    d.pcrs = vec![];
    d.cabundle = vec![];
    assert_eq!(AttestationDoc::from_binary(&d.to_binary().unwrap()).unwrap(), d);
}

#[test]
fn decoded_pcrs_come_out_in_index_order() {
    let mut d = doc("m", 7);
    let sorted = d.clone();
    d.pcrs = vec![(1, vec![0x22; 48]), (0, vec![0x11; 48])];
    let back = AttestationDoc::from_binary(&d.to_binary().unwrap()).unwrap();
    assert_eq!(back.pcrs, sorted.pcrs);
}

#[test]
fn claims_reject_garbage_and_truncation() {
    assert!(VeriClaims::from_binary(&[]).is_err());
    assert!(VeriClaims::from_binary(&[0xff, 0x00]).is_err());
    let bytes = claims(5).to_binary().unwrap();
    assert!(VeriClaims::from_binary(&bytes[..bytes.len() - 1]).is_err());
    assert!(AttestationDoc::from_binary(&[0xa0]).is_err());
}

#[test]
fn claims_with_negative_timestamp_roundtrip() {
    let c = claims(-600);
    assert_eq!(VeriClaims::from_binary(&c.to_binary().unwrap()).unwrap(), c);
}

#[test]
fn claim_set_errors_name_the_claim() {
    assert_eq!(VeriClaims::from_binary(&[0xa1, 0x19, 0x17, 0x78, 0x00]), Err(ClaimsError::Reserved(6008)));
    assert_eq!(
        VeriClaims::from_binary(&[0xa1, 0x19, 0x17, 0x70, 0x41, 0x00]),
        Err(ClaimsError::InvalidLength(6000))
    );
    assert_eq!(VeriClaims::from_binary(&[0xa0]), Err(ClaimsError::Missing(6000)));
    assert_eq!(VeriClaims::from_binary(&[0x80]), Err(ClaimsError::NotAMap));
}

#[test]
fn unknown_claims_are_skipped_and_later_entries_win() {
    let base = claims(1).to_binary().unwrap();
    // Replace the map header (ten entries) by twelve entries and append an
    // unknown claim and a second sequence number.
    let mut bytes = vec![0xac];
    bytes.extend_from_slice(&base[1..]);
    bytes.extend_from_slice(&[0x19, 0x17, 0x7f, 0x63, b'a', b'b', b'c']); // 6015: "abc"
    bytes.extend_from_slice(&[0x19, 0x17, 0x74, 0x18, 0x63]); // 6004: 99
    let decoded = VeriClaims::from_binary(&bytes).unwrap();
    let mut expected = claims(1);
    expected.sequence_num = 99;
    assert_eq!(decoded, expected);
}
