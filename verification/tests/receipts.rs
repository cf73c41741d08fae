use base64ct::Encoding;
use coset::{iana, CborSerializable, CoseSign1, RegisteredLabel};
use ed25519_dalek::Verifier as _;
use p384::ecdsa::signature::Signer;
use p384::ecdsa::{DerSignature, SigningKey};
use veriai::sdk::VerifyError as E;
use p384::pkcs8::EncodePrivateKey;
use sha2::{Digest, Sha256};
use std::str::FromStr;
use std::time::{Duration, SystemTime, UNIX_EPOCH};
use x509_cert::certificate::{TbsCertificate, Version};
use x509_cert::der::asn1::{BitString, ObjectIdentifier, OctetString};
use x509_cert::ext::pkix::{BasicConstraints, KeyUsage, KeyUsages};
use x509_cert::ext::Extension;
use x509_cert::spki::AlgorithmIdentifierOwned;
use x509_cert::der::pem::LineEnding;
use x509_cert::der::{Encode, EncodePem};
use x509_cert::name::Name;
use x509_cert::serial_number::SerialNumber;
use x509_cert::spki::SubjectPublicKeyInfoOwned;
use x509_cert::time::{Time, Validity};
use x509_cert::Certificate;

use veriai::attestation::{verify_attestation_doc, AttestationProvider, MockAttestationProvider};
use veriai::cose::{encode_sign1, sig_structure};
use veriai::error::{AttestationError, VerifyError};
use veriai::pem::validate_root_pem_with_allowlist;
use veriai::receipt::{build_receipt, ReceiptGenerator};
use veriai::types::{AttestationDoc, VeriClaims, VerificationResult};
use veriai::verify::{compute_report_data, Verifier, VerifierConfig};
use veriai::wasm::VerifyRequest;

/// The certificates of a mock Nitro hierarchy, valid from yesterday to 2036.
struct Fixture {
    root: Certificate,
    intermediate: Certificate,
    leaf: Certificate,
    leaf_key: SigningKey,
}

fn signing_key(b: u8) -> SigningKey {
    SigningKey::from_slice(&[b; 48]).unwrap()
}

fn validity(not_before: u64, not_after: u64) -> Validity {
    Validity {
        not_before: Time::try_from(UNIX_EPOCH + Duration::from_secs(not_before)).unwrap(),
        not_after: Time::try_from(UNIX_EPOCH + Duration::from_secs(not_after)).unwrap(),
    }
}

fn now_secs() -> u64 {
    SystemTime::now().duration_since(UNIX_EPOCH).unwrap().as_secs()
}

fn default_validity() -> Validity {
    validity(now_secs() - 86400, 2082758400)
}

/// What a certificate may do: sign certificates (with an optional path
/// length limit) or, as a leaf, sign documents.
#[derive(Clone, Copy)]
enum Role {
    Ca(Option<u8>),
    Leaf,
}

fn extension<T: Encode>(oid: &str, critical: bool, value: &T) -> Extension {
    Extension {
        extn_id: ObjectIdentifier::new_unwrap(oid),
        critical,
        extn_value: OctetString::new(value.to_der().unwrap()).unwrap(),
    }
}

fn certificate(
    role: Role,
    serial: u32,
    subject: &str,
    issuer: &str,
    subject_key: &SigningKey,
    signer: &SigningKey,
) -> Certificate {
    let alg = AlgorithmIdentifierOwned {
        oid: ObjectIdentifier::new_unwrap("1.2.840.10045.4.3.3"),
        parameters: None,
    };
    let (bc, ku) = match role {
        Role::Ca(limit) => (
            BasicConstraints { ca: true, path_len_constraint: limit },
            KeyUsage(KeyUsages::KeyCertSign | KeyUsages::CRLSign),
        ),
        Role::Leaf => (
            BasicConstraints { ca: false, path_len_constraint: None },
            KeyUsage(KeyUsages::DigitalSignature | KeyUsages::NonRepudiation),
        ),
    };
    let tbs = TbsCertificate {
        version: Version::V3,
        serial_number: SerialNumber::from(serial),
        signature: alg.clone(),
        issuer: Name::from_str(issuer).unwrap(),
        validity: default_validity(),
        subject: Name::from_str(subject).unwrap(),
        subject_public_key_info: SubjectPublicKeyInfoOwned::from_key(*subject_key.verifying_key())
            .unwrap(),
        issuer_unique_id: None,
        subject_unique_id: None,
        extensions: Some(vec![
            extension("2.5.29.19", true, &bc),
            extension("2.5.29.15", true, &ku),
        ]),
    };
    let sig: DerSignature = signer.sign(&tbs.to_der().unwrap());
    Certificate {
        tbs_certificate: tbs,
        signature_algorithm: alg,
        signature: BitString::from_bytes(sig.as_bytes()).unwrap(),
    }
}

/// The mock Nitro hierarchy: root, intermediate and leaf, each with a name
/// and a key of its own.
fn fixture() -> Fixture {
    let root_key = signing_key(0x11);
    let int_key = signing_key(0x22);
    let leaf_key = signing_key(0x33);
    let (r, i, l) = ("CN=Mock AWS Nitro Root", "CN=Mock AWS Nitro Intermediate", "CN=Mock Enclave");
    let root = certificate(Role::Ca(None), 1, r, r, &root_key, &root_key);
    let intermediate = certificate(Role::Ca(Some(0)), 2, i, r, &int_key, &root_key);
    let leaf = certificate(Role::Leaf, 3, l, i, &leaf_key, &int_key);
    Fixture { root, intermediate, leaf, leaf_key }
}

/// A conventional hierarchy: root, intermediate and leaf with names and
/// keys of their own.
fn distinct_fixture() -> Fixture {
    let root_key = signing_key(0x41);
    let int_key = signing_key(0x42);
    let leaf_key = signing_key(0x43);
    let (r, i, l) = ("CN=Distinct Root", "CN=Distinct Intermediate", "CN=Distinct Enclave");
    let root = certificate(Role::Ca(None), 10, r, r, &root_key, &root_key);
    let intermediate = certificate(Role::Ca(None), 11, i, r, &int_key, &root_key);
    let leaf = certificate(Role::Leaf, 12, l, i, &leaf_key, &int_key);
    Fixture { root, intermediate, leaf, leaf_key }
}

fn der(c: &Certificate) -> Vec<u8> {
    c.to_der().unwrap()
}

fn pem(c: &Certificate) -> String {
    c.to_pem(LineEnding::LF).unwrap()
}

fn key_der(k: &SigningKey) -> Vec<u8> {
    k.to_pkcs8_der().unwrap().as_bytes().to_vec()
}

fn provider(f: &Fixture) -> MockAttestationProvider {
    MockAttestationProvider::new(der(&f.root), der(&f.intermediate), der(&f.leaf), key_der(&f.leaf_key))
}

/// A signed attestation document with the given bundle.
fn signed_document(f: &Fixture, cabundle: Vec<Vec<u8>>) -> Vec<u8> {
    document_for(f, cabundle, None, None, None)
}

/// A signed attestation document with the given bundle and bindings.
fn document_for(
    f: &Fixture,
    cabundle: Vec<Vec<u8>>,
    user_data: Option<Vec<u8>>,
    nonce: Option<Vec<u8>>,
    public_key: Option<Vec<u8>>,
) -> Vec<u8> {
    let doc = AttestationDoc {
        module_id: "Mock-Hypervisor-Module".to_string(),
        timestamp: now_secs() * 1000,
        digest: "SHA384".to_string(),
        pcrs: vec![(0, vec![0u8; 48])],
        certificate: der(&f.leaf),
        cabundle,
        public_key,
        user_data,
        nonce,
    };
    let payload = doc.to_binary().unwrap();
    let protected = vec![0xa1, 0x01, 0x38, 0x22];
    let tbs = sig_structure(&protected, &payload);
    let sig: p384::ecdsa::Signature = f.leaf_key.sign(&tbs);
    encode_sign1(&protected, &payload, &sig.to_bytes())
}

/// A receipt for the expected values, signed with `secret`, whose
/// attestation document lists its CA bundle intermediate first, the order
/// in which the SDK verifier walks it.
fn sdk_receipt(f: &Fixture, secret: [u8; 32], sequence_num: u64) -> Vec<u8> {
    let pk = ReceiptGenerator::with_key(provider(f), secret).public_key_bytes();
    let report = document_for(
        f,
        vec![der(&f.intermediate), der(&f.root)],
        Some(compute_report_data(&pk).to_vec()),
        Some(NONCE.to_vec()),
        Some(pk.to_vec()),
    );
    let claims = VeriClaims {
        model_hash: MODEL,
        input_hash: INPUT,
        output_hash: OUTPUT,
        client_nonce: NONCE,
        sequence_num,
        attestation_report: report,
        attestation_type: 3,
        attestation_timestamp: now_secs() as i64,
        sdk_version: "0.1.0".to_string(),
        enclave_pubkey: pk,
    };
    build_receipt(&secret, &claims)
}

const MODEL: [u8; 32] = [0x11; 32];
const INPUT: [u8; 32] = [0x22; 32];
const OUTPUT: [u8; 32] = [0x33; 32];
const NONCE: [u8; 32] = [0x44; 32];

fn verify(
    v: &mut Verifier<MockAttestationProvider>,
    receipt: &[u8],
) -> Result<VerificationResult, VerifyError> {
    v.verify(receipt, MODEL, INPUT, OUTPUT, NONCE, &[0u8; 48])
}

fn setup(stateful: bool) -> (ReceiptGenerator<MockAttestationProvider>, Verifier<MockAttestationProvider>) {
    let f = fixture();
    let p = provider(&f);
    let generator = ReceiptGenerator::new(p.clone()).unwrap();
    let verifier = Verifier::from_pem(p, &pem(&f.root), stateful).unwrap();
    (generator, verifier)
}

fn check_status(res: &VerificationResult, name: &str) -> String {
    res.checks.iter().find(|c| c.name == name).unwrap().status.clone()
}

#[test]
fn mixed_root_bundle_cannot_smuggle_an_unapproved_root() {
    let f = distinct_fixture();
    let root = pem(&f.root);
    let intermediate = pem(&f.intermediate);
    let fingerprint: [u8; 32] = Sha256::digest(der(&f.root)).into();
    let bundle = format!("{root}\n{intermediate}");
    assert!(validate_root_pem_with_allowlist(&bundle, &[fingerprint]).is_err());
    assert_eq!(validate_root_pem_with_allowlist(&root, &[fingerprint]), Ok(()));
    let other: [u8; 32] = Sha256::digest(der(&f.intermediate)).into();
    let err = validate_root_pem_with_allowlist(&root, &[other]).unwrap_err();
    assert_eq!(
        err,
        format!("trusted root fingerprint is not allowlisted: {}", hex::encode(fingerprint))
    );
}

#[test]
fn independent_generators_use_independent_keys() {
    let f = fixture();
    let first = ReceiptGenerator::new(provider(&f)).unwrap();
    let second = ReceiptGenerator::new(provider(&f)).unwrap();
    assert_ne!(first.public_key_bytes(), second.public_key_bytes());
}

#[test]
fn sequence_exhaustion_fails_closed() {
    let f = fixture();
    let mut generator = ReceiptGenerator::with_sequence(provider(&f), [7; 32], u64::MAX);
    let result = generator.generate_receipt([1; 32], [2; 32], [3; 32], [4; 32]);
    assert_eq!(result, Err(VerifyError::SequenceNumberExhausted));
}

#[test]
fn test_receipt_generation_and_signature() {
    let f = fixture();
    let mut generator = ReceiptGenerator::new(provider(&f)).unwrap();
    let receipt = generator.generate_receipt(MODEL, INPUT, OUTPUT, NONCE).unwrap();
    let cose = CoseSign1::from_slice(&receipt).unwrap();
    let pubkey = generator.public_key_bytes();
    let key = ed25519_dalek::VerifyingKey::from_bytes(&pubkey).unwrap();
    let sig: [u8; 64] = cose.signature.clone().try_into().unwrap();
    key.verify(&cose.tbs_data(&[]), &ed25519_dalek::Signature::from_bytes(&sig)).unwrap();

    let claims = VeriClaims::from_binary(cose.payload.as_ref().unwrap()).unwrap();
    assert_eq!(claims.model_hash, MODEL);
    assert_eq!(claims.input_hash, INPUT);
    assert_eq!(claims.output_hash, OUTPUT);
    assert_eq!(claims.client_nonce, NONCE);
    assert_eq!(claims.sequence_num, 0);
    assert_eq!(claims.enclave_pubkey, pubkey);
    assert_eq!(claims.attestation_type, 3);
    assert_eq!(claims.sdk_version, "0.1.0");

    let att = CoseSign1::from_slice(&claims.attestation_report).unwrap();
    let doc = AttestationDoc::from_binary(att.payload.as_ref().unwrap()).unwrap();
    assert_eq!(doc.module_id, "Mock-Hypervisor-Module");
    assert_eq!(doc.nonce, Some(NONCE.to_vec()));
    assert_eq!(doc.public_key, Some(pubkey.to_vec()));
    assert_eq!(doc.user_data, Some(generator.compute_report_data().to_vec()));
    assert_eq!(generator.compute_report_data(), compute_report_data(&pubkey));

    // The binding is SHA-512(0x01 || "VeriAI-KeyBind-v1" || public key).
    let mut h = sha2::Sha512::new();
    h.update([0x01u8]);
    h.update(b"VeriAI-KeyBind-v1");
    h.update(pubkey);
    let expected: [u8; 64] = h.finalize().into();
    assert_eq!(compute_report_data(&pubkey), expected);

    let second = generator.generate_receipt(MODEL, INPUT, OUTPUT, NONCE).unwrap();
    let cose2 = CoseSign1::from_slice(&second).unwrap();
    assert_eq!(VeriClaims::from_binary(cose2.payload.as_ref().unwrap()).unwrap().sequence_num, 1);
}

#[test]
fn test_mock_get_attestation_document() {
    let f = fixture();
    let p = provider(&f);
    let user_data = b"user-data-payload-123";
    let nonce = b"nonce-value-456";
    let pubkey = b"enclave-ephemeral-public-key-789";
    let bytes = p.generate(Some(user_data), Some(nonce), Some(pubkey)).unwrap();
    let cose = CoseSign1::from_slice(&bytes).unwrap();
    let doc = AttestationDoc::from_binary(&cose.payload.unwrap()).unwrap();
    assert_eq!(doc.module_id, "Mock-Hypervisor-Module");
    assert_eq!(doc.user_data, Some(user_data.to_vec()));
    assert_eq!(doc.nonce, Some(nonce.to_vec()));
    assert_eq!(doc.public_key, Some(pubkey.to_vec()));
    assert_eq!(doc.pcrs, vec![(0, vec![0; 48]), (3, vec![0; 48]), (4, vec![0; 48])]);
    assert_eq!(doc.cabundle, vec![der(&f.root), der(&f.intermediate)]);
    assert_eq!(p.verify(&bytes, &der(&f.root)), Ok(true));
    assert_eq!(p.verify(&bytes, &der(&f.leaf)), Ok(false));
}

#[test]
fn mock_generation_at_a_given_time_is_deterministic() {
    let f = fixture();
    let p = provider(&f);
    let a = p.generate_at(1_700_000_000_000, None, Some(b"n"), None).unwrap();
    let b = p.generate_at(1_700_000_000_000, None, Some(b"n"), None).unwrap();
    assert_eq!(a, b);
    let cose = CoseSign1::from_slice(&a).unwrap();
    assert_eq!(AttestationDoc::from_binary(&cose.payload.unwrap()).unwrap().timestamp, 1_700_000_000_000);
    let broken = MockAttestationProvider::new(der(&f.root), der(&f.intermediate), der(&f.leaf), vec![1, 2, 3]);
    assert!(matches!(broken.generate(None, None, None), Err(AttestationError::ValidationError(_))));
}

#[test]
fn verify_test_verifier_end_to_end() {
    let (mut generator, mut verifier) = setup(true);
    let receipt = generator.generate_receipt(MODEL, INPUT, OUTPUT, NONCE).unwrap();
    let res = verify(&mut verifier, &receipt).unwrap();
    assert!(res.valid);
    assert_eq!(res.error, None);
    assert!(!res.verified_hardware);
    assert_eq!(res.attestation_provider, "custom");
    assert_eq!(res.receipt.as_ref().unwrap().sequence_num, 0);
    assert_eq!(res.receipt.as_ref().unwrap().model_hash, hex::encode(MODEL));

    let again = verify(&mut verifier, &receipt).unwrap();
    assert!(!again.valid);
    assert_eq!(again.error, Some("Sequence number is out of order (not monotonic)".to_string()));

    let second = generator.generate_receipt(MODEL, INPUT, OUTPUT, NONCE).unwrap();
    let res2 = verify(&mut verifier, &second).unwrap();
    assert!(res2.valid);
    let state = verifier.get_state().unwrap();
    assert_eq!(state.len(), 1);
    assert_eq!(state[0].1, 1);

    // The SDK verifier gives the same verdicts.
    let f = fixture();
    let mut sdk = veriai::sdk::Verifier::from_pem(&pem(&f.root), true).unwrap();
    let receipt = sdk_receipt(&f, [5; 32], 0);
    let pcr0 = vec![0u8; 48];
    sdk.verify(&receipt, MODEL, INPUT, OUTPUT, NONCE, &pcr0).unwrap();
    assert_eq!(
        sdk.verify(&receipt, MODEL, INPUT, OUTPUT, NONCE, &pcr0),
        Err(veriai::sdk::VerifyError::SequenceNumberOutOfOrder)
    );
    let second = sdk_receipt(&f, [5; 32], 1);
    sdk.verify(&second, MODEL, INPUT, OUTPUT, NONCE, &pcr0).unwrap();
}

#[test]
fn verify_test_verifier_payload_mismatch_errors() {
    let (mut generator, mut verifier) = setup(false);
    let receipt = generator.generate_receipt(MODEL, INPUT, OUTPUT, NONCE).unwrap();
    let pcr0 = vec![0u8; 48];
    let cases: Vec<(Result<VerificationResult, VerifyError>, &str)> = vec![
        (verifier.verify(&receipt, [0; 32], INPUT, OUTPUT, NONCE, &pcr0), "Model hash does not match expected value"),
        (verifier.verify(&receipt, MODEL, [0; 32], OUTPUT, NONCE, &pcr0), "Input hash does not match expected value"),
        (verifier.verify(&receipt, MODEL, INPUT, [0; 32], NONCE, &pcr0), "Output hash does not match expected value"),
        (verifier.verify(&receipt, MODEL, INPUT, OUTPUT, [0; 32], &pcr0), "Client nonce does not match Nitro document nonce"),
        (verifier.verify(&receipt, MODEL, INPUT, OUTPUT, NONCE, &[0xff; 48]), "PCR0 value does not match expected value"),
    ];
    for (res, msg) in cases {
        let res = res.unwrap();
        assert!(!res.valid);
        assert_eq!(res.error, Some(msg.to_string()));
    }
    // A stateless verifier accepts the same receipt again.
    assert!(verify(&mut verifier, &receipt).unwrap().valid);
    assert!(verify(&mut verifier, &receipt).unwrap().valid);
    assert_eq!(verifier.get_state(), None);

    // The SDK verifier names the same mismatches.
    let f = fixture();
    let mut sdk = veriai::sdk::Verifier::from_pem(&pem(&f.root), false).unwrap();
    let receipt = sdk_receipt(&f, [6; 32], 0);
    assert_eq!(sdk.verify(&receipt, [0; 32], INPUT, OUTPUT, NONCE, &pcr0), Err(E::ModelHashMismatch));
    assert_eq!(sdk.verify(&receipt, MODEL, [0; 32], OUTPUT, NONCE, &pcr0), Err(E::InputHashMismatch));
    assert_eq!(sdk.verify(&receipt, MODEL, INPUT, [0; 32], NONCE, &pcr0), Err(E::OutputHashMismatch));
    assert_eq!(sdk.verify(&receipt, MODEL, INPUT, OUTPUT, [0; 32], &pcr0), Err(E::NonceMismatch));
    assert_eq!(sdk.verify(&receipt, MODEL, INPUT, OUTPUT, NONCE, &[0xff; 48]), Err(E::PcrMismatch));
    assert_eq!(E::PcrMismatch.message(), "PCR0 value does not match expected value");
}

#[test]
fn test_rejects_unknown_critical_receipt_header() {
    let (mut generator, mut verifier) = setup(false);
    let bytes = generator.generate_receipt([1; 32], [2; 32], [3; 32], [4; 32]).unwrap();
    let mut receipt = CoseSign1::from_slice(&bytes).unwrap();
    receipt.protected.header.crit.push(RegisteredLabel::<iana::HeaderParameter>::Text("unknown".to_string()));
    receipt.protected.original_data = None;
    let result = verifier.verify(&receipt.to_vec().unwrap(), [1; 32], [2; 32], [3; 32], [4; 32], &[0; 48]);
    assert_eq!(result, Err(VerifyError::InvalidProtectedHeader));
}

#[test]
fn test_rejects_unknown_critical_attestation_header() {
    let f = fixture();
    let document = provider(&f).generate(None, None, None).unwrap();
    let mut cose = CoseSign1::from_slice(&document).unwrap();
    cose.protected
        .header
        .crit
        .push(RegisteredLabel::<iana::HeaderParameter>::Text("unknown-attestation-header".to_string()));
    cose.protected.original_data = None;
    let root_body: String = pem(&f.root).lines().filter(|line| !line.starts_with("-----")).collect();
    let root = base64ct::Base64::decode_vec(&root_body).unwrap();
    let now = now_secs();
    assert!(verify_attestation_doc(&cose.to_vec().unwrap(), &root, now, 0).is_err());
    // Untampered, the same document verifies.
    assert!(verify_attestation_doc(&document, &root, now, 0).is_ok());
}

#[test]
fn test_adversarial_valid_receipt() {
    let (mut generator, mut verifier) = setup(false);
    let receipt = generator.generate_receipt(MODEL, INPUT, OUTPUT, NONCE).unwrap();
    let res = verify(&mut verifier, &receipt).unwrap();
    assert!(res.valid);
    assert_eq!(res.attestation_provider, "custom");
    assert!(res.checks.iter().all(|c| c.status == "passed"));
}

#[test]
fn test_adversarial_tampered_output() {
    let (mut generator, mut verifier) = setup(false);
    let receipt = generator.generate_receipt(MODEL, INPUT, OUTPUT, NONCE).unwrap();
    let res = verifier.verify(&receipt, MODEL, INPUT, [0xff; 32], NONCE, &[0u8; 48]).unwrap();
    assert!(!res.valid);
    assert_eq!(res.error, Some("Output hash does not match expected value".to_string()));
    assert_eq!(check_status(&res, "Output Hash"), "failed");
}

#[test]
fn test_adversarial_wrong_model_hash() {
    let (mut generator, mut verifier) = setup(false);
    let receipt = generator.generate_receipt(MODEL, INPUT, OUTPUT, NONCE).unwrap();
    let res = verifier.verify(&receipt, [0x00; 32], INPUT, OUTPUT, NONCE, &[0u8; 48]).unwrap();
    assert!(!res.valid);
    assert_eq!(res.error, Some("Model hash does not match expected value".to_string()));
    assert_eq!(check_status(&res, "Model Hash"), "failed");
}

#[test]
fn test_adversarial_invalid_signature() {
    let (mut generator, mut verifier) = setup(false);
    let mut receipt = generator.generate_receipt(MODEL, INPUT, OUTPUT, NONCE).unwrap();
    if let Some(byte) = receipt.last_mut() {
        *byte ^= 0xFF;
    }
    let res = verify(&mut verifier, &receipt).unwrap();
    assert!(!res.valid);
    assert_eq!(res.error, Some("Invalid COSE signature".to_string()));
}

fn with_claims(receipt: &[u8], change: impl Fn(&mut VeriClaims)) -> Vec<u8> {
    let mut cose = CoseSign1::from_slice(receipt).unwrap();
    let mut claims = VeriClaims::from_binary(cose.payload.as_ref().unwrap()).unwrap();
    change(&mut claims);
    cose.payload = Some(claims.to_binary().unwrap());
    cose.to_vec().unwrap()
}

#[test]
fn test_adversarial_expired_receipt() {
    let (mut generator, mut verifier) = setup(false);
    let receipt = generator.generate_receipt(MODEL, INPUT, OUTPUT, NONCE).unwrap();
    let tampered = with_claims(&receipt, |c| c.attestation_timestamp -= 600);
    let res = verify(&mut verifier, &tampered).unwrap();
    assert!(!res.valid);
    assert_eq!(res.error, Some("Invalid COSE signature".to_string()));
}

#[test]
fn test_adversarial_replay_attack() {
    let (mut generator, mut verifier) = setup(true);
    let receipt = generator.generate_receipt(MODEL, INPUT, OUTPUT, NONCE).unwrap();
    let res1 = verify(&mut verifier, &receipt).unwrap();
    assert!(res1.valid);
    let res2 = verify(&mut verifier, &receipt).unwrap();
    assert!(!res2.valid);
    assert_eq!(res2.error, Some("Sequence number is out of order (not monotonic)".to_string()));
}

#[test]
fn test_adversarial_oversized_receipt() {
    let f = fixture();
    let p = provider(&f);
    let mut generator = ReceiptGenerator::new(p.clone()).unwrap();
    let config = VerifierConfig { max_receipt_size: 200, ..Default::default() };
    assert_eq!(VerifierConfig::default().max_receipt_size, 65536);
    let mut verifier = Verifier::from_pem_with_config(p, &pem(&f.root), false, config).unwrap();
    let receipt = generator.generate_receipt(MODEL, INPUT, OUTPUT, NONCE).unwrap();
    let res = verifier.verify(&receipt, MODEL, INPUT, OUTPUT, NONCE, &[0u8; 48]);
    assert!(matches!(res, Err(VerifyError::ReceiptTooLarge)));
}

#[test]
fn test_adversarial_future_timestamp() {
    let (mut generator, mut verifier) = setup(false);
    let receipt = generator.generate_receipt(MODEL, INPUT, OUTPUT, NONCE).unwrap();
    let tampered = with_claims(&receipt, |c| c.attestation_timestamp = 4070880000);
    let res = verify(&mut verifier, &tampered);
    assert!(res.is_err() || !res.unwrap().valid);
}

#[test]
fn test_adversarial_algorithm_agility_downgrade() {
    let (mut generator, mut verifier) = setup(false);
    let receipt = generator.generate_receipt(MODEL, INPUT, OUTPUT, NONCE).unwrap();

    let mut cose = CoseSign1::from_slice(&receipt).unwrap();
    cose.unprotected.alg = Some(coset::Algorithm::Assigned(iana::Algorithm::EdDSA));
    cose.protected.original_data = None;
    let res = verify(&mut verifier, &cose.to_vec().unwrap());
    assert!(matches!(res, Err(VerifyError::AlgorithmInUnprotectedHeader)));

    let mut cose2 = CoseSign1::from_slice(&receipt).unwrap();
    cose2.protected.header.alg = Some(coset::Algorithm::Assigned(iana::Algorithm::ES256));
    cose2.protected.original_data = None;
    let res2 = verify(&mut verifier, &cose2.to_vec().unwrap());
    assert!(matches!(res2, Err(VerifyError::UnsupportedAlgorithm)));
}

#[test]
fn test_adversarial_conflicting_content_type_headers() {
    let (mut generator, mut verifier) = setup(false);
    let receipt = generator.generate_receipt(MODEL, INPUT, OUTPUT, NONCE).unwrap();
    let mut cose = CoseSign1::from_slice(&receipt).unwrap();
    cose.protected.header.content_type = Some(coset::ContentType::Text("application/cwt".into()));
    cose.protected.original_data = None;
    cose.unprotected.content_type = Some(coset::ContentType::Text("application/cwt".into()));
    let result = verify(&mut verifier, &cose.to_vec().unwrap());
    assert!(matches!(result, Err(VerifyError::InvalidProtectedHeader)));
}

#[test]
fn test_rejects_invalid_expected_pcr0_length() {
    let (mut generator, mut verifier) = setup(false);
    let receipt = generator.generate_receipt(MODEL, INPUT, OUTPUT, NONCE).unwrap();
    let result = verifier.verify(&receipt, MODEL, INPUT, OUTPUT, NONCE, &[0u8; 32]);
    assert!(matches!(result, Err(VerifyError::InvalidPcrLength)));
}

#[test]
fn malformed_receipt_is_reported_in_the_result() {
    let (_generator, mut verifier) = setup(false);
    let res = verify(&mut verifier, &[0x01, 0x02]).unwrap();
    assert!(!res.valid);
    assert_eq!(res.error, Some("Malformed receipt structure".to_string()));
    assert_eq!(check_status(&res, "Receipt Format"), "failed");
}

#[test]
fn receipt_signed_by_another_key_is_rejected() {
    let (mut generator, mut verifier) = setup(false);
    let receipt = generator.generate_receipt(MODEL, INPUT, OUTPUT, NONCE).unwrap();
    let cose = CoseSign1::from_slice(&receipt).unwrap();
    let claims = VeriClaims::from_binary(cose.payload.as_ref().unwrap()).unwrap();
    let forged = build_receipt(&[9; 32], &claims);
    let res = verify(&mut verifier, &forged).unwrap();
    assert!(!res.valid);
    assert_eq!(res.error, Some("Invalid COSE signature".to_string()));
}

#[test]
fn untrusted_root_fails_the_chain_check() {
    let f = fixture();
    let other = distinct_fixture();
    let p = provider(&f);
    let mut generator = ReceiptGenerator::new(p.clone()).unwrap();
    let mut verifier = Verifier::from_pem(p, &pem(&other.root), false).unwrap();
    let receipt = generator.generate_receipt(MODEL, INPUT, OUTPUT, NONCE).unwrap();
    let res = verify(&mut verifier, &receipt).unwrap();
    assert!(!res.valid);
}

fn root_der_of(f: &Fixture) -> Vec<u8> {
    let body: String = pem(&f.root).lines().filter(|l| !l.starts_with("-----")).map(|l| l.trim()).collect();
    base64ct::Base64::decode_vec(&body).unwrap()
}

#[test]
fn test_adversarial_expired_cert_chain() {
    let f = fixture();
    let doc = provider(&f).generate(None, None, None).unwrap();
    let res = verify_attestation_doc(&doc, &root_der_of(&f), 2208988800, 0);
    assert!(res.is_err());
    assert!(format!("{:?}", res).contains("outside its validity period"));
}

#[test]
fn test_adversarial_not_yet_valid_cert_chain() {
    let f = fixture();
    let doc = provider(&f).generate(None, None, None).unwrap();
    let res = verify_attestation_doc(&doc, &root_der_of(&f), 1577836800, 0);
    assert!(res.is_err());
    assert!(format!("{:?}", res).contains("outside its validity period"));
}

#[test]
fn test_adversarial_non_ca_intermediate() {
    let f = fixture();
    let doc = signed_document(&f, vec![der(&f.root), der(&f.leaf)]);
    let res = verify_attestation_doc(&doc, &der(&f.root), now_secs(), 0);
    assert!(res.is_err());
    assert!(format!("{:?}", res).contains("lacks CA:true constraint"));
}

#[test]
fn root_first_bundle_verifies_up_a_distinct_chain() {
    let f = distinct_fixture();
    let doc = signed_document(&f, vec![der(&f.root), der(&f.intermediate)]);
    let d = verify_attestation_doc(&doc, &der(&f.root), now_secs(), 0).unwrap();
    assert_eq!(d.module_id, "Mock-Hypervisor-Module");
    // In the wrong order the first parent is not the leaf's issuer.
    let wrong = signed_document(&f, vec![der(&f.intermediate), der(&f.root)]);
    let e = verify_attestation_doc(&wrong, &der(&f.root), now_secs(), 0).unwrap_err();
    assert_eq!(
        e,
        AttestationError::ValidationError("Certificate issuer does not match parent subject".to_string())
    );
    // A chain that never reaches the expected root.
    let other = fixture();
    let e = verify_attestation_doc(&doc, &der(&other.root), now_secs(), 0).unwrap_err();
    assert_eq!(
        e,
        AttestationError::ValidationError("Certificate chain does not lead to a trusted root".to_string())
    );
    assert!(matches!(
        verify_attestation_doc(&[0x80], &der(&f.root), now_secs(), 0),
        Err(AttestationError::InvalidAttestationDocument(_))
    ));
}

#[test]
fn verifies_receipt_without_replay_state() {
    let f = fixture();
    let mut generator = ReceiptGenerator::new(provider(&f)).unwrap();
    let receipt = generator.generate_receipt(MODEL, INPUT, OUTPUT, NONCE).unwrap();
    let request = VerifyRequest {
        receipt: base64ct::Base64::encode_string(&receipt),
        model_hash: hex::encode(MODEL),
        input_hash: hex::encode(INPUT),
        output_hash: hex::encode(OUTPUT),
        nonce: hex::encode(NONCE),
        expected_pcr0: hex::encode([0u8; 48]),
        trusted_root_pem: pem(&f.root),
    };
    let first = veriai::wasm::verify(&request).unwrap();
    let replay = veriai::wasm::verify(&request).unwrap();
    assert!(first.valid);
    assert!(replay.valid, "WASM verification is intentionally stateless");
    assert_eq!(first.attestation_provider, "offline-nitro");
    assert!(first.verified_hardware);

    let mut bad = request.clone();
    bad.receipt = "!!".to_string();
    assert_eq!(veriai::wasm::verify(&bad).unwrap_err(), "receipt must be hex or base64");
    let mut bad = request.clone();
    bad.expected_pcr0 = hex::encode([0u8; 32]);
    assert_eq!(veriai::wasm::verify(&bad).unwrap_err(), "expected_pcr0 must be 48 bytes, got 32");
    let mut bad = request;
    bad.model_hash = "00".to_string();
    assert_eq!(veriai::wasm::verify(&bad).unwrap_err(), "model_hash must be 32 bytes, got 1");
}

#[test]
fn error_messages_match_the_display_texts() {
    assert_eq!(VerifyError::InvalidCoseSignature.message(), "Invalid COSE signature");
    assert_eq!(VerifyError::ReceiptTooLarge.message(), "Receipt exceeds the maximum accepted size");
    assert_eq!(
        VerifyError::SequenceNumberOutOfOrder.message(),
        "Sequence number is out of order (not monotonic)"
    );
    assert_eq!(
        VerifyError::InvalidAttestationDocument("bad".to_string()).message(),
        "Invalid attestation document: bad"
    );
    assert_eq!(
        AttestationError::ValidationError("x".to_string()).message(),
        "Attestation document validation failed: x"
    );
    assert_eq!(
        AttestationError::HardwareUnavailable("y".to_string()).message(),
        "NSM driver hardware unavailable: y"
    );
}

#[test]
fn refused_receipts_leave_the_sequence_state_alone() {
    let (mut generator, mut verifier) = setup(true);
    let receipt = generator.generate_receipt(MODEL, INPUT, OUTPUT, NONCE).unwrap();
    let res = verifier.verify(&receipt, [0; 32], INPUT, OUTPUT, NONCE, &[0u8; 48]).unwrap();
    assert!(!res.valid);
    assert_eq!(verifier.get_state(), Some(vec![]));
    assert!(verify(&mut verifier, &receipt).unwrap().valid);
    let state = verifier.get_state().unwrap();
    assert_eq!(state.len(), 1);
    assert_eq!(state[0].1, 0);
    // Restoring an earlier state lets the same receipt through again.
    assert_eq!(verifier.set_state(vec![]), Ok(()));
    assert!(verify(&mut verifier, &receipt).unwrap().valid);
}

#[test]
fn provider_failure_comes_before_exhaustion() {
    let f = fixture();
    let broken = MockAttestationProvider::new(der(&f.root), der(&f.intermediate), der(&f.leaf), vec![1, 2, 3]);
    let mut generator = ReceiptGenerator::with_sequence(broken, [7; 32], u64::MAX);
    let e = generator.generate_receipt(MODEL, INPUT, OUTPUT, NONCE).unwrap_err();
    assert!(matches!(e, VerifyError::Attestation(ref m) if m.starts_with("Attestation document validation failed: Failed to parse signing key: ")), "{e:?}");
}

#[test]
fn claim_time_may_lead_the_verifier_clock_within_the_skew() {
    let f = fixture();
    let p = provider(&f);
    let secret = [9u8; 32];
    let pk = ReceiptGenerator::with_key(p.clone(), secret).public_key_bytes();
    let rd = compute_report_data(&pk);
    let mut verifier = Verifier::from_pem(p.clone(), &pem(&f.root), false).unwrap();
    for (lead, valid) in [(200i64, true), (-200i64, true), (400i64, false)] {
        let t = now_secs() as i64 + lead;
        let doc = p.generate_at((t as u64) * 1000, Some(&rd[..]), Some(&NONCE[..]), Some(&pk[..])).unwrap();
        let claims = VeriClaims {
            model_hash: MODEL,
            input_hash: INPUT,
            output_hash: OUTPUT,
            client_nonce: NONCE,
            sequence_num: 0,
            attestation_report: doc,
            attestation_type: 3,
            attestation_timestamp: t,
            sdk_version: "0.1.0".to_string(),
            enclave_pubkey: pk,
        };
        let res = verify(&mut verifier, &build_receipt(&secret, &claims)).unwrap();
        assert_eq!(res.valid, valid, "lead {lead}: {:?}", res.error);
    }
}
