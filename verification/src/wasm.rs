//! The stateless verifier offered to browsers: one request carries the
//! receipt, the expected values and the trusted roots; no replay state is
//! kept between requests.

use vstd::prelude::*;
use vstd::utf8::*;
use crate::attestation::{AttestationProvider, doc_verifies_at, offline_verified, verify_attestation_doc};
use crate::crypto::{base64_decode, hex_decode, spec_base64_decode, spec_hex_decode, unix_time_now};
use crate::error::{AttestationError, AttestationErrorView, VerifyErrorView, spec_verify_message};
use crate::pem::{TextFailure, text_failure_matches};
use crate::text::{push_decimal, spec_decimal};
use crate::types::{ResultView, VerificationResult};
use crate::verify::{
    Verifier, VerifierConfig, chain_verdict, outcome_view, spec_parse_receipt, spec_verify, with_provider,
};

verus! {

/// What one browser verification needs.
#[derive(Debug, Clone)]
pub struct VerifyRequest {
    /// Hex or Base64 encoded COSE_Sign1 receipt.
    pub receipt: String,
    pub model_hash: String,
    pub input_hash: String,
    pub output_hash: String,
    pub nonce: String,
    pub expected_pcr0: String,
    /// PEM certificate(s) that the verifier trusts as roots.
    pub trusted_root_pem: String,
}

/// An attestation provider that only checks documents, offline, against
/// the trusted root with the system clock.
pub struct OfflineNitroProvider {}

impl AttestationProvider for OfflineNitroProvider {
    open spec fn spec_name(&self) -> Seq<char> {
        "offline-nitro"@
    }

    open spec fn spec_hardware(&self) -> bool {
        true
    }

    /// It never generates.
    open spec fn generated(
        &self,
        user_data: Option<Seq<u8>>,
        nonce: Option<Seq<u8>>,
        public_key: Option<Seq<u8>>,
        r: Result<Seq<u8>, AttestationErrorView>,
    ) -> bool {
        r == Err::<Seq<u8>, AttestationErrorView>(
            AttestationErrorView::HardwareUnavailable("the WASM verifier cannot generate attestations"@),
        )
    }

    open spec fn verified(&self, doc: Seq<u8>, root: Seq<u8>, r: Result<bool, AttestationErrorView>) -> bool {
        offline_verified(doc, root, r)
    }

    fn name(&self) -> (r: &'static str) {
        "offline-nitro"
    }

    fn is_hardware_backed(&self) -> (r: bool) {
        true
    }

    fn generate(
        &self,
        user_data: Option<&[u8]>,
        nonce: Option<&[u8]>,
        public_key: Option<&[u8]>,
    ) -> (r: Result<Vec<u8>, AttestationError>) {
        Err(AttestationError::HardwareUnavailable(String::from_str("the WASM verifier cannot generate attestations")))
    }

    fn verify(&self, doc: &[u8], expected_root: &[u8]) -> (r: Result<bool, AttestationError>) {
        let t = unix_time_now();
        let b = match t {
            None => false,
            Some((s, n)) => verify_attestation_doc(doc, expected_root, s, n).is_ok(),
        };
        assert(b == doc_verifies_at(doc@, expected_root@, t));
        Ok(b)
    }
}

/// A receipt given as hexadecimal or, failing that, Base64 text.
pub open spec fn spec_decode_receipt(s: Seq<char>) -> Option<Seq<u8>> {
    match spec_hex_decode(encode_utf8(s)) {
        Some(b) => Some(b),
        None => spec_base64_decode(s),
    }
}

/// Text that is hexadecimal is read as hexadecimal, whatever Base64 would
/// make of it; so the hexadecimal text of any receipt reads back as that
/// receipt.
pub proof fn lemma_hex_receipt_reads_as_hex(s: Seq<char>, receipt: Seq<u8>)
    ensures
        spec_hex_decode(encode_utf8(s)) matches Some(b) ==> spec_decode_receipt(s) == Some(b),
        spec_decode_receipt(crate::crypto::spec_hex(receipt)) == Some(receipt),
{
    crate::crypto::lemma_hex_round_trip(receipt);
}

/// Decodes a receipt given as hexadecimal or Base64 text.
pub fn decode_receipt(value: &str) -> (r: Result<Vec<u8>, String>)
    ensures
        match r {
            Ok(b) => spec_decode_receipt(value@) == Some(b@),
            Err(m) => spec_decode_receipt(value@) is None && m@ == "receipt must be hex or base64"@,
        },
{
    match hex_decode(value) {
        Ok(b) => Ok(b),
        Err(_) => match base64_decode(value) {
            Ok(b) => Ok(b),
            Err(_) => Err(String::from_str("receipt must be hex or base64")),
        },
    }
}

/// The 32 bytes that the field `name` spells in hexadecimal.
pub open spec fn spec_field_hex_32(name: Seq<char>, s: Seq<char>) -> Result<Seq<u8>, TextFailure> {
    match spec_hex_decode(encode_utf8(s)) {
        None => Err(TextFailure::Prefixed(name + " is not valid hex: "@)),
        Some(b) => if b.len() != 32 {
            Err(TextFailure::Exact(name + " must be 32 bytes, got "@ + spec_decimal(b.len())))
        } else {
            Ok(b)
        },
    }
}

/// Decodes the 32 bytes of the hexadecimal field `name`.
pub fn decode_hex_32(name: &str, value: &str) -> (r: Result<[u8; 32], String>)
    ensures
        match r {
            Ok(a) => spec_field_hex_32(name@, value@) == Ok::<Seq<u8>, TextFailure>(a@),
            Err(m) => spec_field_hex_32(name@, value@) matches Err(f) && text_failure_matches(f, m@),
        },
{
    let bytes = match hex_decode(value) {
        Err(e) => {
            let p = String::from_str(name).concat(" is not valid hex: ");
            let m = p.clone().concat(e.as_str());
            assert(m@.take(p@.len() as int) =~= p@);
            return Err(m);
        },
        Ok(b) => b,
    };
    if bytes.len() != 32 {
        let mut m = String::from_str(name).concat(" must be 32 bytes, got ");
        push_decimal(&mut m, bytes.len() as u64);
        return Err(m);
    }
    Ok(crate::claims::to_array32(bytes.as_slice()))
}

/// The expected PCR0: 48 bytes in hexadecimal.
pub open spec fn spec_expected_pcr0(s: Seq<char>) -> Result<Seq<u8>, TextFailure> {
    match spec_hex_decode(encode_utf8(s)) {
        None => Err(TextFailure::Prefixed("expected_pcr0 is not valid hex: "@)),
        Some(b) => if b.len() != 48 {
            Err(TextFailure::Exact("expected_pcr0 must be 48 bytes, got "@ + spec_decimal(b.len())))
        } else {
            Ok(b)
        },
    }
}

fn decode_expected_pcr0(value: &str) -> (r: Result<Vec<u8>, String>)
    ensures
        match r {
            Ok(b) => spec_expected_pcr0(value@) == Ok::<Seq<u8>, TextFailure>(b@),
            Err(m) => spec_expected_pcr0(value@) matches Err(f) && text_failure_matches(f, m@),
        },
{
    let bytes = match hex_decode(value) {
        Err(e) => {
            let m = String::from_str("expected_pcr0 is not valid hex: ").concat(e.as_str());
            assert(m@.take("expected_pcr0 is not valid hex: "@.len() as int) =~= "expected_pcr0 is not valid hex: "@);
            return Err(m);
        },
        Ok(b) => b,
    };
    if bytes.len() != 48 {
        let mut m = String::from_str("expected_pcr0 must be 48 bytes, got ");
        push_decimal(&mut m, bytes.len() as u64);
        return Err(m);
    }
    Ok(bytes)
}

/// The first input of a request that does not decode, in the order
/// receipt, model hash, input hash, output hash, nonce, expected PCR0 and
/// trusted roots; `None` when every input decodes.
pub open spec fn spec_request_error(request: VerifyRequest) -> Option<TextFailure> {
    if spec_decode_receipt(request.receipt@) is None {
        Some(TextFailure::Exact("receipt must be hex or base64"@))
    } else if spec_field_hex_32("model_hash"@, request.model_hash@) is Err {
        Some(spec_field_hex_32("model_hash"@, request.model_hash@)->Err_0)
    } else if spec_field_hex_32("input_hash"@, request.input_hash@) is Err {
        Some(spec_field_hex_32("input_hash"@, request.input_hash@)->Err_0)
    } else if spec_field_hex_32("output_hash"@, request.output_hash@) is Err {
        Some(spec_field_hex_32("output_hash"@, request.output_hash@)->Err_0)
    } else if spec_field_hex_32("nonce"@, request.nonce@) is Err {
        Some(spec_field_hex_32("nonce"@, request.nonce@)->Err_0)
    } else if spec_expected_pcr0(request.expected_pcr0@) is Err {
        Some(spec_expected_pcr0(request.expected_pcr0@)->Err_0)
    } else if spec_request_roots(request) is Err {
        Some(spec_request_roots(request)->Err_0)
    } else {
        None
    }
}

/// The trusted roots that the request's PEM text holds.
pub open spec fn spec_request_roots(request: VerifyRequest) -> Result<Seq<Seq<u8>>, TextFailure> {
    crate::pem::spec_pem_certs(crate::pem::spec_lines(request.trusted_root_pem@), Seq::empty(), Seq::empty(), false)
}

/// The verdict of the service verifier, with the default limits and no
/// replay state, on a request whose inputs decode, for a chain verdict and
/// a clock reading.
pub open spec fn spec_request_verdict(request: VerifyRequest, chain_ok: bool, now: Option<u64>) -> Result<
    ResultView,
    VerifyErrorView,
> {
    spec_verify(
        VerifierConfig { max_receipt_size: 65536, max_clock_skew: 300, max_receipt_age: 300 },
        spec_decode_receipt(request.receipt@)->Some_0,
        spec_field_hex_32("model_hash"@, request.model_hash@)->Ok_0,
        spec_field_hex_32("input_hash"@, request.input_hash@)->Ok_0,
        spec_field_hex_32("output_hash"@, request.output_hash@)->Ok_0,
        spec_field_hex_32("nonce"@, request.nonce@)->Ok_0,
        spec_expected_pcr0(request.expected_pcr0@)->Ok_0,
        chain_ok,
        now,
        None,
    ).0
}

/// Verifies one receipt without keeping replay state: the inputs are
/// decoded in order (the first that fails is the error), the roots are read
/// from the PEM text, and the verdict is the service verifier's with the
/// default limits, reported by the offline provider, for the chain verdict
/// that the offline checks gave and the clock reading.  The caller must
/// ensure that nonces are not reused.
pub fn verify(request: &VerifyRequest) -> (r: Result<VerificationResult, String>)
    ensures
        spec_request_error(*request) matches Some(f) ==> (r matches Err(m) && text_failure_matches(f, m@)),
        spec_request_error(*request) is None ==> exists|chain_ok: bool, now: Option<u64>|
            {
                let v = with_provider(#[trigger] spec_request_verdict(*request, chain_ok, now), "offline-nitro"@, true);
                &&& match v {
                    Ok(res) => (r matches Ok(x) && x@ == res),
                    Err(e) => (r matches Err(m) && m@ == spec_verify_message(e)),
                }
                &&& (spec_parse_receipt(
                    VerifierConfig { max_receipt_size: 65536, max_clock_skew: 300, max_receipt_age: 300 },
                    spec_decode_receipt(request.receipt@)->Some_0,
                    48,
                ) matches Ok(p) ==> chain_verdict(
                    OfflineNitroProvider {},
                    spec_request_roots(*request)->Ok_0,
                    p.claims.attestation_report,
                    chain_ok,
                ))
            },
{
    let receipt = match decode_receipt(request.receipt.as_str()) {
        Err(m) => return Err(m),
        Ok(b) => b,
    };
    let model_hash = match decode_hex_32("model_hash", request.model_hash.as_str()) {
        Err(m) => return Err(m),
        Ok(b) => b,
    };
    let input_hash = match decode_hex_32("input_hash", request.input_hash.as_str()) {
        Err(m) => return Err(m),
        Ok(b) => b,
    };
    let output_hash = match decode_hex_32("output_hash", request.output_hash.as_str()) {
        Err(m) => return Err(m),
        Ok(b) => b,
    };
    let nonce = match decode_hex_32("nonce", request.nonce.as_str()) {
        Err(m) => return Err(m),
        Ok(b) => b,
    };
    let expected_pcr0 = match decode_expected_pcr0(request.expected_pcr0.as_str()) {
        Err(m) => return Err(m),
        Ok(b) => b,
    };
    let mut verifier = match Verifier::from_pem(OfflineNitroProvider {}, request.trusted_root_pem.as_str(), false) {
        Err(m) => return Err(m),
        Ok(v) => v,
    };
    let ghost cfg = verifier.config_view();
    let ghost roots = verifier.roots_view();
    let out = verifier.verify(
        receipt.as_slice(),
        model_hash,
        input_hash,
        output_hash,
        nonce,
        expected_pcr0.as_slice(),
    );
    let r = match out {
        Ok(res) => Ok(res),
        Err(e) => Err(e.message()),
    };
    proof {
        let w = choose|c: bool, t: Option<u64>|
            {
                let v = #[trigger] spec_verify(
                    cfg,
                    receipt@,
                    model_hash@,
                    input_hash@,
                    output_hash@,
                    nonce@,
                    expected_pcr0@,
                    c,
                    t,
                    None,
                );
                &&& outcome_view(out) == with_provider(v.0, "offline-nitro"@, true)
                &&& (spec_parse_receipt(cfg, receipt@, expected_pcr0@.len()) matches Ok(p)
                    ==> chain_verdict(OfflineNitroProvider {}, roots, p.claims.attestation_report, c))
            };
        assert(cfg == (VerifierConfig { max_receipt_size: 65536, max_clock_skew: 300, max_receipt_age: 300 }));
        assert(spec_request_verdict(*request, w.0, w.1) == spec_verify(
            cfg,
            receipt@,
            model_hash@,
            input_hash@,
            output_hash@,
            nonce@,
            expected_pcr0@,
            w.0,
            w.1,
            None,
        ).0);
    }
    r
}

} // verus!
