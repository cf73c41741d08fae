//! Attestation providers: the interface through which receipts obtain and
//! check hardware attestation documents.

use vstd::prelude::*;
use aws_nitro_enclaves_nsm_api::api::{Request, Response};
use crate::cose::{
    ALG_ES384, CoseAlg, CoseSign1, decode_sign1, sig_structure, spec_decode_sign1,
    spec_sig_structure,
};
use crate::crypto::{
    p384_der_sig_check, p384_key_check, p384_raw_sig_check, p384_verify_der, p384_verify_raw,
    spec_p384_der_sig_ok, spec_p384_key_ok, spec_p384_raw_sig_ok, spec_p384_verify_der,
    spec_p384_verify_raw,
};
use crate::doc::{decode_doc, doc_lengths_fit, encode_doc, lemma_doc_roundtrip, spec_decode_doc, spec_encode_doc};
use crate::cose::{
    CoseHeader, LabelView, empty_header, lemma_decode_sign1_enc, spec_header_entries, spec_header_value,
    spec_protected_header,
};
use crate::cbor::{push_head, push_int, spec_encode_head, spec_encode_int};
use crate::cose::{encode_sign1, spec_encode_sign1};
use crate::crypto::{p384_sign, spec_p384_public, spec_p384_sign, spec_p384_signing_key_ok, unix_time_now};
use crate::error::{AttestationError, AttestationErrorView};
use crate::text::bytes_eq;
use crate::types::{AttestationDoc, DocModel};
use crate::x509::{
    CertExtension, CertInfo, CertView, ExtView, decode_basic_constraints, decode_key_usage,
    exts_view, read_certificate, spec_basic_constraints, spec_key_usage, spec_read_certificate,
};

verus! {

/// A source and verifier of attestation documents.  Each provider says,
/// through its spec methods, what its name and hardware flag are and which
/// outcomes of `generate` and `verify` it may give.
pub trait AttestationProvider {
    /// The provider's name.
    spec fn spec_name(&self) -> Seq<char>;

    /// Whether the provider's verdicts come from real hardware.
    spec fn spec_hardware(&self) -> bool;

    /// `r` is an outcome that `generate` may give for these arguments.
    spec fn generated(
        &self,
        user_data: Option<Seq<u8>>,
        nonce: Option<Seq<u8>>,
        public_key: Option<Seq<u8>>,
        r: Result<Seq<u8>, AttestationErrorView>,
    ) -> bool;

    /// `r` is an outcome that `verify` may give for this document and root.
    spec fn verified(&self, doc: Seq<u8>, root: Seq<u8>, r: Result<bool, AttestationErrorView>) -> bool;

    /// Stable provider name included in verification results.
    fn name(&self) -> (r: &'static str)
        ensures
            r@ == self.spec_name(),
    ;

    /// Whether successful verification represents real hardware attestation.
    fn is_hardware_backed(&self) -> (r: bool)
        ensures
            r == self.spec_hardware(),
    ;

    /// An attestation document enclosing the given user data, nonce and
    /// public key.
    fn generate(
        &self,
        user_data: Option<&[u8]>,
        nonce: Option<&[u8]>,
        public_key: Option<&[u8]>,
    ) -> (r: Result<Vec<u8>, AttestationError>)
        ensures
            self.generated(opt_seq(user_data), opt_seq(nonce), opt_seq(public_key), doc_result_view(r)),
    ;

    /// Whether the document's signature verifies and its certificate chain
    /// leads to `expected_root`.
    fn verify(&self, doc: &[u8], expected_root: &[u8]) -> (r: Result<bool, AttestationError>)
        ensures
            self.verified(doc@, expected_root@, verdict_view(r)),
    ;
}

/// A document outcome as values.
pub open spec fn doc_result_view(r: Result<Vec<u8>, AttestationError>) -> Result<Seq<u8>, AttestationErrorView> {
    match r {
        Ok(b) => Ok(b@),
        Err(e) => Err(e@),
    }
}

/// A verdict outcome as values.
pub open spec fn verdict_view(r: Result<bool, AttestationError>) -> Result<bool, AttestationErrorView> {
    match r {
        Ok(b) => Ok(b),
        Err(e) => Err(e@),
    }
}

} // verus!

verus! {

/// How a check failed: with exactly this error, or with an invalid-document
/// error whose text is this prefix followed by the outside crate's own
/// description of the failure.
pub enum Failure {
    Exact(AttestationErrorView),
    Prefixed(Seq<char>),
}

/// The error `e` is one that the failure `f` describes.
pub open spec fn failure_matches(f: Failure, e: AttestationErrorView) -> bool {
    match f {
        Failure::Exact(x) => e == x,
        Failure::Prefixed(p) => e matches AttestationErrorView::InvalidAttestationDocument(s)
            && p.len() <= s.len() && s.take(p.len() as int) == p,
    }
}

pub open spec fn invalid_doc(m: Seq<char>) -> Failure {
    Failure::Exact(AttestationErrorView::InvalidAttestationDocument(m))
}

pub open spec fn invalid_cert(m: Seq<char>) -> AttestationErrorView {
    AttestationErrorView::ValidationError(m)
}

fn prefixed(prefix: &str, detail: String) -> (r: AttestationError)
    ensures
        failure_matches(Failure::Prefixed(prefix@), r@),
{
    let s = String::from_str(prefix).concat(detail.as_str());
    assert(s@.take(prefix@.len() as int) =~= prefix@);
    AttestationError::InvalidAttestationDocument(s)
}

/// Content octets of the basicConstraints identifier, 2.5.29.19.
pub open spec fn oid_basic_constraints() -> Seq<u8> {
    seq![0x55u8, 0x1du8, 0x13u8]
}

/// Content octets of the keyUsage identifier, 2.5.29.15.
pub open spec fn oid_key_usage() -> Seq<u8> {
    seq![0x55u8, 0x1du8, 0x0fu8]
}

/// The basicConstraints and keyUsage that the extensions carry (the last
/// of each wins); an undecodable one, or an unknown critical extension, is
/// an error.
pub open spec fn spec_scan_extensions(
    e: Seq<ExtView>,
    bc: Option<(bool, Option<u8>)>,
    ku: Option<(bool, bool)>,
) -> Result<(Option<(bool, Option<u8>)>, Option<(bool, bool)>), AttestationErrorView>
    decreases e.len(),
{
    if e.len() == 0 {
        Ok((bc, ku))
    } else if e[0].oid == oid_basic_constraints() {
        match spec_basic_constraints(e[0].value) {
            None => Err(invalid_cert("Invalid basicConstraints extension"@)),
            Some(b) => spec_scan_extensions(e.drop_first(), Some(b), ku),
        }
    } else if e[0].oid == oid_key_usage() {
        match spec_key_usage(e[0].value) {
            None => Err(invalid_cert("Invalid keyUsage extension"@)),
            Some(k) => spec_scan_extensions(e.drop_first(), bc, Some(k)),
        }
    } else if e[0].critical {
        Err(invalid_cert("Certificate has an unsupported critical extension"@))
    } else {
        spec_scan_extensions(e.drop_first(), bc, ku)
    }
}

/// A certificate of the chain is acceptable at the time `now_secs` seconds
/// and `now_nanos` nanoseconds after the epoch: inside its validity period,
/// with no unknown critical extension; a leaf not a CA and, with a
/// keyUsage, allowed digitalSignature; an issuer a CA, allowed keyCertSign
/// where it has a keyUsage, with no more subordinate CAs below it than its
/// path length limit.
pub open spec fn spec_validate_cert(
    c: CertView,
    is_leaf: bool,
    subordinate_ca_count: nat,
    now_secs: u64,
    now_nanos: u32,
) -> Result<(), AttestationErrorView> {
    if now_secs < c.not_before || now_secs > c.not_after || (now_secs == c.not_after && now_nanos
        > 0) {
        Err(invalid_cert("Certificate is outside its validity period"@))
    } else {
        match spec_scan_extensions(c.extensions, None, None) {
            Err(e) => Err(e),
            Ok((bc, ku)) => if is_leaf {
                if bc matches Some(b) && b.0 {
                    Err(invalid_cert("Attestation leaf certificate must not be a CA"@))
                } else if ku matches Some(k) && !k.0 {
                    Err(invalid_cert("Attestation leaf keyUsage lacks digitalSignature"@))
                } else {
                    Ok(())
                }
            } else {
                match bc {
                    None => Err(invalid_cert("Non-leaf certificate lacks CA:true constraint"@)),
                    Some(b) => if !b.0 {
                        Err(invalid_cert("Non-leaf certificate lacks CA:true constraint"@))
                    } else if ku matches Some(k) && !k.1 {
                        Err(invalid_cert("CA certificate keyUsage lacks keyCertSign"@))
                    } else if b.1 matches Some(l) && subordinate_ca_count > l {
                        Err(invalid_cert("CA certificate pathLenConstraint exceeded"@))
                    } else {
                        Ok(())
                    },
                }
            },
        }
    }
}

/// Checks a certificate's validity period and constraints.
pub fn validate_cert(
    cert: &CertInfo,
    is_leaf: bool,
    subordinate_ca_count: usize,
    now_secs: u64,
    now_nanos: u32,
) -> (r: Result<(), AttestationError>)
    ensures
        match r {
            Ok(()) => spec_validate_cert(cert@, is_leaf, subordinate_ca_count as nat, now_secs, now_nanos) == Ok::<(), AttestationErrorView>(()),
            Err(e) => spec_validate_cert(cert@, is_leaf, subordinate_ca_count as nat, now_secs, now_nanos) == Err::<(), AttestationErrorView>(e@),
        },
{
    if now_secs < cert.not_before || now_secs > cert.not_after || (now_secs == cert.not_after
        && now_nanos > 0) {
        return Err(AttestationError::ValidationError(String::from_str("Certificate is outside its validity period")));
    }
    let ghost e = exts_view(cert.extensions@);
    let mut bc: Option<(bool, Option<u8>)> = None;
    let mut ku: Option<(bool, bool)> = None;
    let mut i: usize = 0;
    assert(e.skip(0) =~= e);
    while i < cert.extensions.len()
        invariant
            i <= cert.extensions@.len(),
            e == exts_view(cert.extensions@),
            !(now_secs < cert.not_before || now_secs > cert.not_after || (now_secs
                == cert.not_after && now_nanos > 0)),
            spec_scan_extensions(e, None, None) == spec_scan_extensions(e.skip(i as int), bc, ku),
        decreases cert.extensions.len() - i,
    {
        let x = &cert.extensions[i];
        assert(e.skip(i as int)[0] == x@);
        assert(e.skip(i as int).drop_first() =~= e.skip(i + 1));
        let oid = x.oid.as_slice();
        if oid.len() == 3 && oid[0] == 0x55 && oid[1] == 0x1d && oid[2] == 0x13 {
            assert(x@.oid =~= oid_basic_constraints());
            match decode_basic_constraints(x.value.as_slice()) {
                None => return Err(AttestationError::ValidationError(String::from_str("Invalid basicConstraints extension"))),
                Some(b) => {
                    bc = Some(b);
                },
            }
        } else if oid.len() == 3 && oid[0] == 0x55 && oid[1] == 0x1d && oid[2] == 0x0f {
            assert(x@.oid =~= oid_key_usage());
            assert(x@.oid != oid_basic_constraints());
            match decode_key_usage(x.value.as_slice()) {
                None => return Err(AttestationError::ValidationError(String::from_str("Invalid keyUsage extension"))),
                Some(k) => {
                    ku = Some(k);
                },
            }
        } else {
            assert(x@.oid != oid_basic_constraints());
            assert(x@.oid != oid_key_usage());
            if x.critical {
                return Err(AttestationError::ValidationError(String::from_str("Certificate has an unsupported critical extension")));
            }
        }
        i = i + 1;
    }
    assert(e.skip(i as int) =~= Seq::<ExtView>::empty());
    if is_leaf {
        match bc {
            Some(b) => {
                if b.0 {
                    return Err(AttestationError::ValidationError(String::from_str("Attestation leaf certificate must not be a CA")));
                }
            },
            None => {},
        }
        match ku {
            Some(k) => {
                if !k.0 {
                    return Err(AttestationError::ValidationError(String::from_str("Attestation leaf keyUsage lacks digitalSignature")));
                }
            },
            None => {},
        }
        Ok(())
    } else {
        let b = match bc {
            None => return Err(AttestationError::ValidationError(String::from_str("Non-leaf certificate lacks CA:true constraint"))),
            Some(b) => b,
        };
        if !b.0 {
            return Err(AttestationError::ValidationError(String::from_str("Non-leaf certificate lacks CA:true constraint")));
        }
        match ku {
            Some(k) => {
                if !k.1 {
                    return Err(AttestationError::ValidationError(String::from_str("CA certificate keyUsage lacks keyCertSign")));
                }
            },
            None => {},
        }
        match b.1 {
            Some(l) => {
                if subordinate_ca_count > l as usize {
                    return Err(AttestationError::ValidationError(String::from_str("CA certificate pathLenConstraint exceeded")));
                }
            },
            None => {},
        }
        Ok(())
    }
}

} // verus!

verus! {

pub open spec fn msg_bad_cose() -> Seq<char> {
    "Malformed COSE_Sign1 message"@
}

pub open spec fn msg_bad_doc() -> Seq<char> {
    "Malformed attestation document"@
}

/// One step of the walk up the chain from `current` to the CA certificate
/// `der`, the `k`-th above the leaf's issuer: the certificate must be an
/// acceptable CA whose subject is the current issuer and whose key
/// verifies the current signature.  `None` when it is the trusted root,
/// else the certificate to continue from.
pub open spec fn spec_chain_step(
    current: CertView,
    der: Seq<u8>,
    k: nat,
    root: Seq<u8>,
    now_secs: u64,
    now_nanos: u32,
) -> Result<Option<CertView>, Failure> {
    match spec_read_certificate(der) {
        None => Err(Failure::Prefixed("Invalid parent cert: "@)),
        Some(parent) => match spec_validate_cert(parent, false, k, now_secs, now_nanos) {
            Err(e) => Err(Failure::Exact(e)),
            Ok(()) => if current.issuer != parent.subject {
                Err(Failure::Exact(invalid_cert("Certificate issuer does not match parent subject"@)))
            } else if !spec_p384_key_ok(parent.public_key) {
                Err(Failure::Prefixed("Invalid parent public key: "@))
            } else if !spec_p384_der_sig_ok(current.signature) {
                Err(Failure::Prefixed("Invalid signature DER: "@))
            } else if !spec_p384_verify_der(parent.public_key, current.tbs, current.signature) {
                Err(Failure::Prefixed("Chain signature validation failed: "@))
            } else if parent.der == root {
                Ok(None)
            } else {
                Ok(Some(parent))
            },
        },
    }
}

/// Walks the CA bundle from its last certificate to its first (the bundle
/// lists the root first), starting from `current`.  The walk succeeds on
/// reaching a certificate equal to `root`, or when the certificate it ends
/// on is `root`.
pub open spec fn spec_walk_chain(
    bundle: Seq<Seq<u8>>,
    k: nat,
    current: CertView,
    root: Seq<u8>,
    now_secs: u64,
    now_nanos: u32,
) -> Result<bool, Failure>
    decreases bundle.len() - k,
{
    if k >= bundle.len() {
        Ok(current.der == root)
    } else {
        match spec_chain_step(current, bundle[bundle.len() - 1 - k], k, root, now_secs, now_nanos) {
            Err(f) => Err(f),
            Ok(None) => Ok(true),
            Ok(Some(parent)) => spec_walk_chain(bundle, k + 1, parent, root, now_secs, now_nanos),
        }
    }
}

/// The COSE envelope of an attestation document: ES384 in the protected
/// header, and nothing else anywhere.
pub open spec fn spec_attestation_envelope_error(m: crate::cose::Sign1View) -> Option<Failure> {
    if m.protected.alg != Some(CoseAlg::Int(ALG_ES384)) {
        Some(invalid_doc("Attestation COSE protected header must declare ES384"@))
    } else if m.unprotected.alg is Some {
        Some(invalid_doc("Attestation COSE algorithm must not be in the unprotected header"@))
    } else if m.protected.crit > 0 || m.unprotected.len > 0 {
        Some(invalid_doc("Attestation COSE has unsupported critical or unprotected headers"@))
    } else {
        None
    }
}

/// The document that a COSE-signed attestation document carries, when its
/// envelope, its signature by the leaf certificate, and a certificate chain
/// from the leaf to `root` are all acceptable at the given time.
pub open spec fn spec_verify_attestation_doc(
    doc_bytes: Seq<u8>,
    root: Seq<u8>,
    now_secs: u64,
    now_nanos: u32,
) -> Result<DocModel, Failure> {
    match spec_decode_sign1(doc_bytes) {
        None => Err(invalid_doc(msg_bad_cose())),
        Some(m) => match spec_attestation_envelope_error(m) {
            Some(f) => Err(f),
            None => match m.payload {
                None => Err(invalid_doc("Missing payload"@)),
                Some(payload) => match spec_decode_doc(payload) {
                    Err(_) => Err(invalid_doc(msg_bad_doc())),
                    Ok(d) => match spec_read_certificate(d.certificate) {
                        None => Err(Failure::Prefixed("Failed to parse leaf certificate: "@)),
                        Some(leaf) => match spec_validate_cert(leaf, true, 0, now_secs, now_nanos) {
                            Err(e) => Err(Failure::Exact(e)),
                            Ok(()) => if !spec_p384_key_ok(leaf.public_key) {
                                Err(Failure::Prefixed("Invalid public key: "@))
                            } else if !spec_p384_raw_sig_ok(m.signature) {
                                Err(Failure::Prefixed("Invalid signature bytes: "@))
                            } else if !spec_p384_verify_raw(
                                leaf.public_key,
                                spec_sig_structure(m.protected_bytes, payload),
                                m.signature,
                            ) {
                                Err(Failure::Prefixed("Signature validation failed: "@))
                            } else {
                                match spec_walk_chain(d.cabundle, 0, leaf, root, now_secs, now_nanos) {
                                    Err(f) => Err(f),
                                    Ok(false) => Err(Failure::Exact(invalid_cert("Certificate chain does not lead to a trusted root"@))),
                                    Ok(true) => Ok(d),
                                }
                            },
                        },
                    },
                },
            },
        },
    }
}

fn chain_step(
    current: &CertInfo,
    der: &[u8],
    k: usize,
    root: &[u8],
    now_secs: u64,
    now_nanos: u32,
) -> (r: Result<Option<CertInfo>, AttestationError>)
    ensures
        match r {
            Ok(None) => spec_chain_step(current@, der@, k as nat, root@, now_secs, now_nanos) == Ok::<Option<CertView>, Failure>(None),
            Ok(Some(p)) => spec_chain_step(current@, der@, k as nat, root@, now_secs, now_nanos) == Ok::<Option<CertView>, Failure>(Some(p@)),
            Err(e) => spec_chain_step(current@, der@, k as nat, root@, now_secs, now_nanos) matches Err(f) && failure_matches(f, e@),
        },
{
    let parent = match read_certificate(der) {
        Err(e) => return Err(prefixed("Invalid parent cert: ", e)),
        Ok(c) => c,
    };
    match validate_cert(&parent, false, k, now_secs, now_nanos) {
        Err(e) => return Err(e),
        Ok(()) => {},
    }
    if !bytes_eq(current.issuer.as_slice(), parent.subject.as_slice()) {
        return Err(AttestationError::ValidationError(String::from_str("Certificate issuer does not match parent subject")));
    }
    match p384_key_check(parent.public_key.as_slice()) {
        Err(e) => return Err(prefixed("Invalid parent public key: ", e)),
        Ok(()) => {},
    }
    match p384_der_sig_check(current.signature.as_slice()) {
        Err(e) => return Err(prefixed("Invalid signature DER: ", e)),
        Ok(()) => {},
    }
    match p384_verify_der(parent.public_key.as_slice(), current.tbs.as_slice(), current.signature.as_slice()) {
        Err(e) => return Err(prefixed("Chain signature validation failed: ", e)),
        Ok(()) => {},
    }
    if bytes_eq(parent.der.as_slice(), root) {
        Ok(None)
    } else {
        Ok(Some(parent))
    }
}

#[verifier::loop_isolation(false)]
fn walk_chain(
    bundle: &Vec<Vec<u8>>,
    leaf: CertInfo,
    root: &[u8],
    now_secs: u64,
    now_nanos: u32,
) -> (r: Result<bool, AttestationError>)
    ensures
        match r {
            Ok(b) => spec_walk_chain(crate::types::bundle_view(bundle@), 0, leaf@, root@, now_secs, now_nanos) == Ok::<bool, Failure>(b),
            Err(e) => spec_walk_chain(crate::types::bundle_view(bundle@), 0, leaf@, root@, now_secs, now_nanos) matches Err(f) && failure_matches(f, e@),
        },
{
    let ghost b = crate::types::bundle_view(bundle@);
    let ghost start = spec_walk_chain(b, 0, leaf@, root@, now_secs, now_nanos);
    let n = bundle.len();
    let mut current = leaf;
    let mut k: usize = 0;
    while k < n
        invariant
            n == bundle@.len(),
            b == crate::types::bundle_view(bundle@),
            k <= n,
            start == spec_walk_chain(b, k as nat, current@, root@, now_secs, now_nanos),
        decreases n - k,
    {
        let der = &bundle[n - 1 - k];
        assert(b[b.len() - 1 - k] == der@);
        match chain_step(&current, der.as_slice(), k, root, now_secs, now_nanos) {
            Err(e) => return Err(e),
            Ok(None) => return Ok(true),
            Ok(Some(parent)) => {
                current = parent;
            },
        }
        k = k + 1;
    }
    Ok(bytes_eq(current.der.as_slice(), root))
}

fn envelope_error(m: &CoseSign1) -> (r: Option<AttestationError>)
    ensures
        match r {
            Some(e) => spec_attestation_envelope_error(m@) matches Some(f) && failure_matches(f, e@),
            None => spec_attestation_envelope_error(m@) is None,
        },
{
    let es384 = match m.protected.alg {
        Some(CoseAlg::Int(i)) => i == ALG_ES384,
        _ => false,
    };
    if !es384 {
        Some(AttestationError::InvalidAttestationDocument(String::from_str("Attestation COSE protected header must declare ES384")))
    } else if m.unprotected.alg.is_some() {
        Some(AttestationError::InvalidAttestationDocument(String::from_str("Attestation COSE algorithm must not be in the unprotected header")))
    } else if m.protected.crit > 0 || m.unprotected.len > 0 {
        Some(AttestationError::InvalidAttestationDocument(String::from_str("Attestation COSE has unsupported critical or unprotected headers")))
    } else {
        None
    }
}

/// Checks the leaf's ES384 signature over the COSE envelope.
fn check_leaf_signature(leaf: &CertInfo, m: &CoseSign1, payload: &[u8]) -> (r: Result<(), AttestationError>)
    ensures
        match r {
            Ok(()) => spec_p384_key_ok(leaf@.public_key) && spec_p384_raw_sig_ok(m@.signature)
                && spec_p384_verify_raw(leaf@.public_key, spec_sig_structure(m@.protected_bytes, payload@), m@.signature),
            Err(e) => if !spec_p384_key_ok(leaf@.public_key) {
                failure_matches(Failure::Prefixed("Invalid public key: "@), e@)
            } else if !spec_p384_raw_sig_ok(m@.signature) {
                failure_matches(Failure::Prefixed("Invalid signature bytes: "@), e@)
            } else {
                !spec_p384_verify_raw(leaf@.public_key, spec_sig_structure(m@.protected_bytes, payload@), m@.signature)
                    && failure_matches(Failure::Prefixed("Signature validation failed: "@), e@)
            },
        },
{
    match p384_key_check(leaf.public_key.as_slice()) {
        Err(e) => return Err(prefixed("Invalid public key: ", e)),
        Ok(()) => {},
    }
    match p384_raw_sig_check(m.signature.as_slice()) {
        Err(e) => return Err(prefixed("Invalid signature bytes: ", e)),
        Ok(()) => {},
    }
    let tbs = sig_structure(m.protected_bytes.as_slice(), payload);
    match p384_verify_raw(leaf.public_key.as_slice(), tbs.as_slice(), m.signature.as_slice()) {
        Err(e) => Err(prefixed("Signature validation failed: ", e)),
        Ok(()) => Ok(()),
    }
}

/// Verifies a COSE-signed attestation document at the time `now_secs`
/// seconds and `now_nanos` nanoseconds after the epoch, against the
/// DER-encoded trusted root, and returns the document.
pub fn verify_attestation_doc(
    doc_bytes: &[u8],
    expected_root: &[u8],
    now_secs: u64,
    now_nanos: u32,
) -> (r: Result<AttestationDoc, AttestationError>)
    ensures
        match r {
            Ok(d) => spec_verify_attestation_doc(doc_bytes@, expected_root@, now_secs, now_nanos) == Ok::<DocModel, Failure>(d@),
            Err(e) => spec_verify_attestation_doc(doc_bytes@, expected_root@, now_secs, now_nanos) matches Err(f) && failure_matches(f, e@),
        },
{
    let m = match decode_sign1(doc_bytes) {
        None => return Err(AttestationError::InvalidAttestationDocument(String::from_str("Malformed COSE_Sign1 message"))),
        Some(m) => m,
    };
    match envelope_error(&m) {
        Some(e) => return Err(e),
        None => {},
    }
    let payload = match &m.payload {
        None => return Err(AttestationError::InvalidAttestationDocument(String::from_str("Missing payload"))),
        Some(p) => p,
    };
    let doc = match decode_doc(payload.as_slice()) {
        Err(_) => return Err(AttestationError::InvalidAttestationDocument(String::from_str("Malformed attestation document"))),
        Ok(d) => d,
    };
    let leaf = match read_certificate(doc.certificate.as_slice()) {
        Err(e) => return Err(prefixed("Failed to parse leaf certificate: ", e)),
        Ok(c) => c,
    };
    match validate_cert(&leaf, true, 0, now_secs, now_nanos) {
        Err(e) => return Err(e),
        Ok(()) => {},
    }
    match check_leaf_signature(&leaf, &m, payload.as_slice()) {
        Err(e) => return Err(e),
        Ok(()) => {},
    }
    match walk_chain(&doc.cabundle, leaf, expected_root, now_secs, now_nanos) {
        Err(e) => Err(e),
        Ok(false) => Err(AttestationError::ValidationError(String::from_str("Certificate chain does not lead to a trusted root"))),
        Ok(true) => Ok(doc),
    }
}

} // verus!

verus! {

/// The protected header of a mock attestation document: `{1: -35 (ES384)}`.
pub open spec fn spec_es384_protected() -> Seq<u8> {
    spec_encode_head(5, 1) + spec_encode_int(1) + spec_encode_int(-35)
}

fn es384_protected_header() -> (r: Vec<u8>)
    ensures
        r@ == spec_es384_protected(),
{
    let mut out: Vec<u8> = Vec::new();
    push_head(&mut out, 5, 1);
    push_int(&mut out, 1);
    push_int(&mut out, -35);
    assert(out@ =~= spec_es384_protected());
    out
}

/// 48 zero bytes: the PCR values of the mock enclave.
pub open spec fn zero_pcr() -> Seq<u8> {
    Seq::new(48, |i: int| 0u8)
}

fn zero_pcr_vec() -> (r: Vec<u8>)
    ensures
        r@ == zero_pcr(),
{
    let mut v: Vec<u8> = Vec::new();
    while v.len() < 48
        invariant
            v.len() <= 48,
            forall|i: int| 0 <= i < v.len() ==> v@[i] == 0u8,
        decreases 48 - v.len(),
    {
        v.push(0u8);
    }
    assert(v@ =~= zero_pcr());
    v
}

pub open spec fn opt_seq(o: Option<&[u8]>) -> Option<Seq<u8>> {
    match o {
        Some(b) => Some(b@),
        None => None,
    }
}

/// A software stand-in for the Nitro hypervisor: it issues documents
/// signed by a fixed leaf key under a fixed three-certificate chain, and
/// checks documents by walking their CA bundle from the last certificate
/// to the first.
#[derive(Clone)]
pub struct MockAttestationProvider {
    root: Vec<u8>,
    intermediate: Vec<u8>,
    leaf: Vec<u8>,
    leaf_key: Vec<u8>,
}

impl MockAttestationProvider {
    pub closed spec fn root_view(&self) -> Seq<u8> {
        self.root@
    }

    pub closed spec fn intermediate_view(&self) -> Seq<u8> {
        self.intermediate@
    }

    pub closed spec fn leaf_view(&self) -> Seq<u8> {
        self.leaf@
    }

    pub closed spec fn leaf_key_view(&self) -> Seq<u8> {
        self.leaf_key@
    }

    /// A provider with the DER root, intermediate and leaf certificates and
    /// the PKCS#8 DER private key of the leaf.
    pub fn new(root_der: Vec<u8>, intermediate_der: Vec<u8>, leaf_der: Vec<u8>, leaf_key_der: Vec<u8>) -> (p: Self)
        ensures
            p.root_view() == root_der@,
            p.intermediate_view() == intermediate_der@,
            p.leaf_view() == leaf_der@,
            p.leaf_key_view() == leaf_key_der@,
    {
        MockAttestationProvider {
            root: root_der,
            intermediate: intermediate_der,
            leaf: leaf_der,
            leaf_key: leaf_key_der,
        }
    }

    /// The document that the mock hypervisor attests at `now_ms`
    /// milliseconds after the epoch.
    pub open spec fn spec_document(
        &self,
        now_ms: u64,
        user_data: Option<Seq<u8>>,
        nonce: Option<Seq<u8>>,
        public_key: Option<Seq<u8>>,
    ) -> DocModel {
        DocModel {
            module_id: "Mock-Hypervisor-Module"@,
            timestamp: now_ms,
            digest: "SHA384"@,
            pcrs: seq![(0u32, zero_pcr()), (3u32, zero_pcr()), (4u32, zero_pcr())],
            certificate: self.leaf_view(),
            cabundle: seq![self.root_view(), self.intermediate_view()],
            public_key,
            user_data,
            nonce,
        }
    }

    /// The signed attestation document: the document under an ES384
    /// protected header, signed with the leaf key.
    pub open spec fn spec_signed_document(&self, d: DocModel) -> Seq<u8> {
        let payload = spec_encode_doc(d);
        spec_encode_sign1(
            spec_es384_protected(),
            payload,
            spec_p384_sign(self.leaf_key_view(), spec_sig_structure(spec_es384_protected(), payload)),
        )
    }

    /// The leaf key's signature over the document is well formed and
    /// verifies under the key's public half, which parses.
    pub open spec fn spec_signature_verifies(&self, d: DocModel) -> bool {
        let tbs = spec_sig_structure(spec_es384_protected(), spec_encode_doc(d));
        let pk = spec_p384_public(self.leaf_key_view());
        let sig = spec_p384_sign(self.leaf_key_view(), tbs);
        &&& spec_p384_key_ok(pk)
        &&& spec_p384_raw_sig_ok(sig)
        &&& spec_p384_verify_raw(pk, tbs, sig)
    }

    /// Issues the attestation document for the time `now_ms`.
    pub fn generate_at(
        &self,
        now_ms: u64,
        user_data: Option<&[u8]>,
        nonce: Option<&[u8]>,
        public_key: Option<&[u8]>,
    ) -> (r: Result<Vec<u8>, AttestationError>)
        ensures
            r is Ok <==> spec_p384_signing_key_ok(self.leaf_key_view()),
            r matches Ok(b) ==> b@ == self.spec_signed_document(
                self.spec_document(now_ms, opt_seq(user_data), opt_seq(nonce), opt_seq(public_key)),
            ),
            r matches Ok(_) ==> self.spec_signature_verifies(
                self.spec_document(now_ms, opt_seq(user_data), opt_seq(nonce), opt_seq(public_key)),
            ),
            r matches Err(e) ==> e is ValidationError,
    {
        let z0 = zero_pcr_vec();
        let z3 = zero_pcr_vec();
        let z4 = zero_pcr_vec();
        let mut pcrs: Vec<(u32, Vec<u8>)> = Vec::new();
        pcrs.push((0u32, z0));
        pcrs.push((3u32, z3));
        pcrs.push((4u32, z4));
        let mut cabundle: Vec<Vec<u8>> = Vec::new();
        cabundle.push(self.root.clone());
        cabundle.push(self.intermediate.clone());
        let doc = AttestationDoc {
            module_id: String::from_str("Mock-Hypervisor-Module"),
            timestamp: now_ms,
            digest: String::from_str("SHA384"),
            pcrs,
            certificate: self.leaf.clone(),
            cabundle,
            public_key: match public_key {
                Some(k) => Some(vstd::slice::slice_to_vec(k)),
                None => None,
            },
            user_data: match user_data {
                Some(d) => Some(vstd::slice::slice_to_vec(d)),
                None => None,
            },
            nonce: match nonce {
                Some(n) => Some(vstd::slice::slice_to_vec(n)),
                None => None,
            },
        };
        assert(doc@.pcrs =~= seq![(0u32, zero_pcr()), (3u32, zero_pcr()), (4u32, zero_pcr())]);
        assert(doc@.cabundle =~= seq![self.root_view(), self.intermediate_view()]);
        assert(doc@ == self.spec_document(now_ms, opt_seq(user_data), opt_seq(nonce), opt_seq(public_key)));
        let payload = encode_doc(&doc);
        let protected = es384_protected_header();
        let tbs = sig_structure(protected.as_slice(), payload.as_slice());
        let sig = match p384_sign(self.leaf_key.as_slice(), tbs.as_slice()) {
            Err(e) => {
                let m = String::from_str("Failed to parse signing key: ").concat(e.as_str());
                return Err(AttestationError::ValidationError(m));
            },
            Ok((s, _pk)) => s,
        };
        Ok(encode_sign1(protected.as_slice(), payload.as_slice(), sig.as_slice()))
    }
}

} // verus!

verus! {

/// One step of the mock provider's walk: `der` must verify the current
/// certificate's signature; `None` when it is the trusted root.
pub open spec fn spec_mock_step(current: CertView, der: Seq<u8>, root: Seq<u8>) -> Result<
    Option<CertView>,
    Failure,
> {
    match spec_read_certificate(der) {
        None => Err(Failure::Prefixed("Invalid parent cert: "@)),
        Some(parent) => if !spec_p384_key_ok(parent.public_key) {
            Err(Failure::Prefixed("Invalid parent public key: "@))
        } else if !spec_p384_der_sig_ok(current.signature) {
            Err(Failure::Prefixed("Invalid signature DER: "@))
        } else if !spec_p384_verify_der(parent.public_key, current.tbs, current.signature) {
            Err(Failure::Prefixed("Chain signature validation failed: "@))
        } else if parent.der == root {
            Ok(None)
        } else {
            Ok(Some(parent))
        },
    }
}

/// The mock provider's walk over the CA bundle, from its last certificate
/// to its first (the bundle lists the root first).
pub open spec fn spec_mock_walk(bundle: Seq<Seq<u8>>, i: nat, current: CertView, root: Seq<u8>) -> Result<
    bool,
    Failure,
>
    decreases bundle.len() - i,
{
    if i >= bundle.len() {
        Ok(current.der == root)
    } else {
        match spec_mock_step(current, bundle[bundle.len() - 1 - i], root) {
            Err(f) => Err(f),
            Ok(None) => Ok(true),
            Ok(Some(parent)) => spec_mock_walk(bundle, i + 1, parent, root),
        }
    }
}

/// The mock provider's check of a document: its leaf signature, and a
/// chain of signatures through the CA bundle to `root`.  No validity
/// period or constraint is checked.
pub open spec fn spec_mock_verify(doc_bytes: Seq<u8>, root: Seq<u8>) -> Result<bool, Failure> {
    match spec_decode_sign1(doc_bytes) {
        None => Err(invalid_doc(msg_bad_cose())),
        Some(m) => match m.payload {
            None => Err(invalid_doc("Missing payload"@)),
            Some(payload) => match spec_decode_doc(payload) {
                Err(_) => Err(invalid_doc(msg_bad_doc())),
                Ok(d) => match spec_read_certificate(d.certificate) {
                    None => Err(Failure::Prefixed("Failed to parse leaf certificate: "@)),
                    Some(leaf) => if !spec_p384_key_ok(leaf.public_key) {
                        Err(Failure::Prefixed("Invalid public key: "@))
                    } else if !spec_p384_raw_sig_ok(m.signature) {
                        Err(Failure::Prefixed("Invalid signature bytes: "@))
                    } else if !spec_p384_verify_raw(
                        leaf.public_key,
                        spec_sig_structure(m.protected_bytes, payload),
                        m.signature,
                    ) {
                        Err(Failure::Prefixed("Signature validation failed: "@))
                    } else {
                        spec_mock_walk(d.cabundle, 0, leaf, root)
                    },
                },
            },
        },
    }
}

fn mock_step(current: &CertInfo, der: &[u8], root: &[u8]) -> (r: Result<Option<CertInfo>, AttestationError>)
    ensures
        match r {
            Ok(None) => spec_mock_step(current@, der@, root@) == Ok::<Option<CertView>, Failure>(None),
            Ok(Some(p)) => spec_mock_step(current@, der@, root@) == Ok::<Option<CertView>, Failure>(Some(p@)),
            Err(e) => spec_mock_step(current@, der@, root@) matches Err(f) && failure_matches(f, e@),
        },
{
    let parent = match read_certificate(der) {
        Err(e) => return Err(prefixed("Invalid parent cert: ", e)),
        Ok(c) => c,
    };
    match p384_key_check(parent.public_key.as_slice()) {
        Err(e) => return Err(prefixed("Invalid parent public key: ", e)),
        Ok(()) => {},
    }
    match p384_der_sig_check(current.signature.as_slice()) {
        Err(e) => return Err(prefixed("Invalid signature DER: ", e)),
        Ok(()) => {},
    }
    match p384_verify_der(parent.public_key.as_slice(), current.tbs.as_slice(), current.signature.as_slice()) {
        Err(e) => return Err(prefixed("Chain signature validation failed: ", e)),
        Ok(()) => {},
    }
    if bytes_eq(parent.der.as_slice(), root) {
        Ok(None)
    } else {
        Ok(Some(parent))
    }
}

#[verifier::loop_isolation(false)]
fn mock_walk(bundle: &Vec<Vec<u8>>, leaf: CertInfo, root: &[u8]) -> (r: Result<bool, AttestationError>)
    ensures
        match r {
            Ok(b) => spec_mock_walk(crate::types::bundle_view(bundle@), 0, leaf@, root@) == Ok::<bool, Failure>(b),
            Err(e) => spec_mock_walk(crate::types::bundle_view(bundle@), 0, leaf@, root@) matches Err(f) && failure_matches(f, e@),
        },
{
    let ghost b = crate::types::bundle_view(bundle@);
    let ghost start = spec_mock_walk(b, 0, leaf@, root@);
    let n = bundle.len();
    let mut current = leaf;
    let mut i: usize = 0;
    while i < n
        invariant
            n == bundle@.len(),
            b == crate::types::bundle_view(bundle@),
            i <= n,
            start == spec_mock_walk(b, i as nat, current@, root@),
        decreases n - i,
    {
        let der = &bundle[n - 1 - i];
        assert(b[b.len() - 1 - i] == der@);
        match mock_step(&current, der.as_slice(), root) {
            Err(e) => return Err(e),
            Ok(None) => return Ok(true),
            Ok(Some(parent)) => {
                current = parent;
            },
        }
        i = i + 1;
    }
    Ok(bytes_eq(current.der.as_slice(), root))
}

impl MockAttestationProvider {
    /// Checks a document as the mock provider does.
    pub fn verify_document(&self, doc_bytes: &[u8], expected_root: &[u8]) -> (r: Result<bool, AttestationError>)
        ensures
            match r {
                Ok(b) => spec_mock_verify(doc_bytes@, expected_root@) == Ok::<bool, Failure>(b),
                Err(e) => spec_mock_verify(doc_bytes@, expected_root@) matches Err(f) && failure_matches(f, e@),
            },
    {
        let m = match decode_sign1(doc_bytes) {
            None => return Err(AttestationError::InvalidAttestationDocument(String::from_str("Malformed COSE_Sign1 message"))),
            Some(m) => m,
        };
        let payload = match &m.payload {
            None => return Err(AttestationError::InvalidAttestationDocument(String::from_str("Missing payload"))),
            Some(p) => p,
        };
        let doc = match decode_doc(payload.as_slice()) {
            Err(_) => return Err(AttestationError::InvalidAttestationDocument(String::from_str("Malformed attestation document"))),
            Ok(d) => d,
        };
        let leaf = match read_certificate(doc.certificate.as_slice()) {
            Err(e) => return Err(prefixed("Failed to parse leaf certificate: ", e)),
            Ok(c) => c,
        };
        match check_leaf_signature(&leaf, &m, payload.as_slice()) {
            Err(e) => return Err(e),
            Ok(()) => {},
        }
        mock_walk(&doc.cabundle, leaf, expected_root)
    }
}

impl AttestationProvider for MockAttestationProvider {
    open spec fn spec_name(&self) -> Seq<char> {
        "custom"@
    }

    open spec fn spec_hardware(&self) -> bool {
        false
    }

    /// A document signed by the leaf key for some time, or a validation
    /// error.
    open spec fn generated(
        &self,
        user_data: Option<Seq<u8>>,
        nonce: Option<Seq<u8>>,
        public_key: Option<Seq<u8>>,
        r: Result<Seq<u8>, AttestationErrorView>,
    ) -> bool {
        match r {
            Ok(b) => {
                &&& spec_p384_signing_key_ok(self.leaf_key_view())
                &&& exists|now_ms: u64| {
                    &&& b == #[trigger] self.spec_signed_document(
                        self.spec_document(now_ms, user_data, nonce, public_key),
                    )
                    &&& self.spec_signature_verifies(self.spec_document(now_ms, user_data, nonce, public_key))
                }
            },
            Err(e) => e is ValidationError,
        }
    }

    /// Exactly the mock's check of the document against the root.
    open spec fn verified(&self, doc: Seq<u8>, root: Seq<u8>, r: Result<bool, AttestationErrorView>) -> bool {
        match r {
            Ok(b) => spec_mock_verify(doc, root) == Ok::<bool, Failure>(b),
            Err(e) => spec_mock_verify(doc, root) matches Err(f) && failure_matches(f, e),
        }
    }

    fn name(&self) -> (r: &'static str) {
        "custom"
    }

    fn is_hardware_backed(&self) -> (r: bool) {
        false
    }

    /// Issues a document for the current time.
    fn generate(
        &self,
        user_data: Option<&[u8]>,
        nonce: Option<&[u8]>,
        public_key: Option<&[u8]>,
    ) -> (r: Result<Vec<u8>, AttestationError>) {
        let now_ms: u64 = match unix_time_now() {
            None => return Err(AttestationError::ValidationError(String::from_str("second time provided was later than self"))),
            Some((s, n)) => {
                let ms: u128 = (s as u128) * 1000 + (n as u128) / 1_000_000;
                ms as u64
            },
        };
        self.generate_at(now_ms, user_data, nonce, public_key)
    }

    fn verify(&self, doc: &[u8], expected_root: &[u8]) -> (r: Result<bool, AttestationError>) {
        self.verify_document(doc, expected_root)
    }
}

/// The protected header of a mock document reads as ES384 alone.
proof fn lemma_es384_header()
    ensures
        spec_protected_header(spec_es384_protected()) == Some(
            CoseHeader { alg: Some(CoseAlg::Int(ALG_ES384)), crit: 0, content_type: false, len: 1 },
        ),
        spec_es384_protected().len() < 0x1_0000_0000_0000_0000,
{
    let p = spec_es384_protected();
    let h = spec_encode_head(5, 1);
    let l1 = spec_encode_int(1);
    let v1 = spec_encode_int(-35);
    assert(crate::cbor::at(p, 0, p)) by {
        assert(p.subrange(0, p.len() as int) =~= p);
    }
    crate::cbor::lemma_at_concat(p, 0, h + l1, v1);
    crate::cbor::lemma_at_concat(p, 0, h, l1);
    crate::cbor::lemma_head_roundtrip(p, 0, 5, 1);
    crate::cbor::lemma_read_i64_enc(p, 1, 1);
    crate::cbor::lemma_read_i64_enc(p, 2, -35);
    let h0 = empty_header();
    let h1 = CoseHeader { alg: Some(CoseAlg::Int(-35i64)), ..h0 };
    let h1b = CoseHeader { len: 1, ..h1 };
    let seen1 = Seq::<LabelView>::empty().push(LabelView::Int(1i64));
    assert(spec_header_value(p, 2, LabelView::Int(1i64), h0) == Some((h1, p.len() as int)));
    assert(spec_header_entries(p, p.len() as int, 0, h1b, seen1) == Some((h1b, p.len() as int)));
    assert(spec_header_entries(p, 1, 1, h0, Seq::empty()) == Some((h1b, p.len() as int)));
}

/// What the mock hypervisor signs, it vouches for: a document signed with
/// its leaf key passes its own check against `root`, when the document's
/// leaf certificate carries the leaf key's public half and its CA bundle
/// chains up to `root`.
pub proof fn lemma_mock_vouches_for_its_documents(p: MockAttestationProvider, d: DocModel, root: Seq<u8>)
    requires
        p.spec_signature_verifies(d),
        d.wf(),
        doc_lengths_fit(d),
        p.spec_signed_document(d).len() < 0x1_0000_0000_0000_0000,
        spec_read_certificate(d.certificate) matches Some(leaf) && leaf.public_key == spec_p384_public(
            p.leaf_key_view(),
        ) && spec_mock_walk(d.cabundle, 0, leaf, root) == Ok::<bool, Failure>(true),
    ensures
        spec_mock_verify(p.spec_signed_document(d), root) == Ok::<bool, Failure>(true),
{
    lemma_es384_header();
    lemma_doc_roundtrip(d);
    let payload = spec_encode_doc(d);
    let tbs = spec_sig_structure(spec_es384_protected(), payload);
    let sig = spec_p384_sign(p.leaf_key_view(), tbs);
    lemma_decode_sign1_enc(
        spec_es384_protected(),
        payload,
        sig,
        CoseHeader { alg: Some(CoseAlg::Int(ALG_ES384)), crit: 0, content_type: false, len: 1 },
    );
}

/// The mock's documents are well formed and their fields fit CBOR lengths,
/// when its certificates and the bindings do.
proof fn lemma_mock_document_fits(
    p: MockAttestationProvider,
    now_ms: u64,
    user_data: Option<Seq<u8>>,
    nonce: Option<Seq<u8>>,
    public_key: Option<Seq<u8>>,
)
    requires
        p.root_view().len() < 0x1_0000_0000_0000_0000,
        p.intermediate_view().len() < 0x1_0000_0000_0000_0000,
        p.leaf_view().len() < 0x1_0000_0000_0000_0000,
        user_data matches Some(b) ==> b.len() < 0x1_0000_0000_0000_0000,
        nonce matches Some(b) ==> b.len() < 0x1_0000_0000_0000_0000,
        public_key matches Some(b) ==> b.len() < 0x1_0000_0000_0000_0000,
    ensures
        p.spec_document(now_ms, user_data, nonce, public_key).wf(),
        doc_lengths_fit(p.spec_document(now_ms, user_data, nonce, public_key)),
{
    let d = p.spec_document(now_ms, user_data, nonce, public_key);
    reveal_strlit("Mock-Hypervisor-Module");
    assert(vstd::utf8::is_ascii_chars("Mock-Hypervisor-Module"@));
    vstd::utf8::is_ascii_chars_encode_utf8("Mock-Hypervisor-Module"@);
    reveal_strlit("SHA384");
    assert(vstd::utf8::is_ascii_chars("SHA384"@));
    vstd::utf8::is_ascii_chars_encode_utf8("SHA384"@);
    assert(forall|i: int| 0 <= i < d.pcrs.len() ==> d.pcrs[i].1.len() < 0x1_0000_0000_0000_0000);
    assert(forall|i: int| 0 <= i < d.cabundle.len() ==> d.cabundle[i].len() < 0x1_0000_0000_0000_0000);
}

/// What the mock hypervisor issues, it vouches for: a document it
/// generated passes its own check against `root`, when its leaf
/// certificate carries the leaf key's public half and its CA bundle (root
/// first, then the intermediate) chains up to `root`.
pub proof fn lemma_mock_round_trip(
    p: MockAttestationProvider,
    user_data: Option<Seq<u8>>,
    nonce: Option<Seq<u8>>,
    public_key: Option<Seq<u8>>,
    b: Seq<u8>,
    root: Seq<u8>,
)
    requires
        p.generated(user_data, nonce, public_key, Ok(b)),
        b.len() < 0x1_0000_0000_0000_0000,
        p.root_view().len() < 0x1_0000_0000_0000_0000,
        p.intermediate_view().len() < 0x1_0000_0000_0000_0000,
        p.leaf_view().len() < 0x1_0000_0000_0000_0000,
        user_data matches Some(x) ==> x.len() < 0x1_0000_0000_0000_0000,
        nonce matches Some(x) ==> x.len() < 0x1_0000_0000_0000_0000,
        public_key matches Some(x) ==> x.len() < 0x1_0000_0000_0000_0000,
        spec_read_certificate(p.leaf_view()) matches Some(leaf) && leaf.public_key == spec_p384_public(
            p.leaf_key_view(),
        ) && spec_mock_walk(seq![p.root_view(), p.intermediate_view()], 0, leaf, root) == Ok::<
            bool,
            Failure,
        >(true),
    ensures
        p.verified(b, root, Ok(true)),
{
    let now_ms = choose|now_ms: u64|
        {
            &&& b == #[trigger] p.spec_signed_document(p.spec_document(now_ms, user_data, nonce, public_key))
            &&& p.spec_signature_verifies(p.spec_document(now_ms, user_data, nonce, public_key))
        };
    let d = p.spec_document(now_ms, user_data, nonce, public_key);
    lemma_mock_document_fits(p, now_ms, user_data, nonce, public_key);
    lemma_mock_vouches_for_its_documents(p, d, root);
}

/// The document verifies against the root at the clock reading `t` (no
/// reading: it does not).
pub open spec fn doc_verifies_at(doc: Seq<u8>, root: Seq<u8>, t: Option<(u64, u32)>) -> bool {
    t matches Some((s, n)) && spec_verify_attestation_doc(doc, root, s, n) is Ok
}

/// `aws_nitro_enclaves_nsm_api::driver::nsm_init`: a descriptor of the
/// Nitro Secure Module device, negative when it cannot be opened.
#[verifier::external_body]
pub(crate) fn nsm_open() -> (fd: i32) {
    aws_nitro_enclaves_nsm_api::driver::nsm_init()
}

/// `aws_nitro_enclaves_nsm_api::driver::nsm_exit`: closes the descriptor.
#[verifier::external_body]
pub(crate) fn nsm_close(fd: i32) {
    aws_nitro_enclaves_nsm_api::driver::nsm_exit(fd)
}

/// `aws_nitro_enclaves_nsm_api::driver::nsm_process_request` with an
/// attestation request: the document that the hypervisor signed, the
/// device's error code in its `Debug` form, or `None` for a response of
/// another kind.  Nothing is promised of the device's answer.
#[verifier::external_body]
pub(crate) fn nsm_attestation(
    fd: i32,
    user_data: Option<&[u8]>,
    nonce: Option<&[u8]>,
    public_key: Option<&[u8]>,
) -> (r: Result<Vec<u8>, Option<String>>) {
    let request = Request::Attestation {
        nonce: nonce.map(|n| serde_bytes::ByteBuf::from(n.to_vec())),
        public_key: public_key.map(|k| serde_bytes::ByteBuf::from(k.to_vec())),
        user_data: user_data.map(|d| serde_bytes::ByteBuf::from(d.to_vec())),
    };
    match aws_nitro_enclaves_nsm_api::driver::nsm_process_request(fd, request) {
        Response::Attestation { document } => Ok(document),
        Response::Error(err) => Err(Some(format!("{:?}", err))),
        _ => Err(None),
    }
}

/// The AWS Nitro Enclaves hypervisor, reached through `/dev/nsm`.
pub struct NitroAttestationProvider {}

impl NitroAttestationProvider {
    pub fn new() -> (p: Self) {
        NitroAttestationProvider {}
    }
}

/// An outcome of asking the Nitro Secure Module for a document: the device
/// decides the document; a failure is one of the three errors below.
pub open spec fn nsm_generated(r: Result<Seq<u8>, AttestationErrorView>) -> bool {
    match r {
        Ok(_) => true,
        Err(e) => {
            ||| e == AttestationErrorView::HardwareUnavailable("Failed to open /dev/nsm driver"@)
            ||| exists|code: Seq<char>|
                e == AttestationErrorView::ValidationError(#[trigger] ("NSM process request failed: "@ + code))
            ||| e == AttestationErrorView::ValidationError("Unexpected response type from NSM"@)
        },
    }
}

/// The answer of a provider that checks documents without the device:
/// whether the document verifies at some time; it never fails.
pub open spec fn offline_verified(doc: Seq<u8>, root: Seq<u8>, r: Result<bool, AttestationErrorView>) -> bool {
    r matches Ok(b) && exists|t: Option<(u64, u32)>| b == #[trigger] doc_verifies_at(doc, root, t)
}

impl AttestationProvider for NitroAttestationProvider {
    open spec fn spec_name(&self) -> Seq<char> {
        "custom"@
    }

    open spec fn spec_hardware(&self) -> bool {
        false
    }

    open spec fn generated(
        &self,
        user_data: Option<Seq<u8>>,
        nonce: Option<Seq<u8>>,
        public_key: Option<Seq<u8>>,
        r: Result<Seq<u8>, AttestationErrorView>,
    ) -> bool {
        nsm_generated(r)
    }

    open spec fn verified(&self, doc: Seq<u8>, root: Seq<u8>, r: Result<bool, AttestationErrorView>) -> bool {
        offline_verified(doc, root, r)
    }

    fn name(&self) -> (r: &'static str) {
        "custom"
    }

    fn is_hardware_backed(&self) -> (r: bool) {
        false
    }

    /// Asks the Nitro Secure Module for a document.
    fn generate(
        &self,
        user_data: Option<&[u8]>,
        nonce: Option<&[u8]>,
        public_key: Option<&[u8]>,
    ) -> (r: Result<Vec<u8>, AttestationError>) {
        let fd = nsm_open();
        if fd < 0 {
            return Err(AttestationError::HardwareUnavailable(String::from_str("Failed to open /dev/nsm driver")));
        }
        let response = nsm_attestation(fd, user_data, nonce, public_key);
        nsm_close(fd);
        match response {
            Ok(d) => Ok(d),
            Err(Some(code)) => Err(
                AttestationError::ValidationError(
                    String::from_str("NSM process request failed: ").concat(code.as_str()),
                ),
            ),
            Err(None) => Err(AttestationError::ValidationError(String::from_str("Unexpected response type from NSM"))),
        }
    }

    /// Whether the document verifies against `expected_root` now; a
    /// document that fails is answered `false`, never an error.
    fn verify(&self, doc: &[u8], expected_root: &[u8]) -> (r: Result<bool, AttestationError>) {
        let t = unix_time_now();
        let b = match t {
            None => false,
            Some((s, n)) => match verify_attestation_doc(doc, expected_root, s, n) {
                Ok(_) => true,
                Err(_) => false,
            },
        };
        assert(b == doc_verifies_at(doc@, expected_root@, t));
        Ok(b)
    }
}

} // verus!
