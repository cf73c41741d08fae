//! The parts of an X.509 certificate that chain validation reads, taken
//! from the DER encoding by the `x509-cert` crate and held as plain values.

use vstd::prelude::*;
use x509_cert::der::{Decode, Encode};

verus! {

/// One certificate extension.
#[derive(Debug, Clone)]
pub struct CertExtension {
    /// The content octets of the extension's object identifier.
    pub oid: Vec<u8>,
    pub critical: bool,
    /// The content octets of the extension value.
    pub value: Vec<u8>,
}

/// Mathematical model of [`CertExtension`].
pub struct ExtView {
    pub oid: Seq<u8>,
    pub critical: bool,
    pub value: Seq<u8>,
}

impl View for CertExtension {
    type V = ExtView;

    open spec fn view(&self) -> ExtView {
        ExtView { oid: self.oid@, critical: self.critical, value: self.value@ }
    }
}

pub open spec fn exts_view(v: Seq<CertExtension>) -> Seq<ExtView> {
    v.map_values(|e: CertExtension| e@)
}

/// Whether the bytes are one DER certificate.
pub uninterp spec fn spec_cert_parses(der: Seq<u8>) -> bool;

/// The validity period (not before, not after) in seconds since the epoch.
pub uninterp spec fn spec_cert_validity(der: Seq<u8>) -> Option<(u64, u64)>;

/// The extensions, in order.
pub uninterp spec fn spec_cert_extensions(der: Seq<u8>) -> Option<Seq<ExtView>>;

/// The DER encodings of the issuer and subject names.
pub uninterp spec fn spec_cert_names(der: Seq<u8>) -> Option<(Seq<u8>, Seq<u8>)>;

/// The subject public key bits.
pub uninterp spec fn spec_cert_public_key(der: Seq<u8>) -> Option<Seq<u8>>;

/// The DER encoding of the to-be-signed part.
pub uninterp spec fn spec_cert_tbs(der: Seq<u8>) -> Option<Seq<u8>>;

/// The signature bits.
pub uninterp spec fn spec_cert_signature(der: Seq<u8>) -> Option<Seq<u8>>;

/// The certificate's DER encoding as the crate writes it back.
pub uninterp spec fn spec_cert_reencoded(der: Seq<u8>) -> Option<Seq<u8>>;

/// A basicConstraints value: whether it marks a CA, and its path length
/// limit.
pub uninterp spec fn spec_basic_constraints(value: Seq<u8>) -> Option<(bool, Option<u8>)>;

/// A keyUsage value: whether it allows digitalSignature and keyCertSign.
pub uninterp spec fn spec_key_usage(value: Seq<u8>) -> Option<(bool, bool)>;

/// `Certificate::from_der`: whether the bytes parse, with the crate's error
/// text when they do not.
#[verifier::external_body]
pub(crate) fn cert_parse(der: &[u8]) -> (r: Result<(), String>)
    ensures
        r is Ok <==> spec_cert_parses(der@),
{
    x509_cert::Certificate::from_der(der).map(|_| ()).map_err(|e| e.to_string())
}

/// `Validity::not_before` and `not_after`, through `Time::to_unix_duration`.
#[verifier::external_body]
pub(crate) fn cert_validity(der: &[u8]) -> (r: Option<(u64, u64)>)
    ensures
        r == spec_cert_validity(der@),
{
    let c = x509_cert::Certificate::from_der(der).ok()?;
    let v = &c.tbs_certificate.validity;
    Some((v.not_before.to_unix_duration().as_secs(), v.not_after.to_unix_duration().as_secs()))
}

/// `TbsCertificate::extensions`: each extension's identifier, criticality
/// and value octets.
#[verifier::external_body]
pub(crate) fn cert_extensions(der: &[u8]) -> (r: Option<Vec<CertExtension>>)
    ensures
        match r {
            Some(v) => spec_cert_extensions(der@) == Some(exts_view(v@)),
            None => spec_cert_extensions(der@) is None,
        },
{
    let c = x509_cert::Certificate::from_der(der).ok()?;
    let exts = c.tbs_certificate.extensions.unwrap_or_default();
    Some(exts.iter().map(|e| CertExtension {
        oid: e.extn_id.as_bytes().to_vec(),
        critical: e.critical,
        value: e.extn_value.as_bytes().to_vec(),
    }).collect())
}

/// `TbsCertificate::issuer` and `subject`, each through `Encode::to_der`.
#[verifier::external_body]
pub(crate) fn cert_names(der: &[u8]) -> (r: Option<(Vec<u8>, Vec<u8>)>)
    ensures
        match r {
            Some((i, s)) => spec_cert_names(der@) == Some((i@, s@)),
            None => spec_cert_names(der@) is None,
        },
{
    let c = x509_cert::Certificate::from_der(der).ok()?;
    Some((c.tbs_certificate.issuer.to_der().ok()?, c.tbs_certificate.subject.to_der().ok()?))
}

/// `SubjectPublicKeyInfo::subject_public_key`, as raw bytes.
#[verifier::external_body]
pub(crate) fn cert_public_key(der: &[u8]) -> (r: Option<Vec<u8>>)
    ensures
        match r {
            Some(k) => spec_cert_public_key(der@) == Some(k@),
            None => spec_cert_public_key(der@) is None,
        },
{
    let c = x509_cert::Certificate::from_der(der).ok()?;
    Some(c.tbs_certificate.subject_public_key_info.subject_public_key.raw_bytes().to_vec())
}

/// `Certificate::tbs_certificate` through `Encode::to_der`.
#[verifier::external_body]
pub(crate) fn cert_tbs(der: &[u8]) -> (r: Option<Vec<u8>>)
    ensures
        match r {
            Some(t) => spec_cert_tbs(der@) == Some(t@),
            None => spec_cert_tbs(der@) is None,
        },
{
    let c = x509_cert::Certificate::from_der(der).ok()?;
    c.tbs_certificate.to_der().ok()
}

/// `Certificate::signature`, as raw bytes.
#[verifier::external_body]
pub(crate) fn cert_signature(der: &[u8]) -> (r: Option<Vec<u8>>)
    ensures
        match r {
            Some(s) => spec_cert_signature(der@) == Some(s@),
            None => spec_cert_signature(der@) is None,
        },
{
    let c = x509_cert::Certificate::from_der(der).ok()?;
    Some(c.signature.raw_bytes().to_vec())
}

/// The certificate re-encoded through `Encode::to_der`.
#[verifier::external_body]
pub(crate) fn cert_reencoded(der: &[u8]) -> (r: Option<Vec<u8>>)
    ensures
        match r {
            Some(d) => spec_cert_reencoded(der@) == Some(d@),
            None => spec_cert_reencoded(der@) is None,
        },
{
    let c = x509_cert::Certificate::from_der(der).ok()?;
    c.to_der().ok()
}

/// `BasicConstraints::from_der`: the `ca` flag and `path_len_constraint`.
#[verifier::external_body]
pub(crate) fn decode_basic_constraints(value: &[u8]) -> (r: Option<(bool, Option<u8>)>)
    ensures
        r == spec_basic_constraints(value@),
{
    x509_cert::ext::pkix::BasicConstraints::from_der(value).ok().map(|b| (b.ca, b.path_len_constraint))
}

/// `KeyUsage::from_der`: `digital_signature()` and `key_cert_sign()`.
#[verifier::external_body]
pub(crate) fn decode_key_usage(value: &[u8]) -> (r: Option<(bool, bool)>)
    ensures
        r == spec_key_usage(value@),
{
    x509_cert::ext::pkix::KeyUsage::from_der(value).ok().map(|k| (k.digital_signature(), k.key_cert_sign()))
}

/// What chain validation reads from a certificate.
#[derive(Debug, Clone)]
pub struct CertInfo {
    pub not_before: u64,
    pub not_after: u64,
    pub extensions: Vec<CertExtension>,
    pub issuer: Vec<u8>,
    pub subject: Vec<u8>,
    pub public_key: Vec<u8>,
    pub tbs: Vec<u8>,
    pub signature: Vec<u8>,
    pub der: Vec<u8>,
}

/// Mathematical model of [`CertInfo`].
pub struct CertView {
    pub not_before: u64,
    pub not_after: u64,
    pub extensions: Seq<ExtView>,
    pub issuer: Seq<u8>,
    pub subject: Seq<u8>,
    pub public_key: Seq<u8>,
    pub tbs: Seq<u8>,
    pub signature: Seq<u8>,
    pub der: Seq<u8>,
}

impl View for CertInfo {
    type V = CertView;

    open spec fn view(&self) -> CertView {
        CertView {
            not_before: self.not_before,
            not_after: self.not_after,
            extensions: exts_view(self.extensions@),
            issuer: self.issuer@,
            subject: self.subject@,
            public_key: self.public_key@,
            tbs: self.tbs@,
            signature: self.signature@,
            der: self.der@,
        }
    }
}

/// The certificate that the bytes hold, if every part of it can be read.
/// Where the bytes do not parse the error is the crate's text, which
/// nothing here states.
pub open spec fn spec_read_certificate(der: Seq<u8>) -> Option<CertView> {
    if !spec_cert_parses(der) {
        None
    } else {
        match (
            spec_cert_validity(der),
            spec_cert_extensions(der),
            spec_cert_names(der),
            spec_cert_public_key(der),
            spec_cert_tbs(der),
            spec_cert_signature(der),
            spec_cert_reencoded(der),
        ) {
            (Some(v), Some(e), Some(n), Some(k), Some(t), Some(s), Some(d)) => Some(
                CertView {
                    not_before: v.0,
                    not_after: v.1,
                    extensions: e,
                    issuer: n.0,
                    subject: n.1,
                    public_key: k,
                    tbs: t,
                    signature: s,
                    der: d,
                },
            ),
            _ => None,
        }
    }
}

/// Reads the parts of a certificate; the error is the text of why not.
pub fn read_certificate(der: &[u8]) -> (r: Result<CertInfo, String>)
    ensures
        match r {
            Ok(c) => spec_read_certificate(der@) == Some(c@),
            Err(_) => spec_read_certificate(der@) is None,
        },
{
    match cert_parse(der) {
        Err(e) => return Err(e),
        Ok(()) => {},
    }
    let v = cert_validity(der);
    let e = cert_extensions(der);
    let n = cert_names(der);
    let k = cert_public_key(der);
    let t = cert_tbs(der);
    let s = cert_signature(der);
    let d = cert_reencoded(der);
    match (v, e, n, k, t, s, d) {
        (Some(v), Some(e), Some(n), Some(k), Some(t), Some(s), Some(d)) => Ok(
            CertInfo {
                not_before: v.0,
                not_after: v.1,
                extensions: e,
                issuer: n.0,
                subject: n.1,
                public_key: k,
                tbs: t,
                signature: s,
                der: d,
            },
        ),
        _ => Err(String::from_str("certificate fields could not be encoded")),
    }
}

} // verus!
