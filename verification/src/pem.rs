//! PEM text: splitting into lines, trimming, and the certificate blocks
//! between `-----BEGIN CERTIFICATE-----` and `-----END CERTIFICATE-----`.

use vstd::prelude::*;
use crate::crypto::{base64_decode, hex_encode, sha256, spec_base64_decode, spec_hex, spec_sha256};
use crate::text::{bytes_eq, str_eq};

verus! {

/// How a text operation failed: with exactly this message, or with this
/// prefix followed by an outside crate's own description of the failure.
pub enum TextFailure {
    Exact(Seq<char>),
    Prefixed(Seq<char>),
}

/// The message `s` is one that the failure `f` describes.
pub open spec fn text_failure_matches(f: TextFailure, s: Seq<char>) -> bool {
    match f {
        TextFailure::Exact(x) => s == x,
        TextFailure::Prefixed(p) => p.len() <= s.len() && s.take(p.len() as int) == p,
    }
}

pub(crate) fn prefixed_text(prefix: &str, detail: String) -> (r: String)
    ensures
        text_failure_matches(TextFailure::Prefixed(prefix@), r@),
{
    let s = String::from_str(prefix).concat(detail.as_str());
    assert(s@.take(prefix@.len() as int) =~= prefix@);
    s
}

/// Unicode `White_Space`, as `char::is_whitespace` classifies it.
pub open spec fn is_whitespace(c: char) -> bool {
    c == ' ' || ('\t' <= c && c <= '\r') || c == '\u{85}' || c == '\u{a0}' || c == '\u{1680}' || (
    '\u{2000}' <= c && c <= '\u{200a}') || c == '\u{2028}' || c == '\u{2029}' || c == '\u{202f}'
        || c == '\u{205f}' || c == '\u{3000}'
}

fn char_is_whitespace(c: char) -> (r: bool)
    ensures
        r == is_whitespace(c),
{
    c == ' ' || ('\t' <= c && c <= '\r') || c == '\u{85}' || c == '\u{a0}' || c == '\u{1680}' || (
    '\u{2000}' <= c && c <= '\u{200a}') || c == '\u{2028}' || c == '\u{2029}' || c == '\u{202f}'
        || c == '\u{205f}' || c == '\u{3000}'
}

pub open spec fn trim_start(s: Seq<char>) -> Seq<char>
    decreases s.len(),
{
    if s.len() > 0 && is_whitespace(s[0]) {
        trim_start(s.drop_first())
    } else {
        s
    }
}

pub open spec fn trim_end(s: Seq<char>) -> Seq<char>
    decreases s.len(),
{
    if s.len() > 0 && is_whitespace(s.last()) {
        trim_end(s.drop_last())
    } else {
        s
    }
}

/// The text without leading and trailing white space.
pub open spec fn spec_trim(s: Seq<char>) -> Seq<char> {
    trim_end(trim_start(s))
}

/// The text without leading and trailing white space.
pub fn trim_text(s: &str) -> (r: String)
    ensures
        r@ == spec_trim(s@),
{
    let n = s.unicode_len();
    let mut i: usize = 0;
    assert(s@.skip(0) =~= s@);
    while i < n && char_is_whitespace(s.get_char(i))
        invariant
            n == s@.len(),
            i <= n,
            trim_start(s@) == trim_start(s@.skip(i as int)),
        decreases n - i,
    {
        assert(s@.skip(i as int).drop_first() =~= s@.skip(i + 1));
        i = i + 1;
    }
    assert(trim_start(s@) == s@.skip(i as int));
    let mut j: usize = n;
    assert(s@.skip(i as int) =~= s@.subrange(i as int, n as int));
    while j > i && char_is_whitespace(s.get_char(j - 1))
        invariant
            n == s@.len(),
            i <= j <= n,
            spec_trim(s@) == trim_end(s@.subrange(i as int, j as int)),
        decreases j,
    {
        assert(s@.subrange(i as int, j as int).drop_last() =~= s@.subrange(i as int, j - 1));
        j = j - 1;
    }
    let t = s.substring_char(i, j);
    String::from_str(t)
}

/// The lines of a text as `str::lines` gives them: split at `\n`, a `\r`
/// just before the `\n` dropped, with no empty line after a final `\n`.
/// `cur` is the part of the current line read so far.
pub open spec fn spec_lines_from(s: Seq<char>, cur: Seq<char>) -> Seq<Seq<char>>
    decreases s.len(),
{
    if s.len() == 0 {
        if cur.len() == 0 {
            Seq::empty()
        } else {
            seq![cur]
        }
    } else if s[0] == '\n' {
        seq![strip_cr(cur)] + spec_lines_from(s.drop_first(), Seq::empty())
    } else {
        spec_lines_from(s.drop_first(), cur.push(s[0]))
    }
}

/// A line ended by `\n`, without a `\r` just before it.
pub open spec fn strip_cr(l: Seq<char>) -> Seq<char> {
    if l.len() > 0 && l.last() == '\r' {
        l.drop_last()
    } else {
        l
    }
}

pub open spec fn spec_lines(s: Seq<char>) -> Seq<Seq<char>> {
    spec_lines_from(s, Seq::empty())
}

pub open spec fn strings_view(v: Seq<String>) -> Seq<Seq<char>> {
    v.map_values(|x: String| x@)
}

fn strip_cr_str(l: &str) -> (r: String)
    ensures
        r@ == strip_cr(l@),
{
    let n = l.unicode_len();
    if n > 0 && l.get_char(n - 1) == '\r' {
        let t = l.substring_char(0, n - 1);
        assert(t@ =~= l@.drop_last());
        String::from_str(t)
    } else {
        String::from_str(l)
    }
}

/// Splits a text into lines as `str::lines` does.
pub fn split_lines(s: &str) -> (r: Vec<String>)
    ensures
        strings_view(r@) == spec_lines(s@),
{
    let n = s.unicode_len();
    let mut out: Vec<String> = Vec::new();
    let mut start: usize = 0;
    let mut i: usize = 0;
    assert(s@.skip(0) =~= s@);
    assert(s@.subrange(0, 0) =~= Seq::<char>::empty());
    assert(strings_view(out@) =~= Seq::<Seq<char>>::empty());
    assert(spec_lines(s@) =~= strings_view(out@) + spec_lines_from(s@.skip(0), s@.subrange(0, 0)));
    while i < n
        invariant
            n == s@.len(),
            start <= i <= n,
            spec_lines(s@) == strings_view(out@) + spec_lines_from(
                s@.skip(i as int),
                s@.subrange(start as int, i as int),
            ),
        decreases n - i,
    {
        let c = s.get_char(i);
        let ghost before = strings_view(out@);
        assert(s@.skip(i as int)[0] == c);
        assert(s@.skip(i as int).drop_first() =~= s@.skip(i + 1));
        if c == '\n' {
            let line = strip_cr_str(s.substring_char(start, i));
            out.push(line);
            proof {
                assert(strings_view(out@) =~= before.push(line@));
                assert(s@.subrange((i + 1) as int, (i + 1) as int) =~= Seq::<char>::empty());
                assert(before + (seq![line@] + spec_lines_from(s@.skip(i + 1), Seq::empty()))
                    =~= strings_view(out@) + spec_lines_from(s@.skip(i + 1), Seq::empty()));
            }
            start = i + 1;
        } else {
            assert(s@.subrange(start as int, i as int).push(c) =~= s@.subrange(start as int, i + 1));
        }
        i = i + 1;
    }
    if start < n {
        let line = String::from_str(s.substring_char(start, n));
        let ghost before = strings_view(out@);
        out.push(line);
        assert(strings_view(out@) =~= before + seq![line@]);
    } else {
        assert(strings_view(out@) + Seq::<Seq<char>>::empty() =~= strings_view(out@));
    }
    out
}

/// The trimmed lines that are not empty.
pub open spec fn spec_clean_lines(ls: Seq<Seq<char>>) -> Seq<Seq<char>>
    decreases ls.len(),
{
    if ls.len() == 0 {
        Seq::empty()
    } else if spec_trim(ls[0]).len() == 0 {
        spec_clean_lines(ls.drop_first())
    } else {
        seq![spec_trim(ls[0])] + spec_clean_lines(ls.drop_first())
    }
}

pub open spec fn begin_marker() -> Seq<char> {
    "-----BEGIN CERTIFICATE-----"@
}

pub open spec fn end_marker() -> Seq<char> {
    "-----END CERTIFICATE-----"@
}

/// The line starts with five dashes.
pub open spec fn starts_with_dashes(l: Seq<char>) -> bool {
    l.len() >= 5 && l[0] == '-' && l[1] == '-' && l[2] == '-' && l[3] == '-' && l[4] == '-'
}

fn line_starts_with_dashes(l: &str) -> (r: bool)
    ensures
        r == starts_with_dashes(l@),
{
    let n = l.unicode_len();
    n >= 5 && l.get_char(0) == '-' && l.get_char(1) == '-' && l.get_char(2) == '-' && l.get_char(3)
        == '-' && l.get_char(4) == '-'
}

} // verus!

verus! {

pub open spec fn allow_view(a: Seq<[u8; 32]>) -> Seq<Seq<u8>> {
    a.map_values(|x: [u8; 32]| x@)
}

/// The root-bundle check over the trimmed, non-empty lines: certificate
/// blocks only, each Base64 body decoding to a certificate whose SHA-256
/// is allowlisted, at least one, and none left open.
pub open spec fn spec_root_scan(
    lines: Seq<Seq<char>>,
    allow: Seq<Seq<u8>>,
    enc: Seq<char>,
    in_cert: bool,
    count: nat,
) -> Result<(), TextFailure>
    decreases lines.len(),
{
    if lines.len() == 0 {
        if in_cert || count == 0 {
            Err(TextFailure::Exact("trusted root PEM contains no complete certificates"@))
        } else {
            Ok(())
        }
    } else {
        let l = lines[0];
        let rest = lines.drop_first();
        if l == begin_marker() && !in_cert {
            spec_root_scan(rest, allow, Seq::empty(), true, count)
        } else if l == end_marker() && in_cert {
            match spec_base64_decode(enc) {
                None => Err(TextFailure::Prefixed("invalid trusted root PEM: "@)),
                Some(der) => {
                    let fp = spec_sha256(der);
                    if !allow.contains(fp) {
                        Err(
                            TextFailure::Exact(
                                "trusted root fingerprint is not allowlisted: "@ + spec_hex(fp),
                            ),
                        )
                    } else {
                        spec_root_scan(rest, allow, Seq::empty(), false, count + 1)
                    }
                },
            }
        } else if in_cert && !starts_with_dashes(l) {
            spec_root_scan(rest, allow, enc + l, true, count)
        } else {
            Err(TextFailure::Exact("malformed or unexpected data in trusted root PEM"@))
        }
    }
}

fn allowlisted(allowlist: &[[u8; 32]], fp: &[u8; 32]) -> (r: bool)
    ensures
        r == allow_view(allowlist@).contains(fp@),
{
    let ghost a = allow_view(allowlist@);
    let mut i: usize = 0;
    while i < allowlist.len()
        invariant
            i <= allowlist@.len(),
            a == allow_view(allowlist@),
            forall|j: int| 0 <= j < i ==> a[j] != fp@,
        decreases allowlist.len() - i,
    {
        if bytes_eq(&allowlist[i], fp) {
            assert(a[i as int] == fp@);
            return true;
        }
        i = i + 1;
    }
    false
}

/// Checks that a PEM bundle holds only certificate blocks, at least one,
/// each a certificate whose SHA-256 fingerprint is in `allowlist`; a single
/// approved certificate cannot bring in a second, unapproved one.
#[verifier::loop_isolation(false)]
pub fn validate_root_pem_with_allowlist(pem: &str, allowlist: &[[u8; 32]]) -> (r: Result<(), String>)
    ensures
        match r {
            Ok(()) => spec_root_scan(spec_clean_lines(spec_lines(pem@)), allow_view(allowlist@), Seq::empty(), false, 0)
                == Ok::<(), TextFailure>(()),
            Err(m) => spec_root_scan(spec_clean_lines(spec_lines(pem@)), allow_view(allowlist@), Seq::empty(), false, 0)
                matches Err(f) && text_failure_matches(f, m@),
        },
{
    let lines = split_lines(pem);
    let ghost lv = strings_view(lines@);
    let ghost allow = allow_view(allowlist@);
    let ghost start = spec_root_scan(spec_clean_lines(lv), allow, Seq::empty(), false, 0);
    let mut encoded = String::new();
    let mut in_cert = false;
    let mut count: usize = 0;
    let mut i: usize = 0;
    assert(lv.skip(0) =~= lv);
    while i < lines.len()
        invariant
            i <= lines@.len(),
            lv == strings_view(lines@),
            allow == allow_view(allowlist@),
            count <= i,
            start == spec_root_scan(spec_clean_lines(lv.skip(i as int)), allow, encoded@, in_cert, count as nat),
        decreases lines.len() - i,
    {
        assert(lv.skip(i as int)[0] == lines@[i as int]@);
        assert(lv.skip(i as int).drop_first() =~= lv.skip(i + 1));
        let line = trim_text(lines[i].as_str());
        let ghost rest = spec_clean_lines(lv.skip(i + 1));
        if line.unicode_len() == 0 {
            assert(spec_clean_lines(lv.skip(i as int)) == rest);
            i = i + 1;
        } else {
            assert(spec_clean_lines(lv.skip(i as int)) == seq![line@] + rest);
            assert((seq![line@] + rest)[0] == line@);
            assert((seq![line@] + rest).drop_first() =~= rest);
            let l = line.as_str();
            if str_eq(l, "-----BEGIN CERTIFICATE-----") && !in_cert {
                in_cert = true;
                encoded = String::new();
            } else if str_eq(l, "-----END CERTIFICATE-----") && in_cert {
                let der = match base64_decode(encoded.as_str()) {
                    Err(e) => return Err(prefixed_text("invalid trusted root PEM: ", e)),
                    Ok(d) => d,
                };
                let fp = sha256(der.as_slice());
                if !allowlisted(allowlist, &fp) {
                    let m = String::from_str("trusted root fingerprint is not allowlisted: ").concat(
                        hex_encode(&fp).as_str(),
                    );
                    return Err(m);
                }
                count = count + 1;
                in_cert = false;
                encoded = String::new();
            } else if in_cert && !line_starts_with_dashes(l) {
                encoded.append(l);
            } else {
                return Err(String::from_str("malformed or unexpected data in trusted root PEM"));
            }
            i = i + 1;
        }
    }
    if in_cert || count == 0 {
        return Err(String::from_str("trusted root PEM contains no complete certificates"));
    }
    Ok(())
}

/// SHA-256 fingerprints of the AWS Nitro Enclaves roots that this release
/// accepts; changing them is a deliberate source change.
pub const AWS_NITRO_ROOT_FINGERPRINTS: [[u8; 32]; 1] = [
    [
        0x64, 0x1a, 0x03, 0x21, 0xa3, 0xe2, 0x44, 0xef, 0xe4, 0x56, 0x46, 0x31, 0x95, 0xd6, 0x06,
        0x31, 0x7e, 0xd7, 0xcd, 0xcc, 0x3c, 0x17, 0x56, 0xe0, 0x98, 0x93, 0xf3, 0xc6, 0x8f, 0x79,
        0xbb, 0x5b,
    ],
];

/// Checks that a PEM bundle holds only approved AWS Nitro roots.
pub fn validate_aws_nitro_root_pem(pem: &str) -> (r: Result<(), String>)
    ensures
        match r {
            Ok(()) => spec_root_scan(spec_clean_lines(spec_lines(pem@)), allow_view(AWS_NITRO_ROOT_FINGERPRINTS@), Seq::empty(), false, 0)
                == Ok::<(), TextFailure>(()),
            Err(m) => spec_root_scan(spec_clean_lines(spec_lines(pem@)), allow_view(AWS_NITRO_ROOT_FINGERPRINTS@), Seq::empty(), false, 0)
                matches Err(f) && text_failure_matches(f, m@),
        },
{
    let allow = AWS_NITRO_ROOT_FINGERPRINTS;
    validate_root_pem_with_allowlist(pem, &allow)
}

} // verus!

verus! {

/// The DER certificates of the blocks between BEGIN and END markers (lines
/// trimmed); an undecodable block is an error, and so is a text with none.
pub open spec fn spec_pem_certs(
    lines: Seq<Seq<char>>,
    acc: Seq<Seq<u8>>,
    b64: Seq<char>,
    in_cert: bool,
) -> Result<Seq<Seq<u8>>, TextFailure>
    decreases lines.len(),
{
    if lines.len() == 0 {
        if acc.len() == 0 {
            Err(TextFailure::Exact("No certificates found in PEM"@))
        } else {
            Ok(acc)
        }
    } else {
        let l = spec_trim(lines[0]);
        let rest = lines.drop_first();
        if l == begin_marker() {
            spec_pem_certs(rest, acc, Seq::empty(), true)
        } else if l == end_marker() {
            if in_cert {
                match spec_base64_decode(b64) {
                    None => Err(TextFailure::Prefixed("Failed to decode base64 certificate: "@)),
                    Some(d) => spec_pem_certs(rest, acc.push(d), b64, false),
                }
            } else {
                spec_pem_certs(rest, acc, b64, in_cert)
            }
        } else if in_cert {
            spec_pem_certs(rest, acc, b64 + l, true)
        } else {
            spec_pem_certs(rest, acc, b64, in_cert)
        }
    }
}

/// The DER certificates of a PEM text.
#[verifier::loop_isolation(false)]
pub fn pem_certificates(pem: &str) -> (r: Result<Vec<Vec<u8>>, String>)
    ensures
        match r {
            Ok(v) => spec_pem_certs(spec_lines(pem@), Seq::empty(), Seq::empty(), false) == Ok::<
                Seq<Seq<u8>>,
                TextFailure,
            >(crate::types::bundle_view(v@)),
            Err(m) => spec_pem_certs(spec_lines(pem@), Seq::empty(), Seq::empty(), false) matches Err(f)
                && text_failure_matches(f, m@),
        },
{
    let lines = split_lines(pem);
    let ghost lv = strings_view(lines@);
    let ghost start = spec_pem_certs(lv, Seq::empty(), Seq::empty(), false);
    let mut roots: Vec<Vec<u8>> = Vec::new();
    let mut b64 = String::new();
    let mut in_cert = false;
    let mut i: usize = 0;
    assert(lv.skip(0) =~= lv);
    assert(crate::types::bundle_view(roots@) =~= Seq::<Seq<u8>>::empty());
    while i < lines.len()
        invariant
            i <= lines@.len(),
            lv == strings_view(lines@),
            start == spec_pem_certs(lv.skip(i as int), crate::types::bundle_view(roots@), b64@, in_cert),
        decreases lines.len() - i,
    {
        assert(lv.skip(i as int)[0] == lines@[i as int]@);
        assert(lv.skip(i as int).drop_first() =~= lv.skip(i + 1));
        let line = trim_text(lines[i].as_str());
        let l = line.as_str();
        if str_eq(l, "-----BEGIN CERTIFICATE-----") {
            in_cert = true;
            b64 = String::new();
        } else if str_eq(l, "-----END CERTIFICATE-----") {
            if in_cert {
                let der = match base64_decode(b64.as_str()) {
                    Err(e) => return Err(prefixed_text("Failed to decode base64 certificate: ", e)),
                    Ok(d) => d,
                };
                let ghost before = crate::types::bundle_view(roots@);
                let ghost dv = der@;
                roots.push(der);
                assert(crate::types::bundle_view(roots@) =~= before.push(dv));
                in_cert = false;
            }
        } else if in_cert {
            b64.append(l);
        }
        i = i + 1;
    }
    assert(lv.skip(i as int) =~= Seq::<Seq<char>>::empty());
    if roots.len() == 0 {
        return Err(String::from_str("No certificates found in PEM"));
    }
    Ok(roots)
}

/// The Base64 body of a PEM text: every line not starting with five dashes,
/// trimmed, one after the other.
pub open spec fn spec_pem_body(lines: Seq<Seq<char>>) -> Seq<char>
    decreases lines.len(),
{
    if lines.len() == 0 {
        Seq::empty()
    } else if starts_with_dashes(lines.last()) {
        spec_pem_body(lines.drop_last())
    } else {
        spec_pem_body(lines.drop_last()) + spec_trim(lines.last())
    }
}

/// The DER bytes of a single-block PEM text, or the Base64 error text.
pub fn pem_to_der(pem: &str) -> (r: Result<Vec<u8>, String>)
    ensures
        match r {
            Ok(d) => spec_base64_decode(spec_pem_body(spec_lines(pem@))) == Some(d@),
            Err(_) => spec_base64_decode(spec_pem_body(spec_lines(pem@))) is None,
        },
{
    let lines = split_lines(pem);
    let ghost lv = strings_view(lines@);
    let mut body = String::new();
    let mut i: usize = 0;
    assert(lv.take(0) =~= Seq::<Seq<char>>::empty());
    while i < lines.len()
        invariant
            i <= lines@.len(),
            lv == strings_view(lines@),
            body@ == spec_pem_body(lv.take(i as int)),
        decreases lines.len() - i,
    {
        assert(lv.take(i + 1).drop_last() =~= lv.take(i as int));
        assert(lv.take(i + 1).last() == lines@[i as int]@);
        if !line_starts_with_dashes(lines[i].as_str()) {
            let t = trim_text(lines[i].as_str());
            body.append(t.as_str());
        }
        i = i + 1;
    }
    assert(lv.take(lines.len() as int) =~= lv);
    base64_decode(body.as_str())
}


proof fn lemma_markers()
    ensures
        begin_marker().len() == 27,
        end_marker().len() == 25,
        starts_with_dashes(begin_marker()),
        starts_with_dashes(end_marker()),
        begin_marker() != end_marker(),
{
    reveal_strlit("-----BEGIN CERTIFICATE-----");
    reveal_strlit("-----END CERTIFICATE-----");
    assert(begin_marker()[5] != end_marker()[5]);
}

proof fn lemma_scan_certs(
    lines: Seq<Seq<char>>,
    allow: Seq<Seq<u8>>,
    enc: Seq<char>,
    b64: Seq<char>,
    in_cert: bool,
    count: nat,
    acc: Seq<Seq<u8>>,
)
    requires
        spec_root_scan(spec_clean_lines(lines), allow, enc, in_cert, count) is Ok,
        in_cert ==> enc == b64,
        count <= acc.len(),
        forall|i: int| 0 <= i < acc.len() ==> allow.contains(#[trigger] spec_sha256(acc[i])),
    ensures
        spec_pem_certs(lines, acc, b64, in_cert) matches Ok(r) && forall|i: int|
            0 <= i < r.len() ==> allow.contains(#[trigger] spec_sha256(r[i])),
    decreases lines.len(),
{
    lemma_markers();
    if lines.len() > 0 {
        let rest = lines.drop_first();
        let t = spec_trim(lines[0]);
        if t.len() == 0 {
            assert(b64 + t =~= b64);
            lemma_scan_certs(rest, allow, enc, b64, in_cert, count, acc);
        } else {
            let cl = spec_clean_lines(lines);
            assert(cl[0] == t);
            assert(cl.drop_first() =~= spec_clean_lines(rest));
            if t == begin_marker() && !in_cert {
                lemma_scan_certs(rest, allow, Seq::empty(), Seq::empty(), true, count, acc);
            } else if t == end_marker() && in_cert {
                let d = spec_base64_decode(enc)->Some_0;
                let a2 = acc.push(d);
                assert forall|i: int| 0 <= i < a2.len() implies allow.contains(
                    #[trigger] spec_sha256(a2[i]),
                ) by {
                    if i < acc.len() {
                        assert(a2[i] == acc[i]);
                    }
                }
                lemma_scan_certs(rest, allow, Seq::empty(), b64, false, count + 1, a2);
            } else {
                lemma_scan_certs(rest, allow, enc + t, b64 + t, true, count, acc);
            }
        }
    }
}

/// A PEM bundle that passes the allowlist check yields, read as trusted
/// roots, only certificates whose SHA-256 fingerprints are allowlisted: a
/// verifier built from a checked bundle trusts no other root.
pub proof fn lemma_checked_bundle_roots_are_allowlisted(pem: Seq<char>, allow: Seq<Seq<u8>>)
    requires
        spec_root_scan(spec_clean_lines(spec_lines(pem)), allow, Seq::empty(), false, 0) is Ok,
    ensures
        spec_pem_certs(spec_lines(pem), Seq::empty(), Seq::empty(), false) matches Ok(roots)
            && forall|i: int| 0 <= i < roots.len() ==> allow.contains(#[trigger] spec_sha256(roots[i])),
{
    lemma_scan_certs(spec_lines(pem), allow, Seq::empty(), Seq::empty(), false, 0, Seq::empty());
}

} // verus!

verus! {

/// Whether a character is white space, as `char::is_whitespace` says.
pub fn char_is_whitespace_pub(c: char) -> (r: bool)
    ensures
        r == is_whitespace(c),
{
    char_is_whitespace(c)
}

} // verus!
