//! COSE_Sign1 (RFC 9052) framing: the untagged four-element array
//! `[protected, unprotected, payload, signature]`, its header maps, and the
//! `Sig_structure` that the signature covers.

use vstd::prelude::*;
use vstd::utf8::*;
use crate::cbor::{
    MAX_DEPTH, item_end, push_bstr, push_head, push_text, read_head, read_i64, read_null,
    read_text, spec_encode_bstr, spec_encode_head, spec_encode_text, spec_head, spec_item_end,
    spec_read_i64, spec_read_null, spec_read_text, spec_read_uint, read_uint,
};
use crate::text::str_eq;

verus! {

/// Header label of the algorithm.
pub const HEADER_ALG: i64 = 1;
/// Header label of the critical-headers list.
pub const HEADER_CRIT: i64 = 2;
/// Header label of the content type.
pub const HEADER_CONTENT_TYPE: i64 = 3;
/// COSE algorithm identifier of EdDSA.
pub const ALG_EDDSA: i64 = -8;
/// COSE algorithm identifier of ECDSA with SHA-384.
pub const ALG_ES384: i64 = -35;

/// The algorithm of a header: an integer identifier or a text name.
#[derive(Debug, Clone, Copy, PartialEq, Eq)]
pub enum CoseAlg {
    Int(i64),
    Text,
}

/// What the checks read from a header map.
#[derive(Debug, Clone, Copy, PartialEq, Eq)]
pub struct CoseHeader {
    /// The algorithm (label 1), if present.
    pub alg: Option<CoseAlg>,
    /// The number of critical labels (label 2); 0 when absent.
    pub crit: u64,
    /// Whether a content type (label 3) is present.
    pub content_type: bool,
    /// The number of entries in the map.
    pub len: u64,
}

/// A header label: an integer or a text string.
#[derive(Debug, Clone, PartialEq, Eq)]
pub enum Label {
    Int(i64),
    Text(String),
}

/// Mathematical model of [`Label`].
pub enum LabelView {
    Int(i64),
    Text(Seq<char>),
}

impl View for Label {
    type V = LabelView;

    open spec fn view(&self) -> LabelView {
        match self {
            Label::Int(i) => LabelView::Int(*i),
            Label::Text(t) => LabelView::Text(t@),
        }
    }
}

/// A decoded COSE_Sign1 message.
#[derive(Debug, Clone)]
pub struct CoseSign1 {
    /// The serialised protected header, as it was signed.
    pub protected_bytes: Vec<u8>,
    pub protected: CoseHeader,
    pub unprotected: CoseHeader,
    pub payload: Option<Vec<u8>>,
    pub signature: Vec<u8>,
}

/// Mathematical model of [`CoseSign1`].
pub struct Sign1View {
    pub protected_bytes: Seq<u8>,
    pub protected: CoseHeader,
    pub unprotected: CoseHeader,
    pub payload: Option<Seq<u8>>,
    pub signature: Seq<u8>,
}

impl View for CoseSign1 {
    type V = Sign1View;

    open spec fn view(&self) -> Sign1View {
        Sign1View {
            protected_bytes: self.protected_bytes@,
            protected: self.protected,
            unprotected: self.unprotected,
            payload: match self.payload {
                Some(p) => Some(p@),
                None => None,
            },
            signature: self.signature@,
        }
    }
}

/// A header without entries.
pub open spec fn empty_header() -> CoseHeader {
    CoseHeader { alg: None, crit: 0, content_type: false, len: 0 }
}

/// A definite-length byte string (major type 2) only.
pub open spec fn spec_read_bstr(s: Seq<u8>, pos: int) -> Option<(Seq<u8>, int)> {
    match spec_head(s, pos) {
        Some((major, info, arg, next)) => if major == 2 && next + arg <= s.len() {
            Some((s.subrange(next, next + arg), next + arg))
        } else {
            None
        },
        None => None,
    }
}

/// A label: an integer that fits an `i64`, or a text string.
pub open spec fn spec_read_label(s: Seq<u8>, pos: int) -> Option<(LabelView, int)> {
    match spec_read_i64(s, pos) {
        Some((v, e)) => Some((LabelView::Int(v as i64), e)),
        None => match spec_read_text(s, pos) {
            Some((t, e)) => Some((LabelView::Text(t), e)),
            None => None,
        },
    }
}

/// `count` consecutive labels; their end.
pub open spec fn spec_read_labels(s: Seq<u8>, pos: int, count: nat) -> Option<int>
    decreases count,
{
    if count == 0 {
        Some(pos)
    } else {
        match spec_read_label(s, pos) {
            Some((l, e)) => spec_read_labels(s, e, (count - 1) as nat),
            None => None,
        }
    }
}

/// The value of the entry with label `l`, read into the header `h`.  The
/// algorithm is an integer or a text; the critical list a non-empty array
/// of labels; the content type an unsigned integer or a text; any other
/// value a well-formed item.
pub open spec fn spec_header_value(s: Seq<u8>, pos: int, l: LabelView, h: CoseHeader) -> Option<
    (CoseHeader, int),
> {
    if l == LabelView::Int(HEADER_ALG) {
        match spec_read_i64(s, pos) {
            Some((v, e)) => Some((CoseHeader { alg: Some(CoseAlg::Int(v as i64)), ..h }, e)),
            None => match spec_read_text(s, pos) {
                Some((t, e)) => Some((CoseHeader { alg: Some(CoseAlg::Text), ..h }, e)),
                None => None,
            },
        }
    } else if l == LabelView::Int(HEADER_CRIT) {
        match spec_head(s, pos) {
            Some((major, info, n, p)) => if major == 4 && n >= 1 {
                match spec_read_labels(s, p, n) {
                    Some(e) => Some((CoseHeader { crit: n as u64, ..h }, e)),
                    None => None,
                }
            } else {
                None
            },
            None => None,
        }
    } else if l == LabelView::Int(HEADER_CONTENT_TYPE) {
        match spec_read_uint(s, pos) {
            Some((v, e)) => Some((CoseHeader { content_type: true, ..h }, e)),
            None => match spec_read_text(s, pos) {
                Some((t, e)) => Some((CoseHeader { content_type: true, ..h }, e)),
                None => None,
            },
        }
    } else {
        match spec_item_end(s, pos, (MAX_DEPTH - 1) as nat) {
            Some(e) => Some((h, e)),
            None => None,
        }
    }
}

/// `count` header entries; a label may appear once.
pub open spec fn spec_header_entries(
    s: Seq<u8>,
    pos: int,
    count: nat,
    h: CoseHeader,
    seen: Seq<LabelView>,
) -> Option<(CoseHeader, int)>
    decreases count,
{
    if count == 0 {
        Some((h, pos))
    } else {
        match spec_read_label(s, pos) {
            Some((l, p)) => if seen.contains(l) {
                None
            } else {
                match spec_header_value(s, p, l, h) {
                    Some((h2, e)) => spec_header_entries(
                        s,
                        e,
                        (count - 1) as nat,
                        CoseHeader { len: (h2.len + 1) as u64, ..h2 },
                        seen.push(l),
                    ),
                    None => None,
                }
            },
            None => None,
        }
    }
}

/// A header map.
pub open spec fn spec_read_header(s: Seq<u8>, pos: int) -> Option<(CoseHeader, int)> {
    match spec_head(s, pos) {
        Some((major, info, n, p)) => if major == 5 {
            spec_header_entries(s, p, n, empty_header(), Seq::empty())
        } else {
            None
        },
        None => None,
    }
}

/// The protected header from its serialisation: empty, or one header map
/// with nothing after it.
pub open spec fn spec_protected_header(b: Seq<u8>) -> Option<CoseHeader> {
    if b.len() == 0 {
        Some(empty_header())
    } else {
        match spec_read_header(b, 0) {
            Some((h, e)) => if e == b.len() {
                Some(h)
            } else {
                None
            },
            None => None,
        }
    }
}

/// The payload: `null` when detached, else a byte string.
pub open spec fn spec_read_payload(s: Seq<u8>, pos: int) -> Option<(Option<Seq<u8>>, int)> {
    match spec_read_null(s, pos) {
        Some(e) => Some((None, e)),
        None => match spec_read_bstr(s, pos) {
            Some((b, e)) => Some((Some(b), e)),
            None => None,
        },
    }
}

/// The message that `s` holds, if it is exactly one untagged COSE_Sign1.
pub open spec fn spec_decode_sign1(s: Seq<u8>) -> Option<Sign1View> {
    match spec_head(s, 0) {
        Some((major, info, n, p0)) => if major == 4 && n == 4 {
            match spec_read_bstr(s, p0) {
                Some((pb, p1)) => match spec_protected_header(pb) {
                    Some(ph) => match spec_read_header(s, p1) {
                        Some((uh, p2)) => match spec_read_payload(s, p2) {
                            Some((payload, p3)) => match spec_read_bstr(s, p3) {
                                Some((sig, p4)) => if p4 == s.len() {
                                    Some(
                                        Sign1View {
                                            protected_bytes: pb,
                                            protected: ph,
                                            unprotected: uh,
                                            payload,
                                            signature: sig,
                                        },
                                    )
                                } else {
                                    None
                                },
                                None => None,
                            },
                            None => None,
                        },
                        None => None,
                    },
                    None => None,
                },
                None => None,
            }
        } else {
            None
        },
        None => None,
    }
}

/// The `Sig_structure` that a COSE_Sign1 signature covers, with an empty
/// external AAD: `["Signature1", protected, h'', payload]`.
pub open spec fn spec_sig_structure(protected_bytes: Seq<u8>, payload: Seq<u8>) -> Seq<u8> {
    spec_encode_head(4, 4) + spec_encode_text("Signature1"@) + spec_encode_bstr(protected_bytes)
        + spec_encode_bstr(Seq::empty()) + spec_encode_bstr(payload)
}

/// A COSE_Sign1 with an empty unprotected header.
pub open spec fn spec_encode_sign1(protected_bytes: Seq<u8>, payload: Seq<u8>, signature: Seq<u8>) -> Seq<u8> {
    spec_encode_head(4, 4) + spec_encode_bstr(protected_bytes) + seq![0xa0u8] + spec_encode_bstr(
        payload,
    ) + spec_encode_bstr(signature)
}

} // verus!

verus! {

pub fn read_bstr(s: &[u8], pos: usize) -> (r: Option<(Vec<u8>, usize)>)
    ensures
        match r {
            Some((v, e)) => spec_read_bstr(s@, pos as int) == Some((v@, e as int)),
            None => spec_read_bstr(s@, pos as int) is None,
        },
{
    let len = s.len();
    match read_head(s, pos) {
        Some((major, _info, arg, next)) => {
            proof {
                crate::cbor::lemma_head_advances(s@, pos as int);
            }
            if major != 2 || arg > (len - next) as u64 {
                return None;
            }
            let end = next + arg as usize;
            let v = vstd::slice::slice_to_vec(&s[next..end]);
            Some((v, end))
        },
        None => None,
    }
}

fn read_label(s: &[u8], pos: usize) -> (r: Option<(Label, usize)>)
    ensures
        match r {
            Some((l, e)) => spec_read_label(s@, pos as int) == Some((l@, e as int)),
            None => spec_read_label(s@, pos as int) is None,
        },
{
    match read_i64(s, pos) {
        Some((v, e)) => Some((Label::Int(v), e)),
        None => match read_text(s, pos) {
            Some((t, e)) => Some((Label::Text(t), e)),
            None => None,
        },
    }
}

fn read_labels(s: &[u8], pos: usize, count: u64) -> (r: Option<usize>)
    ensures
        match r {
            Some(e) => spec_read_labels(s@, pos as int, count as nat) == Some(e as int),
            None => spec_read_labels(s@, pos as int, count as nat) is None,
        },
{
    let mut p = pos;
    let mut k: u64 = 0;
    while k < count
        invariant
            k <= count,
            spec_read_labels(s@, pos as int, count as nat) == spec_read_labels(
                s@,
                p as int,
                (count - k) as nat,
            ),
        decreases count - k,
    {
        match read_label(s, p) {
            Some((_l, e)) => {
                p = e;
            },
            None => return None,
        }
        k = k + 1;
    }
    Some(p)
}

fn label_eq(a: &Label, b: &Label) -> (r: bool)
    ensures
        r == (a@ == b@),
{
    match (a, b) {
        (Label::Int(x), Label::Int(y)) => *x == *y,
        (Label::Text(x), Label::Text(y)) => str_eq(x.as_str(), y.as_str()),
        _ => false,
    }
}

fn labels_contain(seen: &Vec<Label>, l: &Label) -> (r: bool)
    ensures
        r == seen@.map_values(|x: Label| x@).contains(l@),
{
    let ghost v = seen@.map_values(|x: Label| x@);
    let mut i: usize = 0;
    while i < seen.len()
        invariant
            i <= seen.len(),
            v == seen@.map_values(|x: Label| x@),
            forall|j: int| 0 <= j < i ==> v[j] != l@,
        decreases seen.len() - i,
    {
        if label_eq(&seen[i], l) {
            assert(v[i as int] == l@);
            return true;
        }
        i = i + 1;
    }
    false
}

fn header_value(s: &[u8], pos: usize, l: &Label, h: CoseHeader) -> (r: Option<(CoseHeader, usize)>)
    ensures
        match r {
            Some((h2, e)) => spec_header_value(s@, pos as int, l@, h) == Some((h2, e as int)),
            None => spec_header_value(s@, pos as int, l@, h) is None,
        },
{
    let tag: i64 = match l {
        Label::Int(i) => *i,
        Label::Text(_) => 0,
    };
    let is_int = match l {
        Label::Int(_) => true,
        Label::Text(_) => false,
    };
    if is_int && tag == HEADER_ALG {
        match read_i64(s, pos) {
            Some((v, e)) => Some((CoseHeader { alg: Some(CoseAlg::Int(v)), ..h }, e)),
            None => match read_text(s, pos) {
                Some((_t, e)) => Some((CoseHeader { alg: Some(CoseAlg::Text), ..h }, e)),
                None => None,
            },
        }
    } else if is_int && tag == HEADER_CRIT {
        match read_head(s, pos) {
            Some((major, _info, n, p)) => {
                if major == 4 && n >= 1 {
                    match read_labels(s, p, n) {
                        Some(e) => Some((CoseHeader { crit: n, ..h }, e)),
                        None => None,
                    }
                } else {
                    None
                }
            },
            None => None,
        }
    } else if is_int && tag == HEADER_CONTENT_TYPE {
        match read_uint(s, pos) {
            Some((_v, e)) => Some((CoseHeader { content_type: true, ..h }, e)),
            None => match read_text(s, pos) {
                Some((_t, e)) => Some((CoseHeader { content_type: true, ..h }, e)),
                None => None,
            },
        }
    } else {
        match item_end(s, pos, MAX_DEPTH - 1) {
            Some(e) => Some((h, e)),
            None => None,
        }
    }
}

/// Reads a header map at `pos`.
pub fn read_header(s: &[u8], pos: usize) -> (r: Option<(CoseHeader, usize)>)
    ensures
        match r {
            Some((h, e)) => spec_read_header(s@, pos as int) == Some((h, e as int)),
            None => spec_read_header(s@, pos as int) is None,
        },
{
    let (major, _info, n, p0) = match read_head(s, pos) {
        None => return None,
        Some(x) => x,
    };
    if major != 5 {
        return None;
    }
    let mut h = CoseHeader { alg: None, crit: 0, content_type: false, len: 0 };
    let mut seen: Vec<Label> = Vec::new();
    assert(seen@.map_values(|x: Label| x@) =~= Seq::<LabelView>::empty());
    let mut p = p0;
    let mut k: u64 = 0;
    while k < n
        invariant
            k <= n,
            h.len == k,
            spec_read_header(s@, pos as int) == spec_header_entries(
                s@,
                p as int,
                (n - k) as nat,
                h,
                seen@.map_values(|x: Label| x@),
            ),
        decreases n - k,
    {
        let (l, p1) = match read_label(s, p) {
            None => return None,
            Some(x) => x,
        };
        if labels_contain(&seen, &l) {
            return None;
        }
        let (h2, e) = match header_value(s, p1, &l, h) {
            None => return None,
            Some(x) => x,
        };
        assert(h2.len == h.len);
        let ghost before = seen@.map_values(|x: Label| x@);
        let ghost lv = l@;
        seen.push(l);
        assert(seen@.map_values(|x: Label| x@) =~= before.push(lv));
        h = CoseHeader { len: h2.len + 1, ..h2 };
        p = e;
        k = k + 1;
    }
    Some((h, p))
}

/// Decodes an untagged COSE_Sign1 message that fills `s` exactly.
pub fn decode_sign1(s: &[u8]) -> (r: Option<CoseSign1>)
    ensures
        match r {
            Some(m) => spec_decode_sign1(s@) == Some(m@),
            None => spec_decode_sign1(s@) is None,
        },
{
    let (major, _info, n, p0) = match read_head(s, 0) {
        None => return None,
        Some(x) => x,
    };
    if major != 4 || n != 4 {
        return None;
    }
    let (pb, p1) = match read_bstr(s, p0) {
        None => return None,
        Some(x) => x,
    };
    let ph = if pb.len() == 0 {
        CoseHeader { alg: None, crit: 0, content_type: false, len: 0 }
    } else {
        match read_header(pb.as_slice(), 0) {
            Some((h, e)) => {
                if e != pb.len() {
                    return None;
                }
                h
            },
            None => return None,
        }
    };
    let (uh, p2) = match read_header(s, p1) {
        None => return None,
        Some(x) => x,
    };
    let (payload, p3) = match read_null(s, p2) {
        Some(e) => (None, e),
        None => match read_bstr(s, p2) {
            Some((b, e)) => (Some(b), e),
            None => return None,
        },
    };
    let (sig, p4) = match read_bstr(s, p3) {
        None => return None,
        Some(x) => x,
    };
    if p4 != s.len() {
        return None;
    }
    Some(
        CoseSign1 {
            protected_bytes: pb,
            protected: ph,
            unprotected: uh,
            payload,
            signature: sig,
        },
    )
}

/// The bytes that a COSE_Sign1 signature covers.
pub fn sig_structure(protected_bytes: &[u8], payload: &[u8]) -> (r: Vec<u8>)
    ensures
        r@ == spec_sig_structure(protected_bytes@, payload@),
{
    let mut out: Vec<u8> = Vec::new();
    push_head(&mut out, 4, 4);
    push_text(&mut out, "Signature1");
    push_bstr(&mut out, protected_bytes);
    let empty: [u8; 0] = [];
    push_bstr(&mut out, &empty);
    assert(empty@ =~= Seq::<u8>::empty());
    push_bstr(&mut out, payload);
    assert(out@ =~= spec_sig_structure(protected_bytes@, payload@));
    out
}

/// Serialises a COSE_Sign1 message with an empty unprotected header.
pub fn encode_sign1(protected_bytes: &[u8], payload: &[u8], signature: &[u8]) -> (r: Vec<u8>)
    ensures
        r@ == spec_encode_sign1(protected_bytes@, payload@, signature@),
{
    let mut out: Vec<u8> = Vec::new();
    push_head(&mut out, 4, 4);
    push_bstr(&mut out, protected_bytes);
    out.push(0xa0u8);
    push_bstr(&mut out, payload);
    push_bstr(&mut out, signature);
    assert(out@ =~= spec_encode_sign1(protected_bytes@, payload@, signature@));
    out
}

} // verus!

verus! {

proof fn lemma_read_bstr_enc(s: Seq<u8>, pos: int, b: Seq<u8>)
    requires
        b.len() < 0x1_0000_0000_0000_0000,
        crate::cbor::at(s, pos, spec_encode_bstr(b)),
    ensures
        spec_read_bstr(s, pos) == Some((b, pos + spec_encode_bstr(b).len())),
        spec_head(s, pos) matches Some((m, i, a, n)) && m == 2,
{
    let h = spec_encode_head(2, b.len());
    crate::cbor::lemma_at_concat(s, pos, h, b);
    crate::cbor::lemma_head_roundtrip(s, pos, 2, b.len());
}

proof fn lemma_empty_map_enc(s: Seq<u8>, pos: int)
    requires
        crate::cbor::at(s, pos, seq![0xa0u8]),
    ensures
        spec_read_header(s, pos) == Some((empty_header(), pos + 1)),
{
    assert(s[pos] == 0xa0u8) by {
        assert(s.subrange(pos, pos + 1)[0] == seq![0xa0u8][0]);
    }
    assert(spec_head(s, pos) == Some((5u8, 0u8, 0nat, pos + 1)));
}

proof fn lemma_payload_enc(s: Seq<u8>, pos: int, b: Seq<u8>)
    requires
        b.len() < 0x1_0000_0000_0000_0000,
        crate::cbor::at(s, pos, spec_encode_bstr(b)),
    ensures
        spec_read_payload(s, pos) == Some((Some(b), pos + spec_encode_bstr(b).len())),
{
    lemma_read_bstr_enc(s, pos, b);
    assert(spec_read_null(s, pos) is None);
}

/// Decoding a COSE_Sign1 with an empty unprotected header gives back its
/// parts, when its protected header reads as `ph`.
pub proof fn lemma_decode_sign1_enc(protected: Seq<u8>, payload: Seq<u8>, signature: Seq<u8>, ph: CoseHeader)
    requires
        spec_protected_header(protected) == Some(ph),
        protected.len() < 0x1_0000_0000_0000_0000,
        payload.len() < 0x1_0000_0000_0000_0000,
        signature.len() < 0x1_0000_0000_0000_0000,
    ensures
        spec_decode_sign1(spec_encode_sign1(protected, payload, signature)) == Some(
            Sign1View {
                protected_bytes: protected,
                protected: ph,
                unprotected: empty_header(),
                payload: Some(payload),
                signature,
            },
        ),
{
    let s = spec_encode_sign1(protected, payload, signature);
    let h = spec_encode_head(4, 4);
    let e1 = spec_encode_bstr(protected);
    let e2 = seq![0xa0u8];
    let e3 = spec_encode_bstr(payload);
    let e4 = spec_encode_bstr(signature);
    assert(s == h + e1 + e2 + e3 + e4);
    assert(crate::cbor::at(s, 0, s)) by {
        assert(s.subrange(0, s.len() as int) =~= s);
    }
    crate::cbor::lemma_at_concat(s, 0, h + e1 + e2 + e3, e4);
    crate::cbor::lemma_at_concat(s, 0, h + e1 + e2, e3);
    crate::cbor::lemma_at_concat(s, 0, h + e1, e2);
    crate::cbor::lemma_at_concat(s, 0, h, e1);
    crate::cbor::lemma_head_roundtrip(s, 0, 4, 4);
    let p1 = (h + e1).len() as int;
    let p2 = p1 + 1;
    let p3 = (h + e1 + e2 + e3).len() as int;
    lemma_read_bstr_enc(s, h.len() as int, protected);
    lemma_empty_map_enc(s, p1);
    lemma_payload_enc(s, p2, payload);
    lemma_read_bstr_enc(s, p3, signature);
}

/// The protected header of a receipt: `{1: -8, 3: "application/cwt"}`.
pub open spec fn spec_eddsa_cwt_header() -> Seq<u8> {
    spec_encode_head(5, 2) + crate::cbor::spec_encode_int(1) + crate::cbor::spec_encode_int(-8)
        + crate::cbor::spec_encode_int(3) + spec_encode_text("application/cwt"@)
}

/// The receipt's protected header reads as EdDSA with a content type.
pub proof fn lemma_eddsa_cwt_header()
    ensures
        spec_eddsa_cwt_header().len() == 20,
        spec_protected_header(spec_eddsa_cwt_header()) == Some(
            CoseHeader { alg: Some(CoseAlg::Int(ALG_EDDSA)), crit: 0, content_type: true, len: 2 },
        ),
{
    let p = spec_eddsa_cwt_header();
    let h = spec_encode_head(5, 2);
    let l1 = crate::cbor::spec_encode_int(1);
    let v1 = crate::cbor::spec_encode_int(-8);
    let l2 = crate::cbor::spec_encode_int(3);
    let v2 = spec_encode_text("application/cwt"@);
    reveal_strlit("application/cwt");
    assert(is_ascii_chars("application/cwt"@));
    is_ascii_chars_encode_utf8("application/cwt"@);
    assert(crate::cbor::at(p, 0, p)) by {
        assert(p.subrange(0, p.len() as int) =~= p);
    }
    crate::cbor::lemma_at_concat(p, 0, h + l1 + v1 + l2, v2);
    crate::cbor::lemma_at_concat(p, 0, h + l1 + v1, l2);
    crate::cbor::lemma_at_concat(p, 0, h + l1, v1);
    crate::cbor::lemma_at_concat(p, 0, h, l1);
    crate::cbor::lemma_head_roundtrip(p, 0, 5, 2);
    crate::cbor::lemma_read_i64_enc(p, 1, 1);
    crate::cbor::lemma_read_i64_enc(p, 2, -8);
    crate::cbor::lemma_read_i64_enc(p, 3, 3);
    crate::cbor::lemma_read_text_enc(p, 4, "application/cwt"@);
    let b = encode_utf8("application/cwt"@);
    crate::cbor::lemma_at_concat(p, 4, spec_encode_head(3, b.len()), b);
    crate::cbor::lemma_head_roundtrip(p, 4, 3, b.len());
    assert(spec_read_uint(p, 4) is None);
    let h0 = empty_header();
    let h1 = CoseHeader { alg: Some(CoseAlg::Int(-8i64)), ..h0 };
    let h1b = CoseHeader { len: 1, ..h1 };
    let h2 = CoseHeader { content_type: true, ..h1b };
    let h2b = CoseHeader { len: 2, ..h2 };
    let seen1 = Seq::<LabelView>::empty().push(LabelView::Int(1i64));
    assert(!seen1.contains(LabelView::Int(3i64))) by {
        assert(seen1[0] == LabelView::Int(1i64));
    }
    assert(spec_header_value(p, 2, LabelView::Int(1i64), h0) == Some((h1, 3int)));
    assert(spec_header_value(p, 4, LabelView::Int(3i64), h1b) == Some((h2, p.len() as int)));
    assert(spec_header_entries(p, p.len() as int, 0, h2b, seen1.push(LabelView::Int(3i64))) == Some((h2b, p.len() as int)));
    assert(spec_header_entries(p, 3, 1, h1b, seen1) == Some((h2b, p.len() as int)));
    assert(spec_header_entries(p, 1, 2, h0, Seq::empty()) == Some((h2b, p.len() as int)));
}

} // verus!
