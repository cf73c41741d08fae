//! CBOR encoding of the Nitro attestation document (a map keyed by field
//! name), with its decoder and a proof that decoding gives back what was
//! encoded.

use vstd::prelude::*;
use vstd::utf8::*;
use crate::cbor::{
    MAX_DEPTH, at, item_end, lemma_at_concat, lemma_head_roundtrip, lemma_read_bytes_enc_array,
    lemma_read_text_enc, lemma_read_uint_enc, push_head, push_text, push_u8_array, spec_encode_int, read_bytes,
    read_head, read_null, read_text, read_uint, spec_encode_head, spec_encode_text,
    spec_encode_u8_array, spec_head, spec_item_end, spec_read_bytes, spec_read_null,
    spec_read_text, spec_read_uint,
};
use crate::text::str_eq;
use crate::types::{AttestationDoc, DocModel, bundle_view, opt_bytes_view, pcrs_sorted, pcrs_view};

verus! {

/// Why an attestation document could not be decoded.  Fields are numbered
/// in declaration order: 0 `module_id` to 8 `nonce`.
#[derive(Debug, Clone, Copy, PartialEq, Eq)]
pub enum DocError {
    Syntax,
    NotAMap,
    BadKey,
    BadValue(u8),
    Duplicate(u8),
    Missing(u8),
}

/// Index of the document field with this name, or 9 for an unknown name.
pub open spec fn field_index(name: Seq<char>) -> u8 {
    if name == "module_id"@ {
        0
    } else if name == "timestamp"@ {
        1
    } else if name == "digest"@ {
        2
    } else if name == "pcrs"@ {
        3
    } else if name == "certificate"@ {
        4
    } else if name == "cabundle"@ {
        5
    } else if name == "public_key"@ {
        6
    } else if name == "user_data"@ {
        7
    } else if name == "nonce"@ {
        8
    } else {
        9
    }
}

/// Inserts a PCR into an index-ordered list, replacing an equal index.
pub open spec fn pcr_insert(p: Seq<(u32, Seq<u8>)>, k: u32, v: Seq<u8>) -> Seq<(u32, Seq<u8>)>
    decreases p.len(),
{
    if p.len() == 0 {
        seq![(k, v)]
    } else if p[0].0 == k {
        seq![(k, v)] + p.drop_first()
    } else if k < p[0].0 {
        seq![(k, v)] + p
    } else {
        seq![p[0]] + pcr_insert(p.drop_first(), k, v)
    }
}

/// `count` (index, value) entries of the PCR map.
pub open spec fn spec_read_pcr_entries(
    s: Seq<u8>,
    pos: int,
    count: nat,
    acc: Seq<(u32, Seq<u8>)>,
) -> Option<(Seq<(u32, Seq<u8>)>, int)>
    decreases count,
{
    if count == 0 {
        Some((acc, pos))
    } else {
        match spec_read_uint(s, pos) {
            Some((k, p)) => if k <= u32::MAX {
                match spec_read_bytes(s, p) {
                    Some((v, e)) => spec_read_pcr_entries(
                        s,
                        e,
                        (count - 1) as nat,
                        pcr_insert(acc, k as u32, v),
                    ),
                    None => None,
                }
            } else {
                None
            },
            None => None,
        }
    }
}

pub open spec fn spec_read_pcrs(s: Seq<u8>, pos: int) -> Option<(Seq<(u32, Seq<u8>)>, int)> {
    match spec_head(s, pos) {
        Some((major, info, n, p)) => if major == 5 {
            spec_read_pcr_entries(s, p, n, Seq::empty())
        } else {
            None
        },
        None => None,
    }
}

pub open spec fn spec_read_bundle_elems(s: Seq<u8>, pos: int, count: nat) -> Option<(Seq<Seq<u8>>, int)>
    decreases count,
{
    if count == 0 {
        Some((Seq::empty(), pos))
    } else {
        match spec_read_bytes(s, pos) {
            Some((c, p)) => match spec_read_bundle_elems(s, p, (count - 1) as nat) {
                Some((rest, e)) => Some((seq![c] + rest, e)),
                None => None,
            },
            None => None,
        }
    }
}

pub open spec fn spec_read_bundle(s: Seq<u8>, pos: int) -> Option<(Seq<Seq<u8>>, int)> {
    match spec_head(s, pos) {
        Some((major, info, n, p)) => if major == 4 {
            spec_read_bundle_elems(s, p, n)
        } else {
            None
        },
        None => None,
    }
}

pub open spec fn spec_read_opt_bytes(s: Seq<u8>, pos: int) -> Option<(Option<Seq<u8>>, int)> {
    match spec_read_null(s, pos) {
        Some(e) => Some((None, e)),
        None => match spec_read_bytes(s, pos) {
            Some((b, e)) => Some((Some(b), e)),
            None => None,
        },
    }
}

/// Fields seen so far while reading a document.
pub struct DocSlots {
    pub module_id: Option<Seq<char>>,
    pub timestamp: Option<u64>,
    pub digest: Option<Seq<char>>,
    pub pcrs: Option<Seq<(u32, Seq<u8>)>>,
    pub certificate: Option<Seq<u8>>,
    pub cabundle: Option<Seq<Seq<u8>>>,
    pub public_key: Option<Option<Seq<u8>>>,
    pub user_data: Option<Option<Seq<u8>>>,
    pub nonce: Option<Option<Seq<u8>>>,
}

pub open spec fn empty_doc_slots() -> DocSlots {
    DocSlots {
        module_id: None,
        timestamp: None,
        digest: None,
        pcrs: None,
        certificate: None,
        cabundle: None,
        public_key: None,
        user_data: None,
        nonce: None,
    }
}

pub open spec fn slot_seen(a: DocSlots, i: u8) -> bool {
    if i == 0 {
        a.module_id is Some
    } else if i == 1 {
        a.timestamp is Some
    } else if i == 2 {
        a.digest is Some
    } else if i == 3 {
        a.pcrs is Some
    } else if i == 4 {
        a.certificate is Some
    } else if i == 5 {
        a.cabundle is Some
    } else if i == 6 {
        a.public_key is Some
    } else if i == 7 {
        a.user_data is Some
    } else {
        a.nonce is Some
    }
}

/// Reads the value of field `i` at `pos` into the slots.
#[verifier::opaque]
pub open spec fn spec_doc_field(s: Seq<u8>, pos: int, i: u8, a: DocSlots) -> Result<(DocSlots, int), DocError> {
    if i == 0 || i == 2 {
        match spec_read_text(s, pos) {
            Some((t, e)) => Ok(
                (if i == 0 {
                    DocSlots { module_id: Some(t), ..a }
                } else {
                    DocSlots { digest: Some(t), ..a }
                }, e),
            ),
            None => Err(DocError::BadValue(i)),
        }
    } else if i == 1 {
        match spec_read_uint(s, pos) {
            Some((v, e)) => Ok((DocSlots { timestamp: Some(v as u64), ..a }, e)),
            None => Err(DocError::BadValue(i)),
        }
    } else if i == 3 {
        match spec_read_pcrs(s, pos) {
            Some((p, e)) => Ok((DocSlots { pcrs: Some(p), ..a }, e)),
            None => Err(DocError::BadValue(i)),
        }
    } else if i == 4 {
        match spec_read_bytes(s, pos) {
            Some((b, e)) => Ok((DocSlots { certificate: Some(b), ..a }, e)),
            None => Err(DocError::BadValue(i)),
        }
    } else if i == 5 {
        match spec_read_bundle(s, pos) {
            Some((b, e)) => Ok((DocSlots { cabundle: Some(b), ..a }, e)),
            None => Err(DocError::BadValue(i)),
        }
    } else {
        match spec_read_opt_bytes(s, pos) {
            Some((o, e)) => Ok(
                (if i == 6 {
                    DocSlots { public_key: Some(o), ..a }
                } else if i == 7 {
                    DocSlots { user_data: Some(o), ..a }
                } else {
                    DocSlots { nonce: Some(o), ..a }
                }, e),
            ),
            None => Err(DocError::BadValue(i)),
        }
    }
}

/// One (name, value) entry of the document map.  A field may appear once;
/// unknown names are skipped.
#[verifier::opaque]
pub open spec fn spec_doc_entry(s: Seq<u8>, pos: int, a: DocSlots) -> Result<(DocSlots, int), DocError> {
    match spec_read_text(s, pos) {
        None => Err(DocError::BadKey),
        Some((name, p)) => {
            let i = field_index(name);
            if i == 9 {
                match spec_item_end(s, p, (MAX_DEPTH - 1) as nat) {
                    Some(e) => Ok((a, e)),
                    None => Err(DocError::Syntax),
                }
            } else if slot_seen(a, i) {
                Err(DocError::Duplicate(i))
            } else {
                spec_doc_field(s, p, i, a)
            }
        },
    }
}

pub open spec fn spec_doc_entries(s: Seq<u8>, pos: int, count: nat, a: DocSlots) -> Result<
    (DocSlots, int),
    DocError,
>
    decreases count,
{
    if count == 0 {
        Ok((a, pos))
    } else {
        match spec_doc_entry(s, pos, a) {
            Ok((a2, p)) => spec_doc_entries(s, p, (count - 1) as nat, a2),
            Err(e) => Err(e),
        }
    }
}

pub open spec fn opt_default(o: Option<Option<Seq<u8>>>) -> Option<Seq<u8>> {
    match o {
        Some(v) => v,
        None => None,
    }
}

/// The document once every entry is read: the optional fields may be absent.
pub open spec fn spec_doc_finish(a: DocSlots) -> Result<DocModel, DocError> {
    if a.module_id is None {
        Err(DocError::Missing(0))
    } else if a.timestamp is None {
        Err(DocError::Missing(1))
    } else if a.digest is None {
        Err(DocError::Missing(2))
    } else if a.pcrs is None {
        Err(DocError::Missing(3))
    } else if a.certificate is None {
        Err(DocError::Missing(4))
    } else if a.cabundle is None {
        Err(DocError::Missing(5))
    } else {
        Ok(
            DocModel {
                module_id: a.module_id.unwrap(),
                timestamp: a.timestamp.unwrap(),
                digest: a.digest.unwrap(),
                pcrs: a.pcrs.unwrap(),
                certificate: a.certificate.unwrap(),
                cabundle: a.cabundle.unwrap(),
                public_key: opt_default(a.public_key),
                user_data: opt_default(a.user_data),
                nonce: opt_default(a.nonce),
            },
        )
    }
}

/// The document that these bytes encode (bytes after the map are ignored).
pub open spec fn spec_decode_doc(s: Seq<u8>) -> Result<DocModel, DocError> {
    match spec_head(s, 0) {
        None => Err(DocError::Syntax),
        Some((major, info, n, p)) => if major != 5 {
            Err(DocError::NotAMap)
        } else {
            match spec_doc_entries(s, p, n, empty_doc_slots()) {
                Ok((a, e)) => spec_doc_finish(a),
                Err(e) => Err(e),
            }
        },
    }
}

} // verus!

verus! {

/// `i` is the position at which index `k` belongs in `p`: every PCR before
/// it has a smaller index, and the one at it (if any) does not.
pub open spec fn pcr_slot(p: Seq<(u32, Seq<u8>)>, k: u32, i: int) -> bool {
    &&& 0 <= i <= p.len()
    &&& forall|j: int| 0 <= j < i ==> p[j].0 < k
    &&& i < p.len() ==> p[i].0 >= k
}

proof fn lemma_pcr_insert_at(p: Seq<(u32, Seq<u8>)>, k: u32, v: Seq<u8>, i: int)
    requires
        pcr_slot(p, k, i),
    ensures
        pcr_insert(p, k, v) == p.take(i) + seq![(k, v)] + p.skip(
            if i < p.len() && p[i].0 == k {
                i + 1
            } else {
                i
            },
        ),
    decreases i,
{
    if i == 0 {
        if p.len() == 0 {
            assert(p.take(0) + seq![(k, v)] + p.skip(0) =~= seq![(k, v)]);
        } else if p[0].0 == k {
            assert(p.take(0) + seq![(k, v)] + p.skip(1) =~= seq![(k, v)] + p.drop_first());
        } else {
            assert(p.take(0) + seq![(k, v)] + p.skip(0) =~= seq![(k, v)] + p);
        }
    } else {
        let q = p.drop_first();
        assert forall|j: int| 0 <= j < i - 1 implies q[j].0 < k by {
            assert(q[j] == p[j + 1]);
        }
        lemma_pcr_insert_at(q, k, v, i - 1);
        let skip = if i < p.len() && p[i].0 == k {
            i + 1
        } else {
            i
        };
        assert(p.take(i) =~= seq![p[0]] + q.take(i - 1));
        assert(p.skip(skip) =~= q.skip(skip - 1));
        assert(seq![p[0]] + (q.take(i - 1) + seq![(k, v)] + q.skip(skip - 1)) =~= p.take(i) + seq![
            (k, v),
        ] + p.skip(skip));
    }
}

/// Inserts PCR `k` into an index-ordered list, replacing an equal index.
fn insert_pcr(pcrs: &mut Vec<(u32, Vec<u8>)>, k: u32, v: Vec<u8>)
    ensures
        pcrs_view(final(pcrs)@) == pcr_insert(pcrs_view(old(pcrs)@), k, v@),
{
    let ghost p = pcrs_view(pcrs@);
    let mut i: usize = 0;
    while i < pcrs.len() && pcrs[i].0 < k
        invariant
            i <= pcrs.len(),
            p == pcrs_view(pcrs@),
            p.len() == pcrs@.len(),
            forall|j: int| 0 <= j < i ==> p[j].0 < k,
        decreases pcrs.len() - i,
    {
        i = i + 1;
    }
    proof {
        lemma_pcr_insert_at(p, k, v@, i as int);
    }
    if i < pcrs.len() && pcrs[i].0 == k {
        pcrs.set(i, (k, v));
        assert(pcrs_view(pcrs@) =~= p.take(i as int) + seq![(k, v@)] + p.skip(i + 1));
    } else {
        pcrs.insert(i, (k, v));
        assert(pcrs_view(pcrs@) =~= p.take(i as int) + seq![(k, v@)] + p.skip(i as int));
    }
}

} // verus!

verus! {

fn read_pcrs(s: &[u8], pos: usize) -> (r: Option<(Vec<(u32, Vec<u8>)>, usize)>)
    ensures
        match r {
            Some((p, e)) => spec_read_pcrs(s@, pos as int) == Some((pcrs_view(p@), e as int)),
            None => spec_read_pcrs(s@, pos as int) is None,
        },
{
    let (major, _info, n, p0) = match read_head(s, pos) {
        None => return None,
        Some(h) => h,
    };
    if major != 5 {
        return None;
    }
    let mut acc: Vec<(u32, Vec<u8>)> = Vec::new();
    assert(pcrs_view(acc@) =~= Seq::<(u32, Seq<u8>)>::empty());
    let mut p = p0;
    let mut c: u64 = 0;
    while c < n
        invariant
            c <= n,
            spec_read_pcrs(s@, pos as int) == spec_read_pcr_entries(
                s@,
                p as int,
                (n - c) as nat,
                pcrs_view(acc@),
            ),
        decreases n - c,
    {
        let (k, p1) = match read_uint(s, p) {
            None => return None,
            Some(x) => x,
        };
        if k > 0xffff_ffffu64 {
            return None;
        }
        let (v, p2) = match read_bytes(s, p1) {
            None => return None,
            Some(x) => x,
        };
        insert_pcr(&mut acc, k as u32, v);
        p = p2;
        c = c + 1;
    }
    Some((acc, p))
}

/// `pre` followed by what `r` read, if it read anything.
pub open spec fn prepend_bundle(pre: Seq<Seq<u8>>, r: Option<(Seq<Seq<u8>>, int)>) -> Option<
    (Seq<Seq<u8>>, int),
> {
    match r {
        Some((rest, e)) => Some((pre + rest, e)),
        None => None,
    }
}

fn read_bundle(s: &[u8], pos: usize) -> (r: Option<(Vec<Vec<u8>>, usize)>)
    ensures
        match r {
            Some((b, e)) => spec_read_bundle(s@, pos as int) == Some((bundle_view(b@), e as int)),
            None => spec_read_bundle(s@, pos as int) is None,
        },
{
    let (major, _info, n, p0) = match read_head(s, pos) {
        None => return None,
        Some(h) => h,
    };
    if major != 4 {
        return None;
    }
    let mut acc: Vec<Vec<u8>> = Vec::new();
    proof {
        assert(bundle_view(acc@) =~= Seq::<Seq<u8>>::empty());
        match spec_read_bundle_elems(s@, p0 as int, n as nat) {
            Some((rest, e)) => {
                assert(Seq::<Seq<u8>>::empty() + rest =~= rest);
            },
            None => {},
        }
    }
    let mut p = p0;
    let mut c: u64 = 0;
    while c < n
        invariant
            c <= n,
            spec_read_bundle(s@, pos as int) == prepend_bundle(
                bundle_view(acc@),
                spec_read_bundle_elems(s@, p as int, (n - c) as nat),
            ),
        decreases n - c,
    {
        let (v, p1) = match read_bytes(s, p) {
            None => return None,
            Some(x) => x,
        };
        let ghost before = bundle_view(acc@);
        acc.push(v);
        proof {
            assert(bundle_view(acc@) =~= before + seq![v@]);
            match spec_read_bundle_elems(s@, p1 as int, (n - c - 1) as nat) {
                Some((rest, e)) => {
                    assert(before + (seq![v@] + rest) =~= bundle_view(acc@) + rest);
                },
                None => {},
            }
        }
        p = p1;
        c = c + 1;
    }
    proof {
        assert(bundle_view(acc@) + Seq::<Seq<u8>>::empty() =~= bundle_view(acc@));
    }
    Some((acc, p))
}

fn read_opt_bytes(s: &[u8], pos: usize) -> (r: Option<(Option<Vec<u8>>, usize)>)
    ensures
        match r {
            Some((o, e)) => spec_read_opt_bytes(s@, pos as int) == Some((opt_bytes_view(o), e as int)),
            None => spec_read_opt_bytes(s@, pos as int) is None,
        },
{
    match read_null(s, pos) {
        Some(e) => Some((None, e)),
        None => match read_bytes(s, pos) {
            Some((b, e)) => Some((Some(b), e)),
            None => None,
        },
    }
}

} // verus!

verus! {

struct DSlots {
    module_id: Option<String>,
    timestamp: Option<u64>,
    digest: Option<String>,
    pcrs: Option<Vec<(u32, Vec<u8>)>>,
    certificate: Option<Vec<u8>>,
    cabundle: Option<Vec<Vec<u8>>>,
    public_key: Option<Option<Vec<u8>>>,
    user_data: Option<Option<Vec<u8>>>,
    nonce: Option<Option<Vec<u8>>>,
}

spec fn opt_text_view(o: Option<String>) -> Option<Seq<char>> {
    match o {
        Some(t) => Some(t@),
        None => None,
    }
}

spec fn opt_opt_view(o: Option<Option<Vec<u8>>>) -> Option<Option<Seq<u8>>> {
    match o {
        Some(v) => Some(opt_bytes_view(v)),
        None => None,
    }
}

spec fn dslots_view(a: DSlots) -> DocSlots {
    DocSlots {
        module_id: opt_text_view(a.module_id),
        timestamp: a.timestamp,
        digest: opt_text_view(a.digest),
        pcrs: match a.pcrs {
            Some(p) => Some(pcrs_view(p@)),
            None => None,
        },
        certificate: match a.certificate {
            Some(c) => Some(c@),
            None => None,
        },
        cabundle: match a.cabundle {
            Some(b) => Some(bundle_view(b@)),
            None => None,
        },
        public_key: opt_opt_view(a.public_key),
        user_data: opt_opt_view(a.user_data),
        nonce: opt_opt_view(a.nonce),
    }
}

fn doc_field_index(name: &str) -> (i: u8)
    ensures
        i == field_index(name@),
{
    if str_eq(name, "module_id") {
        0
    } else if str_eq(name, "timestamp") {
        1
    } else if str_eq(name, "digest") {
        2
    } else if str_eq(name, "pcrs") {
        3
    } else if str_eq(name, "certificate") {
        4
    } else if str_eq(name, "cabundle") {
        5
    } else if str_eq(name, "public_key") {
        6
    } else if str_eq(name, "user_data") {
        7
    } else if str_eq(name, "nonce") {
        8
    } else {
        9
    }
}

fn doc_entry(s: &[u8], pos: usize, a: &mut DSlots) -> (r: Result<usize, DocError>)
    ensures
        match r {
            Ok(e) => spec_doc_entry(s@, pos as int, dslots_view(*old(a))) == Ok::<
                (DocSlots, int),
                DocError,
            >((dslots_view(*final(a)), e as int)),
            Err(x) => spec_doc_entry(s@, pos as int, dslots_view(*old(a))) == Err::<
                (DocSlots, int),
                DocError,
            >(x),
        },
{
    reveal(spec_doc_field);
    reveal(spec_doc_entry);
    let (name, p) = match read_text(s, pos) {
        None => return Err(DocError::BadKey),
        Some(x) => x,
    };
    let i = doc_field_index(name.as_str());
    if i == 9 {
        return match item_end(s, p, MAX_DEPTH - 1) {
            None => Err(DocError::Syntax),
            Some(e) => Ok(e),
        };
    }
    if i == 0 || i == 2 {
        if (i == 0 && a.module_id.is_some()) || (i == 2 && a.digest.is_some()) {
            return Err(DocError::Duplicate(i));
        }
        let (t, e) = match read_text(s, p) {
            None => return Err(DocError::BadValue(i)),
            Some(x) => x,
        };
        if i == 0 {
            a.module_id = Some(t);
        } else {
            a.digest = Some(t);
        }
        Ok(e)
    } else if i == 1 {
        if a.timestamp.is_some() {
            return Err(DocError::Duplicate(i));
        }
        let (v, e) = match read_uint(s, p) {
            None => return Err(DocError::BadValue(i)),
            Some(x) => x,
        };
        a.timestamp = Some(v);
        Ok(e)
    } else if i == 3 {
        if a.pcrs.is_some() {
            return Err(DocError::Duplicate(i));
        }
        let (v, e) = match read_pcrs(s, p) {
            None => return Err(DocError::BadValue(i)),
            Some(x) => x,
        };
        a.pcrs = Some(v);
        Ok(e)
    } else if i == 4 {
        if a.certificate.is_some() {
            return Err(DocError::Duplicate(i));
        }
        let (v, e) = match read_bytes(s, p) {
            None => return Err(DocError::BadValue(i)),
            Some(x) => x,
        };
        a.certificate = Some(v);
        Ok(e)
    } else if i == 5 {
        if a.cabundle.is_some() {
            return Err(DocError::Duplicate(i));
        }
        let (v, e) = match read_bundle(s, p) {
            None => return Err(DocError::BadValue(i)),
            Some(x) => x,
        };
        a.cabundle = Some(v);
        Ok(e)
    } else {
        if (i == 6 && a.public_key.is_some()) || (i == 7 && a.user_data.is_some()) || (i == 8
            && a.nonce.is_some()) {
            return Err(DocError::Duplicate(i));
        }
        let (v, e) = match read_opt_bytes(s, p) {
            None => return Err(DocError::BadValue(i)),
            Some(x) => x,
        };
        if i == 6 {
            a.public_key = Some(v);
        } else if i == 7 {
            a.user_data = Some(v);
        } else {
            a.nonce = Some(v);
        }
        Ok(e)
    }
}

/// Decodes an attestation document from CBOR; bytes after the document map
/// are ignored.
pub(crate) fn decode_doc(s: &[u8]) -> (r: Result<AttestationDoc, DocError>)
    ensures
        match r {
            Ok(d) => spec_decode_doc(s@) == Ok::<DocModel, DocError>(d@),
            Err(x) => spec_decode_doc(s@) == Err::<DocModel, DocError>(x),
        },
{
    let (major, info, n, p0) = match read_head(s, 0) {
        None => return Err(DocError::Syntax),
        Some(h) => h,
    };
    if major != 5 {
        return Err(DocError::NotAMap);
    }
    let mut a = DSlots {
        module_id: None,
        timestamp: None,
        digest: None,
        pcrs: None,
        certificate: None,
        cabundle: None,
        public_key: None,
        user_data: None,
        nonce: None,
    };
    assert(dslots_view(a) == empty_doc_slots());
    let mut p = p0;
    let mut k: u64 = 0;
    while k < n
        invariant
            k <= n,
            major == 5,
            spec_head(s@, 0) == Some((major, info, n as nat, p0 as int)),
            spec_doc_entries(s@, p0 as int, n as nat, empty_doc_slots()) == spec_doc_entries(
                s@,
                p as int,
                (n - k) as nat,
                dslots_view(a),
            ),
        decreases n - k,
    {
        let ghost before = dslots_view(a);
        match doc_entry(s, p, &mut a) {
            Err(x) => {
                assert(spec_doc_entries(s@, p as int, (n - k) as nat, before) == Err::<
                    (DocSlots, int),
                    DocError,
                >(x));
                return Err(x);
            },
            Ok(e) => {
                p = e;
                k = k + 1;
            },
        }
    }
    let module_id = match a.module_id {
        None => return Err(DocError::Missing(0)),
        Some(v) => v,
    };
    let timestamp = match a.timestamp {
        None => return Err(DocError::Missing(1)),
        Some(v) => v,
    };
    let digest = match a.digest {
        None => return Err(DocError::Missing(2)),
        Some(v) => v,
    };
    let pcrs = match a.pcrs {
        None => return Err(DocError::Missing(3)),
        Some(v) => v,
    };
    let certificate = match a.certificate {
        None => return Err(DocError::Missing(4)),
        Some(v) => v,
    };
    let cabundle = match a.cabundle {
        None => return Err(DocError::Missing(5)),
        Some(v) => v,
    };
    let public_key = match a.public_key {
        None => None,
        Some(v) => v,
    };
    let user_data = match a.user_data {
        None => None,
        Some(v) => v,
    };
    let nonce = match a.nonce {
        None => None,
        Some(v) => v,
    };
    Ok(
        AttestationDoc {
            module_id,
            timestamp,
            digest,
            pcrs,
            certificate,
            cabundle,
            public_key,
            user_data,
            nonce,
        },
    )
}

} // verus!

verus! {

/// The (index, value) entries of the PCR map, in list order.
pub open spec fn spec_encode_pcr_entries(p: Seq<(u32, Seq<u8>)>) -> Seq<u8>
    decreases p.len(),
{
    if p.len() == 0 {
        Seq::empty()
    } else {
        spec_encode_int(p[0].0 as int) + spec_encode_u8_array(p[0].1) + spec_encode_pcr_entries(
            p.drop_first(),
        )
    }
}

/// The certificates of the CA bundle, each a serialised `Vec<u8>`.
pub open spec fn spec_encode_bundle_elems(b: Seq<Seq<u8>>) -> Seq<u8>
    decreases b.len(),
{
    if b.len() == 0 {
        Seq::empty()
    } else {
        spec_encode_u8_array(b[0]) + spec_encode_bundle_elems(b.drop_first())
    }
}

/// An optional byte string: `null` when absent.
pub open spec fn spec_encode_opt_bytes(o: Option<Seq<u8>>) -> Seq<u8> {
    match o {
        Some(b) => spec_encode_u8_array(b),
        None => seq![0xf6u8],
    }
}

/// The CBOR encoding of a document: a map of nine text-keyed fields in
/// declaration order.
pub open spec fn spec_encode_doc(d: DocModel) -> Seq<u8> {
    spec_encode_head(5, 9) + enc_a(d) + enc_b(d) + enc_c(d)
}

/// The entries of the first three fields.
pub open spec fn enc_a(d: DocModel) -> Seq<u8> {
    (spec_encode_text("module_id"@) + spec_encode_text(d.module_id)) + (spec_encode_text(
        "timestamp"@,
    ) + spec_encode_int(d.timestamp as int)) + (spec_encode_text("digest"@) + spec_encode_text(
        d.digest,
    ))
}

/// The entries of the PCRs, the certificate and the CA bundle.
pub open spec fn enc_b(d: DocModel) -> Seq<u8> {
    (spec_encode_text("pcrs"@) + (spec_encode_head(5, d.pcrs.len()) + spec_encode_pcr_entries(
        d.pcrs,
    ))) + (spec_encode_text("certificate"@) + spec_encode_u8_array(d.certificate)) + (
    spec_encode_text("cabundle"@) + (spec_encode_head(4, d.cabundle.len())
        + spec_encode_bundle_elems(d.cabundle)))
}

/// The entries of the three optional fields.
pub open spec fn enc_c(d: DocModel) -> Seq<u8> {
    (spec_encode_text("public_key"@) + spec_encode_opt_bytes(d.public_key)) + (spec_encode_text(
        "user_data"@,
    ) + spec_encode_opt_bytes(d.user_data)) + (spec_encode_text("nonce"@) + spec_encode_opt_bytes(
        d.nonce,
    ))
}

proof fn lemma_pcr_entries_split(a: Seq<(u32, Seq<u8>)>, b: Seq<(u32, Seq<u8>)>)
    ensures
        spec_encode_pcr_entries(a + b) == spec_encode_pcr_entries(a) + spec_encode_pcr_entries(b),
    decreases a.len(),
{
    if a.len() == 0 {
        assert(a + b =~= b);
        assert(Seq::<u8>::empty() + spec_encode_pcr_entries(b) =~= spec_encode_pcr_entries(b));
    } else {
        assert((a + b).drop_first() =~= a.drop_first() + b);
        lemma_pcr_entries_split(a.drop_first(), b);
        let h = spec_encode_int(a[0].0 as int) + spec_encode_u8_array(a[0].1);
        assert(h + (spec_encode_pcr_entries(a.drop_first()) + spec_encode_pcr_entries(b)) =~= (h
            + spec_encode_pcr_entries(a.drop_first())) + spec_encode_pcr_entries(b));
    }
}

proof fn lemma_bundle_elems_split(a: Seq<Seq<u8>>, b: Seq<Seq<u8>>)
    ensures
        spec_encode_bundle_elems(a + b) == spec_encode_bundle_elems(a) + spec_encode_bundle_elems(b),
    decreases a.len(),
{
    if a.len() == 0 {
        assert(a + b =~= b);
        assert(Seq::<u8>::empty() + spec_encode_bundle_elems(b) =~= spec_encode_bundle_elems(b));
    } else {
        assert((a + b).drop_first() =~= a.drop_first() + b);
        lemma_bundle_elems_split(a.drop_first(), b);
        let h = spec_encode_u8_array(a[0]);
        assert(h + (spec_encode_bundle_elems(a.drop_first()) + spec_encode_bundle_elems(b)) =~= (h
            + spec_encode_bundle_elems(a.drop_first())) + spec_encode_bundle_elems(b));
    }
}

fn push_pcrs(out: &mut Vec<u8>, pcrs: &Vec<(u32, Vec<u8>)>)
    ensures
        final(out)@ == old(out)@ + (spec_encode_head(5, pcrs@.len()) + spec_encode_pcr_entries(
            pcrs_view(pcrs@),
        )),
{
    let ghost p = pcrs_view(pcrs@);
    push_head(out, 5, pcrs.len() as u64);
    let ghost start = out@;
    assert(p.take(0) =~= Seq::<(u32, Seq<u8>)>::empty());
    assert(out@ =~= start + spec_encode_pcr_entries(p.take(0)));
    let mut i: usize = 0;
    while i < pcrs.len()
        invariant
            i <= pcrs.len(),
            p == pcrs_view(pcrs@),
            out@ == start + spec_encode_pcr_entries(p.take(i as int)),
        decreases pcrs.len() - i,
    {
        push_head(out, 0, pcrs[i].0 as u64);
        push_u8_array(out, pcrs[i].1.as_slice());
        proof {
            let one = seq![p[i as int]];
            lemma_pcr_entries_split(p.take(i as int), one);
            assert(p.take(i + 1) =~= p.take(i as int) + one);
            assert(one.drop_first() =~= Seq::<(u32, Seq<u8>)>::empty());
            let e = spec_encode_int(p[i as int].0 as int) + spec_encode_u8_array(p[i as int].1);
            assert(spec_encode_pcr_entries(one.drop_first()) == Seq::<u8>::empty());
            assert(e + Seq::<u8>::empty() =~= e);
            assert(spec_encode_pcr_entries(one) =~= e);
            assert(out@ =~= start + spec_encode_pcr_entries(p.take(i + 1)));
        }
        i = i + 1;
    }
    assert(p.take(pcrs.len() as int) =~= p);
    assert(final(out)@ =~= old(out)@ + (spec_encode_head(5, pcrs@.len()) + spec_encode_pcr_entries(p)));
}

fn push_bundle(out: &mut Vec<u8>, b: &Vec<Vec<u8>>)
    ensures
        final(out)@ == old(out)@ + (spec_encode_head(4, b@.len()) + spec_encode_bundle_elems(
            bundle_view(b@),
        )),
{
    let ghost v = bundle_view(b@);
    push_head(out, 4, b.len() as u64);
    let ghost start = out@;
    assert(v.take(0) =~= Seq::<Seq<u8>>::empty());
    assert(out@ =~= start + spec_encode_bundle_elems(v.take(0)));
    let mut i: usize = 0;
    while i < b.len()
        invariant
            i <= b.len(),
            v == bundle_view(b@),
            out@ == start + spec_encode_bundle_elems(v.take(i as int)),
        decreases b.len() - i,
    {
        push_u8_array(out, b[i].as_slice());
        proof {
            let one = seq![v[i as int]];
            lemma_bundle_elems_split(v.take(i as int), one);
            assert(v.take(i + 1) =~= v.take(i as int) + one);
            assert(one.drop_first() =~= Seq::<Seq<u8>>::empty());
            assert(spec_encode_bundle_elems(one.drop_first()) == Seq::<u8>::empty());
            assert(spec_encode_u8_array(v[i as int]) + Seq::<u8>::empty() =~= spec_encode_u8_array(v[i as int]));
            assert(spec_encode_bundle_elems(one) =~= spec_encode_u8_array(v[i as int]));
            assert(out@ =~= start + spec_encode_bundle_elems(v.take(i + 1)));
        }
        i = i + 1;
    }
    assert(v.take(b.len() as int) =~= v);
    assert(final(out)@ =~= old(out)@ + (spec_encode_head(4, b@.len()) + spec_encode_bundle_elems(v)));
}

fn push_opt_bytes(out: &mut Vec<u8>, o: &Option<Vec<u8>>)
    ensures
        final(out)@ == old(out)@ + spec_encode_opt_bytes(opt_bytes_view(*o)),
{
    match o {
        Some(b) => push_u8_array(out, b.as_slice()),
        None => out.push(0xf6u8),
    }
}

fn push_field(out: &mut Vec<u8>, name: &str)
    ensures
        final(out)@ == old(out)@ + spec_encode_text(name@),
{
    push_text(out, name);
}

fn push_group_a(out: &mut Vec<u8>, d: &AttestationDoc)
    ensures
        final(out)@ == old(out)@ + enc_a(d@),
{
    let ghost m = d@;
    let ghost o = out@;
    push_field(out, "module_id");
    push_text(out, d.module_id.as_str());
    let ghost e1 = spec_encode_text("module_id"@) + spec_encode_text(m.module_id);
    assert(out@ =~= o + e1);
    push_field(out, "timestamp");
    push_head(out, 0, d.timestamp);
    let ghost e2 = spec_encode_text("timestamp"@) + spec_encode_int(m.timestamp as int);
    assert(out@ =~= o + e1 + e2);
    push_field(out, "digest");
    push_text(out, d.digest.as_str());
    let ghost e3 = spec_encode_text("digest"@) + spec_encode_text(m.digest);
    assert(out@ =~= o + (e1 + e2 + e3));
}

fn push_group_b(out: &mut Vec<u8>, d: &AttestationDoc)
    ensures
        final(out)@ == old(out)@ + enc_b(d@),
{
    let ghost m = d@;
    let ghost o = out@;
    push_field(out, "pcrs");
    push_pcrs(out, &d.pcrs);
    let ghost e1 = spec_encode_text("pcrs"@) + (spec_encode_head(5, m.pcrs.len())
        + spec_encode_pcr_entries(m.pcrs));
    assert(out@ =~= o + e1);
    push_field(out, "certificate");
    push_u8_array(out, d.certificate.as_slice());
    let ghost e2 = spec_encode_text("certificate"@) + spec_encode_u8_array(m.certificate);
    assert(out@ =~= o + e1 + e2);
    push_field(out, "cabundle");
    push_bundle(out, &d.cabundle);
    let ghost e3 = spec_encode_text("cabundle"@) + (spec_encode_head(4, m.cabundle.len())
        + spec_encode_bundle_elems(m.cabundle));
    assert(out@ =~= o + (e1 + e2 + e3));
}

fn push_group_c(out: &mut Vec<u8>, d: &AttestationDoc)
    ensures
        final(out)@ == old(out)@ + enc_c(d@),
{
    let ghost m = d@;
    let ghost o = out@;
    push_field(out, "public_key");
    push_opt_bytes(out, &d.public_key);
    let ghost e1 = spec_encode_text("public_key"@) + spec_encode_opt_bytes(m.public_key);
    assert(out@ =~= o + e1);
    push_field(out, "user_data");
    push_opt_bytes(out, &d.user_data);
    let ghost e2 = spec_encode_text("user_data"@) + spec_encode_opt_bytes(m.user_data);
    assert(out@ =~= o + e1 + e2);
    push_field(out, "nonce");
    push_opt_bytes(out, &d.nonce);
    let ghost e3 = spec_encode_text("nonce"@) + spec_encode_opt_bytes(m.nonce);
    assert(out@ =~= o + (e1 + e2 + e3));
}

/// Encodes an attestation document as CBOR.
pub(crate) fn encode_doc(d: &AttestationDoc) -> (out: Vec<u8>)
    ensures
        out@ == spec_encode_doc(d@),
{
    let mut out: Vec<u8> = Vec::new();
    push_head(&mut out, 5, 9);
    assert(out@ =~= spec_encode_head(5, 9));
    push_group_a(&mut out, d);
    push_group_b(&mut out, d);
    push_group_c(&mut out, d);
    out
}

} // verus!

verus! {

/// Every PCR index in `a` is below every index in `b`.
pub open spec fn pcrs_below(a: Seq<(u32, Seq<u8>)>, b: Seq<(u32, Seq<u8>)>) -> bool {
    forall|i: int, j: int| 0 <= i < a.len() && 0 <= j < b.len() ==> a[i].0 < b[j].0
}

/// Every byte string of the document fits a CBOR length.
pub open spec fn doc_lengths_fit(d: DocModel) -> bool {
    &&& encode_utf8(d.module_id).len() < 0x1_0000_0000_0000_0000
    &&& encode_utf8(d.digest).len() < 0x1_0000_0000_0000_0000
    &&& d.pcrs.len() < 0x1_0000_0000_0000_0000
    &&& forall|i: int| 0 <= i < d.pcrs.len() ==> d.pcrs[i].1.len() < 0x1_0000_0000_0000_0000
    &&& d.certificate.len() < 0x1_0000_0000_0000_0000
    &&& d.cabundle.len() < 0x1_0000_0000_0000_0000
    &&& forall|i: int| 0 <= i < d.cabundle.len() ==> d.cabundle[i].len() < 0x1_0000_0000_0000_0000
    &&& (d.public_key matches Some(b) ==> b.len() < 0x1_0000_0000_0000_0000)
    &&& (d.user_data matches Some(b) ==> b.len() < 0x1_0000_0000_0000_0000)
    &&& (d.nonce matches Some(b) ==> b.len() < 0x1_0000_0000_0000_0000)
}

proof fn lemma_read_pcr_entries_enc(
    s: Seq<u8>,
    pos: int,
    acc: Seq<(u32, Seq<u8>)>,
    p: Seq<(u32, Seq<u8>)>,
)
    requires
        at(s, pos, spec_encode_pcr_entries(p)),
        pcrs_sorted(p),
        pcrs_below(acc, p),
        forall|i: int| 0 <= i < p.len() ==> p[i].1.len() < 0x1_0000_0000_0000_0000,
    ensures
        spec_read_pcr_entries(s, pos, p.len(), acc) == Some(
            (acc + p, pos + spec_encode_pcr_entries(p).len()),
        ),
    decreases p.len(),
{
    if p.len() == 0 {
        assert(acc + p =~= acc);
    } else {
        let k = p[0].0;
        let v = p[0].1;
        let hk = spec_encode_int(k as int);
        let hv = spec_encode_u8_array(v);
        let rest = p.drop_first();
        assert(spec_encode_pcr_entries(p) == hk + hv + spec_encode_pcr_entries(rest));
        lemma_at_concat(s, pos, hk + hv, spec_encode_pcr_entries(rest));
        lemma_at_concat(s, pos, hk, hv);
        lemma_read_uint_enc(s, pos, k as nat);
        lemma_read_bytes_enc_array(s, pos + hk.len(), v);
        assert(pcr_slot(acc, k, acc.len() as int));
        lemma_pcr_insert_at(acc, k, v, acc.len() as int);
        assert(acc.take(acc.len() as int) =~= acc);
        assert(acc.skip(acc.len() as int) =~= Seq::<(u32, Seq<u8>)>::empty());
        let acc2 = acc + seq![(k, v)];
        assert(pcr_insert(acc, k, v) =~= acc2);
        assert(pcrs_sorted(rest));
        assert forall|i: int, j: int| 0 <= i < acc2.len() && 0 <= j < rest.len() implies acc2[i].0
            < rest[j].0 by {
            assert(rest[j] == p[j + 1]);
            if i < acc.len() {
                assert(acc2[i] == acc[i]);
            }
        }
        lemma_read_pcr_entries_enc(s, pos + (hk + hv).len(), acc2, rest);
        assert(acc2 + rest =~= acc + p);
    }
}

proof fn lemma_read_bundle_elems_enc(s: Seq<u8>, pos: int, b: Seq<Seq<u8>>)
    requires
        at(s, pos, spec_encode_bundle_elems(b)),
        forall|i: int| 0 <= i < b.len() ==> b[i].len() < 0x1_0000_0000_0000_0000,
    ensures
        spec_read_bundle_elems(s, pos, b.len()) == Some((b, pos + spec_encode_bundle_elems(b).len())),
    decreases b.len(),
{
    if b.len() == 0 {
        assert(b =~= Seq::<Seq<u8>>::empty());
    } else {
        let h = spec_encode_u8_array(b[0]);
        let rest = b.drop_first();
        lemma_at_concat(s, pos, h, spec_encode_bundle_elems(rest));
        lemma_read_bytes_enc_array(s, pos, b[0]);
        lemma_read_bundle_elems_enc(s, pos + h.len(), rest);
        assert(seq![b[0]] + rest =~= b);
    }
}

proof fn lemma_read_opt_enc(s: Seq<u8>, pos: int, o: Option<Seq<u8>>)
    requires
        at(s, pos, spec_encode_opt_bytes(o)),
        o matches Some(b) ==> b.len() < 0x1_0000_0000_0000_0000,
    ensures
        spec_read_opt_bytes(s, pos) == Some((o, pos + spec_encode_opt_bytes(o).len())),
{
    match o {
        Some(b) => {
            let h = spec_encode_head(4, b.len());
            lemma_at_concat(s, pos, h, crate::cbor::spec_encode_u8_elems(b));
            lemma_head_roundtrip(s, pos, 4, b.len());
            assert(s[pos] == h[0]);
            lemma_read_bytes_enc_array(s, pos, b);
        },
        None => {
            assert(s[pos] == s.subrange(pos, pos + 1)[0]);
        },
    }
}

proof fn lemma_field_names()
    ensures
        field_index("module_id"@) == 0,
        field_index("timestamp"@) == 1,
        field_index("digest"@) == 2,
        field_index("pcrs"@) == 3,
        field_index("certificate"@) == 4,
        field_index("cabundle"@) == 5,
        field_index("public_key"@) == 6,
        field_index("user_data"@) == 7,
        field_index("nonce"@) == 8,
{
    reveal_strlit("module_id");
    reveal_strlit("timestamp");
    reveal_strlit("digest");
    reveal_strlit("pcrs");
    reveal_strlit("certificate");
    reveal_strlit("cabundle");
    reveal_strlit("public_key");
    reveal_strlit("user_data");
    reveal_strlit("nonce");
    assert("timestamp"@[0] != "module_id"@[0]);
    assert("digest"@.len() != "module_id"@.len());
    assert("digest"@.len() != "timestamp"@.len());
    assert("pcrs"@.len() != "module_id"@.len());
    assert("pcrs"@.len() != "timestamp"@.len());
    assert("pcrs"@.len() != "digest"@.len());
    assert("certificate"@.len() != "module_id"@.len());
    assert("certificate"@.len() != "timestamp"@.len());
    assert("certificate"@.len() != "digest"@.len());
    assert("certificate"@.len() != "pcrs"@.len());
    assert("cabundle"@.len() != "module_id"@.len());
    assert("cabundle"@.len() != "timestamp"@.len());
    assert("cabundle"@.len() != "digest"@.len());
    assert("cabundle"@.len() != "pcrs"@.len());
    assert("cabundle"@.len() != "certificate"@.len());
    assert("public_key"@.len() != "module_id"@.len());
    assert("public_key"@.len() != "timestamp"@.len());
    assert("public_key"@.len() != "digest"@.len());
    assert("public_key"@.len() != "pcrs"@.len());
    assert("public_key"@.len() != "certificate"@.len());
    assert("public_key"@.len() != "cabundle"@.len());
    assert("user_data"@[0] != "module_id"@[0]);
    assert("user_data"@[0] != "timestamp"@[0]);
    assert("user_data"@.len() != "digest"@.len());
    assert("user_data"@.len() != "pcrs"@.len());
    assert("user_data"@.len() != "certificate"@.len());
    assert("user_data"@.len() != "cabundle"@.len());
    assert("user_data"@.len() != "public_key"@.len());
    assert("nonce"@.len() != "module_id"@.len());
    assert("nonce"@.len() != "timestamp"@.len());
    assert("nonce"@.len() != "digest"@.len());
    assert("nonce"@.len() != "pcrs"@.len());
    assert("nonce"@.len() != "certificate"@.len());
    assert("nonce"@.len() != "cabundle"@.len());
    assert("nonce"@.len() != "public_key"@.len());
    assert("nonce"@.len() != "user_data"@.len());
}

/// Reading the entry `name: value` of a field not seen yet.
proof fn lemma_doc_entry_enc(
    s: Seq<u8>,
    pos: int,
    name: Seq<char>,
    value: Seq<u8>,
    a: DocSlots,
    a2: DocSlots,
)
    requires
        field_index(name) < 9,
        !slot_seen(a, field_index(name)),
        encode_utf8(name).len() < 0x1_0000_0000_0000_0000,
        at(s, pos, spec_encode_text(name) + value),
        spec_doc_field(s, pos + spec_encode_text(name).len(), field_index(name), a) == Ok::<
            (DocSlots, int),
            DocError,
        >((a2, pos + (spec_encode_text(name) + value).len())),
    ensures
        spec_doc_entry(s, pos, a) == Ok::<(DocSlots, int), DocError>(
            (a2, pos + (spec_encode_text(name) + value).len()),
        ),
{
    reveal(spec_doc_entry);
    lemma_at_concat(s, pos, spec_encode_text(name), value);
    lemma_read_text_enc(s, pos, name);
}

proof fn lemma_field_text(s: Seq<u8>, q: int, i: u8, t: Seq<char>, a: DocSlots)
    requires
        i == 0 || i == 2,
        encode_utf8(t).len() < 0x1_0000_0000_0000_0000,
        at(s, q, spec_encode_text(t)),
    ensures
        spec_doc_field(s, q, i, a) == Ok::<(DocSlots, int), DocError>(
            (
                if i == 0 {
                    DocSlots { module_id: Some(t), ..a }
                } else {
                    DocSlots { digest: Some(t), ..a }
                },
                q + spec_encode_text(t).len(),
            ),
        ),
{
    reveal(spec_doc_field);
    lemma_read_text_enc(s, q, t);
}

proof fn lemma_field_uint(s: Seq<u8>, q: int, v: u64, a: DocSlots)
    requires
        at(s, q, spec_encode_int(v as int)),
    ensures
        spec_doc_field(s, q, 1, a) == Ok::<(DocSlots, int), DocError>(
            (DocSlots { timestamp: Some(v), ..a }, q + spec_encode_int(v as int).len()),
        ),
{
    reveal(spec_doc_field);
    lemma_read_uint_enc(s, q, v as nat);
}

proof fn lemma_field_pcrs(s: Seq<u8>, q: int, p: Seq<(u32, Seq<u8>)>, a: DocSlots)
    requires
        pcrs_sorted(p),
        p.len() < 0x1_0000_0000_0000_0000,
        forall|i: int| 0 <= i < p.len() ==> p[i].1.len() < 0x1_0000_0000_0000_0000,
        at(s, q, spec_encode_head(5, p.len()) + spec_encode_pcr_entries(p)),
    ensures
        spec_doc_field(s, q, 3, a) == Ok::<(DocSlots, int), DocError>(
            (
                DocSlots { pcrs: Some(p), ..a },
                q + (spec_encode_head(5, p.len()) + spec_encode_pcr_entries(p)).len(),
            ),
        ),
{
    reveal(spec_doc_field);
    let h = spec_encode_head(5, p.len());
    lemma_at_concat(s, q, h, spec_encode_pcr_entries(p));
    lemma_head_roundtrip(s, q, 5, p.len());
    lemma_read_pcr_entries_enc(s, q + h.len(), Seq::empty(), p);
    assert(Seq::<(u32, Seq<u8>)>::empty() + p =~= p);
}

proof fn lemma_field_bytes(s: Seq<u8>, q: int, b: Seq<u8>, a: DocSlots)
    requires
        b.len() < 0x1_0000_0000_0000_0000,
        at(s, q, spec_encode_u8_array(b)),
    ensures
        spec_doc_field(s, q, 4, a) == Ok::<(DocSlots, int), DocError>(
            (DocSlots { certificate: Some(b), ..a }, q + spec_encode_u8_array(b).len()),
        ),
{
    reveal(spec_doc_field);
    lemma_read_bytes_enc_array(s, q, b);
}

proof fn lemma_field_bundle(s: Seq<u8>, q: int, b: Seq<Seq<u8>>, a: DocSlots)
    requires
        b.len() < 0x1_0000_0000_0000_0000,
        forall|i: int| 0 <= i < b.len() ==> b[i].len() < 0x1_0000_0000_0000_0000,
        at(s, q, spec_encode_head(4, b.len()) + spec_encode_bundle_elems(b)),
    ensures
        spec_doc_field(s, q, 5, a) == Ok::<(DocSlots, int), DocError>(
            (
                DocSlots { cabundle: Some(b), ..a },
                q + (spec_encode_head(4, b.len()) + spec_encode_bundle_elems(b)).len(),
            ),
        ),
{
    reveal(spec_doc_field);
    let h = spec_encode_head(4, b.len());
    lemma_at_concat(s, q, h, spec_encode_bundle_elems(b));
    lemma_head_roundtrip(s, q, 4, b.len());
    lemma_read_bundle_elems_enc(s, q + h.len(), b);
}

proof fn lemma_field_opt(s: Seq<u8>, q: int, i: u8, o: Option<Seq<u8>>, a: DocSlots)
    requires
        6 <= i <= 8,
        o matches Some(b) ==> b.len() < 0x1_0000_0000_0000_0000,
        at(s, q, spec_encode_opt_bytes(o)),
    ensures
        spec_doc_field(s, q, i, a) == Ok::<(DocSlots, int), DocError>(
            (
                if i == 6 {
                    DocSlots { public_key: Some(o), ..a }
                } else if i == 7 {
                    DocSlots { user_data: Some(o), ..a }
                } else {
                    DocSlots { nonce: Some(o), ..a }
                },
                q + spec_encode_opt_bytes(o).len(),
            ),
        ),
{
    reveal(spec_doc_field);
    lemma_read_opt_enc(s, q, o);
}

proof fn lemma_names_fit()
    ensures
        encode_utf8("module_id"@).len() < 0x1_0000_0000_0000_0000,
        encode_utf8("timestamp"@).len() < 0x1_0000_0000_0000_0000,
        encode_utf8("digest"@).len() < 0x1_0000_0000_0000_0000,
        encode_utf8("pcrs"@).len() < 0x1_0000_0000_0000_0000,
        encode_utf8("certificate"@).len() < 0x1_0000_0000_0000_0000,
        encode_utf8("cabundle"@).len() < 0x1_0000_0000_0000_0000,
        encode_utf8("public_key"@).len() < 0x1_0000_0000_0000_0000,
        encode_utf8("user_data"@).len() < 0x1_0000_0000_0000_0000,
        encode_utf8("nonce"@).len() < 0x1_0000_0000_0000_0000,
{
    reveal_strlit("module_id");
    assert(is_ascii_chars("module_id"@));
    is_ascii_chars_encode_utf8("module_id"@);
    reveal_strlit("timestamp");
    assert(is_ascii_chars("timestamp"@));
    is_ascii_chars_encode_utf8("timestamp"@);
    reveal_strlit("digest");
    assert(is_ascii_chars("digest"@));
    is_ascii_chars_encode_utf8("digest"@);
    reveal_strlit("pcrs");
    assert(is_ascii_chars("pcrs"@));
    is_ascii_chars_encode_utf8("pcrs"@);
    reveal_strlit("certificate");
    assert(is_ascii_chars("certificate"@));
    is_ascii_chars_encode_utf8("certificate"@);
    reveal_strlit("cabundle");
    assert(is_ascii_chars("cabundle"@));
    is_ascii_chars_encode_utf8("cabundle"@);
    reveal_strlit("public_key");
    assert(is_ascii_chars("public_key"@));
    is_ascii_chars_encode_utf8("public_key"@);
    reveal_strlit("user_data");
    assert(is_ascii_chars("user_data"@));
    is_ascii_chars_encode_utf8("user_data"@);
    reveal_strlit("nonce");
    assert(is_ascii_chars("nonce"@));
    is_ascii_chars_encode_utf8("nonce"@);
}

proof fn lemma_entries_step(s: Seq<u8>, pos: int, n: nat, a: DocSlots, a2: DocSlots, e: int)
    requires
        spec_doc_entry(s, pos, a) == Ok::<(DocSlots, int), DocError>((a2, e)),
    ensures
        spec_doc_entries(s, pos, n + 1, a) == spec_doc_entries(s, e, n, a2),
{
}

proof fn lemma_step_text(s: Seq<u8>, pos: int, m: nat, name: Seq<char>, i: u8, t: Seq<char>, a: DocSlots)
    requires
        field_index(name) == i,
        i == 0 || i == 2,
        !slot_seen(a, i),
        encode_utf8(name).len() < 0x1_0000_0000_0000_0000,
        encode_utf8(t).len() < 0x1_0000_0000_0000_0000,
        at(s, pos, spec_encode_text(name) + spec_encode_text(t)),
    ensures
        spec_doc_entries(s, pos, m + 1, a) == spec_doc_entries(
            s,
            pos + (spec_encode_text(name) + spec_encode_text(t)).len(),
            m,
            if i == 0 {
                DocSlots { module_id: Some(t), ..a }
            } else {
                DocSlots { digest: Some(t), ..a }
            },
        ),
{
    let n = spec_encode_text(name);
    let v = spec_encode_text(t);
    lemma_at_concat(s, pos, n, v);
    lemma_field_text(s, pos + n.len(), i, t, a);
    let a2 = if i == 0 {
        DocSlots { module_id: Some(t), ..a }
    } else {
        DocSlots { digest: Some(t), ..a }
    };
    lemma_doc_entry_enc(s, pos, name, v, a, a2);
    lemma_entries_step(s, pos, m, a, a2, pos + (n + v).len());
}

proof fn lemma_step_uint(s: Seq<u8>, pos: int, m: nat, name: Seq<char>, t: u64, a: DocSlots)
    requires
        field_index(name) == 1,
        !slot_seen(a, 1),
        encode_utf8(name).len() < 0x1_0000_0000_0000_0000,
        at(s, pos, spec_encode_text(name) + spec_encode_int(t as int)),
    ensures
        spec_doc_entries(s, pos, m + 1, a) == spec_doc_entries(
            s,
            pos + (spec_encode_text(name) + spec_encode_int(t as int)).len(),
            m,
            DocSlots { timestamp: Some(t), ..a },
        ),
{
    let n = spec_encode_text(name);
    let v = spec_encode_int(t as int);
    lemma_at_concat(s, pos, n, v);
    lemma_field_uint(s, pos + n.len(), t, a);
    let a2 = DocSlots { timestamp: Some(t), ..a };
    lemma_doc_entry_enc(s, pos, name, v, a, a2);
    lemma_entries_step(s, pos, m, a, a2, pos + (n + v).len());
}

proof fn lemma_step_pcrs(s: Seq<u8>, pos: int, m: nat, name: Seq<char>, t: Seq<(u32, Seq<u8>)>, a: DocSlots)
    requires
        field_index(name) == 3,
        !slot_seen(a, 3),
        encode_utf8(name).len() < 0x1_0000_0000_0000_0000,
        pcrs_sorted(t),
        t.len() < 0x1_0000_0000_0000_0000,
        forall|i: int| 0 <= i < t.len() ==> t[i].1.len() < 0x1_0000_0000_0000_0000,
        at(s, pos, spec_encode_text(name) + (spec_encode_head(5, t.len()) + spec_encode_pcr_entries(t))),
    ensures
        spec_doc_entries(s, pos, m + 1, a) == spec_doc_entries(
            s,
            pos + (spec_encode_text(name) + (spec_encode_head(5, t.len()) + spec_encode_pcr_entries(t))).len(),
            m,
            DocSlots { pcrs: Some(t), ..a },
        ),
{
    let n = spec_encode_text(name);
    let v = spec_encode_head(5, t.len()) + spec_encode_pcr_entries(t);
    lemma_at_concat(s, pos, n, v);
    lemma_field_pcrs(s, pos + n.len(), t, a);
    let a2 = DocSlots { pcrs: Some(t), ..a };
    lemma_doc_entry_enc(s, pos, name, v, a, a2);
    lemma_entries_step(s, pos, m, a, a2, pos + (n + v).len());
}

proof fn lemma_step_bytes(s: Seq<u8>, pos: int, m: nat, name: Seq<char>, t: Seq<u8>, a: DocSlots)
    requires
        field_index(name) == 4,
        !slot_seen(a, 4),
        encode_utf8(name).len() < 0x1_0000_0000_0000_0000,
        t.len() < 0x1_0000_0000_0000_0000,
        at(s, pos, spec_encode_text(name) + spec_encode_u8_array(t)),
    ensures
        spec_doc_entries(s, pos, m + 1, a) == spec_doc_entries(
            s,
            pos + (spec_encode_text(name) + spec_encode_u8_array(t)).len(),
            m,
            DocSlots { certificate: Some(t), ..a },
        ),
{
    let n = spec_encode_text(name);
    let v = spec_encode_u8_array(t);
    lemma_at_concat(s, pos, n, v);
    lemma_field_bytes(s, pos + n.len(), t, a);
    let a2 = DocSlots { certificate: Some(t), ..a };
    lemma_doc_entry_enc(s, pos, name, v, a, a2);
    lemma_entries_step(s, pos, m, a, a2, pos + (n + v).len());
}

proof fn lemma_step_bundle(s: Seq<u8>, pos: int, m: nat, name: Seq<char>, t: Seq<Seq<u8>>, a: DocSlots)
    requires
        field_index(name) == 5,
        !slot_seen(a, 5),
        encode_utf8(name).len() < 0x1_0000_0000_0000_0000,
        t.len() < 0x1_0000_0000_0000_0000,
        forall|i: int| 0 <= i < t.len() ==> t[i].len() < 0x1_0000_0000_0000_0000,
        at(s, pos, spec_encode_text(name) + (spec_encode_head(4, t.len()) + spec_encode_bundle_elems(t))),
    ensures
        spec_doc_entries(s, pos, m + 1, a) == spec_doc_entries(
            s,
            pos + (spec_encode_text(name) + (spec_encode_head(4, t.len()) + spec_encode_bundle_elems(t))).len(),
            m,
            DocSlots { cabundle: Some(t), ..a },
        ),
{
    let n = spec_encode_text(name);
    let v = spec_encode_head(4, t.len()) + spec_encode_bundle_elems(t);
    lemma_at_concat(s, pos, n, v);
    lemma_field_bundle(s, pos + n.len(), t, a);
    let a2 = DocSlots { cabundle: Some(t), ..a };
    lemma_doc_entry_enc(s, pos, name, v, a, a2);
    lemma_entries_step(s, pos, m, a, a2, pos + (n + v).len());
}

proof fn lemma_step_opt(s: Seq<u8>, pos: int, m: nat, name: Seq<char>, i: u8, t: Option<Seq<u8>>, a: DocSlots)
    requires
        field_index(name) == i,
        6 <= i <= 8,
        !slot_seen(a, i),
        encode_utf8(name).len() < 0x1_0000_0000_0000_0000,
        t matches Some(b) ==> b.len() < 0x1_0000_0000_0000_0000,
        at(s, pos, spec_encode_text(name) + spec_encode_opt_bytes(t)),
    ensures
        spec_doc_entries(s, pos, m + 1, a) == spec_doc_entries(
            s,
            pos + (spec_encode_text(name) + spec_encode_opt_bytes(t)).len(),
            m,
            if i == 6 {
                DocSlots { public_key: Some(t), ..a }
            } else if i == 7 {
                DocSlots { user_data: Some(t), ..a }
            } else {
                DocSlots { nonce: Some(t), ..a }
            },
        ),
{
    let n = spec_encode_text(name);
    let v = spec_encode_opt_bytes(t);
    lemma_at_concat(s, pos, n, v);
    lemma_field_opt(s, pos + n.len(), i, t, a);
    let a2 = if i == 6 {
        DocSlots { public_key: Some(t), ..a }
    } else if i == 7 {
        DocSlots { user_data: Some(t), ..a }
    } else {
        DocSlots { nonce: Some(t), ..a }
    };
    lemma_doc_entry_enc(s, pos, name, v, a, a2);
    lemma_entries_step(s, pos, m, a, a2, pos + (n + v).len());
}




spec fn slots_a(d: DocModel, a: DocSlots) -> DocSlots {
    DocSlots { module_id: Some(d.module_id), timestamp: Some(d.timestamp), digest: Some(d.digest), ..a }
}

spec fn slots_b(d: DocModel, a: DocSlots) -> DocSlots {
    DocSlots { pcrs: Some(d.pcrs), certificate: Some(d.certificate), cabundle: Some(d.cabundle), ..a }
}

spec fn slots_c(d: DocModel, a: DocSlots) -> DocSlots {
    DocSlots { public_key: Some(d.public_key), user_data: Some(d.user_data), nonce: Some(d.nonce), ..a }
}

proof fn lemma_part_a(s: Seq<u8>, pos: int, m: nat, d: DocModel, a: DocSlots)
    requires
        doc_lengths_fit(d),
        a.module_id is None && a.timestamp is None && a.digest is None,
        at(s, pos, enc_a(d)),
    ensures
        spec_doc_entries(s, pos, m + 3, a) == spec_doc_entries(s, pos + enc_a(d).len(), m, slots_a(d, a)),
{
    lemma_field_names();
    lemma_names_fit();
    let e1 = spec_encode_text("module_id"@) + spec_encode_text(d.module_id);
    let e2 = spec_encode_text("timestamp"@) + spec_encode_int(d.timestamp as int);
    let e3 = spec_encode_text("digest"@) + spec_encode_text(d.digest);
    lemma_at_concat(s, pos, e1 + e2, e3);
    lemma_at_concat(s, pos, e1, e2);
    lemma_step_text(s, pos, (m + 2) as nat, "module_id"@, 0, d.module_id, a);
    let a1 = DocSlots { module_id: Some(d.module_id), ..a };
    lemma_step_uint(s, pos + e1.len(), (m + 1) as nat, "timestamp"@, d.timestamp, a1);
    let a2 = DocSlots { timestamp: Some(d.timestamp), ..a1 };
    lemma_step_text(s, pos + (e1 + e2).len(), m, "digest"@, 2, d.digest, a2);
}

proof fn lemma_part_b(s: Seq<u8>, pos: int, m: nat, d: DocModel, a: DocSlots)
    requires
        d.wf(),
        doc_lengths_fit(d),
        a.pcrs is None && a.certificate is None && a.cabundle is None,
        at(s, pos, enc_b(d)),
    ensures
        spec_doc_entries(s, pos, m + 3, a) == spec_doc_entries(s, pos + enc_b(d).len(), m, slots_b(d, a)),
{
    lemma_field_names();
    lemma_names_fit();
    let e1 = spec_encode_text("pcrs"@) + (spec_encode_head(5, d.pcrs.len()) + spec_encode_pcr_entries(d.pcrs));
    let e2 = spec_encode_text("certificate"@) + spec_encode_u8_array(d.certificate);
    let e3 = spec_encode_text("cabundle"@) + (spec_encode_head(4, d.cabundle.len()) + spec_encode_bundle_elems(d.cabundle));
    lemma_at_concat(s, pos, e1 + e2, e3);
    lemma_at_concat(s, pos, e1, e2);
    lemma_step_pcrs(s, pos, (m + 2) as nat, "pcrs"@, d.pcrs, a);
    let a1 = DocSlots { pcrs: Some(d.pcrs), ..a };
    lemma_step_bytes(s, pos + e1.len(), (m + 1) as nat, "certificate"@, d.certificate, a1);
    let a2 = DocSlots { certificate: Some(d.certificate), ..a1 };
    lemma_step_bundle(s, pos + (e1 + e2).len(), m, "cabundle"@, d.cabundle, a2);
}

proof fn lemma_part_c(s: Seq<u8>, pos: int, m: nat, d: DocModel, a: DocSlots)
    requires
        doc_lengths_fit(d),
        a.public_key is None && a.user_data is None && a.nonce is None,
        at(s, pos, enc_c(d)),
    ensures
        spec_doc_entries(s, pos, m + 3, a) == spec_doc_entries(s, pos + enc_c(d).len(), m, slots_c(d, a)),
{
    lemma_field_names();
    lemma_names_fit();
    let e1 = spec_encode_text("public_key"@) + spec_encode_opt_bytes(d.public_key);
    let e2 = spec_encode_text("user_data"@) + spec_encode_opt_bytes(d.user_data);
    let e3 = spec_encode_text("nonce"@) + spec_encode_opt_bytes(d.nonce);
    lemma_at_concat(s, pos, e1 + e2, e3);
    lemma_at_concat(s, pos, e1, e2);
    lemma_step_opt(s, pos, (m + 2) as nat, "public_key"@, 6, d.public_key, a);
    let a1 = DocSlots { public_key: Some(d.public_key), ..a };
    lemma_step_opt(s, pos + e1.len(), (m + 1) as nat, "user_data"@, 7, d.user_data, a1);
    let a2 = DocSlots { user_data: Some(d.user_data), ..a1 };
    lemma_step_opt(s, pos + (e1 + e2).len(), m, "nonce"@, 8, d.nonce, a2);
}

/// Decoding the encoding of a document gives the document back.
pub proof fn lemma_doc_roundtrip(d: DocModel)
    requires
        d.wf(),
        doc_lengths_fit(d),
    ensures
        spec_decode_doc(spec_encode_doc(d)) == Ok::<DocModel, DocError>(d),
{
    let s = spec_encode_doc(d);
    let h = spec_encode_head(5, 9);
    let ea = enc_a(d);
    let eb = enc_b(d);
    let ec = enc_c(d);
    assert(at(s, 0, s)) by {
        assert(s.subrange(0, s.len() as int) =~= s);
    }
    lemma_at_concat(s, 0, h + ea + eb, ec);
    lemma_at_concat(s, 0, h + ea, eb);
    lemma_at_concat(s, 0, h, ea);
    lemma_head_roundtrip(s, 0, 5, 9);
    let a0 = empty_doc_slots();
    lemma_part_a(s, h.len() as int, 6, d, a0);
    let a3 = slots_a(d, a0);
    lemma_part_b(s, (h + ea).len() as int, 3, d, a3);
    let a6 = slots_b(d, a3);
    lemma_part_c(s, (h + ea + eb).len() as int, 0, d, a6);
    let a9 = slots_c(d, a6);
    assert(spec_doc_entries(s, s.len() as int, 0, a9) == Ok::<(DocSlots, int), DocError>(
        (a9, s.len() as int),
    ));
    assert(spec_doc_finish(a9) == Ok::<DocModel, DocError>(d));
}

impl AttestationDoc {
    /// Reads an attestation document from its CBOR bytes.
    pub fn from_binary(bytes: &[u8]) -> (r: Result<AttestationDoc, DocError>)
        ensures
            match r {
                Ok(d) => spec_decode_doc(bytes@) == Ok::<DocModel, DocError>(d@),
                Err(x) => spec_decode_doc(bytes@) == Err::<DocModel, DocError>(x),
            },
    {
        decode_doc(bytes)
    }

    /// The CBOR bytes of the document; writing to memory cannot fail.
    pub fn to_binary(&self) -> (r: Result<Vec<u8>, DocError>)
        ensures
            r matches Ok(b) && b@ == spec_encode_doc(self@),
    {
        Ok(encode_doc(self))
    }
}


proof fn lemma_pcr_insert_sorted(p: Seq<(u32, Seq<u8>)>, k: u32, v: Seq<u8>)
    requires
        pcrs_sorted(p),
    ensures
        pcrs_sorted(pcr_insert(p, k, v)),
        forall|j: int|
            0 <= j < pcr_insert(p, k, v).len() ==> (#[trigger] pcr_insert(p, k, v)[j]).0 == k
                || exists|i: int| 0 <= i < p.len() && p[i].0 == pcr_insert(p, k, v)[j].0,
    decreases p.len(),
{
    if p.len() > 0 && p[0].0 != k && k >= p[0].0 {
        let q = p.drop_first();
        lemma_pcr_insert_sorted(q, k, v);
        let r = pcr_insert(q, k, v);
        let t = pcr_insert(p, k, v);
        assert(t == seq![p[0]] + r);
        assert forall|j: int| 0 <= j < r.len() implies p[0].0 < (#[trigger] r[j]).0 by {
            if r[j].0 != k {
                let i = choose|i: int| 0 <= i < q.len() && q[i].0 == r[j].0;
                assert(q[i] == p[i + 1]);
            }
        }
        assert forall|a: int, b: int| 0 <= a < b < t.len() implies t[a].0 < t[b].0 by {
            if a > 0 {
                assert(t[a] == r[a - 1]);
            }
            assert(t[b] == r[b - 1]);
        }
        assert forall|j: int| 0 <= j < t.len() implies (#[trigger] t[j]).0 == k || exists|i: int|
            0 <= i < p.len() && p[i].0 == t[j].0 by {
            if j == 0 {
                assert(p[0].0 == t[0].0);
            } else {
                assert(t[j] == r[j - 1]);
                if r[j - 1].0 != k {
                    let i = choose|i: int| 0 <= i < q.len() && q[i].0 == r[j - 1].0;
                    assert(q[i] == p[i + 1]);
                }
            }
        }
    } else if p.len() > 0 && p[0].0 == k {
        let t = pcr_insert(p, k, v);
        assert forall|j: int| 0 <= j < t.len() implies (#[trigger] t[j]).0 == k || exists|i: int|
            0 <= i < p.len() && p[i].0 == t[j].0 by {
            if j > 0 {
                assert(t[j] == p[j]);
            }
        }
    } else if p.len() > 0 {
        let t = pcr_insert(p, k, v);
        assert forall|j: int| 0 <= j < t.len() implies (#[trigger] t[j]).0 == k || exists|i: int|
            0 <= i < p.len() && p[i].0 == t[j].0 by {
            if j > 0 {
                assert(t[j] == p[j - 1]);
            }
        }
    }
}

proof fn lemma_read_pcr_entries_sorted(
    s: Seq<u8>,
    pos: int,
    count: nat,
    acc: Seq<(u32, Seq<u8>)>,
)
    requires
        pcrs_sorted(acc),
    ensures
        spec_read_pcr_entries(s, pos, count, acc) matches Some((p, e)) ==> pcrs_sorted(p),
    decreases count,
{
    if count > 0 {
        match spec_read_uint(s, pos) {
            Some((k, p)) => if k <= u32::MAX {
                match spec_read_bytes(s, p) {
                    Some((v, e)) => {
                        lemma_pcr_insert_sorted(acc, k as u32, v);
                        lemma_read_pcr_entries_sorted(
                            s,
                            e,
                            (count - 1) as nat,
                            pcr_insert(acc, k as u32, v),
                        );
                    },
                    None => {},
                }
            },
            None => {},
        }
    }
}

proof fn lemma_doc_entries_sorted(s: Seq<u8>, pos: int, count: nat, a: DocSlots)
    requires
        a.pcrs matches Some(p) ==> pcrs_sorted(p),
    ensures
        spec_doc_entries(s, pos, count, a) matches Ok((b, e)) ==> (b.pcrs matches Some(p)
            ==> pcrs_sorted(p)),
    decreases count,
{
    if count > 0 {
        reveal(spec_doc_entry);
        reveal(spec_doc_field);
        match spec_doc_entry(s, pos, a) {
            Ok((a2, p)) => {
                match spec_read_text(s, pos) {
                    Some((name, q)) => {
                        match spec_head(s, q) {
                            Some((major, info, n, r)) => {
                                lemma_read_pcr_entries_sorted(s, r, n, Seq::empty());
                            },
                            None => {},
                        }
                    },
                    None => {},
                }
                lemma_doc_entries_sorted(s, p, (count - 1) as nat, a2);
            },
            Err(_) => {},
        }
    }
}

/// A decoded attestation document lists its PCRs by strictly increasing
/// index: like the map it encodes, it has at most one value per index.
pub proof fn lemma_decoded_doc_pcrs_sorted(s: Seq<u8>)
    requires
        spec_decode_doc(s) is Ok,
    ensures
        spec_decode_doc(s)->Ok_0.wf(),
{
    match spec_head(s, 0) {
        Some((major, info, n, p)) => {
            lemma_doc_entries_sorted(s, p, n, empty_doc_slots());
        },
        None => {},
    }
}

} // verus!
