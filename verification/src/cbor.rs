//! A small deterministic CBOR (RFC 8949) layer: the heads of data items,
//! skipping whole items, and the few value shapes that receipts and
//! attestation documents are made of.

use vstd::prelude::*;
use vstd::utf8::*;

verus! {

/// `256^n`.
pub open spec fn pow256(n: nat) -> nat
    decreases n,
{
    if n == 0 {
        1
    } else {
        256 * pow256((n - 1) as nat)
    }
}

/// Big-endian unsigned value of `s[start .. start + n]`.
pub open spec fn be_value(s: Seq<u8>, start: int, n: nat) -> nat
    decreases n,
{
    if n == 0 {
        0
    } else {
        be_value(s, start, (n - 1) as nat) * 256 + s[start + n - 1] as nat
    }
}

/// Number of argument bytes that follow an initial byte with this
/// additional information, or `-1` where the value is reserved or
/// marks an indefinite length (not accepted here).
pub open spec fn arg_width(info: u8) -> int {
    if info < 24 {
        0
    } else if info == 24 {
        1
    } else if info == 25 {
        2
    } else if info == 26 {
        4
    } else if info == 27 {
        8
    } else {
        -1
    }
}

/// The head of the data item that starts at `pos`: major type, additional
/// information, argument and the position just after the head.
pub open spec fn spec_head(s: Seq<u8>, pos: int) -> Option<(u8, u8, nat, int)> {
    if pos < 0 || pos >= s.len() {
        None
    } else {
        let b = s[pos];
        let major = b / 32;
        let info = b % 32;
        let w = arg_width(info);
        if w < 0 || pos + 1 + w > s.len() {
            None
        } else if info < 24 {
            Some((major, info, info as nat, pos + 1))
        } else {
            Some((major, info, be_value(s, pos + 1, w as nat), pos + 1 + w))
        }
    }
}

pub proof fn lemma_pow256_mono(a: nat, b: nat)
    requires
        a <= b,
    ensures
        pow256(a) <= pow256(b),
    decreases b,
{
    if a < b {
        lemma_pow256_mono(a, (b - 1) as nat);
        assert(pow256(b) == 256 * pow256((b - 1) as nat));
    }
}

pub proof fn lemma_pow256_8()
    ensures
        pow256(8) == 0x1_0000_0000_0000_0000,
{
    reveal_with_fuel(pow256, 9);
}

pub proof fn lemma_be_value_bound(s: Seq<u8>, start: int, n: nat)
    ensures
        be_value(s, start, n) < pow256(n),
    decreases n,
{
    if n > 0 {
        lemma_be_value_bound(s, start, (n - 1) as nat);
        let x = be_value(s, start, (n - 1) as nat);
        let p = pow256((n - 1) as nat);
        let b = s[start + n - 1] as nat;
        assert(x * 256 + b < p * 256) by (nonlinear_arith)
            requires
                x < p,
                b < 256,
        ;
    }
}

/// Reads `n <= 8` big-endian bytes starting at `start`.
fn read_be(s: &[u8], start: usize, n: usize) -> (v: u64)
    requires
        n <= 8,
        start + n <= s@.len(),
    ensures
        v as nat == be_value(s@, start as int, n as nat),
{
    let len = s.len();
    let mut v: u64 = 0;
    let mut k: usize = 0;
    while k < n
        invariant
            len == s@.len(),
            k <= n <= 8,
            start + n <= s@.len(),
            v as nat == be_value(s@, start as int, k as nat),
        decreases n - k,
    {
        proof {
            lemma_be_value_bound(s@, start as int, (k + 1) as nat);
            lemma_pow256_mono((k + 1) as nat, 8);
            lemma_pow256_8();
            assert(be_value(s@, start as int, (k + 1) as nat) == v as nat * 256 + s@[start + k] as nat);
        }
        let idx: usize = start + k;
        v = v * 256 + s[idx] as u64;
        k = k + 1;
    }
    v
}

/// Reads the head of the data item at `pos`.
pub fn read_head(s: &[u8], pos: usize) -> (r: Option<(u8, u8, u64, usize)>)
    ensures
        match r {
            Some((major, info, arg, next)) => spec_head(s@, pos as int) == Some(
                (major, info, arg as nat, next as int),
            ),
            None => spec_head(s@, pos as int) is None,
        },
{
    if pos >= s.len() {
        return None;
    }
    let b = s[pos];
    let major = b / 32;
    let info = b % 32;
    let w: usize = if info < 24 {
        0
    } else if info == 24 {
        1
    } else if info == 25 {
        2
    } else if info == 26 {
        4
    } else if info == 27 {
        8
    } else {
        return None;
    };
    if w > s.len() - pos - 1 {
        return None;
    }
    if info < 24 {
        Some((major, info, info as u64, pos + 1))
    } else {
        let arg = read_be(s, pos + 1, w);
        Some((major, info, arg, pos + 1 + w))
    }
}

} // verus!

verus! {

/// Deepest nesting of arrays, maps and tags accepted when decoding.
pub const MAX_DEPTH: usize = 256;

/// End of the well-formed data item that starts at `pos`, with at most
/// `depth` levels of nesting below it.  Text strings must be UTF-8.
pub open spec fn spec_item_end(s: Seq<u8>, pos: int, depth: nat) -> Option<int>
    decreases depth, 0nat, 0nat,
{
    match spec_head(s, pos) {
        None => None,
        Some((major, info, arg, next)) => {
            if major == 0 || major == 1 || major == 7 {
                Some(next)
            } else if major == 2 {
                if next + arg <= s.len() {
                    Some(next + arg)
                } else {
                    None
                }
            } else if major == 3 {
                if next + arg <= s.len() && valid_utf8(s.subrange(next, next + arg)) {
                    Some(next + arg)
                } else {
                    None
                }
            } else if depth == 0 {
                None
            } else if major == 4 {
                spec_items_end(s, next, arg, (depth - 1) as nat)
            } else if major == 5 {
                spec_items_end(s, next, 2 * arg, (depth - 1) as nat)
            } else {
                spec_item_end(s, next, (depth - 1) as nat)
            }
        },
    }
}

/// End of `count` consecutive well-formed data items starting at `pos`.
pub open spec fn spec_items_end(s: Seq<u8>, pos: int, count: nat, depth: nat) -> Option<int>
    decreases depth, 1nat, count,
{
    if count == 0 {
        Some(pos)
    } else {
        match spec_item_end(s, pos, depth) {
            None => None,
            Some(p) => spec_items_end(s, p, (count - 1) as nat, depth),
        }
    }
}

pub proof fn lemma_head_advances(s: Seq<u8>, pos: int)
    ensures
        spec_head(s, pos) matches Some((m, i, a, n)) ==> pos < n <= s.len() && m < 8 && i < 28,
{
}

pub proof fn lemma_item_end_advances(s: Seq<u8>, pos: int, depth: nat)
    ensures
        spec_item_end(s, pos, depth) matches Some(e) ==> pos < e <= s.len(),
    decreases depth, 0nat, 0nat,
{
    lemma_head_advances(s, pos);
    if let Some((major, info, arg, next)) = spec_head(s, pos) {
        if major == 4 && depth > 0 {
            lemma_items_end_advances(s, next, arg, (depth - 1) as nat);
        } else if major == 5 && depth > 0 {
            lemma_items_end_advances(s, next, 2 * arg, (depth - 1) as nat);
        } else if major == 6 && depth > 0 {
            lemma_item_end_advances(s, next, (depth - 1) as nat);
        }
    }
}

pub proof fn lemma_items_end_advances(s: Seq<u8>, pos: int, count: nat, depth: nat)
    requires
        0 <= pos <= s.len(),
    ensures
        spec_items_end(s, pos, count, depth) matches Some(e) ==> pos <= e <= s.len(),
    decreases depth, 1nat, count,
{
    if count > 0 {
        lemma_item_end_advances(s, pos, depth);
        if let Some(p) = spec_item_end(s, pos, depth) {
            lemma_items_end_advances(s, p, (count - 1) as nat, depth);
        }
    }
}

/// Finds the end of the data item at `pos`.
pub fn item_end(s: &[u8], pos: usize, depth: usize) -> (r: Option<usize>)
    ensures
        match r {
            Some(e) => spec_item_end(s@, pos as int, depth as nat) == Some(e as int),
            None => spec_item_end(s@, pos as int, depth as nat) is None,
        },
    decreases depth, 0nat,
{
    let len = s.len();
    let (major, info, arg, next) = match read_head(s, pos) {
        None => return None,
        Some(h) => h,
    };
    proof {
        lemma_head_advances(s@, pos as int);
    }
    if major == 0 || major == 1 || major == 7 {
        Some(next)
    } else if major == 2 || major == 3 {
        if arg > (len - next) as u64 {
            return None;
        }
        let end = next + arg as usize;
        if major == 3 {
            let body = &s[next..end];
            assert(body@ == s@.subrange(next as int, end as int));
            match crate::text::utf8_str(body) {
                None => return None,
                Some(_) => {},
            }
        }
        Some(end)
    } else if depth == 0 {
        None
    } else if major == 4 {
        items_end(s, next, arg as u128, depth - 1)
    } else if major == 5 {
        items_end(s, next, 2 * (arg as u128), depth - 1)
    } else {
        item_end(s, next, depth - 1)
    }
}

/// Finds the end of `count` consecutive data items starting at `pos`.
pub fn items_end(s: &[u8], pos: usize, count: u128, depth: usize) -> (r: Option<usize>)
    requires
        pos <= s@.len(),
    ensures
        match r {
            Some(e) => spec_items_end(s@, pos as int, count as nat, depth as nat) == Some(e as int),
            None => spec_items_end(s@, pos as int, count as nat, depth as nat) is None,
        },
    decreases depth, 1nat,
{
    let len = s.len();
    let mut p = pos;
    let mut k: u128 = 0;
    while k < count
        invariant
            len == s@.len(),
            p <= len,
            k <= count,
            spec_items_end(s@, pos as int, count as nat, depth as nat) == spec_items_end(
                s@,
                p as int,
                (count - k) as nat,
                depth as nat,
            ),
        decreases count - k,
    {
        match item_end(s, p, depth) {
            None => return None,
            Some(q) => {
                proof {
                    lemma_item_end_advances(s@, p as int, depth as nat);
                }
                p = q;
                k = k + 1;
            },
        }
    }
    Some(p)
}

} // verus!

verus! {

/// An unsigned integer (major type 0).
pub open spec fn spec_read_uint(s: Seq<u8>, pos: int) -> Option<(nat, int)> {
    match spec_head(s, pos) {
        Some((major, info, arg, next)) => if major == 0 {
            Some((arg, next))
        } else {
            None
        },
        None => None,
    }
}

/// A signed integer (major type 0 or 1) that fits in an `i64`.
pub open spec fn spec_read_i64(s: Seq<u8>, pos: int) -> Option<(int, int)> {
    match spec_head(s, pos) {
        Some((major, info, arg, next)) => if major == 0 && arg <= i64::MAX {
            Some((arg as int, next))
        } else if major == 1 && arg <= i64::MAX {
            Some((-1 - arg, next))
        } else {
            None
        },
        None => None,
    }
}

/// `count` array elements, each an unsigned integer below 256.
pub open spec fn spec_read_u8_elems(s: Seq<u8>, pos: int, count: nat) -> Option<(Seq<u8>, int)>
    decreases count,
{
    if count == 0 {
        Some((Seq::empty(), pos))
    } else {
        match spec_read_uint(s, pos) {
            Some((v, p)) => if v < 256 {
                match spec_read_u8_elems(s, p, (count - 1) as nat) {
                    Some((rest, e)) => Some((seq![v as u8] + rest, e)),
                    None => None,
                }
            } else {
                None
            },
            None => None,
        }
    }
}

/// A byte string: either a definite-length byte string (major type 2) or
/// an array of unsigned integers below 256, the shape that a serialised
/// `Vec<u8>` takes.
pub open spec fn spec_read_bytes(s: Seq<u8>, pos: int) -> Option<(Seq<u8>, int)> {
    match spec_head(s, pos) {
        Some((major, info, arg, next)) => if major == 2 {
            if next + arg <= s.len() {
                Some((s.subrange(next, next + arg), next + arg))
            } else {
                None
            }
        } else if major == 4 {
            spec_read_u8_elems(s, next, arg)
        } else {
            None
        },
        None => None,
    }
}

/// A definite-length text string (major type 3) holding UTF-8.
pub open spec fn spec_read_text(s: Seq<u8>, pos: int) -> Option<(Seq<char>, int)> {
    match spec_head(s, pos) {
        Some((major, info, arg, next)) => if major == 3 && next + arg <= s.len() && valid_utf8(
            s.subrange(next, next + arg),
        ) {
            Some((decode_utf8(s.subrange(next, next + arg)), next + arg))
        } else {
            None
        },
        None => None,
    }
}

/// `null` or `undefined`, the encodings of an absent optional value.
pub open spec fn spec_read_null(s: Seq<u8>, pos: int) -> Option<int> {
    if 0 <= pos < s.len() && (s[pos] == 0xf6 || s[pos] == 0xf7) {
        Some(pos + 1)
    } else {
        None
    }
}

pub fn read_uint(s: &[u8], pos: usize) -> (r: Option<(u64, usize)>)
    ensures
        match r {
            Some((v, e)) => spec_read_uint(s@, pos as int) == Some((v as nat, e as int)),
            None => spec_read_uint(s@, pos as int) is None,
        },
{
    match read_head(s, pos) {
        Some((major, _info, arg, next)) => if major == 0 {
            Some((arg, next))
        } else {
            None
        },
        None => None,
    }
}

pub fn read_i64(s: &[u8], pos: usize) -> (r: Option<(i64, usize)>)
    ensures
        match r {
            Some((v, e)) => spec_read_i64(s@, pos as int) == Some((v as int, e as int)),
            None => spec_read_i64(s@, pos as int) is None,
        },
{
    match read_head(s, pos) {
        Some((major, _info, arg, next)) => if major == 0 && arg <= i64::MAX as u64 {
            Some((arg as i64, next))
        } else if major == 1 && arg <= i64::MAX as u64 {
            Some((-1 - (arg as i64), next))
        } else {
            None
        },
        None => None,
    }
}

fn read_u8_elems(s: &[u8], pos: usize, count: u64) -> (r: Option<(Vec<u8>, usize)>)
    ensures
        match r {
            Some((v, e)) => spec_read_u8_elems(s@, pos as int, count as nat) == Some(
                (v@, e as int),
            ),
            None => spec_read_u8_elems(s@, pos as int, count as nat) is None,
        },
{
    let mut out: Vec<u8> = Vec::new();
    let mut p = pos;
    let mut k: u64 = 0;
    while k < count
        invariant
            k <= count,
            match spec_read_u8_elems(s@, p as int, (count - k) as nat) {
                Some((rest, e)) => spec_read_u8_elems(s@, pos as int, count as nat) == Some(
                    (out@ + rest, e),
                ),
                None => spec_read_u8_elems(s@, pos as int, count as nat) is None,
            },
        decreases count - k,
    {
        match read_uint(s, p) {
            Some((v, q)) => {
                if v >= 256 {
                    return None;
                }
                proof {
                    let c = (count - k) as nat;
                    assert(spec_read_u8_elems(s@, p as int, c) == match spec_read_u8_elems(
                        s@,
                        q as int,
                        (c - 1) as nat,
                    ) {
                        Some((rest, e)) => Some((seq![v as u8] + rest, e)),
                        None => None,
                    });
                    match spec_read_u8_elems(s@, q as int, (c - 1) as nat) {
                        Some((rest, e)) => {
                            assert(out@.push(v as u8) + rest =~= out@ + (seq![v as u8] + rest));
                        },
                        None => {},
                    }
                }
                out.push(v as u8);
                p = q;
                k = k + 1;
            },
            None => return None,
        }
    }
    proof {
        assert(out@ + Seq::<u8>::empty() =~= out@);
    }
    Some((out, p))
}

pub fn read_bytes(s: &[u8], pos: usize) -> (r: Option<(Vec<u8>, usize)>)
    ensures
        match r {
            Some((v, e)) => spec_read_bytes(s@, pos as int) == Some((v@, e as int)),
            None => spec_read_bytes(s@, pos as int) is None,
        },
{
    let len = s.len();
    match read_head(s, pos) {
        Some((major, _info, arg, next)) => {
            proof {
                lemma_head_advances(s@, pos as int);
            }
            if major == 2 {
                if arg > (len - next) as u64 {
                    return None;
                }
                let end = next + arg as usize;
                let v = vstd::slice::slice_to_vec(&s[next..end]);
                Some((v, end))
            } else if major == 4 {
                read_u8_elems(s, next, arg)
            } else {
                None
            }
        },
        None => None,
    }
}

pub fn read_text(s: &[u8], pos: usize) -> (r: Option<(String, usize)>)
    ensures
        match r {
            Some((t, e)) => spec_read_text(s@, pos as int) == Some((t@, e as int)),
            None => spec_read_text(s@, pos as int) is None,
        },
{
    let len = s.len();
    match read_head(s, pos) {
        Some((major, _info, arg, next)) => {
            proof {
                lemma_head_advances(s@, pos as int);
            }
            if major != 3 || arg > (len - next) as u64 {
                return None;
            }
            let end = next + arg as usize;
            let body = &s[next..end];
            assert(body@ == s@.subrange(next as int, end as int));
            match crate::text::utf8_str(body) {
                Some(t) => Some((t.to_string(), end)),
                None => None,
            }
        },
        None => None,
    }
}

pub fn read_null(s: &[u8], pos: usize) -> (r: Option<usize>)
    ensures
        match r {
            Some(e) => spec_read_null(s@, pos as int) == Some(e as int),
            None => spec_read_null(s@, pos as int) is None,
        },
{
    if pos < s.len() && (s[pos] == 0xf6 || s[pos] == 0xf7) {
        Some(pos + 1)
    } else {
        None
    }
}

} // verus!

verus! {

/// `n` big-endian bytes of `v`.
pub open spec fn be_bytes(v: nat, n: nat) -> Seq<u8>
    decreases n,
{
    if n == 0 {
        Seq::empty()
    } else {
        be_bytes(v / 256, (n - 1) as nat).push((v % 256) as u8)
    }
}

/// The shortest head for a data item of this major type and argument.
pub open spec fn spec_encode_head(major: u8, arg: nat) -> Seq<u8> {
    let m = major as nat * 32;
    if arg < 24 {
        seq![(m + arg) as u8]
    } else if arg < 0x100 {
        seq![(m + 24) as u8, arg as u8]
    } else if arg < 0x1_0000 {
        seq![(m + 25) as u8] + be_bytes(arg, 2)
    } else if arg < 0x1_0000_0000 {
        seq![(m + 26) as u8] + be_bytes(arg, 4)
    } else {
        seq![(m + 27) as u8] + be_bytes(arg, 8)
    }
}

pub proof fn lemma_be_bytes_len(v: nat, n: nat)
    ensures
        be_bytes(v, n).len() == n,
    decreases n,
{
    if n > 0 {
        lemma_be_bytes_len(v / 256, (n - 1) as nat);
    }
}

pub proof fn lemma_be_bytes_value(s: Seq<u8>, start: int, v: nat, n: nat)
    requires
        0 <= start,
        start + n <= s.len(),
        s.subrange(start, start + n) == be_bytes(v, n),
        v < pow256(n),
    ensures
        be_value(s, start, n) == v,
    decreases n,
{
    if n > 0 {
        lemma_be_bytes_len(v / 256, (n - 1) as nat);
        let m = (n - 1) as nat;
        assert(s.subrange(start, start + m) =~= s.subrange(start, start + n).subrange(0, m as int));
        assert(be_bytes(v, n).subrange(0, m as int) =~= be_bytes(v / 256, m));
        assert(v / 256 < pow256(m)) by {
            assert(pow256(n) == 256 * pow256(m));
        }
        lemma_be_bytes_value(s, start, v / 256, m);
        assert(s[start + n - 1] == s.subrange(start, start + n)[m as int]);
        assert(s[start + n - 1] as nat == v % 256);
    }
}

/// The head encoded at `pos` reads back as the major type and argument.
pub proof fn lemma_head_roundtrip(s: Seq<u8>, pos: int, major: u8, arg: nat)
    requires
        major < 8,
        arg < 0x1_0000_0000_0000_0000,
        0 <= pos,
        pos + spec_encode_head(major, arg).len() <= s.len(),
        s.subrange(pos, pos + spec_encode_head(major, arg).len()) == spec_encode_head(major, arg),
    ensures
        spec_head(s, pos) matches Some((m, i, a, n)) && m == major && a == arg && n == pos
            + spec_encode_head(major, arg).len(),
{
    let h = spec_encode_head(major, arg);
    assert(s[pos] == h[0]);
    let m = major as nat * 32;
    if arg < 24 {
    } else if arg < 0x100 {
        assert(s[pos + 1] == h[1]);
        reveal_with_fuel(be_value, 2);
    } else {
        let n: nat = if arg < 0x1_0000 {
            2
        } else if arg < 0x1_0000_0000 {
            4
        } else {
            8
        };
        lemma_be_bytes_len(arg, n);
        assert(h =~= seq![(m + 24 + (if n == 2 { 1nat } else if n == 4 { 2nat } else { 3nat })) as u8]
            + be_bytes(arg, n));
        assert(s.subrange(pos + 1, pos + 1 + n) =~= h.subrange(1, 1 + n as int));
        assert(h.subrange(1, 1 + n as int) =~= be_bytes(arg, n));
        reveal_with_fuel(pow256, 9);
        lemma_be_bytes_value(s, pos + 1, arg, n);
    }
}

fn push_be(out: &mut Vec<u8>, v: u64, n: usize)
    ensures
        final(out)@ == old(out)@ + be_bytes(v as nat, n as nat),
    decreases n,
{
    if n == 0 {
        assert(old(out)@ + Seq::<u8>::empty() =~= old(out)@);
        return ;
    }
    push_be(out, v / 256, n - 1);
    out.push((v % 256) as u8);
    proof {
        let a = old(out)@;
        let b = be_bytes((v / 256) as nat, (n - 1) as nat);
        assert(a + b.push((v % 256) as u8) =~= (a + b).push((v % 256) as u8));
    }
}

/// Appends the shortest head for this major type and argument.
pub fn push_head(out: &mut Vec<u8>, major: u8, arg: u64)
    requires
        major < 8,
    ensures
        final(out)@ == old(out)@ + spec_encode_head(major, arg as nat),
{
    let m: u8 = major * 32;
    if arg < 24 {
        out.push(m + arg as u8);
        assert(old(out)@.push((m + arg) as u8) =~= old(out)@ + seq![(m + arg) as u8]);
    } else if arg < 0x100 {
        out.push(m + 24);
        out.push(arg as u8);
        assert(old(out)@.push((m + 24) as u8).push(arg as u8) =~= old(out)@ + seq![
            (m + 24) as u8,
            arg as u8,
        ]);
    } else {
        let (tag, n): (u8, usize) = if arg < 0x1_0000 {
            (25, 2)
        } else if arg < 0x1_0000_0000 {
            (26, 4)
        } else {
            (27, 8)
        };
        out.push(m + tag);
        let ghost mid = out@;
        push_be(out, arg, n);
        assert(mid + be_bytes(arg as nat, n as nat) =~= old(out)@ + (seq![(m + tag) as u8]
            + be_bytes(arg as nat, n as nat)));
    }
}

} // verus!

verus! {

/// An integer as a data item: major type 0 for `v >= 0`, 1 otherwise.
pub open spec fn spec_encode_int(v: int) -> Seq<u8> {
    if v >= 0 {
        spec_encode_head(0, v as nat)
    } else {
        spec_encode_head(1, (-1 - v) as nat)
    }
}

/// Array elements of a serialised `Vec<u8>`: one unsigned integer per byte.
pub open spec fn spec_encode_u8_elems(b: Seq<u8>) -> Seq<u8>
    decreases b.len(),
{
    if b.len() == 0 {
        Seq::empty()
    } else {
        spec_encode_head(0, b[0] as nat) + spec_encode_u8_elems(b.drop_first())
    }
}

/// A serialised `Vec<u8>` (an array of small unsigned integers).
pub open spec fn spec_encode_u8_array(b: Seq<u8>) -> Seq<u8> {
    spec_encode_head(4, b.len()) + spec_encode_u8_elems(b)
}

/// A definite-length byte string.
pub open spec fn spec_encode_bstr(b: Seq<u8>) -> Seq<u8> {
    spec_encode_head(2, b.len()) + b
}

/// A definite-length text string.
pub open spec fn spec_encode_text(t: Seq<char>) -> Seq<u8> {
    spec_encode_head(3, encode_utf8(t).len()) + encode_utf8(t)
}

/// `s[pos..]` starts with `e`.
pub open spec fn at(s: Seq<u8>, pos: int, e: Seq<u8>) -> bool {
    0 <= pos && pos + e.len() <= s.len() && s.subrange(pos, pos + e.len()) == e
}

pub proof fn lemma_at_concat(s: Seq<u8>, pos: int, a: Seq<u8>, b: Seq<u8>)
    requires
        at(s, pos, a + b),
    ensures
        at(s, pos, a),
        at(s, pos + a.len(), b),
{
    let whole = s.subrange(pos, pos + a.len() + b.len());
    assert(whole == a + b);
    assert(s.subrange(pos, pos + a.len()) =~= whole.subrange(0, a.len() as int));
    assert((a + b).subrange(0, a.len() as int) =~= a);
    assert(s.subrange(pos + a.len(), pos + a.len() + b.len()) =~= whole.subrange(
        a.len() as int,
        (a.len() + b.len()) as int,
    ));
    assert((a + b).subrange(a.len() as int, (a.len() + b.len()) as int) =~= b);
}

pub proof fn lemma_read_uint_enc(s: Seq<u8>, pos: int, v: nat)
    requires
        v < 0x1_0000_0000_0000_0000,
        at(s, pos, spec_encode_head(0, v)),
    ensures
        spec_read_uint(s, pos) == Some((v, pos + spec_encode_head(0, v).len())),
{
    lemma_head_roundtrip(s, pos, 0, v);
}

pub proof fn lemma_read_i64_enc(s: Seq<u8>, pos: int, v: int)
    requires
        i64::MIN <= v <= i64::MAX,
        at(s, pos, spec_encode_int(v)),
    ensures
        spec_read_i64(s, pos) == Some((v, pos + spec_encode_int(v).len())),
{
    if v >= 0 {
        lemma_head_roundtrip(s, pos, 0, v as nat);
    } else {
        lemma_head_roundtrip(s, pos, 1, (-1 - v) as nat);
    }
}

pub proof fn lemma_read_u8_elems_enc(s: Seq<u8>, pos: int, b: Seq<u8>)
    requires
        at(s, pos, spec_encode_u8_elems(b)),
    ensures
        spec_read_u8_elems(s, pos, b.len()) == Some((b, pos + spec_encode_u8_elems(b).len())),
    decreases b.len(),
{
    if b.len() > 0 {
        let h = spec_encode_head(0, b[0] as nat);
        let rest = spec_encode_u8_elems(b.drop_first());
        lemma_at_concat(s, pos, h, rest);
        lemma_read_uint_enc(s, pos, b[0] as nat);
        lemma_read_u8_elems_enc(s, pos + h.len(), b.drop_first());
        assert(seq![b[0] as nat as u8] + b.drop_first() =~= b);
    } else {
        assert(b =~= Seq::<u8>::empty());
    }
}

pub proof fn lemma_read_bytes_enc_array(s: Seq<u8>, pos: int, b: Seq<u8>)
    requires
        b.len() < 0x1_0000_0000_0000_0000,
        at(s, pos, spec_encode_u8_array(b)),
    ensures
        spec_read_bytes(s, pos) == Some((b, pos + spec_encode_u8_array(b).len())),
{
    let h = spec_encode_head(4, b.len());
    lemma_at_concat(s, pos, h, spec_encode_u8_elems(b));
    lemma_head_roundtrip(s, pos, 4, b.len());
    lemma_read_u8_elems_enc(s, pos + h.len(), b);
}

pub proof fn lemma_read_text_enc(s: Seq<u8>, pos: int, t: Seq<char>)
    requires
        encode_utf8(t).len() < 0x1_0000_0000_0000_0000,
        at(s, pos, spec_encode_text(t)),
    ensures
        spec_read_text(s, pos) == Some((t, pos + spec_encode_text(t).len())),
{
    let b = encode_utf8(t);
    let h = spec_encode_head(3, b.len());
    lemma_at_concat(s, pos, h, b);
    lemma_head_roundtrip(s, pos, 3, b.len());
    encode_utf8_valid_utf8(t);
    encode_utf8_decode_utf8(t);
}

/// Appends an integer data item.
pub fn push_int(out: &mut Vec<u8>, v: i64)
    ensures
        final(out)@ == old(out)@ + spec_encode_int(v as int),
{
    if v >= 0 {
        push_head(out, 0, v as u64);
    } else {
        let n: i64 = -1 - v;
        push_head(out, 1, n as u64);
    }
}

/// Appends a serialised `Vec<u8>` (an array of small unsigned integers).
pub fn push_u8_array(out: &mut Vec<u8>, b: &[u8])
    ensures
        final(out)@ == old(out)@ + spec_encode_u8_array(b@),
{
    let len = b.len();
    push_head(out, 4, len as u64);
    let ghost start = out@;
    assert(b@.subrange(0, len as int) =~= b@);
    let mut i: usize = 0;
    while i < len
        invariant
            len == b@.len(),
            i <= len,
            start + spec_encode_u8_elems(b@) == out@ + spec_encode_u8_elems(b@.subrange(i as int, len as int)),
        decreases len - i,
    {
        let ghost before = out@;
        push_head(out, 0, b[i] as u64);
        proof {
            let tail = b@.subrange(i as int, len as int);
            assert(tail.drop_first() =~= b@.subrange(i + 1, len as int));
            assert(tail[0] == b@[i as int]);
            assert(before + spec_encode_u8_elems(tail) =~= out@ + spec_encode_u8_elems(b@.subrange(i + 1, len as int)));
        }
        i = i + 1;
    }
    proof {
        assert(b@.subrange(len as int, len as int) =~= Seq::<u8>::empty());
        assert(out@ + Seq::<u8>::empty() =~= out@);
        assert(b@.subrange(0, len as int) =~= b@);
    }
}

/// Appends a definite-length byte string.
pub fn push_bstr(out: &mut Vec<u8>, b: &[u8])
    ensures
        final(out)@ == old(out)@ + spec_encode_bstr(b@),
{
    push_head(out, 2, b.len() as u64);
    let ghost mid = out@;
    out.extend_from_slice(b);
    assert(mid + b@ =~= old(out)@ + (spec_encode_head(2, b@.len()) + b@));
}

/// Appends a definite-length text string.
pub fn push_text(out: &mut Vec<u8>, t: &str)
    ensures
        final(out)@ == old(out)@ + spec_encode_text(t@),
{
    let b = t.as_bytes();
    push_bstr_with_major(out, 3, b);
}

fn push_bstr_with_major(out: &mut Vec<u8>, major: u8, b: &[u8])
    requires
        major < 8,
    ensures
        final(out)@ == old(out)@ + (spec_encode_head(major, b@.len()) + b@),
{
    push_head(out, major, b.len() as u64);
    let ghost mid = out@;
    out.extend_from_slice(b);
    assert(mid + b@ =~= old(out)@ + (spec_encode_head(major, b@.len()) + b@));
}

} // verus!
