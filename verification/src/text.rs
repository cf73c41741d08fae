//! Text helpers: UTF-8 validation through std, and small string utilities.

use vstd::prelude::*;
use vstd::utf8::*;

verus! {

/// `std::str::from_utf8`: the bytes are accepted exactly when they are
/// well-formed UTF-8, and the text is what they encode.
#[verifier::external_body]
pub(crate) fn utf8_str(b: &[u8]) -> (r: Option<&str>)
    ensures
        r is Some <==> valid_utf8(b@),
        r matches Some(t) ==> t@ == decode_utf8(b@),
{
    std::str::from_utf8(b).ok()
}

} // verus!

verus! {

/// Byte-wise equality of two slices.
pub fn bytes_eq(a: &[u8], b: &[u8]) -> (r: bool)
    ensures
        r == (a@ == b@),
{
    let n = a.len();
    if n != b.len() {
        return false;
    }
    let mut i: usize = 0;
    while i < n
        invariant
            n == a@.len(),
            n == b@.len(),
            i <= n,
            forall|j: int| 0 <= j < i ==> a@[j] == b@[j],
        decreases n - i,
    {
        if a[i] != b[i] {
            return false;
        }
        i = i + 1;
    }
    assert(a@ =~= b@);
    true
}

/// Text equality, by the UTF-8 encodings.
pub fn str_eq(a: &str, b: &str) -> (r: bool)
    ensures
        r == (a@ == b@),
{
    let r = bytes_eq(a.as_bytes(), b.as_bytes());
    proof {
        encode_utf8_decode_utf8(a@);
        encode_utf8_decode_utf8(b@);
    }
    r
}

} // verus!

verus! {

/// The decimal digit of a value below ten.
pub open spec fn digit_char(d: nat) -> char {
    (d + 48) as char
}

/// Decimal text of a natural number, without leading zeros.
pub open spec fn spec_decimal(n: nat) -> Seq<char>
    decreases n,
{
    if n < 10 {
        seq![digit_char(n)]
    } else {
        spec_decimal(n / 10).push(digit_char(n % 10))
    }
}

/// Decimal text of an integer, with a leading `-` when negative.
pub open spec fn spec_int_text(n: int) -> Seq<char> {
    if n < 0 {
        seq!['-'] + spec_decimal((-n) as nat)
    } else {
        spec_decimal(n as nat)
    }
}

fn digit_str(d: u64) -> (r: &'static str)
    requires
        d < 10,
    ensures
        r@ == seq![digit_char(d as nat)],
{
    if d == 0 {
        proof { reveal_strlit("0"); }
        "0"
    } else if d == 1 {
        proof { reveal_strlit("1"); }
        "1"
    } else if d == 2 {
        proof { reveal_strlit("2"); }
        "2"
    } else if d == 3 {
        proof { reveal_strlit("3"); }
        "3"
    } else if d == 4 {
        proof { reveal_strlit("4"); }
        "4"
    } else if d == 5 {
        proof { reveal_strlit("5"); }
        "5"
    } else if d == 6 {
        proof { reveal_strlit("6"); }
        "6"
    } else if d == 7 {
        proof { reveal_strlit("7"); }
        "7"
    } else if d == 8 {
        proof { reveal_strlit("8"); }
        "8"
    } else {
        proof { reveal_strlit("9"); }
        "9"
    }
}

/// Appends the decimal text of `n`.
pub fn push_decimal(out: &mut String, n: u64)
    ensures
        final(out)@ == old(out)@ + spec_decimal(n as nat),
    decreases n,
{
    if n >= 10 {
        push_decimal(out, n / 10);
    }
    out.append(digit_str(n % 10));
    proof {
        if n >= 10 {
            assert(old(out)@ + spec_decimal((n / 10) as nat) + seq![digit_char((n % 10) as nat)] =~= old(
                out,
            )@ + spec_decimal(n as nat));
        } else {
            assert(old(out)@ + seq![digit_char((n % 10) as nat)] =~= old(out)@ + spec_decimal(
                n as nat,
            ));
        }
    }
}

/// Appends the decimal text of `n`, with a leading `-` when negative.
pub fn push_int_text(out: &mut String, n: i64)
    ensures
        final(out)@ == old(out)@ + spec_int_text(n as int),
{
    if n < 0 {
        proof { reveal_strlit("-"); }
        out.append("-");
        let m: u64 = if n == i64::MIN {
            9223372036854775808u64
        } else {
            (-n) as u64
        };
        push_decimal(out, m);
        assert(final(out)@ =~= old(out)@ + spec_int_text(n as int));
    } else {
        push_decimal(out, n as u64);
    }
}

/// The version that an SDK version string names: the text after its last
/// `/`, or `1` where it has none.
pub open spec fn spec_claims_version(s: Seq<char>) -> Seq<char> {
    if exists|i: int| 0 <= i < s.len() && s[i] == '/' {
        let i = choose|i: int|
            0 <= i < s.len() && s[i] == '/' && forall|j: int| i < j < s.len() ==> s[j] != '/';
        s.skip(i + 1)
    } else {
        "1"@
    }
}

/// The version that an SDK version string names: the text after its last
/// `/`, or `1` where it has none.
pub fn claims_version_str(sdk_version: &str) -> (r: String)
    ensures
        r@ == spec_claims_version(sdk_version@),
{
    let n = sdk_version.unicode_len();
    let mut i: usize = n;
    while i > 0
        invariant
            i <= n,
            n == sdk_version@.len(),
            forall|j: int| i <= j < n ==> sdk_version@[j] != '/',
        decreases i,
    {
        let c = sdk_version.get_char(i - 1);
        if c == '/' {
            let k = i - 1;
            proof {
                let s = sdk_version@;
                let w = choose|w: int|
                    0 <= w < s.len() && s[w] == '/' && forall|j: int| w < j < s.len() ==> s[j] != '/';
                assert(0 <= k < s.len() && s[k as int] == '/' && forall|j: int| k < j < s.len() ==> s[j] != '/');
                if w < k {
                    assert(s[k as int] != '/');
                }
                if w > k {
                    assert(s[w] != '/');
                }
                assert(w == k);
            }
            let tail = sdk_version.substring_char(i, n);
            assert(tail@ =~= sdk_version@.skip(i as int));
            return String::from_str(tail);
        }
        i = i - 1;
    }
    String::from_str("1")
}

} // verus!
