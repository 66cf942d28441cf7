//! Text helpers: decimal rendering of integers and small string operations.

use vstd::prelude::*;
use vstd::string::{StringExecFns, StringSliceAdditionalSpecFns};
use vstd::utf8::encode_utf8_decode_utf8;

verus! {

/// The character of a decimal digit.
pub open spec fn digit_char(d: int) -> char {
    if d == 0 { '0' }
    else if d == 1 { '1' }
    else if d == 2 { '2' }
    else if d == 3 { '3' }
    else if d == 4 { '4' }
    else if d == 5 { '5' }
    else if d == 6 { '6' }
    else if d == 7 { '7' }
    else if d == 8 { '8' }
    else { '9' }
}

/// The decimal representation of a natural number, most significant digit first.
pub open spec fn decimal(n: nat) -> Seq<char>
    decreases n,
{
    if n < 10 {
        seq![digit_char(n as int)]
    } else {
        decimal(n / 10).push(digit_char((n % 10) as int))
    }
}

/// Appends one character to a string (`String::push`).
#[verifier::external_body]
pub(crate) fn push_char(s: &mut String, c: char)
    ensures
        final(s)@ == old(s)@.push(c),
{
    s.push(c);
}

/// Appends a string slice to a string.
pub(crate) fn push_str(s: &mut String, t: &str)
    ensures
        final(s)@ == old(s)@ + t@,
{
    s.append(t);
}

/// String slice equality, decided on the UTF-8 bytes.
pub(crate) fn str_eq(a: &str, b: &str) -> (r: bool)
    ensures
        r == (a@ == b@),
{
    let ab = a.as_bytes();
    let bb = b.as_bytes();
    proof {
        encode_utf8_decode_utf8(a@);
        encode_utf8_decode_utf8(b@);
    }
    if ab.len() != bb.len() {
        return false;
    }
    let mut i: usize = 0;
    while i < ab.len()
        invariant
            ab@ == a.spec_bytes(),
            bb@ == b.spec_bytes(),
            ab@.len() == bb@.len(),
            i <= ab@.len(),
            forall|k: int| 0 <= k < i ==> ab@[k] == bb@[k],
        decreases ab@.len() - i,
    {
        if ab[i] != bb[i] {
            return false;
        }
        i = i + 1;
    }
    proof {
        assert(ab@ =~= bb@);
    }
    true
}

fn digit_to_char(d: u64) -> (c: char)
    requires
        d < 10,
    ensures
        c == digit_char(d as int),
{
    match d {
        0 => '0',
        1 => '1',
        2 => '2',
        3 => '3',
        4 => '4',
        5 => '5',
        6 => '6',
        7 => '7',
        8 => '8',
        _ => '9',
    }
}

/// Renders `n` in decimal.
pub fn u128_to_decimal(n: u128) -> (s: String)
    ensures
        s@ == decimal(n as nat),
    decreases n,
{
    if n < 10 {
        let mut s = String::new();
        push_char(&mut s, digit_to_char(n as u64));
        s
    } else {
        let mut s = u128_to_decimal(n / 10);
        push_char(&mut s, digit_to_char((n % 10) as u64));
        s
    }
}

/// Renders `n` in decimal.
pub fn u64_to_decimal(n: u64) -> (s: String)
    ensures
        s@ == decimal(n as nat),
    decreases n,
{
    if n < 10 {
        let mut s = String::new();
        push_char(&mut s, digit_to_char(n));
        s
    } else {
        let mut s = u64_to_decimal(n / 10);
        push_char(&mut s, digit_to_char(n % 10));
        s
    }
}

/// Whether `needle` occurs in `hay`, as bytes.
pub open spec fn bytes_contain(hay: Seq<u8>, needle: Seq<u8>) -> bool {
    exists|i: int| 0 <= i && i + needle.len() <= hay.len() && #[trigger] hay.subrange(i, i + needle.len()) == needle
}

fn bytes_match_at(hay: &[u8], needle: &[u8], i: usize) -> (r: bool)
    requires
        i + needle@.len() <= hay@.len(),
    ensures
        r == (hay@.subrange(i as int, i + needle@.len()) == needle@),
{
    let n = needle.len();
    let h = hay.len();
    let mut j: usize = 0;
    while j < n
        invariant
            n == needle@.len(),
            h == hay@.len(),
            i + n <= hay@.len(),
            j <= n,
            forall|t: int| 0 <= t < j ==> hay@[i + t] == needle@[t],
        decreases n - j,
    {
        let k = i + j;
        if hay[k] != needle[j] {
            proof {
                assert(hay@.subrange(i as int, i + n)[j as int] != needle@[j as int]);
            }
            return false;
        }
        j = j + 1;
    }
    proof {
        assert(hay@.subrange(i as int, i + needle@.len()) =~= needle@);
    }
    true
}

/// Whether `needle` occurs in `hay` (`str::contains` on a string pattern).
pub fn str_contains(hay: &str, needle: &str) -> (r: bool)
    ensures
        r == bytes_contain(hay.spec_bytes(), needle.spec_bytes()),
{
    let hb = hay.as_bytes();
    let nb = needle.as_bytes();
    if nb.len() > hb.len() {
        return false;
    }
    let last = hb.len() - nb.len();
    let mut i: usize = 0;
    loop
        invariant
            hb@ == hay.spec_bytes(),
            nb@ == needle.spec_bytes(),
            last + nb@.len() == hb@.len(),
            i <= last,
            forall|k: int| 0 <= k < i ==> #[trigger] hb@.subrange(k, k + nb@.len()) != nb@,
        decreases last - i,
    {
        if bytes_match_at(hb, nb, i) {
            proof {
                assert(hb@.subrange(i as int, i + nb@.len()) == nb@);
            }
            return true;
        }
        if i == last {
            return false;
        }
        i = i + 1;
    }
}

/// Whether the bytes of `s` start with those of `prefix`.
pub open spec fn bytes_start_with(s: Seq<u8>, prefix: Seq<u8>) -> bool {
    prefix.len() <= s.len() && s.subrange(0, prefix.len() as int) == prefix
}

/// Whether `s` starts with `prefix` (`str::starts_with` on a string pattern).
pub fn str_starts_with(s: &str, prefix: &str) -> (r: bool)
    ensures
        r == bytes_start_with(s.spec_bytes(), prefix.spec_bytes()),
{
    let sb = s.as_bytes();
    let pb = prefix.as_bytes();
    if pb.len() > sb.len() {
        return false;
    }
    let mut i: usize = 0;
    while i < pb.len()
        invariant
            sb@ == s.spec_bytes(),
            pb@ == prefix.spec_bytes(),
            pb@.len() <= sb@.len(),
            i <= pb@.len(),
            forall|k: int| 0 <= k < i ==> sb@[k] == pb@[k],
        decreases pb@.len() - i,
    {
        if sb[i] != pb[i] {
            proof {
                assert(sb@.subrange(0, pb@.len() as int)[i as int] != pb@[i as int]);
            }
            return false;
        }
        i = i + 1;
    }
    proof {
        assert(sb@.subrange(0, pb@.len() as int) =~= pb@);
    }
    true
}

} // verus!
