//! Byte-string helpers: ASCII lowercasing, case-insensitive containment,
//! concatenation, and decimal rendering.
//!
//! Protocol lines and flags are handled as byte strings, which is what the
//! wire carries.

use vstd::prelude::*;

verus! {

/// ASCII lowercasing of a single byte; other bytes are unchanged.
pub open spec fn lower_byte(b: u8) -> u8 {
    if 65 <= b <= 90 {
        (b + 32) as u8
    } else {
        b
    }
}

/// `needle` matches at offset `k` of `hay`, comparing `hay` lowercased.
pub open spec fn match_ci_at(hay: Seq<u8>, needle: Seq<u8>, k: int) -> bool {
    &&& 0 <= k
    &&& k + needle.len() <= hay.len()
    &&& forall|l: int| 0 <= l < needle.len() ==> lower_byte(hay[k + l]) == needle[l]
}

/// `hay`, lowercased, contains `needle` (given in lower case) somewhere.
pub open spec fn contains_ci(hay: Seq<u8>, needle: Seq<u8>) -> bool {
    exists|k: int| match_ci_at(hay, needle, k)
}

/// One byte of `hay`, lowercased, compared against `needle[j]`.
fn byte_matches_ci(hay: &[u8], needle: &[u8], i: usize, j: usize) -> (r: bool)
    requires
        i < hay@.len(),
        j < needle@.len(),
    ensures
        r == (lower_byte(hay@[i as int]) == needle@[j as int]),
{
    let b = hay[i];
    let lowered: u8 = if 65 <= b && b <= 90 {
        b + 32
    } else {
        b
    };
    lowered == needle[j]
}

/// Whether `needle` (lower case) matches at offset `k` of `hay`, ignoring
/// the case of `hay`.
fn match_ci_prefix(hay: &[u8], needle: &[u8], k: usize) -> (r: bool)
    requires
        k + needle@.len() <= hay@.len(),
    ensures
        r == match_ci_at(hay@, needle@, k as int),
{
    let hlen: usize = hay.len();
    assert(hay@.len() <= usize::MAX);
    let mut j: usize = 0;
    while j < needle.len()
        invariant
            k + needle@.len() <= hay@.len(),
            hay@.len() <= usize::MAX,
            j <= needle@.len(),
            forall|l: int| 0 <= l < j ==> lower_byte(hay@[k + l]) == needle@[l],
        decreases needle@.len() - j,
    {
        if !byte_matches_ci(hay, needle, k + j, j) {
            return false;
        }
        j += 1;
    }
    true
}

/// Case-insensitive containment: does `hay`, lowercased, contain the
/// lower-case word `needle`?
pub fn contains_word_ci(hay: &[u8], needle: &[u8]) -> (r: bool)
    ensures
        r == contains_ci(hay@, needle@),
{
    if needle.len() > hay.len() {
        assert(forall|k: int| !match_ci_at(hay@, needle@, k));
        return false;
    }
    let end = hay.len() - needle.len();
    let mut i: usize = 0;
    while i < end
        invariant
            needle@.len() <= hay@.len(),
            end == hay@.len() - needle@.len(),
            i <= end,
            forall|k: int| 0 <= k < i ==> !match_ci_at(hay@, needle@, k),
        decreases end - i,
    {
        if match_ci_prefix(hay, needle, i) {
            return true;
        }
        i += 1;
    }
    if match_ci_prefix(hay, needle, end) {
        return true;
    }
    assert(forall|k: int| k > end ==> !match_ci_at(hay@, needle@, k));
    false
}

/// A byte string, ASCII-lowercased.
pub open spec fn lower_seq(s: Seq<u8>) -> Seq<u8> {
    s.map_values(|b: u8| lower_byte(b))
}

/// ASCII-lowercases a byte string.
pub fn to_lower_bytes(v: &[u8]) -> (r: Vec<u8>)
    ensures
        r@ == lower_seq(v@),
{
    let mut r: Vec<u8> = Vec::new();
    let mut i: usize = 0;
    while i < v.len()
        invariant
            i <= v@.len(),
            r@.len() == i,
            forall|j: int| 0 <= j < i ==> r@[j] == lower_byte(v@[j]),
        decreases v@.len() - i,
    {
        let b = v[i];
        if 65 <= b && b <= 90 {
            r.push(b + 32);
        } else {
            r.push(b);
        }
        i += 1;
    }
    proof {
        assert(r@ =~= lower_seq(v@));
    }
    r
}

/// Byte-string equality.
pub fn bytes_eq(a: &[u8], b: &[u8]) -> (r: bool)
    ensures
        r == (a@ == b@),
{
    if a.len() != b.len() {
        return false;
    }
    let mut i: usize = 0;
    while i < a.len()
        invariant
            a@.len() == b@.len(),
            i <= a@.len(),
            forall|j: int| 0 <= j < i ==> a@[j] == b@[j],
        decreases a@.len() - i,
    {
        if a[i] != b[i] {
            return false;
        }
        i += 1;
    }
    proof {
        assert(a@ =~= b@);
    }
    true
}

/// The concatenation of two byte strings.
pub fn concat_bytes(a: &[u8], b: &[u8]) -> (r: Vec<u8>)
    ensures
        r@ == a@ + b@,
{
    let mut r: Vec<u8> = Vec::new();
    r.extend_from_slice(a);
    r.extend_from_slice(b);
    assert(r@ =~= a@ + b@);
    r
}

/// The decimal digits of `n`, most significant first.
pub open spec fn dec_digits(n: nat) -> Seq<u8>
    decreases n,
{
    if n < 10 {
        seq![(48 + n) as u8]
    } else {
        dec_digits(n / 10).push((48 + n % 10) as u8)
    }
}

/// Renders `n` in decimal.
pub fn u64_to_dec(n: u64) -> (r: Vec<u8>)
    ensures
        r@ == dec_digits(n as nat),
{
    let mut rev: Vec<u8> = Vec::new();
    let mut m: u64 = n;
    proof {
        assert(dec_digits(n as nat) =~= dec_digits(n as nat) + rev@.reverse());
    }
    while m >= 10
        invariant
            dec_digits(n as nat) == dec_digits(m as nat) + rev@.reverse(),
        decreases m,
    {
        let ghost m0 = m as nat;
        let ghost pre = rev@;
        let d: u8 = (m % 10) as u8;
        rev.push(48 + d);
        m = m / 10;
        proof {
            assert(rev@.reverse() =~= seq![(48 + m0 % 10) as u8] + pre.reverse());
            assert(dec_digits(m0) =~= dec_digits(m0 / 10) + seq![(48 + m0 % 10) as u8]);
            assert(dec_digits(m0) + pre.reverse() =~= dec_digits(m0 / 10) + rev@.reverse());
        }
    }
    let ghost pre = rev@;
    let d: u8 = m as u8;
    rev.push(48 + d);
    proof {
        assert(rev@.reverse() =~= seq![(48 + m as nat) as u8] + pre.reverse());
        assert(dec_digits(m as nat) =~= seq![(48 + m as nat) as u8]);
        assert(dec_digits(n as nat) =~= rev@.reverse());
    }
    let mut r: Vec<u8> = Vec::new();
    let mut i: usize = rev.len();
    while i > 0
        invariant
            i <= rev@.len(),
            r@ == rev@.subrange(i as int, rev@.len() as int).reverse(),
        decreases i,
    {
        i -= 1;
        let b = rev[i];
        r.push(b);
        proof {
            assert(r@ =~= rev@.subrange(i as int, rev@.len() as int).reverse());
        }
    }
    proof {
        assert(rev@.subrange(0, rev@.len() as int) =~= rev@);
    }
    r
}

} // verus!
