//! Extracting points from a scoring service's response line.
//!
//! When the line protocol accepts a flag, the response line (for instance
//! "flag accepted, earned 5 points") carries the points somewhere in its
//! text.  Every maximal run of digits, commas and dots is taken as a
//! numeric token; each token that reads as a plain decimal number counts
//! its value, other tokens count zero; the points gained are the sum.
//! This deliberately permissive policy tolerates varying message phrasing.
//!
//! Points are handled in thousandths of a point, so that "3.5" is exact;
//! fractional digits beyond the third are dropped.

use vstd::prelude::*;

verus! {

/// A byte that can be part of a numeric token.
pub open spec fn is_token_byte(b: u8) -> bool {
    (48 <= b <= 57) || b == 44 || b == 46
}

/// The maximal runs of token bytes in `s`, in order of appearance.
pub open spec fn tokens(s: Seq<u8>) -> Seq<Seq<u8>>
    decreases s.len(),
{
    if s.len() == 0 {
        Seq::empty()
    } else {
        let rest = tokens(s.drop_last());
        let b = s.last();
        if !is_token_byte(b) {
            rest
        } else if s.len() >= 2 && is_token_byte(s[s.len() - 2]) {
            rest.update(rest.len() - 1, rest.last().push(b))
        } else {
            rest.push(seq![b])
        }
    }
}

/// Every byte of `t` is a decimal digit.
pub open spec fn all_digits(t: Seq<u8>) -> bool {
    forall|i: int| 0 <= i < t.len() ==> 48 <= #[trigger] t[i] <= 57
}

/// The value of a digit string read in decimal.
pub open spec fn digits_val(t: Seq<u8>) -> nat
    decreases t.len(),
{
    if t.len() == 0 {
        0
    } else {
        digits_val(t.drop_last()) * 10 + (t.last() - 48) as nat
    }
}

pub open spec fn pow10(n: nat) -> nat
    decreases n,
{
    if n == 0 {
        1
    } else {
        10 * pow10((n - 1) as nat)
    }
}

/// The value of a fraction-digit string in thousandths, truncated to
/// three digits.
pub open spec fn frac_milli(t: Seq<u8>) -> nat {
    if t.len() >= 3 {
        digits_val(t.take(3))
    } else {
        digits_val(t) * pow10((3 - t.len()) as nat)
    }
}

/// How many times byte `b` occurs in `t`.
pub open spec fn count_byte(t: Seq<u8>, b: u8) -> nat
    decreases t.len(),
{
    if t.len() == 0 {
        0
    } else {
        count_byte(t.drop_last(), b) + (if t.last() == b {
            1nat
        } else {
            0nat
        })
    }
}

/// The position of the first occurrence of `b` in `t` (meaningful only
/// when `b` occurs).
pub open spec fn first_index(t: Seq<u8>, b: u8) -> int
    decreases t.len(),
{
    if t.len() == 0 {
        0
    } else if t[0] == b {
        0
    } else {
        1 + first_index(t.drop_first(), b)
    }
}

/// The value of one numeric token in thousandths of a point.  A token
/// that does not read as a decimal number (a stray comma or a second
/// dot) counts zero rather than poisoning the sum.
pub open spec fn token_milli(t: Seq<u8>) -> nat {
    if count_byte(t, 44) > 0 {
        0
    } else if count_byte(t, 46) == 0 {
        if t.len() >= 1 && all_digits(t) {
            digits_val(t) * 1000
        } else {
            0
        }
    } else if count_byte(t, 46) == 1 {
        let k = first_index(t, 46);
        let intpart = t.take(k);
        let fracpart = t.skip(k + 1);
        if intpart.len() + fracpart.len() >= 1 && all_digits(intpart) && all_digits(fracpart) {
            digits_val(intpart) * 1000 + frac_milli(fracpart)
        } else {
            0
        }
    } else {
        0
    }
}

/// The summed value of a sequence of tokens.
pub open spec fn tokens_milli(ts: Seq<Seq<u8>>) -> nat
    decreases ts.len(),
{
    if ts.len() == 0 {
        0
    } else {
        tokens_milli(ts.drop_last()) + token_milli(ts.last())
    }
}

/// The points a response line awards, in thousandths of a point.
pub open spec fn line_points_milli(s: Seq<u8>) -> nat {
    tokens_milli(tokens(s))
}

/// Saturating multiplication.
fn sat_mul(a: u64, b: u64) -> (r: u64)
    ensures
        a * b <= u64::MAX ==> r == a * b,
        a * b > u64::MAX ==> r == u64::MAX,
{
    match a.checked_mul(b) {
        Some(v) => v,
        None => u64::MAX,
    }
}

fn is_token_byte_exec(b: u8) -> (r: bool)
    ensures
        r == is_token_byte(b),
{
    (48 <= b && b <= 57) || b == 44 || b == 46
}

/// A text that ends inside a numeric run has at least one token.
proof fn lemma_tokens_trailing(s: Seq<u8>)
    requires
        s.len() >= 1,
        is_token_byte(s.last()),
    ensures
        tokens(s).len() >= 1,
    decreases s.len(),
{
    if s.len() >= 2 && is_token_byte(s[s.len() - 2]) {
        lemma_tokens_trailing(s.drop_last());
    }
}

/// The maximal runs of digits, commas and dots in `line`, in order of
/// appearance.
pub fn extract_tokens(line: &[u8]) -> (r: Vec<Vec<u8>>)
    ensures
        r.deep_view() == tokens(line@),
{
    let mut r: Vec<Vec<u8>> = Vec::new();
    let mut i: usize = 0;
    proof {
        assert(line@.take(0) =~= Seq::<u8>::empty());
        assert(r.deep_view() =~= tokens(line@.take(0)));
    }
    while i < line.len()
        invariant
            i <= line@.len(),
            r.deep_view() == tokens(line@.take(i as int)),
        decreases line@.len() - i,
    {
        let ghost pre = r.deep_view();
        proof {
            assert(line@.take(i + 1).drop_last() =~= line@.take(i as int));
            assert(line@.take(i + 1).last() == line@[i as int]);
        }
        let b = line[i];
        if is_token_byte_exec(b) {
            if i > 0 && is_token_byte_exec(line[i - 1]) {
                proof {
                    assert(line@.take(i as int).last() == line@[i - 1]);
                    lemma_tokens_trailing(line@.take(i as int));
                }
                let idx = r.len() - 1;
                let last = &mut r[idx];
                last.push(b);
                proof {
                    assert(line@.take(i + 1)[i + 1 - 2] == line@[i - 1]);
                    assert(r.deep_view() =~~= pre.update(
                        pre.len() - 1,
                        pre.last().push(line@[i as int]),
                    ));
                }
            } else {
                let mut t: Vec<u8> = Vec::new();
                t.push(b);
                r.push(t);
                proof {
                    if i > 0 {
                        assert(line@.take(i + 1)[i + 1 - 2] == line@[i - 1]);
                    }
                    assert(r.deep_view() =~~= pre.push(seq![line@[i as int]]));
                }
            }
        }
        i += 1;
    }
    proof {
        assert(line@.take(line@.len() as int) =~= line@);
    }
    r
}

/// One decimal digit string's value, saturating at `u64::MAX`.
fn digits_val_exec(t: &[u8], from: usize, to: usize) -> (r: u64)
    requires
        from <= to <= t@.len(),
        all_digits(t@.subrange(from as int, to as int)),
    ensures
        digits_val(t@.subrange(from as int, to as int)) <= u64::MAX ==> r == digits_val(
            t@.subrange(from as int, to as int),
        ),
        digits_val(t@.subrange(from as int, to as int)) > u64::MAX ==> r == u64::MAX,
{
    let mut r: u64 = 0;
    let mut i: usize = from;
    proof {
        assert(t@.subrange(from as int, from as int) =~= Seq::<u8>::empty());
    }
    while i < to
        invariant
            from <= i <= to <= t@.len(),
            all_digits(t@.subrange(from as int, to as int)),
            digits_val(t@.subrange(from as int, i as int)) <= u64::MAX ==> r == digits_val(
                t@.subrange(from as int, i as int),
            ),
            digits_val(t@.subrange(from as int, i as int)) > u64::MAX ==> r == u64::MAX,
        decreases to - i,
    {
        let ghost prefix = t@.subrange(from as int, i as int);
        proof {
            assert(t@.subrange(from as int, i + 1).drop_last() =~= prefix);
            assert(t@.subrange(from as int, i + 1).last() == t@[i as int]);
            assert(t@.subrange(from as int, to as int)[i - from] == t@[i as int]);
        }
        let b = t[i];
        let d: u64 = (b - 48) as u64;
        r = sat_mul(r, 10).saturating_add(d);
        i += 1;
    }
    r
}

/// One numeric token's value in thousandths of a point, saturating at
/// `u64::MAX`.
pub fn token_milli_exec(t: &[u8]) -> (r: u64)
    ensures
        token_milli(t@) <= u64::MAX ==> r == token_milli(t@),
        token_milli(t@) > u64::MAX ==> r == u64::MAX,
{
    // One pass: count commas and dots, find the first dot, check digits.
    let mut commas: usize = 0;
    let mut dots: usize = 0;
    let mut first_dot: usize = 0;
    let mut i: usize = 0;
    proof {
        assert(t@.take(0) =~= Seq::<u8>::empty());
    }
    while i < t.len()
        invariant
            i <= t@.len(),
            commas <= i,
            dots <= i,
            commas == count_byte(t@.take(i as int), 44),
            dots == count_byte(t@.take(i as int), 46),
            dots >= 1 ==> first_dot < i && t@[first_dot as int] == 46 && first_dot == first_index(
                t@.take(i as int),
                46,
            ),
            dots >= 1 ==> forall|j: int| 0 <= j < first_dot ==> t@[j] != 46,
            dots == 0 ==> forall|j: int| 0 <= j < i ==> t@[j] != 46,
        decreases t@.len() - i,
    {
        proof {
            assert(t@.take(i + 1).drop_last() =~= t@.take(i as int));
            assert(t@.take(i + 1).last() == t@[i as int]);
        }
        let b = t[i];
        if b == 44 {
            commas += 1;
        }
        if b == 46 {
            if dots == 0 {
                first_dot = i;
                proof {
                    lemma_first_index_found(t@.take(i + 1), 46, i as int);
                }
            } else {
                proof {
                    lemma_first_index_found(t@.take(i + 1), 46, first_dot as int);
                }
            }
            dots += 1;
        } else {
            proof {
                if dots >= 1 {
                    lemma_first_index_found(t@.take(i + 1), 46, first_dot as int);
                }
            }
        }
        i += 1;
    }
    proof {
        assert(t@.take(t@.len() as int) =~= t@);
    }
    if commas > 0 {
        return 0;
    }
    if dots == 0 {
        if t.len() == 0 {
            return 0;
        }
        // No comma and no dot: every token byte left is a digit, if the
        // caller handed a token; a non-digit byte still means value zero.
        let all = check_all_digits(t, 0, t.len());
        if !all {
            return 0;
        }
        proof {
            assert(t@.subrange(0, t@.len() as int) =~= t@);
        }
        let v = digits_val_exec(t, 0, t.len());
        return sat_mul(v, 1000);
    }
    if dots >= 2 {
        return 0;
    }
    // Exactly one dot, at first_dot.
    let ghost intpart = t@.take(first_dot as int);
    let ghost fracpart = t@.skip(first_dot + 1);
    if t.len() == 1 {
        // The token is a lone dot.
        return 0;
    }
    let all_int = check_all_digits(t, 0, first_dot);
    let all_frac = check_all_digits(t, first_dot + 1, t.len());
    proof {
        assert(intpart =~= t@.subrange(0, first_dot as int));
        assert(fracpart =~= t@.subrange(first_dot + 1, t@.len() as int));
    }
    if !all_int || !all_frac {
        return 0;
    }
    let iv = digits_val_exec(t, 0, first_dot);
    let frac_end = if t.len() - first_dot - 1 >= 3 {
        first_dot + 4
    } else {
        t.len()
    };
    let fv = digits_val_exec(t, first_dot + 1, frac_end);
    proof {
        if fracpart.len() >= 3 {
            assert(t@.subrange(first_dot + 1, frac_end as int) =~= fracpart.take(3));
            lemma_digits_val_bound(fracpart.take(3));
        } else {
            assert(t@.subrange(first_dot + 1, frac_end as int) =~= fracpart);
            lemma_digits_val_bound(fracpart);
        }
    }
    proof {
        assert(pow10(0) == 1);
        assert(pow10(1) == 10);
        assert(pow10(2) == 100);
        assert(pow10(3) == 1000);
    }
    let scale: u64 = if t.len() - first_dot - 1 >= 3 {
        1
    } else if t.len() - first_dot - 1 == 2 {
        10
    } else if t.len() - first_dot - 1 == 1 {
        100
    } else {
        1000
    };
    let fm: u64 = fv * scale;
    sat_mul(iv, 1000).saturating_add(fm)
}

/// A digit string of at most three digits is below one thousand.
proof fn lemma_digits_val_bound(t: Seq<u8>)
    requires
        all_digits(t),
        t.len() <= 3,
    ensures
        digits_val(t) < pow10(t.len()),
        digits_val(t) < 1000,
    decreases t.len(),
{
    assert(pow10(0) == 1);
    assert(pow10(1) == 10);
    assert(pow10(2) == 100);
    assert(pow10(3) == 1000);
    if t.len() > 0 {
        assert(all_digits(t.drop_last())) by {
            assert(forall|i: int| 0 <= i < t.len() - 1 ==> t.drop_last()[i] == t[i]);
        }
        lemma_digits_val_bound(t.drop_last());
        assert(pow10(t.len()) == 10 * pow10((t.len() - 1) as nat));
    }
}

/// If `t[k]` is `b` and nothing before `k` is, then `k` is the first index.
proof fn lemma_first_index_found(t: Seq<u8>, b: u8, k: int)
    requires
        0 <= k < t.len(),
        t[k] == b,
        forall|j: int| 0 <= j < k ==> t[j] != b,
    ensures
        first_index(t, b) == k,
    decreases t.len(),
{
    if k > 0 {
        assert(forall|j: int| 0 <= j < k - 1 ==> t.drop_first()[j] == t[j + 1]);
        lemma_first_index_found(t.drop_first(), b, k - 1);
    }
}

/// Whether every byte of `t[from..to]` is a decimal digit.
fn check_all_digits(t: &[u8], from: usize, to: usize) -> (r: bool)
    requires
        from <= to <= t@.len(),
    ensures
        r == all_digits(t@.subrange(from as int, to as int)),
{
    let mut i: usize = from;
    while i < to
        invariant
            from <= i <= to <= t@.len(),
            forall|j: int| from <= j < i ==> 48 <= #[trigger] t@[j] <= 57,
        decreases to - i,
    {
        let b = t[i];
        if b < 48 || b > 57 {
            assert(t@.subrange(from as int, to as int)[i - from] == t@[i as int]);
            return false;
        }
        i += 1;
    }
    assert forall|j: int| 0 <= j < to - from implies 48 <= #[trigger] t@.subrange(
        from as int,
        to as int,
    )[j] <= 57 by {
        assert(t@.subrange(from as int, to as int)[j] == t@[j + from]);
    }
    true
}

/// The points a response line awards, in thousandths of a point,
/// saturating at `u64::MAX`.
pub fn line_points_milli_exec(line: &[u8]) -> (r: u64)
    ensures
        line_points_milli(line@) <= u64::MAX ==> r == line_points_milli(line@),
        line_points_milli(line@) > u64::MAX ==> r == u64::MAX,
{
    let toks = extract_tokens(line);
    let ghost ts = tokens(line@);
    let mut total: u64 = 0;
    let mut i: usize = 0;
    proof {
        assert(ts.take(0) =~= Seq::<Seq<u8>>::empty());
    }
    while i < toks.len()
        invariant
            i <= toks@.len(),
            toks.deep_view() == ts,
            ts.len() == toks@.len(),
            tokens_milli(ts.take(i as int)) <= u64::MAX ==> total == tokens_milli(
                ts.take(i as int),
            ),
            tokens_milli(ts.take(i as int)) > u64::MAX ==> total == u64::MAX,
        decreases toks@.len() - i,
    {
        proof {
            assert(ts.take(i + 1).drop_last() =~= ts.take(i as int));
            assert(ts.take(i + 1).last() == ts[i as int]);
            assert(toks@[i as int]@ == ts[i as int]);
        }
        let v = token_milli_exec(toks[i].as_slice());
        total = total.saturating_add(v);
        i += 1;
    }
    proof {
        assert(ts.take(ts.len() as int) =~= ts);
    }
    total
}

} // verus!
