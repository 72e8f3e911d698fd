//! Parsing of `WIDTHxHEIGHT` resize strings.

use vstd::prelude::*;

use crate::errors::ConvertError;
use crate::text::chars_of;

verus! {

/// `c` is a base-10 digit.
pub open spec fn is_digit(c: char) -> bool {
    48 <= c as u32 && c as u32 <= 57
}

/// The value of the digit `c`.
pub open spec fn digit_val(c: char) -> int {
    c as u32 - 48
}

/// Every character of `s` is a base-10 digit.
pub open spec fn all_digits(s: Seq<char>) -> bool {
    forall|i: int| 0 <= i < s.len() ==> is_digit(#[trigger] s[i])
}

/// The numeric value of a digit string, most significant digit first.
pub open spec fn nval(s: Seq<char>) -> int
    decreases s.len(),
{
    if s.len() == 0 {
        0
    } else {
        nval(s.drop_last()) * 10 + digit_val(s.last())
    }
}

/// `s` is a non-empty digit string whose value fits in a `u32`.
pub open spec fn valid_number(s: Seq<char>) -> bool {
    s.len() > 0 && all_digits(s) && nval(s) <= u32::MAX
}

/// How many characters of `s` are the separator `x`.
pub open spec fn xcount(s: Seq<char>) -> nat
    decreases s.len(),
{
    if s.len() == 0 {
        0
    } else {
        xcount(s.drop_last()) + if s.last() == 'x' { 1nat } else { 0nat }
    }
}

/// What `parse_dimensions` returns on the string `s`: the separator `x`
/// must occur exactly once, both segments around it must be digit strings
/// that fit in a `u32`, and both values must be positive.
pub open spec fn parse_dimensions_result(s: Seq<char>) -> Result<(u32, u32), ConvertError> {
    if xcount(s) != 1 {
        Err(ConvertError::InvalidDimensionFormat)
    } else {
        let i = choose|i: int| 0 <= i < s.len() && s[i] == 'x';
        let w = s.take(i);
        let h = s.skip(i + 1);
        if !valid_number(w) || !valid_number(h) {
            Err(ConvertError::InvalidNumber)
        } else if nval(w) == 0 || nval(h) == 0 {
            Err(ConvertError::ZeroDimension)
        } else {
            Ok((nval(w) as u32, nval(h) as u32))
        }
    }
}

/// Counting separators in a prefix, one character at a time.
proof fn lemma_xcount_take_step(s: Seq<char>, k: int)
    requires
        0 <= k < s.len(),
    ensures
        xcount(s.take(k + 1)) == xcount(s.take(k)) + if s[k] == 'x' { 1nat } else { 0nat },
{
    assert(s.take(k + 1).drop_last() =~= s.take(k));
    assert(s.take(k + 1).last() == s[k]);
}

/// A separator at any position is counted.
proof fn lemma_xcount_at_least_one(s: Seq<char>, i: int)
    requires
        0 <= i < s.len(),
        s[i] == 'x',
    ensures
        xcount(s) >= 1,
    decreases s.len(),
{
    if i == s.len() - 1 {
    } else {
        assert(s.drop_last()[i] == s[i]);
        lemma_xcount_at_least_one(s.drop_last(), i);
    }
}

/// Two separators at distinct positions are both counted.
proof fn lemma_xcount_at_least_two(s: Seq<char>, i: int, j: int)
    requires
        0 <= i < j < s.len(),
        s[i] == 'x',
        s[j] == 'x',
    ensures
        xcount(s) >= 2,
    decreases s.len(),
{
    if j == s.len() - 1 {
        assert(s.drop_last()[i] == s[i]);
        lemma_xcount_at_least_one(s.drop_last(), i);
    } else {
        assert(s.drop_last()[i] == s[i]);
        assert(s.drop_last()[j] == s[j]);
        lemma_xcount_at_least_two(s.drop_last(), i, j);
    }
}

/// With exactly one separator, its position is unique.
proof fn lemma_x_unique(s: Seq<char>, i: int, j: int)
    requires
        xcount(s) == 1,
        0 <= i < s.len() && s[i] == 'x',
        0 <= j < s.len() && s[j] == 'x',
    ensures
        i == j,
{
    if i < j {
        lemma_xcount_at_least_two(s, i, j);
    } else if j < i {
        lemma_xcount_at_least_two(s, j, i);
    }
}

/// The value of a digit string is not negative.
proof fn lemma_nval_nonneg(s: Seq<char>)
    requires
        all_digits(s),
    ensures
        nval(s) >= 0,
    decreases s.len(),
{
    if s.len() > 0 {
        assert(forall|i: int| 0 <= i < s.drop_last().len() ==> s.drop_last()[i] == s[i]);
        lemma_nval_nonneg(s.drop_last());
    }
}

/// A longer digit string never has a smaller value.
proof fn lemma_nval_grows(s: Seq<char>, k: int)
    requires
        all_digits(s),
        0 <= k <= s.len(),
    ensures
        0 <= nval(s.take(k)),
        nval(s.take(k)) <= nval(s),
    decreases s.len() - k,
{
    assert(forall|i: int| 0 <= i < k ==> s.take(k)[i] == s[i]);
    assert(all_digits(s.take(k)));
    lemma_nval_nonneg(s.take(k));
    if k == s.len() {
        assert(s.take(k) =~= s);
    } else {
        lemma_nval_grows(s, k + 1);
        assert(s.take(k + 1).drop_last() =~= s.take(k));
        assert(s.take(k + 1).last() == s[k]);
        assert(nval(s.take(k + 1)) == nval(s.take(k)) * 10 + digit_val(s[k]));
    }
}

/// Separator counts add up over concatenation.
proof fn lemma_xcount_concat(a: Seq<char>, b: Seq<char>)
    ensures
        xcount(a + b) == xcount(a) + xcount(b),
    decreases b.len(),
{
    if b.len() == 0 {
        assert(a + b =~= a);
    } else {
        assert((a + b).drop_last() =~= a + b.drop_last());
        assert((a + b).last() == b.last());
        lemma_xcount_concat(a, b.drop_last());
    }
}

/// A string without the separator counts no separator.
proof fn lemma_xcount_zero(s: Seq<char>)
    requires
        forall|i: int| 0 <= i < s.len() ==> s[i] != 'x',
    ensures
        xcount(s) == 0,
    decreases s.len(),
{
    if s.len() > 0 {
        assert(forall|i: int| 0 <= i < s.drop_last().len() ==> s.drop_last()[i] == s[i]);
        lemma_xcount_zero(s.drop_last());
    }
}

/// Dimension strings round-trip: writing any two positive in-range
/// numbers as digits around a single `x` parses back to exactly those
/// two values.
pub proof fn lemma_parse_dimensions_round(w: Seq<char>, h: Seq<char>)
    requires
        valid_number(w),
        valid_number(h),
        nval(w) > 0,
        nval(h) > 0,
    ensures
        parse_dimensions_result(w + seq!['x'] + h) == Ok::<(u32, u32), ConvertError>(
            (nval(w) as u32, nval(h) as u32),
        ),
{
    let s = w + seq!['x'] + h;
    assert forall|i: int| 0 <= i < w.len() implies w[i] != 'x' by {
        assert(is_digit(w[i]));
        if w[i] == 'x' {
            assert(w[i] as u32 == 'x' as u32);
        }
    }
    assert forall|i: int| 0 <= i < h.len() implies h[i] != 'x' by {
        assert(is_digit(h[i]));
        if h[i] == 'x' {
            assert(h[i] as u32 == 'x' as u32);
        }
    }
    lemma_xcount_zero(w);
    lemma_xcount_zero(h);
    assert(xcount(seq!['x']) == 1) by {
        assert(seq!['x'].len() == 1);
        assert(seq!['x'].last() == 'x');
        assert(seq!['x'].drop_last() =~= Seq::<char>::empty());
        assert(xcount(Seq::<char>::empty()) == 0);
        assert(xcount(seq!['x'].drop_last()) == 0);
    }
    lemma_xcount_concat(w, seq!['x']);
    lemma_xcount_concat(w + seq!['x'], h);
    assert(xcount(s) == 1);
    let xi = w.len() as int;
    assert(s[xi] == 'x');
    let ci = choose|i: int| 0 <= i < s.len() && s[i] == 'x';
    lemma_x_unique(s, ci, xi);
    assert(s.take(xi) =~= w);
    assert(s.skip(xi + 1) =~= h);
}

/// Parses `v[from .. to]` as a base-10 `u32`; `None` exactly when that
/// segment is empty, holds a non-digit, or overflows `u32`.
fn parse_segment(v: &Vec<char>, from: usize, to: usize) -> (r: Option<u32>)
    requires
        from <= to <= v.len(),
    ensures
        match r {
            Some(n) => valid_number(v@.subrange(from as int, to as int)) && n == nval(
                v@.subrange(from as int, to as int),
            ),
            None => !valid_number(v@.subrange(from as int, to as int)),
        },
{
    let ghost seg = v@.subrange(from as int, to as int);
    if from == to {
        return None;
    }
    let mut acc: u64 = 0;
    let mut k: usize = from;
    while k < to
        invariant
            from <= k <= to <= v.len(),
            seg == v@.subrange(from as int, to as int),
            all_digits(seg.take(k - from)),
            acc == nval(seg.take(k - from)),
            acc <= u32::MAX,
        decreases to - k,
    {
        let c = v[k];
        let cu = c as u32;
        proof {
            vstd::utf8::char_is_scalar(c);
            assert(seg[k - from] == v@[k as int]);
            assert(seg.take(k - from + 1).drop_last() =~= seg.take(k - from));
            assert(seg.take(k - from + 1).last() == seg[k - from]);
        }
        if cu < 48 || cu > 57 {
            assert(!is_digit(seg[k - from]));
            return None;
        }
        let dv: u64 = (cu - 48) as u64;
        proof {
            assert(cu == c as u32);
            assert(dv == digit_val(seg[k - from]));
        }
        acc = acc * 10 + dv;
        proof {
            assert(acc == nval(seg.take(k - from + 1)));
        }
        if acc > 0xFFFF_FFFFu64 {
            proof {
                if all_digits(seg) {
                    lemma_nval_grows(seg, k - from + 1);
                }
            }
            return None;
        }
        k = k + 1;
    }
    proof {
        assert(seg.take(to - from) =~= seg);
    }
    Some(acc as u32)
}

/// Finds the separator positions of `v`: how many characters are `x`,
/// and the position of the first one.
fn find_separator(v: &Vec<char>) -> (r: (usize, usize))
    ensures
        r.0 == xcount(v@),
        r.0 >= 1 ==> r.1 < v@.len() && v@[r.1 as int] == 'x',
{
    let mut count: usize = 0;
    let mut first: usize = 0;
    let mut k: usize = 0;
    while k < v.len()
        invariant
            k <= v.len(),
            count == xcount(v@.take(k as int)),
            count <= k,
            count >= 1 ==> first < k && v@[first as int] == 'x',
        decreases v.len() - k,
    {
        proof {
            lemma_xcount_take_step(v@, k as int);
        }
        if v[k] == 'x' {
            if count == 0 {
                first = k;
            }
            count = count + 1;
        }
        k = k + 1;
    }
    proof {
        assert(v@.take(v@.len() as int) =~= v@);
    }
    (count, first)
}

/// Parses a resize string of the form `WIDTHxHEIGHT` into a positive
/// `(width, height)` pair. Exactly one `x` separator is required, both
/// segments must parse as base-10 integers, and neither may be zero.
pub fn parse_dimensions(dimensions: &str) -> (r: Result<(u32, u32), ConvertError>)
    ensures
        r == parse_dimensions_result(dimensions@),
        r matches Ok(dims) ==> dims.0 > 0 && dims.1 > 0,
{
    let v = chars_of(dimensions);
    let (count, first) = find_separator(&v);
    if count != 1 {
        return Err(ConvertError::InvalidDimensionFormat);
    }
    proof {
        let ci = choose|i: int| 0 <= i < v@.len() && v@[i] == 'x';
        assert(0 <= first < v@.len() && v@[first as int] == 'x');
        lemma_x_unique(v@, ci, first as int);
    }
    let w = parse_segment(&v, 0, first);
    let h = parse_segment(&v, first + 1, v.len());
    proof {
        assert(v@.subrange(0, first as int) =~= v@.take(first as int));
        assert(v@.subrange(first + 1, v@.len() as int) =~= v@.skip(first + 1));
    }
    match (w, h) {
        (Some(width), Some(height)) => {
            if width == 0 || height == 0 {
                Err(ConvertError::ZeroDimension)
            } else {
                Ok((width, height))
            }
        },
        _ => Err(ConvertError::InvalidNumber),
    }
}

} // verus!
