//! Character-level helpers shared by the parsers and the path mapper.
//!
//! The library reasons about text as `Seq<char>`: the view of a `&str` or
//! `String`. These helpers move between the executable world (`&str`,
//! `Vec<char>`, `String`) and that model, and give the ASCII
//! case-insensitive comparison that format tokens and file extensions use.

use vstd::prelude::*;

verus! {

broadcast use vstd::string::axiom_spec_iter, vstd::utf8::char_is_scalar;

/// `a` reads as the (already lower-case) character `b` when ASCII case is
/// ignored: either they are equal, or `a` is the upper-case form of `b`.
pub open spec fn char_reads_as(a: char, b: char) -> bool {
    a == b || (65 <= a as u32 && a as u32 <= 90 && a as u32 + 32 == b as u32)
}

/// `s` equals the lower-case token `t` under ASCII case folding.
pub open spec fn seq_matches_ci(s: Seq<char>, t: Seq<char>) -> bool {
    s.len() == t.len() && forall|i: int| 0 <= i < s.len() ==> char_reads_as(s[i], t[i])
}

/// The characters of `s`, as a vector whose view is the view of `s`.
pub fn chars_of(s: &str) -> (v: Vec<char>)
    ensures
        v@ == s@,
{
    let mut v: Vec<char> = Vec::new();
    for c in it: s.chars()
        invariant
            it.seq() == s@,
            v@ == it.seq().take(it.index()),
    {
        v.push(c);
    }
    proof {
        assert(v@ =~= s@);
    }
    v
}

/// Relies on `String::push`: appends one character to the end of the string.
#[verifier::external_body]
fn push_char(s: &mut String, c: char)
    ensures
        final(s)@ == old(s)@.push(c),
{
    s.push(c);
}

/// The string whose characters are exactly `v`.
pub fn string_of(v: &Vec<char>) -> (s: String)
    ensures
        s@ == v@,
{
    let mut s = String::new();
    let mut i: usize = 0;
    while i < v.len()
        invariant
            i <= v.len(),
            s@ == v@.take(i as int),
        decreases v.len() - i,
    {
        push_char(&mut s, v[i]);
        proof {
            assert(v@.take(i as int).push(v@[i as int]) =~= v@.take(i + 1));
        }
        i = i + 1;
    }
    proof {
        assert(v@.take(v@.len() as int) =~= v@);
    }
    s
}

/// Whether `v` equals the lower-case ASCII token `t` when ASCII case in
/// `v` is ignored.
pub fn matches_ci(v: &Vec<char>, t: &Vec<char>) -> (b: bool)
    ensures
        b == seq_matches_ci(v@, t@),
{
    if v.len() != t.len() {
        return false;
    }
    let mut i: usize = 0;
    while i < v.len()
        invariant
            i <= v.len(),
            v@.len() == t@.len(),
            forall|j: int| 0 <= j < i ==> char_reads_as(v@[j], t@[j]),
        decreases v.len() - i,
    {
        let a = v[i];
        let b = t[i];
        let au = a as u32;
        let bu = b as u32;
        let ok = au == bu || (65 <= au && au <= 90 && au + 32 == bu);
        proof {
            vstd::utf8::char_u32_cast(a, au);
            vstd::utf8::char_u32_cast(b, bu);
            assert(ok == char_reads_as(v@[i as int], t@[i as int]));
        }
        if !ok {
            return false;
        }
        i = i + 1;
    }
    true
}

} // verus!
