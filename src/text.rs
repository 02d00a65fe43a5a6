//! Sequence facts and string operations that the header engine is built on.

use vstd::prelude::*;
use vstd::string::StringSliceAdditionalSpecFns;
use vstd::utf8::{decode_utf8, encode_utf8_decode_utf8, valid_utf8};

verus! {

broadcast use vstd::string::group_string_axioms;

/// `p` occurs in `s` starting at index `i`.
pub open spec fn occurs_at<T>(s: Seq<T>, p: Seq<T>, i: int) -> bool {
    0 <= i && i + p.len() <= s.len() && s.subrange(i, i + p.len()) == p
}

/// `p` occurs somewhere in `s`.
pub open spec fn contains<T>(s: Seq<T>, p: Seq<T>) -> bool {
    exists|i: int| occurs_at(s, p, i)
}

/// `i` is the leftmost index at which `p` occurs in `s`.
pub open spec fn is_first_occurrence<T>(s: Seq<T>, p: Seq<T>, i: int) -> bool {
    occurs_at(s, p, i) && forall|j: int| 0 <= j < i ==> !occurs_at(s, p, j)
}

/// `s` with its first occurrence of `p` replaced by `r`, or `s` itself when `p` does not occur.
pub open spec fn replace_first<T>(s: Seq<T>, p: Seq<T>, r: Seq<T>) -> Seq<T> {
    if contains(s, p) {
        let i = choose|i: int| is_first_occurrence(s, p, i);
        s.take(i) + r + s.skip(i + p.len())
    } else {
        s
    }
}

/// Length of the first line of `s`, its terminator `nl` included when there is one.
pub open spec fn line_len<T>(s: Seq<T>, nl: T) -> nat
    decreases s.len(),
{
    if s.len() == 0 {
        0
    } else if s[0] == nl {
        1
    } else {
        1 + line_len(s.drop_first(), nl)
    }
}

/// A space or a tab.
pub open spec fn is_blank(c: char) -> bool {
    c == ' ' || c == '\t'
}

/// `s` without its trailing spaces and tabs.
pub open spec fn trim_end_blanks(s: Seq<char>) -> Seq<char>
    decreases s.len(),
{
    if s.len() > 0 && is_blank(s.last()) {
        trim_end_blanks(s.drop_last())
    } else {
        s
    }
}

/// A first occurrence is the only one of its kind.
pub proof fn lemma_first_occurrence_unique<T>(s: Seq<T>, p: Seq<T>, i: int, j: int)
    requires
        is_first_occurrence(s, p, i),
        is_first_occurrence(s, p, j),
    ensures
        i == j,
{
}

/// Where `p` first occurs at `i`, replacing it splices `r` in at `i`.
pub proof fn lemma_replace_first_at<T>(s: Seq<T>, p: Seq<T>, r: Seq<T>, i: int)
    requires
        is_first_occurrence(s, p, i),
    ensures
        replace_first(s, p, r) == s.take(i) + r + s.skip(i + p.len()),
{
    assert(contains(s, p));
    let k = choose|k: int| is_first_occurrence(s, p, k);
    lemma_first_occurrence_unique(s, p, i, k);
}

/// `line_len` never passes the end, counts no terminator before its last character, and ends
/// at a terminator or at the end.
pub proof fn lemma_line_len<T>(s: Seq<T>, nl: T)
    ensures
        line_len(s, nl) <= s.len(),
        forall|k: int| 0 <= k < line_len(s, nl) - 1 ==> s[k] != nl,
        line_len(s, nl) > 0 ==> (s[line_len(s, nl) - 1] == nl || line_len(s, nl) == s.len()),
        s.len() > 0 ==> line_len(s, nl) > 0,
    decreases s.len(),
{
    if s.len() > 0 && s[0] != nl {
        lemma_line_len(s.drop_first(), nl);
        assert forall|k: int| 0 <= k < line_len(s, nl) - 1 implies s[k] != nl by {
            if k > 0 {
                assert(s[k] == s.drop_first()[k - 1]);
            }
        }
    }
}

/// The first line of `t` has length `m + 1` when `t[m]` is its first terminator `nl`, and the
/// length of `t` when there is none.
pub proof fn lemma_line_end<T>(t: Seq<T>, nl: T, m: int)
    requires
        0 <= m <= t.len(),
        forall|k: int| 0 <= k < m ==> t[k] != nl,
        m == t.len() || t[m] == nl,
    ensures
        line_len(t, nl) == if m == t.len() {
            m
        } else {
            m + 1
        },
    decreases m,
{
    if m > 0 {
        lemma_line_end(t.drop_first(), nl, m - 1);
    }
}

/// When `a` holds the terminator at `i`, appending to `a` leaves its first line as it is.
pub proof fn lemma_line_len_append<T>(a: Seq<T>, b: Seq<T>, nl: T, i: int)
    requires
        0 <= i < a.len(),
        a[i] == nl,
    ensures
        line_len(a + b, nl) == line_len(a, nl),
    decreases a.len(),
{
    assert((a + b)[0] == a[0]);
    if a[0] != nl {
        assert((a + b).drop_first() == a.drop_first() + b);
        lemma_line_len_append(a.drop_first(), b, nl, i - 1);
    }
}

/// Relies on `std::str::from_utf8`, which accepts exactly the well-formed UTF-8 byte strings
/// and decodes them.
#[verifier::external_body]
pub(crate) fn utf8_text(b: &[u8]) -> (r: Option<&str>)
    ensures
        r is Some <==> valid_utf8(b@),
        r matches Some(t) ==> t@ == decode_utf8(b@),
{
    std::str::from_utf8(b).ok()
}

/// Relies on `String::push`, which appends one character to the string.
#[verifier::external_body]
pub(crate) fn push_char(s: &mut String, c: char)
    ensures
        final(s)@ == old(s)@.push(c),
{
    s.push(c)
}

/// The characters of `s`, in order.
pub fn chars_of(s: &str) -> (r: Vec<char>)
    ensures
        r@ == s@,
{
    let mut out: Vec<char> = Vec::new();
    for c in it: s.chars()
        invariant
            out@ == it.seq().take(it.index() as int),
    {
        out.push(c);
    }
    out
}

/// The string made of the characters `v`.
pub fn string_of(v: &Vec<char>) -> (r: String)
    ensures
        r@ == v@,
{
    let mut out = String::new();
    let mut i: usize = 0;
    while i < v.len()
        invariant
            i <= v.len(),
            out@ == v@.take(i as int),
        decreases v.len() - i,
    {
        push_char(&mut out, v[i]);
        i = i + 1;
        assert(v@.take(i as int) == v@.take(i - 1).push(v@[i - 1]));
    }
    assert(v@.take(i as int) == v@);
    out
}

/// Whether `p` occurs in `s` at index `i`.
fn matches_at(s: &Vec<char>, p: &Vec<char>, i: usize) -> (r: bool)
    requires
        i + p.len() <= s.len(),
    ensures
        r == occurs_at(s@, p@, i as int),
{
    let mut k: usize = 0;
    while k < p.len()
        invariant
            k <= p.len(),
            i + p.len() <= s.len(),
            forall|m: int| 0 <= m < k ==> s@[i + m] == p@[m],
        decreases p.len() - k,
    {
        if s[i + k] != p[k] {
            assert(s@.subrange(i as int, i + p.len())[k as int] != p@[k as int]);
            return false;
        }
        k = k + 1;
    }
    assert(s@.subrange(i as int, i + p.len()) == p@);
    true
}

/// The leftmost index at which `p` occurs in `s`, if any.
pub fn find_first(s: &Vec<char>, p: &Vec<char>) -> (r: Option<usize>)
    ensures
        r is None <==> !contains(s@, p@),
        r matches Some(i) ==> is_first_occurrence(s@, p@, i as int),
{
    if p.len() > s.len() {
        return None;
    }
    let last = s.len() - p.len();
    let mut i: usize = 0;
    while i < last
        invariant
            i <= last,
            last == s.len() - p.len(),
            p.len() <= s.len(),
            forall|j: int| 0 <= j < i ==> !occurs_at(s@, p@, j),
        decreases last - i,
    {
        if matches_at(s, p, i) {
            return Some(i);
        }
        i = i + 1;
    }
    if matches_at(s, p, last) {
        Some(last)
    } else {
        None
    }
}

/// `s` with its first occurrence of `p` replaced by `r`.
pub fn replace_first_chars(s: &Vec<char>, p: &Vec<char>, r: &Vec<char>) -> (out: Vec<char>)
    ensures
        out@ == replace_first(s@, p@, r@),
{
    match find_first(s, p) {
        None => s.clone(),
        Some(i) => {
            proof {
                lemma_replace_first_at(s@, p@, r@, i as int);
            }
            let mut out: Vec<char> = Vec::new();
            let mut k: usize = 0;
            while k < i
                invariant
                    k <= i,
                    i + p.len() <= s.len(),
                    out@ == s@.take(k as int),
                decreases i - k,
            {
                out.push(s[k]);
                k = k + 1;
                assert(s@.take(k as int) == s@.take(k - 1).push(s@[k - 1]));
            }
            let mut k: usize = 0;
            while k < r.len()
                invariant
                    k <= r.len(),
                    out@ == s@.take(i as int) + r@.take(k as int),
                decreases r.len() - k,
            {
                out.push(r[k]);
                k = k + 1;
                assert(r@.take(k as int) == r@.take(k - 1).push(r@[k - 1]));
            }
            assert(r@.take(r.len() as int) == r@);
            let mut k: usize = i + p.len();
            while k < s.len()
                invariant
                    i + p.len() <= k <= s.len(),
                    out@ == s@.take(i as int) + r@ + s@.subrange(i + p.len(), k as int),
                decreases s.len() - k,
            {
                out.push(s[k]);
                k = k + 1;
                assert(s@.subrange(i + p.len(), k as int) == s@.subrange(i + p.len(), k - 1).push(
                    s@[k - 1],
                ));
            }
            assert(s@.subrange(i + p.len(), s.len() as int) == s@.skip(i + p.len()));
            out
        },
    }
}

/// Removes the trailing spaces and tabs of `v`.
pub fn trim_end_blanks_in_place(v: &mut Vec<char>)
    ensures
        final(v)@ == trim_end_blanks(old(v)@),
{
    while v.len() > 0 && (v[v.len() - 1] == ' ' || v[v.len() - 1] == '\t')
        invariant
            trim_end_blanks(v@) == trim_end_blanks(old(v)@),
        decreases v.len(),
    {
        v.pop();
    }
}

/// Whether `a` and `b` hold the same characters.
pub fn str_eq(a: &str, b: &str) -> (r: bool)
    ensures
        r == (a@ == b@),
{
    let x = a.as_bytes();
    let y = b.as_bytes();
    proof {
        encode_utf8_decode_utf8(a@);
        encode_utf8_decode_utf8(b@);
    }
    if x.len() != y.len() {
        return false;
    }
    let mut i: usize = 0;
    while i < x.len()
        invariant
            i <= x.len(),
            x.len() == y.len(),
            x@ == a.spec_bytes(),
            y@ == b.spec_bytes(),
            forall|k: int| 0 <= k < i ==> x@[k] == y@[k],
        decreases x.len() - i,
    {
        if x[i] != y[i] {
            return false;
        }
        i = i + 1;
    }
    assert(x@ == y@);
    true
}

} // verus!
