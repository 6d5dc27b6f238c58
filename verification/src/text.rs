//! Character-level text helpers: whitespace, trimming, ASCII case.

use vstd::prelude::*;

verus! {

/// Unicode `White_Space`, the set `char::is_whitespace` and `str::trim` use.
pub open spec fn is_whitespace(c: char) -> bool {
    let u = c as u32;
    (9 <= u <= 13) || u == 32 || u == 0x85 || u == 0xA0 || u == 0x1680 || (0x2000 <= u
        <= 0x200A) || u == 0x2028 || u == 0x2029 || u == 0x202F || u == 0x205F || u == 0x3000
}

/// `s` without its leading whitespace.
pub open spec fn spec_trim_start(s: Seq<char>) -> Seq<char>
    decreases s.len(),
{
    if s.len() > 0 && is_whitespace(s[0]) {
        spec_trim_start(s.drop_first())
    } else {
        s
    }
}

/// `s` without its trailing whitespace.
pub open spec fn spec_trim_end(s: Seq<char>) -> Seq<char>
    decreases s.len(),
{
    if s.len() > 0 && is_whitespace(s.last()) {
        spec_trim_end(s.drop_last())
    } else {
        s
    }
}

/// `s` without leading and trailing whitespace, as `str::trim`.
pub open spec fn spec_trim(s: Seq<char>) -> Seq<char> {
    spec_trim_end(spec_trim_start(s))
}

/// Code point of the ASCII lower case of a character; other characters keep
/// their own code point.
pub open spec fn ascii_lower(c: char) -> u32 {
    if 65 <= (c as u32) <= 90 {
        ((c as u32) + 32) as u32
    } else {
        c as u32
    }
}

/// The text of an optional string slice.
pub open spec fn opt_chars(o: Option<&str>) -> Option<Seq<char>> {
    match o {
        Some(s) => Some(s@),
        None => None,
    }
}

/// Equality up to ASCII case, as `str::eq_ignore_ascii_case`.
pub open spec fn eq_ignore_ascii_case(a: Seq<char>, b: Seq<char>) -> bool {
    a.len() == b.len() && forall|i: int| 0 <= i < a.len() ==> ascii_lower(a[i]) == ascii_lower(b[i])
}

/// A text that neither starts nor ends with whitespace is its own trim.
pub proof fn lemma_trim_no_space(s: Seq<char>)
    requires
        s.len() > 0,
        !is_whitespace(s[0]),
        !is_whitespace(s.last()),
    ensures
        spec_trim(s) == s,
{
}

pub(crate) fn is_whitespace_char(c: char) -> (r: bool)
    ensures
        r == is_whitespace(c),
{
    let u = c as u32;
    (9 <= u && u <= 13) || u == 32 || u == 0x85 || u == 0xA0 || u == 0x1680 || (0x2000 <= u && u
        <= 0x200A) || u == 0x2028 || u == 0x2029 || u == 0x202F || u == 0x205F || u == 0x3000
}

/// Every character of `w` is whitespace.
pub open spec fn all_whitespace(w: Seq<char>) -> bool {
    forall|i: int| 0 <= i < w.len() ==> is_whitespace(#[trigger] w[i])
}

proof fn lemma_trim_start_ws_prefix(w: Seq<char>, s: Seq<char>)
    requires
        all_whitespace(w),
    ensures
        spec_trim_start(w + s) == spec_trim_start(s),
    decreases w.len(),
{
    if w.len() == 0 {
        assert(w + s =~= s);
    } else {
        assert((w + s)[0] == w[0]);
        assert((w + s).drop_first() =~= w.drop_first() + s);
        lemma_trim_start_ws_prefix(w.drop_first(), s);
    }
}

proof fn lemma_trim_end_ws_suffix(s: Seq<char>, w: Seq<char>)
    requires
        all_whitespace(w),
    ensures
        spec_trim_end(s + w) == spec_trim_end(s),
    decreases w.len(),
{
    if w.len() == 0 {
        assert(s + w =~= s);
    } else {
        assert((s + w).last() == w.last());
        assert((s + w).drop_last() =~= s + w.drop_last());
        lemma_trim_end_ws_suffix(s, w.drop_last());
    }
}

proof fn lemma_trim_ws_suffix(s: Seq<char>, w: Seq<char>)
    requires
        all_whitespace(w),
    ensures
        spec_trim_end(spec_trim_start(s + w)) == spec_trim_end(spec_trim_start(s)),
    decreases s.len(),
{
    if s.len() == 0 {
        assert(s + w =~= w);
        assert(w =~= w + s);
        lemma_trim_start_ws_prefix(w, s);
    } else if is_whitespace(s[0]) {
        assert((s + w)[0] == s[0]);
        assert((s + w).drop_first() =~= s.drop_first() + w);
        lemma_trim_ws_suffix(s.drop_first(), w);
    } else {
        assert((s + w)[0] == s[0]);
        lemma_trim_end_ws_suffix(s, w);
    }
}

/// Whitespace around a text does not change its trim.
pub proof fn lemma_trim_surrounding_whitespace(w1: Seq<char>, s: Seq<char>, w2: Seq<char>)
    requires
        all_whitespace(w1),
        all_whitespace(w2),
    ensures
        spec_trim(w1 + s + w2) == spec_trim(s),
{
    assert(w1 + s + w2 =~= w1 + (s + w2));
    lemma_trim_start_ws_prefix(w1, s + w2);
    lemma_trim_ws_suffix(s, w2);
}

proof fn lemma_lower_eq_whitespace(c: char, d: char)
    requires
        ascii_lower(c) == ascii_lower(d),
    ensures
        is_whitespace(c) == is_whitespace(d),
        (c == d) || (65 <= (c as u32) <= 90) || (65 <= (d as u32) <= 90),
{
}

proof fn lemma_trim_start_ignore_case(s: Seq<char>, t: Seq<char>)
    requires
        eq_ignore_ascii_case(s, t),
    ensures
        eq_ignore_ascii_case(spec_trim_start(s), spec_trim_start(t)),
    decreases s.len(),
{
    if s.len() > 0 {
        lemma_lower_eq_whitespace(s[0], t[0]);
        if is_whitespace(s[0]) {
            assert(eq_ignore_ascii_case(s.drop_first(), t.drop_first())) by {
                assert forall|i: int| 0 <= i < s.drop_first().len() implies ascii_lower(
                    s.drop_first()[i],
                ) == ascii_lower(t.drop_first()[i]) by {
                    assert(ascii_lower(s[i + 1]) == ascii_lower(t[i + 1]));
                }
            }
            lemma_trim_start_ignore_case(s.drop_first(), t.drop_first());
        }
    }
}

proof fn lemma_trim_end_ignore_case(s: Seq<char>, t: Seq<char>)
    requires
        eq_ignore_ascii_case(s, t),
    ensures
        eq_ignore_ascii_case(spec_trim_end(s), spec_trim_end(t)),
    decreases s.len(),
{
    if s.len() > 0 {
        assert(ascii_lower(s[s.len() - 1]) == ascii_lower(t[t.len() - 1]));
        lemma_lower_eq_whitespace(s.last(), t.last());
        if is_whitespace(s.last()) {
            assert(eq_ignore_ascii_case(s.drop_last(), t.drop_last())) by {
                assert forall|i: int| 0 <= i < s.drop_last().len() implies ascii_lower(
                    s.drop_last()[i],
                ) == ascii_lower(t.drop_last()[i]) by {
                    assert(ascii_lower(s[i]) == ascii_lower(t[i]));
                }
            }
            lemma_trim_end_ignore_case(s.drop_last(), t.drop_last());
        }
    }
}

/// Trimming keeps two texts equal up to ASCII case.
pub proof fn lemma_trim_ignore_case(s: Seq<char>, t: Seq<char>)
    requires
        eq_ignore_ascii_case(s, t),
    ensures
        eq_ignore_ascii_case(spec_trim(s), spec_trim(t)),
{
    lemma_trim_start_ignore_case(s, t);
    lemma_trim_end_ignore_case(spec_trim_start(s), spec_trim_start(t));
}

/// Appends `c` to `s`, as `String::push`.
#[verifier::external_body]
pub(crate) fn push_char(s: &mut String, c: char)
    ensures
        final(s)@ == old(s)@.push(c),
{
    s.push(c);
}

/// The characters of `s`.
pub(crate) fn chars_of(s: &str) -> (v: Vec<char>)
    ensures
        v@ == s@,
{
    let n = s.unicode_len();
    let mut v: Vec<char> = Vec::new();
    let mut i: usize = 0;
    while i < n
        invariant
            n == s@.len(),
            i <= n,
            v@ == s@.subrange(0, i as int),
        decreases n - i,
    {
        v.push(s.get_char(i));
        i += 1;
    }
    v
}

/// Bounds of the trimmed part of `cs`.
pub(crate) fn trim_bounds(cs: &Vec<char>) -> (r: (usize, usize))
    ensures
        r.0 <= r.1 <= cs@.len(),
        cs@.subrange(r.0 as int, r.1 as int) == spec_trim(cs@),
{
    let n = cs.len();
    let mut i: usize = 0;
    assert(cs@.subrange(0, n as int) == cs@);
    while i < n && is_whitespace_char(cs[i])
        invariant
            n == cs@.len(),
            i <= n,
            spec_trim_start(cs@) == spec_trim_start(cs@.subrange(i as int, n as int)),
        decreases n - i,
    {
        let ghost sub = cs@.subrange(i as int, n as int);
        assert(sub.drop_first() == cs@.subrange(i + 1, n as int));
        i += 1;
    }
    let mut j: usize = n;
    assert(spec_trim_start(cs@) == cs@.subrange(i as int, n as int));
    while j > i && is_whitespace_char(cs[j - 1])
        invariant
            n == cs@.len(),
            i <= j <= n,
            spec_trim(cs@) == spec_trim_end(cs@.subrange(i as int, j as int)),
        decreases j,
    {
        let ghost sub = cs@.subrange(i as int, j as int);
        assert(sub.drop_last() == cs@.subrange(i as int, j - 1));
        j -= 1;
    }
    (i, j)
}

/// Whether `a` and `b` are equal up to ASCII case.
pub(crate) fn chars_eq_ignore_ascii_case(a: &Vec<char>, b: &Vec<char>) -> (r: bool)
    ensures
        r == eq_ignore_ascii_case(a@, b@),
{
    if a.len() != b.len() {
        return false;
    }
    let n = a.len();
    let mut i: usize = 0;
    while i < n
        invariant
            n == a@.len(),
            n == b@.len(),
            i <= n,
            forall|k: int| 0 <= k < i ==> ascii_lower(a@[k]) == ascii_lower(b@[k]),
        decreases n - i,
    {
        if lower_char(a[i]) != lower_char(b[i]) {
            return false;
        }
        i += 1;
    }
    true
}

fn lower_char(c: char) -> (r: u32)
    ensures
        r == ascii_lower(c),
{
    let u = c as u32;
    if 65 <= u && u <= 90 {
        u + 32
    } else {
        u
    }
}

} // verus!
