//! Strings as sequences of characters: conversions, character classes, and
//! trimming.

use crate::runs::{lemma_leading_is, lemma_trailing_is, trim, trim_back, trim_front};
use vstd::prelude::*;

verus! {

/// `String::push` appends the character to the string and leaves the
/// characters before it as they were.
pub assume_specification[ String::push ](s: &mut String, ch: char)
    ensures
        final(s)@ == old(s)@.push(ch),
;

/// The views of a sequence of borrowed strings.
pub open spec fn str_views(items: Seq<&str>) -> Seq<Seq<char>> {
    Seq::new(items.len(), |i: int| items[i]@)
}

/// The views of a sequence of owned strings.
pub open spec fn string_views(items: Seq<String>) -> Seq<Seq<char>> {
    Seq::new(items.len(), |i: int| items[i]@)
}

/// The views of a sequence of character vectors.
pub open spec fn chars_views(items: Seq<Vec<char>>) -> Seq<Seq<char>> {
    Seq::new(items.len(), |i: int| items[i]@)
}

/// The characters of `s`, in order.
pub fn chars_of(s: &str) -> (v: Vec<char>)
    ensures
        v@ == s@,
{
    let mut v: Vec<char> = Vec::new();
    for c in it: s.chars()
        invariant
            v@ == it.seq().take(it.index() as int),
    {
        v.push(c);
    }
    v
}

/// The string made of `v[from..to]`.
pub fn string_of_range(v: &Vec<char>, from: usize, to: usize) -> (s: String)
    requires
        from <= to <= v.len(),
    ensures
        s@ == v@.subrange(from as int, to as int),
{
    let mut s = String::new();
    let mut i: usize = from;
    while i < to
        invariant
            from <= i <= to <= v.len(),
            s@ == v@.subrange(from as int, i as int),
        decreases to - i,
    {
        s.push(v[i]);
        i += 1;
        assert(v@.subrange(from as int, i as int) =~= v@.subrange(from as int, i - 1).push(
            v@[i - 1],
        ));
    }
    s
}

/// The string made of all of `v`.
pub fn string_of(v: &Vec<char>) -> (s: String)
    ensures
        s@ == v@,
{
    let s = string_of_range(v, 0, v.len());
    assert(v@.subrange(0, v@.len() as int) =~= v@);
    s
}

/// The strings made of each member of `items`.
pub fn strings_of(items: &Vec<Vec<char>>) -> (out: Vec<String>)
    ensures
        string_views(out@) == chars_views(items@),
{
    let mut out: Vec<String> = Vec::new();
    let mut i: usize = 0;
    while i < items.len()
        invariant
            i <= items.len(),
            out@.len() == i,
            forall|j: int| 0 <= j < i ==> (#[trigger] out@[j])@ == items@[j]@,
        decreases items.len() - i,
    {
        out.push(string_of(&items[i]));
        i += 1;
    }
    assert(string_views(out@) =~= chars_views(items@));
    out
}

/// Copies of `items[from..to]`.
pub fn strings_in(items: &Vec<String>, from: usize, to: usize) -> (out: Vec<String>)
    requires
        from <= to <= items.len(),
    ensures
        string_views(out@) == string_views(items@).subrange(from as int, to as int),
{
    let mut out: Vec<String> = Vec::new();
    let mut i: usize = from;
    while i < to
        invariant
            from <= i <= to <= items.len(),
            out@.len() == i - from,
            forall|k: int| 0 <= k < i - from ==> (#[trigger] out@[k])@ == items@[from + k]@,
        decreases to - i,
    {
        out.push(items[i].clone());
        i += 1;
    }
    assert(string_views(out@) =~= string_views(items@).subrange(from as int, to as int));
    out
}

/// Copies of all of `items`.
pub fn copy_strings(items: &Vec<String>) -> (out: Vec<String>)
    ensures
        string_views(out@) == string_views(items@),
{
    let out = strings_in(items, 0, items.len());
    assert(string_views(items@).subrange(0, items@.len() as int) =~= string_views(items@));
    out
}

/// Appends `v[from..to]` to `out`.
pub fn push_range(out: &mut Vec<char>, v: &Vec<char>, from: usize, to: usize)
    requires
        from <= to <= v.len(),
    ensures
        final(out)@ == old(out)@ + v@.subrange(from as int, to as int),
{
    let mut i: usize = from;
    assert(out@ =~= old(out)@ + v@.subrange(from as int, i as int));
    while i < to
        invariant
            from <= i <= to <= v.len(),
            out@ == old(out)@ + v@.subrange(from as int, i as int),
        decreases to - i,
    {
        out.push(v[i]);
        i += 1;
        assert(v@.subrange(from as int, i as int) =~= v@.subrange(from as int, i - 1).push(
            v@[i - 1],
        ));
        assert(out@ =~= old(out)@ + v@.subrange(from as int, i as int));
    }
}

/// A copy of `v[from..to]`.
pub fn chars_of_range(v: &Vec<char>, from: usize, to: usize) -> (out: Vec<char>)
    requires
        from <= to <= v.len(),
    ensures
        out@ == v@.subrange(from as int, to as int),
{
    let mut out: Vec<char> = Vec::new();
    push_range(&mut out, v, from, to);
    assert(out@ =~= v@.subrange(from as int, to as int));
    out
}

/// Appends all of `v` to `out`.
pub fn push_all(out: &mut Vec<char>, v: &Vec<char>)
    ensures
        final(out)@ == old(out)@ + v@,
{
    assert(v@.subrange(0, v@.len() as int) =~= v@);
    push_range(out, v, 0, v.len());
}

/// True for the five characters of ASCII whitespace: space, tab, line feed,
/// form feed and carriage return.
pub open spec fn is_space(c: char) -> bool {
    c == ' ' || c == '\t' || c == '\n' || c == '\u{c}' || c == '\r'
}

/// True for the characters that Unicode gives the property `White_Space`.
pub open spec fn is_whitespace(c: char) -> bool {
    ||| '\u{9}' <= c <= '\u{d}'
    ||| c == ' '
    ||| c == '\u{85}'
    ||| c == '\u{a0}'
    ||| c == '\u{1680}'
    ||| '\u{2000}' <= c <= '\u{200a}'
    ||| c == '\u{2028}'
    ||| c == '\u{2029}'
    ||| c == '\u{202f}'
    ||| c == '\u{205f}'
    ||| c == '\u{3000}'
}

/// The predicate of [`is_whitespace`].
pub open spec fn whitespace() -> spec_fn(char) -> bool {
    |c: char| is_whitespace(c)
}

/// The predicate that holds of the character `c` alone.
pub open spec fn only(c: char) -> spec_fn(char) -> bool {
    |d: char| d == c
}

/// Tells whether `c` is ASCII whitespace.
pub fn is_space_char(c: char) -> (r: bool)
    ensures
        r == is_space(c),
{
    c == ' ' || c == '\t' || c == '\n' || c == '\u{c}' || c == '\r'
}

/// Tells whether `c` is Unicode whitespace.
pub fn is_whitespace_char(c: char) -> (r: bool)
    ensures
        r == is_whitespace(c),
{
    ('\u{9}' <= c && c <= '\u{d}') || c == ' ' || c == '\u{85}' || c == '\u{a0}' || c
        == '\u{1680}' || ('\u{2000}' <= c && c <= '\u{200a}') || c == '\u{2028}' || c
        == '\u{2029}' || c == '\u{202f}' || c == '\u{205f}' || c == '\u{3000}'
}

/// The bounds of `v[from..to]` once the whitespace at both of its ends is
/// set aside.
pub fn trim_whitespace_bounds(v: &Vec<char>, from: usize, to: usize) -> (r: (usize, usize))
    requires
        from <= to <= v.len(),
    ensures
        from <= r.0 <= r.1 <= to,
        v@.subrange(r.0 as int, r.1 as int) == trim(
            v@.subrange(from as int, to as int),
            whitespace(),
        ),
{
    let ghost s = v@.subrange(from as int, to as int);
    let mut a: usize = from;
    while a < to && is_whitespace_char(v[a])
        invariant
            from <= a <= to <= v.len(),
            forall|i: int| from <= i < a ==> is_whitespace(#[trigger] v@[i]),
        decreases to - a,
    {
        a += 1;
    }
    let ghost t = v@.subrange(a as int, to as int);
    let mut b: usize = to;
    while b > a && is_whitespace_char(v[b - 1])
        invariant
            a <= b <= to <= v.len(),
            forall|i: int| b <= i < to ==> is_whitespace(#[trigger] v@[i]),
        decreases b - a,
    {
        b -= 1;
    }
    proof {
        assert forall|i: int| 0 <= i < a - from implies whitespace()(#[trigger] s[i]) by {
            assert(s[i] == v@[from + i]);
        }
        lemma_leading_is(s, whitespace(), a - from);
        assert(trim_front(s, whitespace()) =~= t);
        assert forall|i: int| t.len() - (to - b) <= i < t.len() implies whitespace()(
            #[trigger] t[i],
        ) by {
            assert(t[i] == v@[a + i]);
        }
        lemma_trailing_is(t, whitespace(), to - b);
        assert(trim_back(t, whitespace()) =~= v@.subrange(a as int, b as int));
    }
    (a, b)
}

/// The bounds of `v` once the characters `c` at both of its ends are set
/// aside.
pub fn trim_char_bounds(v: &Vec<char>, c: char) -> (r: (usize, usize))
    ensures
        r.0 <= r.1 <= v.len(),
        v@.subrange(r.0 as int, r.1 as int) == trim(v@, only(c)),
{
    let to = v.len();
    let mut a: usize = 0;
    while a < to && v[a] == c
        invariant
            a <= to == v.len(),
            forall|i: int| 0 <= i < a ==> #[trigger] v@[i] == c,
        decreases to - a,
    {
        a += 1;
    }
    let ghost t = v@.subrange(a as int, to as int);
    let mut b: usize = to;
    while b > a && v[b - 1] == c
        invariant
            a <= b <= to == v.len(),
            forall|i: int| b <= i < to ==> #[trigger] v@[i] == c,
        decreases b - a,
    {
        b -= 1;
    }
    proof {
        lemma_leading_is(v@, only(c), a as int);
        assert(trim_front(v@, only(c)) =~= t);
        assert forall|i: int| t.len() - (to - b) <= i < t.len() implies only(c)(
            #[trigger] t[i],
        ) by {
            assert(t[i] == v@[a + i]);
        }
        lemma_trailing_is(t, only(c), to - b);
        assert(trim_back(t, only(c)) =~= v@.subrange(a as int, b as int));
    }
    (a, b)
}

/// Tells whether `pat` stands in `v` at index `at`.
pub fn occurs_at(v: &Vec<char>, at: usize, pat: &Vec<char>) -> (r: bool)
    requires
        at <= v.len(),
    ensures
        r == pat@.is_prefix_of(v@.skip(at as int)),
{
    let ghost rest = v@.skip(at as int);
    if pat.len() > v.len() - at {
        return false;
    }
    let mut i: usize = 0;
    while i < pat.len()
        invariant
            i <= pat.len() <= v.len() - at,
            rest == v@.skip(at as int),
            forall|k: int| 0 <= k < i ==> pat@[k] == v@[at + k],
        decreases pat.len() - i,
    {
        if pat[i] != v[at + i] {
            assert(rest.subrange(0, pat@.len() as int)[i as int] == v@[at + i]);
            return false;
        }
        i += 1;
    }
    assert(rest.subrange(0, pat@.len() as int) =~= pat@);
    true
}

} // verus!
