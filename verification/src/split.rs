//! Cutting text into words and into parts, and joining parts again.

use crate::runs::{leading, lemma_leading_is, lemma_leading_run};
use crate::text::{chars_of_range, chars_views, is_space, is_space_char, push_all};
use vstd::prelude::*;

verus! {

/// The predicate that holds of every character but ASCII whitespace.
pub open spec fn non_space() -> spec_fn(char) -> bool {
    |c: char| !is_space(c)
}

/// The predicate that holds of every character but `c`.
pub open spec fn other_than(c: char) -> spec_fn(char) -> bool {
    |d: char| d != c
}

/// The maximal runs of characters other than ASCII whitespace in `s`, in
/// order.
pub open spec fn words(s: Seq<char>) -> Seq<Seq<char>>
    decreases s.len(),
    via words_decreases
{
    if s.len() == 0 {
        Seq::empty()
    } else if is_space(s[0]) {
        words(s.drop_first())
    } else {
        let n = leading(s, non_space()) as int;
        seq![s.take(n)] + words(s.skip(n))
    }
}

#[via_fn]
proof fn words_decreases(s: Seq<char>) {
    lemma_leading_run(s, non_space());
}

/// The parts of `s` between the occurrences of `sep`: one more part than
/// there are occurrences.
pub open spec fn pieces(s: Seq<char>, sep: char) -> Seq<Seq<char>>
    decreases s.len(),
    via pieces_decreases
{
    let n = leading(s, other_than(sep)) as int;
    if n >= s.len() {
        seq![s]
    } else {
        seq![s.take(n)] + pieces(s.skip(n + 1), sep)
    }
}

#[via_fn]
proof fn pieces_decreases(s: Seq<char>, sep: char) {
    lemma_leading_run(s, other_than(sep));
}

/// The members of `parts`, with `sep` between each two neighbours.
pub open spec fn joined(parts: Seq<Seq<char>>, sep: Seq<char>) -> Seq<char>
    decreases parts.len(),
{
    if parts.len() == 0 {
        Seq::empty()
    } else if parts.len() == 1 {
        parts[0]
    } else {
        joined(parts.drop_last(), sep) + sep + parts.last()
    }
}

/// Splits `v[from..]` into its words.
pub fn split_words(v: &Vec<char>, from: usize) -> (out: Vec<Vec<char>>)
    requires
        from <= v.len(),
    ensures
        chars_views(out@) == words(v@.skip(from as int)),
{
    let mut out: Vec<Vec<char>> = Vec::new();
    let mut i: usize = from;
    while i < v.len()
        invariant
            from <= i <= v.len(),
            chars_views(out@) + words(v@.skip(i as int)) == words(v@.skip(from as int)),
        decreases v.len() - i,
    {
        let ghost rest = v@.skip(i as int);
        if is_space_char(v[i]) {
            assert(rest.drop_first() =~= v@.skip(i + 1));
            i += 1;
        } else {
            let mut j: usize = i + 1;
            while j < v.len() && !is_space_char(v[j])
                invariant
                    i < j <= v.len(),
                    forall|k: int| i <= k < j ==> !is_space(#[trigger] v@[k]),
                decreases v.len() - j,
            {
                j += 1;
            }
            let word = chars_of_range(v, i, j);
            proof {
                assert forall|k: int| 0 <= k < j - i implies non_space()(#[trigger] rest[k]) by {
                    assert(rest[k] == v@[i + k]);
                }
                lemma_leading_is(rest, non_space(), j - i);
                assert(rest.take(j - i) =~= word@);
                assert(rest.skip(j - i) =~= v@.skip(j as int));
                assert(chars_views(out@.push(word)) =~= chars_views(out@) + seq![word@]);
            }
            out.push(word);
            i = j;
        }
    }
    assert(chars_views(out@) + words(v@.skip(i as int)) =~= chars_views(out@));
    out
}

/// No character of `s` is `sep`.
pub open spec fn free_of(s: Seq<char>, sep: char) -> bool {
    forall|k: int| 0 <= k < s.len() ==> #[trigger] s[k] != sep
}

/// [`pieces`] gives at least one part, and no part holds `sep`.
pub proof fn lemma_pieces(s: Seq<char>, sep: char)
    ensures
        pieces(s, sep).len() >= 1,
        forall|i: int| 0 <= i < pieces(s, sep).len() ==> free_of(#[trigger] pieces(s, sep)[i], sep),
    decreases s.len(),
{
    let n = leading(s, other_than(sep)) as int;
    lemma_leading_run(s, other_than(sep));
    if n < s.len() {
        lemma_pieces(s.skip(n + 1), sep);
        let rest = pieces(s.skip(n + 1), sep);
        assert forall|i: int| 0 <= i < pieces(s, sep).len() implies free_of(
            #[trigger] pieces(s, sep)[i],
            sep,
        ) by {
            if i == 0 {
                assert forall|k: int| 0 <= k < s.take(n).len() implies #[trigger] s.take(n)[k]
                    != sep by {
                    assert(s.take(n)[k] == s[k]);
                }
            } else {
                assert(pieces(s, sep)[i] == rest[i - 1]);
            }
        }
    } else {
        assert(s.take(n) =~= s);
    }
}

/// Splits `v[from..to]` at each occurrence of `sep`.
pub fn split_pieces(v: &Vec<char>, from: usize, to: usize, sep: char) -> (out: Vec<Vec<char>>)
    requires
        from <= to <= v.len(),
    ensures
        chars_views(out@) == pieces(v@.subrange(from as int, to as int), sep),
{
    let ghost s = v@.subrange(from as int, to as int);
    let mut out: Vec<Vec<char>> = Vec::new();
    let mut i: usize = from;
    assert(s.skip(0) =~= s);
    assert(chars_views(out@) + pieces(s, sep) =~= pieces(s, sep));
    loop
        invariant_except_break
            chars_views(out@) + pieces(s.skip(i - from), sep) == pieces(s, sep),
        invariant
            from <= i <= to <= v.len(),
            s == v@.subrange(from as int, to as int),
        ensures
            chars_views(out@) == pieces(s, sep),
        decreases to - i,
    {
        let ghost rest = s.skip(i - from);
        let mut j: usize = i;
        while j < to && v[j] != sep
            invariant
                i <= j <= to <= v.len(),
                forall|k: int| i <= k < j ==> #[trigger] v@[k] != sep,
            decreases to - j,
        {
            j += 1;
        }
        let part = chars_of_range(v, i, j);
        proof {
            assert forall|k: int| 0 <= k < j - i implies other_than(sep)(#[trigger] rest[k]) by {
                assert(rest[k] == v@[i + k]);
            }
            if j < to {
                assert(rest[j - i] == v@[j as int]);
            }
            lemma_leading_is(rest, other_than(sep), j - i);
            assert(rest.take(j - i) =~= part@);
            assert(chars_views(out@.push(part)) =~= chars_views(out@) + seq![part@]);
        }
        out.push(part);
        if j >= to {
            proof {
                assert(rest =~= part@);
            }
            break ;
        }
        proof {
            assert(rest.skip(j - i + 1) =~= s.skip(j + 1 - from));
            assert(chars_views(out@) + pieces(s.skip(j + 1 - from), sep) =~= pieces(s, sep));
        }
        i = j + 1;
    }
    out
}

/// Joins `parts[from..]`, with `sep` between each two neighbours.
pub fn join_parts(parts: &Vec<Vec<char>>, from: usize, sep: char) -> (out: Vec<char>)
    requires
        from <= parts.len(),
    ensures
        out@ == joined(chars_views(parts@).skip(from as int), seq![sep]),
{
    let ghost all = chars_views(parts@).skip(from as int);
    let mut out: Vec<char> = Vec::new();
    let mut i: usize = from;
    assert(all.take(0) =~= Seq::<Seq<char>>::empty());
    while i < parts.len()
        invariant
            from <= i <= parts.len(),
            all == chars_views(parts@).skip(from as int),
            out@ == joined(all.take(i - from), seq![sep]),
        decreases parts.len() - i,
    {
        let ghost before = all.take(i - from);
        let ghost now = all.take(i + 1 - from);
        if i > from {
            out.push(sep);
        }
        push_all(&mut out, &parts[i]);
        proof {
            assert(now.drop_last() =~= before);
            assert(now.last() == parts@[i as int]@);
            if i > from {
                assert(out@ =~= joined(before, seq![sep]) + seq![sep] + now.last());
            } else {
                assert(out@ =~= now[0]);
            }
        }
        i += 1;
    }
    assert(all.take(i - from) =~= all);
    out
}

/// Every word holds a character, and none of its characters is ASCII
/// whitespace.
pub proof fn lemma_words(s: Seq<char>)
    ensures
        forall|i: int| 0 <= i < words(s).len() ==> (#[trigger] words(s)[i]).len() > 0,
        forall|i: int, k: int|
            0 <= i < words(s).len() && 0 <= k < words(s)[i].len() ==> !is_space(
                #[trigger] words(s)[i][k],
            ),
    decreases s.len(),
{
    if s.len() == 0 {
        assert(words(s).len() == 0);
    } else if is_space(s[0]) {
        lemma_words(s.drop_first());
        assert(words(s) == words(s.drop_first()));
    } else {
        let n = leading(s, non_space()) as int;
        lemma_leading_run(s, non_space());
        lemma_words(s.skip(n));
        let rest = words(s.skip(n));
        assert(words(s) == seq![s.take(n)] + rest);
        assert(n > 0);
        assert forall|i: int| 0 <= i < words(s).len() implies (#[trigger] words(s)[i]).len()
            > 0 by {
            if i > 0 {
                assert(words(s)[i] == rest[i - 1]);
            }
        }
        assert forall|i: int, k: int|
            0 <= i < words(s).len() && 0 <= k < words(s)[i].len() implies !is_space(
            #[trigger] words(s)[i][k],
        ) by {
            if i == 0 {
                assert(words(s)[0][k] == s[k]);
            } else {
                assert(words(s)[i] == rest[i - 1]);
            }
        }
    }
}

/// Text without `sep` is one part.
pub proof fn lemma_pieces_whole(s: Seq<char>, sep: char)
    requires
        free_of(s, sep),
    ensures
        pieces(s, sep) == seq![s],
{
    lemma_leading_is(s, other_than(sep), s.len() as int);
}

/// A part without `sep` that is added behind a `sep` is one more part.
pub proof fn lemma_pieces_append(s: Seq<char>, last: Seq<char>, sep: char)
    requires
        free_of(last, sep),
    ensures
        pieces(s + seq![sep] + last, sep) == pieces(s, sep).push(last),
    decreases s.len(),
{
    let whole = s + seq![sep] + last;
    let n = leading(s, other_than(sep)) as int;
    lemma_leading_run(s, other_than(sep));
    assert forall|k: int| 0 <= k < n implies other_than(sep)(#[trigger] whole[k]) by {
        assert(whole[k] == s[k]);
    }
    assert(whole[n] == sep) by {
        if n < s.len() {
            assert(whole[n] == s[n]);
        }
    }
    lemma_leading_is(whole, other_than(sep), n);
    assert(whole.take(n) =~= s.take(n));
    if n < s.len() {
        assert(whole.skip(n + 1) =~= s.skip(n + 1) + seq![sep] + last);
        lemma_pieces_append(s.skip(n + 1), last, sep);
        assert(pieces(whole, sep) =~= pieces(s, sep).push(last));
    } else {
        assert(whole.skip(n + 1) =~= last);
        lemma_pieces_whole(last, sep);
        assert(s.take(n) =~= s);
        assert(pieces(whole, sep) =~= pieces(s, sep).push(last));
    }
}

/// Parts without `sep` that are joined by `sep` are the parts that the
/// joined text is cut into. No parts at all join to the empty text, which is
/// one empty part.
pub proof fn lemma_pieces_of_joined(parts: Seq<Seq<char>>, sep: char)
    requires
        forall|i: int| 0 <= i < parts.len() ==> free_of(#[trigger] parts[i], sep),
    ensures
        pieces(joined(parts, seq![sep]), sep) == if parts.len() == 0 {
            seq![Seq::<char>::empty()]
        } else {
            parts
        },
    decreases parts.len(),
{
    if parts.len() == 0 {
        lemma_pieces_whole(Seq::<char>::empty(), sep);
    } else if parts.len() == 1 {
        lemma_pieces_whole(parts[0], sep);
        assert(seq![parts[0]] =~= parts);
    } else {
        let front = parts.drop_last();
        assert forall|i: int| 0 <= i < front.len() implies free_of(#[trigger] front[i], sep) by {
            assert(front[i] == parts[i]);
        }
        lemma_pieces_of_joined(front, sep);
        lemma_pieces_append(joined(front, seq![sep]), parts.last(), sep);
        assert(front.push(parts.last()) =~= parts);
    }
}

} // verus!
