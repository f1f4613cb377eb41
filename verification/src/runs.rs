//! Runs of members at the ends of a sequence that satisfy a predicate, and
//! the first member that does.

use vstd::prelude::*;

verus! {

/// How many members at the front of `s` satisfy `p`.
pub open spec fn leading<T>(s: Seq<T>, p: spec_fn(T) -> bool) -> nat
    decreases s.len(),
{
    if s.len() > 0 && p(s[0]) {
        1 + leading(s.drop_first(), p)
    } else {
        0
    }
}

/// How many members at the back of `s` satisfy `p`.
pub open spec fn trailing<T>(s: Seq<T>, p: spec_fn(T) -> bool) -> nat
    decreases s.len(),
{
    if s.len() > 0 && p(s.last()) {
        1 + trailing(s.drop_last(), p)
    } else {
        0
    }
}

/// `leading(s, p)` is the one `n` such that the first `n` members satisfy
/// `p` and the member after them, if there is one, does not.
pub proof fn lemma_leading_is<T>(s: Seq<T>, p: spec_fn(T) -> bool, n: int)
    requires
        0 <= n <= s.len(),
        forall|i: int| 0 <= i < n ==> p(#[trigger] s[i]),
        n < s.len() ==> !p(s[n]),
    ensures
        leading(s, p) == n,
    decreases s.len(),
{
    if n > 0 {
        let t = s.drop_first();
        assert forall|i: int| 0 <= i < n - 1 implies p(#[trigger] t[i]) by {
            assert(t[i] == s[i + 1]);
        }
        if n - 1 < t.len() {
            assert(t[n - 1] == s[n]);
        }
        lemma_leading_is(t, p, n - 1);
    }
}

/// What `leading(s, p)` counts: a run of members that satisfy `p`, ended by
/// the end of `s` or by a member that does not.
pub proof fn lemma_leading_run<T>(s: Seq<T>, p: spec_fn(T) -> bool)
    ensures
        leading(s, p) <= s.len(),
        forall|i: int| 0 <= i < leading(s, p) ==> p(#[trigger] s[i]),
        leading(s, p) < s.len() ==> !p(s[leading(s, p) as int]),
    decreases s.len(),
{
    if s.len() > 0 && p(s[0]) {
        let t = s.drop_first();
        lemma_leading_run(t, p);
        assert forall|i: int| 0 <= i < leading(s, p) implies p(#[trigger] s[i]) by {
            if i > 0 {
                assert(s[i] == t[i - 1]);
            }
        }
        if leading(s, p) < s.len() {
            assert(s[leading(s, p) as int] == t[leading(t, p) as int]);
        }
    }
}

/// `trailing(s, p)` is the one `n` such that the last `n` members satisfy
/// `p` and the member before them, if there is one, does not.
pub proof fn lemma_trailing_is<T>(s: Seq<T>, p: spec_fn(T) -> bool, n: int)
    requires
        0 <= n <= s.len(),
        forall|i: int| s.len() - n <= i < s.len() ==> p(#[trigger] s[i]),
        n < s.len() ==> !p(s[s.len() - n - 1]),
    ensures
        trailing(s, p) == n,
    decreases s.len(),
{
    if n > 0 {
        let t = s.drop_last();
        assert forall|i: int| t.len() - (n - 1) <= i < t.len() implies p(#[trigger] t[i]) by {
            assert(t[i] == s[i]);
        }
        if n - 1 < t.len() {
            assert(t[t.len() - (n - 1) - 1] == s[s.len() - n - 1]);
        }
        lemma_trailing_is(t, p, n - 1);
    }
}

/// What `trailing(s, p)` counts: a run of members that satisfy `p`, begun by
/// the start of `s` or after a member that does not.
pub proof fn lemma_trailing_run<T>(s: Seq<T>, p: spec_fn(T) -> bool)
    ensures
        trailing(s, p) <= s.len(),
        forall|i: int| s.len() - trailing(s, p) <= i < s.len() ==> p(#[trigger] s[i]),
        trailing(s, p) < s.len() ==> !p(s[s.len() - trailing(s, p) - 1]),
    decreases s.len(),
{
    if s.len() > 0 && p(s.last()) {
        let t = s.drop_last();
        lemma_trailing_run(t, p);
        assert forall|i: int| s.len() - trailing(s, p) <= i < s.len() implies p(
            #[trigger] s[i],
        ) by {
            if i < s.len() - 1 {
                assert(s[i] == t[i]);
            }
        }
        if trailing(s, p) < s.len() {
            assert(s[s.len() - trailing(s, p) - 1] == t[t.len() - trailing(t, p) - 1]);
        }
    }
}

/// `s` without the run of members at its front that satisfy `p`.
pub open spec fn trim_front<T>(s: Seq<T>, p: spec_fn(T) -> bool) -> Seq<T> {
    s.skip(leading(s, p) as int)
}

/// `s` without the run of members at its back that satisfy `p`.
pub open spec fn trim_back<T>(s: Seq<T>, p: spec_fn(T) -> bool) -> Seq<T> {
    s.take(s.len() - trailing(s, p))
}

/// `s` without the runs of members at its front and at its back that
/// satisfy `p`.
pub open spec fn trim<T>(s: Seq<T>, p: spec_fn(T) -> bool) -> Seq<T> {
    trim_back(trim_front(s, p), p)
}

/// The index of the first member of `s` that satisfies `p`.
pub open spec fn first_index<T>(s: Seq<T>, p: spec_fn(T) -> bool) -> Option<int> {
    let n = leading(s, |x: T| !p(x)) as int;
    if n < s.len() {
        Some(n)
    } else {
        None
    }
}

/// What [`first_index`] picks: a member that satisfies `p` with none before
/// it that does; and nothing only when no member satisfies `p`.
pub proof fn lemma_first_index<T>(s: Seq<T>, p: spec_fn(T) -> bool)
    ensures
        match first_index(s, p) {
            Some(i) => 0 <= i < s.len() && p(s[i]) && forall|k: int|
                0 <= k < i ==> !p(#[trigger] s[k]),
            None => forall|k: int| 0 <= k < s.len() ==> !p(#[trigger] s[k]),
        },
{
    lemma_leading_run(s, |x: T| !p(x));
}

/// A member that satisfies `p`, with none before it that does, is the one
/// that [`first_index`] picks.
pub proof fn lemma_first_index_is<T>(s: Seq<T>, p: spec_fn(T) -> bool, i: int)
    requires
        0 <= i <= s.len(),
        forall|k: int| 0 <= k < i ==> !p(#[trigger] s[k]),
        i < s.len() ==> p(s[i]),
    ensures
        first_index(s, p) == if i < s.len() {
            Some(i)
        } else {
            None
        },
{
    lemma_leading_is(s, |x: T| !p(x), i);
}

} // verus!
