//! The parser that reads a command invocation out of a message.

use crate::command::{sorted_by_position, CommandInvocation, InvocationView};
use crate::runs::{
    leading, lemma_leading_is, lemma_leading_run, lemma_trailing_is, lemma_trailing_run, trailing,
    trim, trim_front,
};
use crate::split::{joined, split_words, words};
use crate::text::{
    chars_of, chars_of_range, chars_views, occurs_at, only, push_all, str_views, string_of_range,
    string_views, strings_in, strings_of, trim_char_bounds,
};
use vstd::prelude::*;

verus! {

/// The index of the last member of `prefixes` that `input` starts with.
pub open spec fn last_match(prefixes: Seq<Seq<char>>, input: Seq<char>) -> Option<int>
    decreases prefixes.len(),
{
    if prefixes.len() == 0 {
        None
    } else if prefixes.last().is_prefix_of(input) {
        Some(prefixes.len() - 1)
    } else {
        last_match(prefixes.drop_last(), input)
    }
}

/// What [`last_match`] picks: a prefix that `input` starts with, such that
/// `input` starts with none of the prefixes after it; and nothing only when
/// `input` starts with none at all.
pub proof fn lemma_last_match(prefixes: Seq<Seq<char>>, input: Seq<char>)
    ensures
        match last_match(prefixes, input) {
            Some(i) => {
                &&& 0 <= i < prefixes.len()
                &&& prefixes[i].is_prefix_of(input)
                &&& forall|j: int|
                    i < j < prefixes.len() ==> !(#[trigger] prefixes[j]).is_prefix_of(input)
            },
            None => forall|j: int|
                0 <= j < prefixes.len() ==> !(#[trigger] prefixes[j]).is_prefix_of(input),
        },
    decreases prefixes.len(),
{
    if prefixes.len() > 0 && !prefixes.last().is_prefix_of(input) {
        let front = prefixes.drop_last();
        lemma_last_match(front, input);
        assert forall|j: int| 0 <= j < front.len() implies front[j] == prefixes[j] by {}
        match last_match(front, input) {
            Some(i) => {
                assert(front[i] == prefixes[i]);
                assert forall|j: int| i < j < prefixes.len() implies !(
                #[trigger] prefixes[j]).is_prefix_of(input) by {
                    if j < front.len() {
                        assert(front[j] == prefixes[j]);
                    }
                }
            },
            None => {
                assert forall|j: int| 0 <= j < prefixes.len() implies !(
                #[trigger] prefixes[j]).is_prefix_of(input) by {
                    if j < front.len() {
                        assert(front[j] == prefixes[j]);
                    }
                }
            },
        }
    }
}

/// Finds the last of `prefixes` that `input` starts with.
pub fn match_prefix(prefixes: &[&str], input: &Vec<char>) -> (r: Option<usize>)
    ensures
        match r {
            Some(i) => last_match(str_views(prefixes@), input@) == Some(i as int),
            None => last_match(str_views(prefixes@), input@) is None,
        },
{
    let ghost all = str_views(prefixes@);
    let mut i: usize = prefixes.len();
    assert(all.take(i as int) =~= all);
    while i > 0
        invariant
            i <= prefixes.len(),
            all == str_views(prefixes@),
            last_match(all, input@) == last_match(all.take(i as int), input@),
        decreases i,
    {
        let p = chars_of(prefixes[i - 1]);
        let ghost cur = all.take(i as int);
        assert(cur.last() == p@);
        assert(cur.drop_last() =~= all.take(i - 1));
        assert(input@.skip(0) =~= input@);
        if occurs_at(input, 0, &p) {
            return Some(i - 1);
        }
        i -= 1;
    }
    assert(all.take(0) =~= Seq::empty());
    None
}

/// A token that begins with a flag's dash.
pub open spec fn is_flag(t: Seq<char>) -> bool {
    t.len() > 0 && t[0] == '-'
}

/// A token that begins with a double quote.
pub open spec fn opens_quote(t: Seq<char>) -> bool {
    t.len() > 0 && t[0] == '"'
}

/// A token that ends with a double quote.
pub open spec fn closes_quote(t: Seq<char>) -> bool {
    t.len() > 0 && t.last() == '"'
}

/// The predicate of [`is_flag`].
pub open spec fn flag() -> spec_fn(Seq<char>) -> bool {
    |t: Seq<char>| is_flag(t)
}

/// The predicate that holds of the tokens that do not end a quotation.
pub open spec fn unclosed() -> spec_fn(Seq<char>) -> bool {
    |t: Seq<char>| !closes_quote(t)
}

/// `t` without the double quotes at its ends.
pub open spec fn unquoted(t: Seq<char>) -> Seq<char> {
    trim(t, only('"'))
}

/// The arguments that `tokens` spell. A token that begins with a double quote
/// takes in the tokens after it, up to the first one that ends with a double
/// quote (which may be the token itself); they are joined by single spaces
/// and lose the quotes at both ends. Every other token stands for itself.
/// There are no arguments to speak of when a quotation is left open.
pub open spec fn arguments_of(tokens: Seq<Seq<char>>) -> Option<Seq<Seq<char>>>
    decreases tokens.len(),
    via arguments_of_decreases
{
    if tokens.len() == 0 {
        Some(Seq::empty())
    } else if opens_quote(tokens[0]) {
        let n = leading(tokens, unclosed()) as int;
        if n >= tokens.len() {
            None
        } else {
            match arguments_of(tokens.skip(n + 1)) {
                Some(rest) => Some(seq![unquoted(joined(tokens.take(n + 1), seq![' ']))] + rest),
                None => None,
            }
        }
    } else {
        match arguments_of(tokens.drop_first()) {
            Some(rest) => Some(seq![tokens[0]] + rest),
            None => None,
        }
    }
}

#[via_fn]
proof fn arguments_of_decreases(tokens: Seq<Seq<char>>) {
    lemma_leading_run(tokens, unclosed());
}

/// `done` followed by what `rest` holds, when it holds anything.
pub open spec fn followed_by(done: Seq<Seq<char>>, rest: Option<Seq<Seq<char>>>) -> Option<
    Seq<Seq<char>>,
> {
    match rest {
        Some(r) => Some(done + r),
        None => None,
    }
}

/// Tells whether `t` begins with `c`.
pub fn begins_with(t: &Vec<char>, c: char) -> (r: bool)
    ensures
        r == (t@.len() > 0 && t@[0] == c),
{
    t.len() > 0 && t[0] == c
}

/// Tells whether `t` ends with `c`.
pub fn ends_with(t: &Vec<char>, c: char) -> (r: bool)
    ensures
        r == (t@.len() > 0 && t@.last() == c),
{
    t.len() > 0 && t[t.len() - 1] == c
}

/// Reads the arguments that `tokens[from..]` spell, or nothing when a
/// quotation among them is left open.
pub fn join_arguments(tokens: &Vec<Vec<char>>, from: usize) -> (r: Option<Vec<Vec<char>>>)
    requires
        from <= tokens.len(),
    ensures
        match r {
            Some(args) => arguments_of(chars_views(tokens@).skip(from as int)) == Some(
                chars_views(args@),
            ),
            None => arguments_of(chars_views(tokens@).skip(from as int)) is None,
        },
{
    let ghost all = chars_views(tokens@);
    let mut out: Vec<Vec<char>> = Vec::new();
    let mut i: usize = from;
    assert(chars_views(out@) + Seq::<Seq<char>>::empty() =~= Seq::<Seq<char>>::empty());
    assert(followed_by(chars_views(out@), arguments_of(all.skip(i as int))) == arguments_of(
        all.skip(from as int),
    )) by {
        match arguments_of(all.skip(i as int)) {
            Some(rest) => {
                assert(chars_views(out@) + rest =~= rest);
            },
            None => {},
        }
    }
    while i < tokens.len()
        invariant
            from <= i <= tokens.len(),
            all == chars_views(tokens@),
            followed_by(chars_views(out@), arguments_of(all.skip(i as int))) == arguments_of(
                all.skip(from as int),
            ),
        decreases tokens.len() - i,
    {
        let ghost rest = all.skip(i as int);
        let ghost before = chars_views(out@);
        assert(rest[0] == tokens@[i as int]@);
        if begins_with(&tokens[i], '"') {
            let mut k: usize = i;
            let mut acc: Vec<char> = chars_of_range(&tokens[i], 0, tokens[i].len());
            assert(acc@ =~= tokens@[i as int]@);
            assert(all.subrange(i as int, k + 1) =~= seq![tokens@[i as int]@]);
            while !ends_with(&tokens[k], '"')
                invariant
                    i <= k < tokens.len(),
                    all == chars_views(tokens@),
                    rest == all.skip(i as int),
                    forall|m: int| i <= m < k ==> !closes_quote(#[trigger] all[m]),
                    acc@ == joined(all.subrange(i as int, k + 1), seq![' ']),
                    arguments_of(all.skip(from as int)) == followed_by(before, arguments_of(rest)),
                    opens_quote(rest[0]),
                decreases tokens.len() - k,
            {
                assert(!closes_quote(all[k as int]));
                if k + 1 >= tokens.len() {
                    proof {
                        assert forall|m: int| 0 <= m < rest.len() implies unclosed()(
                            #[trigger] rest[m],
                        ) by {
                            assert(rest[m] == all[i + m]);
                        }
                        lemma_leading_is(rest, unclosed(), rest.len() as int);
                    }
                    return None;
                }
                k += 1;
                acc.push(' ');
                push_all(&mut acc, &tokens[k]);
                proof {
                    let run = all.subrange(i as int, k + 1);
                    assert(run.drop_last() =~= all.subrange(i as int, k as int));
                    assert(run.last() == tokens@[k as int]@);
                    assert(acc@ =~= joined(run.drop_last(), seq![' ']) + seq![' '] + run.last());
                }
            }
            let bounds = trim_char_bounds(&acc, '"');
            let arg = chars_of_range(&acc, bounds.0, bounds.1);
            proof {
                assert forall|m: int| 0 <= m < k - i implies unclosed()(#[trigger] rest[m]) by {
                    assert(rest[m] == all[i + m]);
                }
                assert(rest[k - i] == all[k as int]);
                lemma_leading_is(rest, unclosed(), k - i);
                assert(rest.take(k - i + 1) =~= all.subrange(i as int, k + 1));
                assert(rest.skip(k - i + 1) =~= all.skip(k + 1));
                assert(arg@ == unquoted(joined(rest.take(k - i + 1), seq![' '])));
                match arguments_of(all.skip(k + 1)) {
                    Some(tail) => {
                        assert(chars_views(out@.push(arg)) + tail =~= before + (seq![arg@] + tail));
                    },
                    None => {},
                }
            }
            out.push(arg);
            i = k + 1;
        } else {
            let arg = chars_of_range(&tokens[i], 0, tokens[i].len());
            proof {
                assert(arg@ =~= rest[0]);
                assert(rest.drop_first() =~= all.skip(i + 1));
                match arguments_of(all.skip(i + 1)) {
                    Some(tail) => {
                        assert(chars_views(out@.push(arg)) + tail =~= before + (seq![arg@] + tail));
                    },
                    None => {},
                }
            }
            out.push(arg);
            i += 1;
        }
    }
    proof {
        assert(all.skip(i as int) =~= Seq::<Seq<char>>::empty());
        assert(chars_views(out@) + Seq::<Seq<char>>::empty() =~= chars_views(out@));
    }
    Some(out)
}

/// The flags that stand before the first of `args` that is no flag.
pub open spec fn start_flags_of(args: Seq<Seq<char>>) -> Seq<Seq<char>> {
    args.take(leading(args, flag()) as int)
}

/// What is left of `args` without the flags at both of its ends: from the
/// first member that is no flag to the last one.
pub open spec fn arguments_between(args: Seq<Seq<char>>) -> Seq<Seq<char>> {
    trim(args, flag())
}

/// The flags that stand after the last of `args` that is no flag. Where all
/// of `args` are flags they are flags at the start, and none is left here.
pub open spec fn end_flags_of(args: Seq<Seq<char>>) -> Seq<Seq<char>> {
    let rest = trim_front(args, flag());
    rest.skip(rest.len() - trailing(rest, flag()))
}

/// The three runs cover `args` in order, each member in exactly one of them;
/// the outer two hold flags only, and the middle one, unless it is empty,
/// begins and ends with a member that is no flag.
pub proof fn lemma_flags_partition(args: Seq<Seq<char>>)
    ensures
        start_flags_of(args) + arguments_between(args) + end_flags_of(args) == args,
        start_flags_of(args).len() + arguments_between(args).len() + end_flags_of(args).len()
            == args.len(),
        forall|i: int|
            0 <= i < start_flags_of(args).len() ==> is_flag(#[trigger] start_flags_of(args)[i]),
        forall|i: int|
            0 <= i < end_flags_of(args).len() ==> is_flag(#[trigger] end_flags_of(args)[i]),
        arguments_between(args).len() > 0 ==> !is_flag(arguments_between(args).first())
            && !is_flag(arguments_between(args).last()),
        arguments_between(args).len() == 0 ==> start_flags_of(args) == args,
{
    let lead = leading(args, flag()) as int;
    let rest = trim_front(args, flag());
    let tail = trailing(rest, flag()) as int;
    lemma_leading_run(args, flag());
    lemma_trailing_run(rest, flag());
    let start = start_flags_of(args);
    let mid = arguments_between(args);
    let end = end_flags_of(args);
    assert(start + mid + end =~= args);
    assert forall|i: int| 0 <= i < start.len() implies is_flag(#[trigger] start[i]) by {
        assert(start[i] == args[i]);
    }
    assert forall|i: int| 0 <= i < end.len() implies is_flag(#[trigger] end[i]) by {
        assert(end[i] == rest[rest.len() - tail + i]);
    }
    if mid.len() > 0 {
        assert(mid.first() == args[lead]);
        assert(mid.last() == rest[rest.len() - tail - 1]);
    } else {
        if lead < args.len() {
            assert(rest.len() == tail);
            assert(rest[0] == args[lead]);
        }
        assert(start =~= args);
    }
}

/// Tells whether `s` begins with a flag's dash.
pub fn is_flag_string(s: &String) -> (r: bool)
    ensures
        r == is_flag(s@),
{
    let t = s.as_str();
    !t.is_empty() && t.get_char(0) == '-'
}

/// The three runs of a list of arguments: the flags at its start, the
/// arguments proper, and the flags at its end.
#[derive(Debug, Clone, PartialEq)]
pub struct FlagSplit {
    pub start_flags: Vec<String>,
    pub arguments: Vec<String>,
    pub end_flags: Vec<String>,
}

/// Sorts `args` by position into flags at the start, arguments, and flags at
/// the end.
pub fn split_flags(args: &Vec<String>) -> (r: FlagSplit)
    ensures
        string_views(r.start_flags@) == start_flags_of(string_views(args@)),
        string_views(r.arguments@) == arguments_between(string_views(args@)),
        string_views(r.end_flags@) == end_flags_of(string_views(args@)),
{
    let ghost all = string_views(args@);
    let n = args.len();
    let mut a: usize = 0;
    while a < n && is_flag_string(&args[a])
        invariant
            a <= n == args.len(),
            forall|i: int| 0 <= i < a ==> is_flag(#[trigger] args@[i]@),
        decreases n - a,
    {
        a += 1;
    }
    let mut b: usize = n;
    while b > a && is_flag_string(&args[b - 1])
        invariant
            a <= b <= n == args.len(),
            forall|i: int| b <= i < n ==> is_flag(#[trigger] args@[i]@),
        decreases b - a,
    {
        b -= 1;
    }
    proof {
        let rest = all.skip(a as int);
        assert forall|i: int| 0 <= i < a implies flag()(#[trigger] all[i]) by {
            assert(all[i] == args@[i]@);
        }
        if a < n {
            assert(all[a as int] == args@[a as int]@);
        }
        lemma_leading_is(all, flag(), a as int);
        assert forall|i: int| rest.len() - (n - b) <= i < rest.len() implies flag()(
            #[trigger] rest[i],
        ) by {
            assert(rest[i] == args@[a + i]@);
        }
        if n - b < rest.len() {
            assert(rest[rest.len() - (n - b) - 1] == args@[b - 1]@);
        }
        lemma_trailing_is(rest, flag(), n - b);
        assert(all.take(a as int) =~= all.subrange(0, a as int));
        assert(trim(all, flag()) =~= all.subrange(a as int, b as int));
        assert(rest.skip(rest.len() - (n - b)) =~= all.subrange(b as int, n as int));
    }
    FlagSplit {
        start_flags: strings_in(args, 0, a),
        arguments: strings_in(args, a, b),
        end_flags: strings_in(args, b, n),
    }
}

/// The invocation that `input` spells under `prefixes`, if it spells one.
///
/// The prefix is the last of `prefixes` that `input` starts with. What
/// follows it is cut into words at ASCII whitespace. The first word, without
/// the double quotes at its ends, names the command; the other words spell
/// the arguments, which are sorted by position into flags and arguments
/// proper. There is no invocation when no prefix fits, when no word follows
/// the prefix, or when a quotation is left open.
pub open spec fn parse_spec(prefixes: Seq<Seq<char>>, input: Seq<char>) -> Option<
    InvocationView,
> {
    match last_match(prefixes, input) {
        None => None,
        Some(i) => {
            let tokens = words(input.skip(prefixes[i].len() as int));
            if tokens.len() == 0 {
                None
            } else {
                match arguments_of(tokens.skip(1)) {
                    None => None,
                    Some(args) => Some(
                        InvocationView {
                            invoke_id: None,
                            prefix: prefixes[i],
                            command: unquoted(tokens[0]),
                            start_flags: start_flags_of(args),
                            arguments: arguments_between(args),
                            end_flags: end_flags_of(args),
                        },
                    ),
                }
            }
        },
    }
}

impl CommandInvocation {
    /// Reads `input` as a command invocation under one of `prefixes`.
    pub fn parse(prefixes: &[&str], input: &str) -> (r: Option<CommandInvocation>)
        ensures
            match r {
                Some(inv) => parse_spec(str_views(prefixes@), input@) == Some(inv@)
                    && inv.well_formed(),
                None => parse_spec(str_views(prefixes@), input@) is None,
            },
    {
        proof {
            if parse_spec(str_views(prefixes@), input@) is Some {
                lemma_parse_shape(str_views(prefixes@), input@);
            }
        }
        let chars = chars_of(input);
        let found = match_prefix(prefixes, &chars);
        proof {
            lemma_last_match(str_views(prefixes@), input@);
        }
        let index = match found {
            Some(i) => i,
            None => {
                return None;
            },
        };
        let prefix = prefixes[index].to_owned();
        let tokens = split_words(&chars, prefix.as_str().unicode_len());
        if tokens.len() < 1 {
            return None;
        }
        let joined_args = match join_arguments(&tokens, 1) {
            Some(a) => a,
            None => {
                return None;
            },
        };
        let args = strings_of(&joined_args);
        let split = split_flags(&args);
        let bounds = trim_char_bounds(&tokens[0], '"');
        let command = string_of_range(&tokens[0], bounds.0, bounds.1);
        Some(
            CommandInvocation {
                invoke_id: None,
                prefix,
                command,
                start_flags: split.start_flags,
                arguments: split.arguments,
                end_flags: split.end_flags,
            },
        )
    }
}

/// What an invocation read from `input` under `prefixes` is made of: its
/// prefix is the last of `prefixes` that `input` starts with; it carries no
/// identifier; and its flags and arguments are, in order and each exactly
/// once, the arguments that follow the command.
pub proof fn lemma_parse_shape(prefixes: Seq<Seq<char>>, input: Seq<char>)
    requires
        parse_spec(prefixes, input) is Some,
    ensures
        ({
            let inv = parse_spec(prefixes, input)->Some_0;
            let i = last_match(prefixes, input)->Some_0;
            let tokens = words(input.skip(prefixes[i].len() as int));
            &&& last_match(prefixes, input) is Some
            &&& 0 <= i < prefixes.len()
            &&& inv.prefix == prefixes[i]
            &&& inv.prefix.is_prefix_of(input)
            &&& forall|j: int|
                i < j < prefixes.len() ==> !(#[trigger] prefixes[j]).is_prefix_of(input)
            &&& inv.invoke_id is None
            &&& tokens.len() > 0
            &&& inv.command == unquoted(tokens[0])
            &&& arguments_of(tokens.skip(1)) == Some(
                inv.start_flags + inv.arguments + inv.end_flags,
            )
            &&& sorted_by_position(inv)
        }),
{
    lemma_last_match(prefixes, input);
    let i = last_match(prefixes, input)->Some_0;
    let tokens = words(input.skip(prefixes[i].len() as int));
    lemma_flags_partition(arguments_of(tokens.skip(1))->Some_0);
}

} // verus!
