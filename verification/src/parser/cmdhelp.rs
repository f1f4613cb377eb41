//! Command help strings: a summary line, optional details, and two marks
//! that stand for the command as it is typed.

use crate::runs::trim;
use crate::split::{join_parts, joined, lemma_pieces, pieces, split_pieces};
use crate::text::{
    chars_of, chars_of_range, chars_views, occurs_at, push_all, push_range, string_of,
    string_of_range, trim_whitespace_bounds, whitespace,
};
use vstd::prelude::*;

verus! {

/// `s` with each occurrence of `pat` replaced by `sub`, the occurrences
/// found from left to right and never overlapping. An empty `pat` occurs
/// nowhere.
pub open spec fn replaced(s: Seq<char>, pat: Seq<char>, sub: Seq<char>) -> Seq<char>
    decreases s.len(),
{
    if s.len() == 0 || pat.len() == 0 {
        s
    } else if pat.is_prefix_of(s) {
        sub + replaced(s.skip(pat.len() as int), pat, sub)
    } else {
        seq![s[0]] + replaced(s.drop_first(), pat, sub)
    }
}

/// Replaces each occurrence of `pat` in `v` by `sub`.
pub fn replace_all(v: &Vec<char>, pat: &Vec<char>, sub: &Vec<char>) -> (out: Vec<char>)
    ensures
        out@ == replaced(v@, pat@, sub@),
{
    if pat.len() == 0 {
        let out = chars_of_range(v, 0, v.len());
        assert(out@ =~= v@);
        return out;
    }
    let mut out: Vec<char> = Vec::new();
    let mut i: usize = 0;
    assert(v@.skip(0) =~= v@);
    assert(out@ + replaced(v@, pat@, sub@) =~= replaced(v@, pat@, sub@));
    while i < v.len()
        invariant
            i <= v.len(),
            pat.len() > 0,
            out@ + replaced(v@.skip(i as int), pat@, sub@) == replaced(v@, pat@, sub@),
        decreases v.len() - i,
    {
        let ghost rest = v@.skip(i as int);
        let ghost before = out@;
        if occurs_at(v, i, pat) {
            push_all(&mut out, sub);
            proof {
                assert(rest.skip(pat@.len() as int) =~= v@.skip(i + pat@.len()));
                assert(out@ + replaced(v@.skip(i + pat@.len()), pat@, sub@) =~= before + (sub@
                    + replaced(rest.skip(pat@.len() as int), pat@, sub@)));
            }
            i += pat.len();
        } else {
            out.push(v[i]);
            proof {
                assert(rest.drop_first() =~= v@.skip(i + 1));
                assert(out@ + replaced(v@.skip(i + 1), pat@, sub@) =~= before + (seq![rest[0]]
                    + replaced(rest.drop_first(), pat@, sub@)));
            }
            i += 1;
        }
    }
    assert(out@ + replaced(v@.skip(i as int), pat@, sub@) =~= out@);
    out
}

/// The mark `%!`, which stands for the command behind its prefix.
pub open spec fn invocation_mark() -> Seq<char> {
    seq!['%', '!']
}

/// The mark `%PREFIX%`, which stands for the prefix alone.
pub open spec fn prefix_mark() -> Seq<char> {
    seq!['%', 'P', 'R', 'E', 'F', 'I', 'X', '%']
}

/// One line of help as it is shown: without the whitespace at its ends, and
/// with the invocation marks filled in first, the prefix marks after them.
pub open spec fn rendered_line(line: Seq<char>, prefix: Seq<char>, cmdname: Seq<char>) -> Seq<
    char,
> {
    replaced(
        replaced(trim(line, whitespace()), invocation_mark(), prefix + cmdname),
        prefix_mark(),
        prefix,
    )
}

/// The lines of `help` as they are shown. The whitespace around `help` as a
/// whole does not count, so there is always a first line.
pub open spec fn rendered_lines(prefix: Seq<char>, cmdname: Seq<char>, help: Seq<char>) -> Seq<
    Seq<char>,
> {
    let lines = pieces(trim(help, whitespace()), '\n');
    Seq::new(lines.len(), |i: int| rendered_line(lines[i], prefix, cmdname))
}

/// The summary of `help`: its first line as shown.
pub open spec fn help_summary(prefix: Seq<char>, cmdname: Seq<char>, help: Seq<char>) -> Seq<
    char,
> {
    rendered_lines(prefix, cmdname, help)[0]
}

/// The details of `help`: the lines after the first as shown, joined by line
/// feeds, without the whitespace around the whole. A help of one line has no
/// details.
pub open spec fn help_details(prefix: Seq<char>, cmdname: Seq<char>, help: Seq<char>) -> Option<
    Seq<char>,
> {
    let lines = rendered_lines(prefix, cmdname, help);
    if lines.len() > 1 {
        Some(trim(joined(lines.skip(1), seq!['\n']), whitespace()))
    } else {
        None
    }
}

/// Splits a command's help string into its summary and its details, filling
/// in the marks. `prefix` is the first of the configured prefixes.
pub fn parse_command_help(prefix: &str, cmdname: &str, helpstr: &str) -> (r: (
    String,
    Option<String>,
))
    ensures
        r.0@ == help_summary(prefix@, cmdname@, helpstr@),
        match r.1 {
            Some(details) => help_details(prefix@, cmdname@, helpstr@) == Some(details@),
            None => help_details(prefix@, cmdname@, helpstr@) is None,
        },
{
    let prefix_chars = chars_of(prefix);
    let mut cmd: Vec<char> = Vec::new();
    push_all(&mut cmd, &prefix_chars);
    push_all(&mut cmd, &chars_of(cmdname));
    assert(cmd@ =~= prefix@ + cmdname@);
    let invocation: Vec<char> = vec!['%', '!'];
    let bare: Vec<char> = vec!['%', 'P', 'R', 'E', 'F', 'I', 'X', '%'];
    assert(invocation@ =~= invocation_mark());
    assert(bare@ =~= prefix_mark());

    let help = chars_of(helpstr);
    let whole = trim_whitespace_bounds(&help, 0, help.len());
    assert(help@.subrange(0, help@.len() as int) =~= help@);
    let lines = split_pieces(&help, whole.0, whole.1, '\n');
    let ghost raw = pieces(trim(helpstr@, whitespace()), '\n');
    proof {
        lemma_pieces(trim(helpstr@, whitespace()), '\n');
    }
    let mut shown: Vec<Vec<char>> = Vec::new();
    let mut i: usize = 0;
    while i < lines.len()
        invariant
            i <= lines.len(),
            chars_views(lines@) == raw,
            cmd@ == prefix@ + cmdname@,
            prefix_chars@ == prefix@,
            invocation@ == invocation_mark(),
            bare@ == prefix_mark(),
            shown@.len() == i,
            forall|k: int|
                0 <= k < i ==> (#[trigger] shown@[k])@ == rendered_line(raw[k], prefix@, cmdname@),
        decreases lines.len() - i,
    {
        let line = &lines[i];
        assert(line@ == raw[i as int]);
        let ends = trim_whitespace_bounds(line, 0, line.len());
        assert(line@.subrange(0, line@.len() as int) =~= line@);
        let mut bare_line: Vec<char> = Vec::new();
        push_range(&mut bare_line, line, ends.0, ends.1);
        assert(bare_line@ =~= trim(line@, whitespace()));
        let filled = replace_all(&replace_all(&bare_line, &invocation, &cmd), &bare, &prefix_chars);
        shown.push(filled);
        i += 1;
    }
    assert(chars_views(shown@) =~= rendered_lines(prefix@, cmdname@, helpstr@));
    let summary = string_of(&shown[0]);
    if shown.len() > 1 {
        let rest = join_parts(&shown, 1, '\n');
        let ends = trim_whitespace_bounds(&rest, 0, rest.len());
        assert(rest@.subrange(0, rest@.len() as int) =~= rest@);
        (summary, Some(string_of_range(&rest, ends.0, ends.1)))
    } else {
        (summary, None)
    }
}

} // verus!
