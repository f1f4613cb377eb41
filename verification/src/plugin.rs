//! Plugins: their descriptors, and the exchange with a plugin process.
//!
//! An invocation is one exchange with a fresh process. The caller writes
//! each outgoing message as one line of JSON; [`TheiaPlugin::request_payload`]
//! frames the lines. The caller runs the plugin's executable in the plugin's
//! directory, writes the payload to its input and waits for it to end, for a
//! limited time ([`TheiaPlugin::timed_out`] is the error of a process that
//! has to be stopped); [`TheiaPlugin::response_lines`] judges how it ended
//! and cuts its output into lines. The caller reads each line as one incoming message;
//! [`TheiaPlugin::responses`] delivers them all, or none.

pub mod comms;
pub mod config;

use crate::error::{TheiaError, TheiaPluginRunError};
use crate::plugin::comms::TheiaPluginIncomingMessage;
use crate::plugin::config::{TheiaPluginCommandConfig, TheiaPluginConfig, named};
use crate::runs::{first_index, lemma_first_index_is, trim};
use crate::split::{
    free_of, joined, lemma_pieces_append, lemma_pieces_of_joined, lemma_pieces_whole, pieces,
    split_pieces,
};
use crate::text::{
    chars_of, chars_views, string_of_range, string_views, trim_whitespace_bounds, whitespace,
};
use std::collections::HashMap;
use vstd::prelude::*;
use vstd::utf8::{decode_utf8, valid_utf8};

verus! {

/// `String::from_utf8` succeeds on the byte sequences that are valid UTF-8,
/// and then gives the string that they encode.
pub assume_specification[ String::from_utf8 ](bytes: Vec<u8>) -> (r: Result<
    String,
    std::string::FromUtf8Error,
>)
    ensures
        r is Ok <==> valid_utf8(bytes@),
        r matches Ok(s) ==> s@ == decode_utf8(bytes@),
;

/// A plugin.
#[derive(Debug)]
pub struct TheiaPlugin {
    /// The directory that the plugin is installed in and runs in.
    pub path: std::path::PathBuf,
    /// The plugin's descriptor.
    pub config: TheiaPluginConfig,
    /// The bot's own configuration data for the plugin.
    pub cfgdata: HashMap<String, serde_json::Value>,
}

/// How a process that ended with `code` failed, if it did: by a status other
/// than zero, or terminated without one.
pub open spec fn exit_failure(code: Option<i32>) -> Option<TheiaPluginRunError> {
    match code {
        Some(c) => if c == 0 {
            None
        } else {
            Some(TheiaPluginRunError::ExitStatus(c))
        },
        None => Some(TheiaPluginRunError::Terminated),
    }
}

/// The predicate that holds of the lines that are not empty.
pub open spec fn nonempty() -> spec_fn(Seq<char>) -> bool {
    |line: Seq<char>| line.len() > 0
}

/// The lines of a plugin's output that hold a message: the output is cut at
/// line feeds, each line loses the whitespace at its ends, and the lines
/// that are then empty are left out.
pub open spec fn response_lines_of(output: Seq<char>) -> Seq<Seq<char>> {
    let lines = pieces(output, '\n');
    Seq::new(lines.len(), |i: int| trim(lines[i], whitespace())).filter(nonempty())
}

/// The payload that carries `lines`: each line followed by a line feed; a
/// single line feed where there are no lines.
pub open spec fn payload_of(lines: Seq<Seq<char>>) -> Seq<char> {
    joined(lines, seq!['\n']) + seq!['\n']
}

/// The predicate that holds of the lines that could not be read.
pub open spec fn unreadable() -> spec_fn(
    Result<TheiaPluginIncomingMessage, serde_json::Error>,
) -> bool {
    |r: Result<TheiaPluginIncomingMessage, serde_json::Error>| r is Err
}

impl TheiaPlugin {
    /// The plugin installed at `path` with the descriptor `config`, without
    /// configuration data from the bot.
    pub fn new(path: std::path::PathBuf, config: TheiaPluginConfig) -> (r: TheiaPlugin)
        ensures
            r.path == path,
            r.config == config,
            r.cfgdata@ == Map::<String, serde_json::Value>::empty(),
    {
        TheiaPlugin { path, config, cfgdata: HashMap::new() }
    }

    /// Takes `data` as the bot's configuration data for this plugin, in
    /// place of what was held before. This cannot fail.
    pub fn configure(&mut self, data: &HashMap<String, serde_json::Value>) -> (r: Result<
        (),
        TheiaError,
    >)
        ensures
            r is Ok,
            final(self).cfgdata@ == data@,
            final(self).path == old(self).path,
            final(self).config == old(self).config,
    {
        self.cfgdata = data.clone();
        Ok(())
    }

    /// The plugin's name.
    pub fn name(&self) -> (r: &str)
        ensures
            r@ == self.config.name@,
    {
        self.config.name.as_str()
    }

    /// The first of the plugin's commands that is named `cmd_name`.
    pub fn command_config(&self, cmd_name: &str) -> (r: Option<&TheiaPluginCommandConfig>)
        ensures
            match first_index(self.config.commands@, named(cmd_name@)) {
                Some(i) => r == Some(&self.config.commands@[i]),
                None => r is None,
            },
    {
        match self.config.command_index(cmd_name) {
            Some(i) => Some(&self.config.commands[i]),
            None => None,
        }
    }

    /// Frames the request for one invocation from the lines that the
    /// outgoing messages were written as.
    pub fn request_payload(lines: &Vec<String>) -> (r: String)
        ensures
            r@ == payload_of(string_views(lines@)),
    {
        let ghost all = string_views(lines@);
        let mut r = String::new();
        let mut i: usize = 0;
        assert(all.take(0) =~= Seq::<Seq<char>>::empty());
        while i < lines.len()
            invariant
                i <= lines.len(),
                all == string_views(lines@),
                r@ == joined(all.take(i as int), seq!['\n']),
            decreases lines.len() - i,
        {
            let ghost before = all.take(i as int);
            let ghost now = all.take(i + 1);
            if i > 0 {
                r.push('\n');
            }
            r.append(lines[i].as_str());
            proof {
                assert(now.drop_last() =~= before);
                assert(now.last() == lines@[i as int]@);
                if i > 0 {
                    assert(r@ =~= joined(before, seq!['\n']) + seq!['\n'] + now.last());
                } else {
                    assert(r@ =~= now[0]);
                }
            }
            i += 1;
        }
        assert(all.take(i as int) =~= all);
        r.push('\n');
        assert(r@ =~= payload_of(all));
        r
    }

    /// Judges how the plugin's process ended: well when its exit code is
    /// zero, else with the error of running this plugin.
    pub fn check_exit(&self, code: Option<i32>) -> (r: Result<(), TheiaError>)
        ensures
            match r {
                Ok(_) => exit_failure(code) is None,
                Err(e) => e matches TheiaError::PluginRun(name, why) && name@ == self.config.name@
                    && exit_failure(code) == Some(why),
            },
    {
        match code {
            Some(c) => {
                if c == 0 {
                    Ok(())
                } else {
                    Err(
                        TheiaError::PluginRun(
                            self.config.name.clone(),
                            TheiaPluginRunError::ExitStatus(c),
                        ),
                    )
                }
            },
            None => Err(
                TheiaError::PluginRun(self.config.name.clone(), TheiaPluginRunError::Terminated),
            ),
        }
    }

    /// The error of running this plugin when its process did not end within
    /// the time it was given and was stopped.
    pub fn timed_out(&self) -> (r: TheiaError)
        ensures
            r matches TheiaError::PluginRun(name, why) && name@ == self.config.name@ && why
                == TheiaPluginRunError::TimedOut,
    {
        TheiaError::PluginRun(self.config.name.clone(), TheiaPluginRunError::TimedOut)
    }

    /// Cuts the output of a plugin's process into the lines that hold a
    /// message each. A process that did not end well gives the error of
    /// running this plugin, whatever it wrote; output that is not UTF-8
    /// gives the error of decoding it.
    pub fn response_lines(&self, code: Option<i32>, stdout: Vec<u8>) -> (r: Result<
        Vec<String>,
        TheiaError,
    >)
        ensures
            match r {
                Ok(lines) => {
                    &&& exit_failure(code) is None
                    &&& valid_utf8(stdout@)
                    &&& string_views(lines@) == response_lines_of(decode_utf8(stdout@))
                },
                Err(e) => match exit_failure(code) {
                    Some(why) => e matches TheiaError::PluginRun(name, w) && name@
                        == self.config.name@ && w == why,
                    None => !valid_utf8(stdout@) && e is FromUtf8Error,
                },
            },
    {
        match self.check_exit(code) {
            Ok(_) => {},
            Err(e) => {
                return Err(e);
            },
        }
        let output = match String::from_utf8(stdout) {
            Ok(s) => s,
            Err(e) => {
                return Err(TheiaError::from(e));
            },
        };
        Ok(split_response(output.as_str()))
    }

    /// Delivers the messages that the lines of a response were read as: all
    /// of them in order, or, if any line could not be read, the error of the
    /// first such line and no message.
    pub fn responses(decoded: Vec<Result<TheiaPluginIncomingMessage, serde_json::Error>>) -> (r:
        Result<Vec<TheiaPluginIncomingMessage>, TheiaError>)
        ensures
            match r {
                Ok(messages) => {
                    &&& first_index(decoded@, unreadable()) is None
                    &&& messages@.len() == decoded@.len()
                    &&& forall|i: int|
                        0 <= i < decoded@.len() ==> decoded@[i] == Ok::<
                            TheiaPluginIncomingMessage,
                            serde_json::Error,
                        >(#[trigger] messages@[i])
                },
                Err(e) => match first_index(decoded@, unreadable()) {
                    Some(k) => decoded@[k] matches Err(why) && e == TheiaError::SerdeJsonError(why),
                    None => false,
                },
            },
    {
        let mut messages: Vec<TheiaPluginIncomingMessage> = Vec::new();
        for item in it: decoded
            invariant
                it.seq() == decoded@,
                messages@.len() == it.index(),
                forall|i: int|
                    0 <= i < it.index() ==> decoded@[i] == Ok::<
                        TheiaPluginIncomingMessage,
                        serde_json::Error,
                    >(#[trigger] messages@[i]),
        {
            match item {
                Ok(message) => {
                    messages.push(message);
                },
                Err(why) => {
                    proof {
                        assert forall|k: int| 0 <= k < it.index() implies !unreadable()(
                            #[trigger] decoded@[k],
                        ) by {
                            assert(decoded@[k] is Ok) by {
                                let _ = messages@[k];
                            }
                        }
                        lemma_first_index_is(decoded@, unreadable(), it.index() as int);
                    }
                    return Err(TheiaError::from(why));
                },
            }
        }
        proof {
            assert forall|k: int| 0 <= k < decoded@.len() implies !unreadable()(
                #[trigger] decoded@[k],
            ) by {
                assert(decoded@[k] is Ok) by {
                    let _ = messages@[k];
                }
            }
            lemma_first_index_is(decoded@, unreadable(), decoded@.len() as int);
        }
        Ok(messages)
    }
}

/// Cuts `output` into the lines that hold a message each.
pub fn split_response(output: &str) -> (lines: Vec<String>)
    ensures
        string_views(lines@) == response_lines_of(output@),
{
    let chars = chars_of(output);
    assert(chars@.subrange(0, chars@.len() as int) =~= chars@);
    let raw = split_pieces(&chars, 0, chars.len(), '\n');
    let ghost trimmed = Seq::new(
        raw@.len(),
        |i: int| trim(pieces(output@, '\n')[i], whitespace()),
    );
    let mut lines: Vec<String> = Vec::new();
    let mut i: usize = 0;
    proof {
        reveal(Seq::filter);
        assert(trimmed.take(0) =~= Seq::<Seq<char>>::empty());
    }
    while i < raw.len()
        invariant
            i <= raw.len(),
            chars_views(raw@) == pieces(output@, '\n'),
            trimmed == Seq::new(
                raw@.len(),
                |i: int| trim(pieces(output@, '\n')[i], whitespace()),
            ),
            string_views(lines@) == trimmed.take(i as int).filter(nonempty()),
        decreases raw.len() - i,
    {
        let line = &raw[i];
        assert(line@ == pieces(output@, '\n')[i as int]);
        assert(line@.subrange(0, line@.len() as int) =~= line@);
        let ends = trim_whitespace_bounds(line, 0, line.len());
        proof {
            reveal(Seq::filter);
            assert(trimmed.take(i + 1).drop_last() =~= trimmed.take(i as int));
            assert(trimmed.take(i + 1).last() == trim(line@, whitespace()));
        }
        if ends.1 > ends.0 {
            let text = string_of_range(line, ends.0, ends.1);
            assert(string_views(lines@.push(text)) =~= string_views(lines@).push(text@));
            lines.push(text);
        }
        i += 1;
    }
    assert(trimmed.take(i as int) =~= trimmed);
    lines
}

/// A line that comes through as it is: it holds a character, none of its
/// characters is a line feed, and it has no whitespace at its ends.
pub open spec fn is_message_line(line: Seq<char>) -> bool {
    line.len() > 0 && free_of(line, '\n') && trim(line, whitespace()) == line
}

/// Filtering keeps a sequence whose members all satisfy the predicate.
proof fn lemma_filter_keeps_all(lines: Seq<Seq<char>>)
    requires
        forall|i: int| 0 <= i < lines.len() ==> nonempty()(#[trigger] lines[i]),
    ensures
        lines.filter(nonempty()) == lines,
    decreases lines.len(),
{
    reveal(Seq::filter);
    if lines.len() > 0 {
        let front = lines.drop_last();
        assert forall|i: int| 0 <= i < front.len() implies nonempty()(#[trigger] front[i]) by {
            assert(front[i] == lines[i]);
        }
        lemma_filter_keeps_all(front);
        assert(front.push(lines.last()) =~= lines);
    }
}

/// The parts that a framed request is cut into at line feeds: the lines,
/// and an empty part behind the last line feed.
pub proof fn lemma_payload_pieces(lines: Seq<Seq<char>>)
    requires
        lines.len() > 0,
        forall|i: int| 0 <= i < lines.len() ==> free_of(#[trigger] lines[i], '\n'),
    ensures
        pieces(payload_of(lines), '\n') == lines.push(Seq::<char>::empty()),
{
    let empty = Seq::<char>::empty();
    let body = joined(lines, seq!['\n']);
    assert(payload_of(lines) =~= body + seq!['\n'] + empty);
    lemma_pieces_append(body, empty, '\n');
    lemma_pieces_of_joined(lines, '\n');
}

/// A request without messages is a single line feed, which reads back as a
/// response without messages.
pub proof fn lemma_empty_payload()
    ensures
        response_lines_of(payload_of(Seq::empty())) == Seq::<Seq<char>>::empty(),
{
    let empty = Seq::<char>::empty();
    let none = Seq::<Seq<char>>::empty();
    let payload = payload_of(none);
    assert(payload =~= empty + seq!['\n'] + empty);
    lemma_pieces_whole(empty, '\n');
    lemma_pieces_append(empty, empty, '\n');
    let parts = pieces(payload, '\n');
    assert(parts == seq![empty].push(empty));
    let trimmed = Seq::new(parts.len(), |i: int| trim(parts[i], whitespace()));
    assert(trimmed =~= none.push(empty).push(empty)) by {
        assert(trim(empty, whitespace()) =~= empty);
    }
    assert(none.push(empty).push(empty).filter(nonempty()) == none) by {
        none.push(empty).lemma_filter_push(empty, nonempty());
        none.lemma_filter_push(empty, nonempty());
        reveal(Seq::filter);
    }
}

/// What is framed as a request reads back, line for line, as a response:
/// a plugin that writes out what it was given answers with those lines.
pub proof fn lemma_payload_reads_back(lines: Seq<Seq<char>>)
    requires
        forall|i: int| 0 <= i < lines.len() ==> is_message_line(#[trigger] lines[i]),
    ensures
        response_lines_of(payload_of(lines)) == lines,
{
    if lines.len() == 0 {
        lemma_empty_payload();
        assert(lines =~= Seq::<Seq<char>>::empty());
    } else {
        lemma_payload_reads_back_some(lines);
    }
}

/// [`lemma_payload_reads_back`] for a request with messages.
proof fn lemma_payload_reads_back_some(lines: Seq<Seq<char>>)
    requires
        lines.len() > 0,
        forall|i: int| 0 <= i < lines.len() ==> is_message_line(#[trigger] lines[i]),
    ensures
        response_lines_of(payload_of(lines)) == lines,
{
    let empty = Seq::<char>::empty();
    let parts = pieces(payload_of(lines), '\n');
    assert(parts == lines.push(empty)) by {
        assert forall|i: int| 0 <= i < lines.len() implies free_of(#[trigger] lines[i], '\n') by {
            assert(is_message_line(lines[i]));
        }
        lemma_payload_pieces(lines);
    }
    let trimmed = Seq::new(parts.len(), |i: int| trim(parts[i], whitespace()));
    assert(trimmed =~= lines.push(empty)) by {
        assert(trim(empty, whitespace()) =~= empty);
        assert forall|i: int| 0 <= i < trimmed.len() implies trimmed[i] == lines.push(empty)[i] by {
            if i < lines.len() {
                assert(is_message_line(lines[i]));
            }
        }
    }
    assert(lines.push(empty).filter(nonempty()) == lines) by {
        lines.lemma_filter_push(empty, nonempty());
        assert forall|i: int| 0 <= i < lines.len() implies nonempty()(#[trigger] lines[i]) by {
            assert(is_message_line(lines[i]));
        }
        lemma_filter_keeps_all(lines);
    }
}

} // verus!
