//! The hooks that a chat message passes through before it is handled as a
//! command.

use crate::command::{CommandInvocation, InvocationView};
use crate::discord::message::{DiscordMessageView, TheiaDiscordMessage};
use crate::error::TheiaError;
use crate::parser::cmdinvoke::parse_spec;
use crate::plugin::config::answers_to;
use crate::plugin::TheiaPlugin;
use crate::runs::first_index;
use crate::text::{str_views, string_views};
use crate::{Theia, owns};
use vstd::prelude::*;

verus! {

/// The name of the command that `token` calls in the first of `plugins` that
/// answers to it; `token` itself where none does.
pub open spec fn canonical_name(plugins: Seq<TheiaPlugin>, token: Seq<char>) -> Seq<char> {
    match first_index(plugins, owns(token)) {
        Some(i) => match first_index(plugins[i].config.commands@, answers_to(token)) {
            Some(j) => plugins[i].config.commands@[j].name@,
            None => token,
        },
        None => token,
    }
}

/// `message` with the invocation that its content spells under `prefixes`,
/// the command called by its name in `plugins`; nothing where the content
/// spells no invocation.
pub open spec fn with_invocation(
    prefixes: Seq<Seq<char>>,
    plugins: Seq<TheiaPlugin>,
    message: DiscordMessageView,
) -> Option<DiscordMessageView> {
    match parse_spec(prefixes, message.content) {
        None => None,
        Some(inv) => Some(
            DiscordMessageView {
                command_invocation: Some(
                    InvocationView { command: canonical_name(plugins, inv.command), ..inv },
                ),
                ..message
            },
        ),
    }
}

/// Borrows each of `items` as a string slice.
pub fn as_strs(items: &Vec<String>) -> (r: Vec<&str>)
    ensures
        str_views(r@) == string_views(items@),
{
    let mut r: Vec<&str> = Vec::new();
    let mut i: usize = 0;
    while i < items.len()
        invariant
            i <= items.len(),
            r@.len() == i,
            forall|k: int| 0 <= k < i ==> (#[trigger] r@[k])@ == items@[k]@,
        decreases items.len() - i,
    {
        r.push(items[i].as_str());
        i += 1;
    }
    assert(str_views(r@) =~= string_views(items@));
    r
}

/// Reads the content of `msg` as a command of `theia` and notes the
/// invocation in the message, the command under the name that the plugin
/// that owns it gives it. A message that spells no command is dropped.
pub fn parse_command(theia: &Theia, msg: TheiaDiscordMessage) -> (r: Result<
    Option<TheiaDiscordMessage>,
    TheiaError,
>)
    ensures
        r is Ok,
        match r->Ok_0 {
            Some(out) => with_invocation(
                string_views(theia.config.prefixes@),
                theia.plugins@,
                msg@,
            ) == Some(out@),
            None => with_invocation(string_views(theia.config.prefixes@), theia.plugins@, msg@)
                is None,
        },
{
    let prefixes = as_strs(&theia.config.prefixes);
    let parsed = CommandInvocation::parse(prefixes.as_slice(), msg.content.as_str());
    match parsed {
        Some(cmd) => {
            let mut cmd = cmd;
            let mut msg = msg;
            match theia.plugin_with_command(cmd.command.as_str()) {
                Some(plugin) => {
                    let name = plugin.config.resolve_alias(cmd.command.as_str());
                    cmd.command = name;
                },
                None => {},
            }
            cmd.generate_invoke_id();
            msg.command_invocation = Some(cmd);
            Ok(Some(msg))
        },
        None => Ok(None),
    }
}

} // verus!
