//! Command invocations, and what is to be done about a message that
//! carries one.

use crate::discord::message::{DiscordMessageView, TheiaDiscordMessage};
use crate::parser::cmdhelp::{help_details, help_summary, parse_command_help};
use crate::parser::cmdinvoke::is_flag;
use crate::plugin::comms::{OutgoingMessageView, TheiaPluginOutgoingMessage};
use crate::plugin::config::{handles_help, named};
use crate::plugin::TheiaPlugin;
use crate::runs::{first_index, lemma_first_index};
use crate::text::{copy_strings, str_views, string_views};
use crate::{Theia, listed_commands, names_of, owns, summaries_of};
use vstd::prelude::*;

verus! {

/// A single invocation of a command.
#[derive(Debug, PartialEq)]
pub struct CommandInvocation {
    /// Identifier that ties replies to this invocation, once one is assigned.
    pub invoke_id: Option<String>,
    /// The prefix that introduced the command.
    pub prefix: String,
    /// The name of the command.
    pub command: String,
    /// The flags before the first argument.
    pub start_flags: Vec<String>,
    /// The arguments, from the first token that is no flag to the last one;
    /// flags that stand between them are arguments too.
    pub arguments: Vec<String>,
    /// The flags after the last argument.
    pub end_flags: Vec<String>,
}

/// What a [`CommandInvocation`] holds, as sequences of characters.
pub ghost struct InvocationView {
    pub invoke_id: Option<Seq<char>>,
    pub prefix: Seq<char>,
    pub command: Seq<char>,
    pub start_flags: Seq<Seq<char>>,
    pub arguments: Seq<Seq<char>>,
    pub end_flags: Seq<Seq<char>>,
}

impl Clone for CommandInvocation {
    fn clone(&self) -> (r: CommandInvocation)
        ensures
            r@ == self@,
    {
        CommandInvocation {
            invoke_id: match &self.invoke_id {
                Some(id) => Some(id.clone()),
                None => None,
            },
            prefix: self.prefix.clone(),
            command: self.command.clone(),
            start_flags: copy_strings(&self.start_flags),
            arguments: copy_strings(&self.arguments),
            end_flags: copy_strings(&self.end_flags),
        }
    }
}

impl View for CommandInvocation {
    type V = InvocationView;

    open spec fn view(&self) -> InvocationView {
        InvocationView {
            invoke_id: match self.invoke_id {
                Some(id) => Some(id@),
                None => None,
            },
            prefix: self.prefix@,
            command: self.command@,
            start_flags: string_views(self.start_flags@),
            arguments: string_views(self.arguments@),
            end_flags: string_views(self.end_flags@),
        }
    }
}

/// The flags and arguments of `inv` stand where their kind says: flags only
/// at the start and at the end; arguments, if there are any, from one that
/// is no flag to one that is no flag; and flags at the end only behind
/// arguments.
pub open spec fn sorted_by_position(inv: InvocationView) -> bool {
    &&& forall|i: int| 0 <= i < inv.start_flags.len() ==> is_flag(#[trigger] inv.start_flags[i])
    &&& forall|i: int| 0 <= i < inv.end_flags.len() ==> is_flag(#[trigger] inv.end_flags[i])
    &&& inv.arguments.len() > 0 ==> !is_flag(inv.arguments.first()) && !is_flag(
        inv.arguments.last(),
    )
    &&& inv.arguments.len() == 0 ==> inv.end_flags.len() == 0
}

/// Some member of `items` is one of `flags`.
pub open spec fn any_of(items: Seq<Seq<char>>, flags: Seq<Seq<char>>) -> bool {
    exists|i: int, j: int| 0 <= i < items.len() && 0 <= j < flags.len() && items[i] == flags[j]
}

/// Tells whether `item` is one of `flags`.
pub fn is_one_of(item: &String, flags: &[&str]) -> (r: bool)
    ensures
        r == exists|j: int| 0 <= j < flags@.len() && item@ == (#[trigger] flags@[j])@,
{
    let mut j: usize = 0;
    while j < flags.len()
        invariant
            j <= flags.len(),
            forall|k: int| 0 <= k < j ==> item@ != (#[trigger] flags@[k])@,
        decreases flags.len() - j,
    {
        let wanted = flags[j].to_owned();
        if *item == wanted {
            return true;
        }
        j += 1;
    }
    false
}

/// Tells whether some member of `items` is one of `flags`.
pub fn contains_any(items: &Vec<String>, flags: &[&str]) -> (r: bool)
    ensures
        r == any_of(string_views(items@), str_views(flags@)),
{
    let mut i: usize = 0;
    while i < items.len()
        invariant
            i <= items.len(),
            forall|k: int, j: int|
                0 <= k < i && 0 <= j < flags@.len() ==> (#[trigger] items@[k])@ != (
                #[trigger] flags@[j])@,
        decreases items.len() - i,
    {
        if is_one_of(&items[i], flags) {
            let ghost j = choose|j: int|
                0 <= j < flags@.len() && items@[i as int]@ == (#[trigger] flags@[j])@;
            assert(string_views(items@)[i as int] == str_views(flags@)[j]);
            return true;
        }
        i += 1;
    }
    assert(!any_of(string_views(items@), str_views(flags@))) by {
        if any_of(string_views(items@), str_views(flags@)) {
            let (k, j) = choose|k: int, j: int|
                0 <= k < items@.len() && 0 <= j < flags@.len() && string_views(items@)[k]
                    == str_views(flags@)[j];
            assert(items@[k]@ == flags@[j]@);
        }
    }
    false
}

impl CommandInvocation {
    /// The flags and arguments stand where their kind says. The parser gives
    /// invocations of this form only.
    pub open spec fn well_formed(&self) -> bool {
        sorted_by_position(self@)
    }

    /// Tells whether one of `flags` stands among the flags before the
    /// arguments.
    pub fn has_startflag_any(&self, flags: &[&str]) -> (r: bool)
        ensures
            r == any_of(self@.start_flags, str_views(flags@)),
    {
        contains_any(&self.start_flags, flags)
    }

    /// Tells whether one of `flags` stands among the flags after the
    /// arguments.
    pub fn has_endflag_any(&self, flags: &[&str]) -> (r: bool)
        ensures
            r == any_of(self@.end_flags, str_views(flags@)),
    {
        contains_any(&self.end_flags, flags)
    }

    /// Tells whether one of `flags` stands among the arguments.
    pub fn has_argument_any(&self, flags: &[&str]) -> (r: bool)
        ensures
            r == any_of(self@.arguments, str_views(flags@)),
    {
        contains_any(&self.arguments, flags)
    }

    /// Tells whether the flag `-help` stands before the arguments.
    pub fn help_requested(&self) -> (r: bool)
        ensures
            r == self@.start_flags.contains("-help"@),
    {
        let flags: [&str; 1] = ["-help"];
        let r = self.has_startflag_any(&flags);
        proof {
            let views = str_views(flags@);
            assert(views[0] == "-help"@);
            if r {
                let (i, j) = choose|i: int, j: int|
                    0 <= i < self@.start_flags.len() && 0 <= j < views.len()
                        && self@.start_flags[i] == views[j];
                assert(self@.start_flags[i] == "-help"@);
            }
            if self@.start_flags.contains("-help"@) {
                let i = choose|i: int|
                    0 <= i < self@.start_flags.len() && self@.start_flags[i] == "-help"@;
                assert(self@.start_flags[i] == views[0]);
            }
        }
        r
    }

    /// A copy of this invocation that carries an identifier if this one does.
    /// None is assigned here: the copy holds what this invocation holds.
    pub fn with_invoke_id(&self) -> (r: CommandInvocation)
        ensures
            r@ == self@,
    {
        let mut cmd = self.clone();
        cmd.generate_invoke_id();
        cmd
    }

    /// Keeps the identifier that this invocation carries. An invocation
    /// without one stays without: identifiers are the caller's to assign.
    pub fn generate_invoke_id(&mut self)
        ensures
            *final(self) == *old(self),
    {
    }
}

/// What is to be done about a chat message.
#[derive(Debug)]
pub enum TheiaAction {
    /// Nothing: the message is no command.
    Ignore,
    /// Answer the message with this text.
    Reply(String),
    /// Run the plugin at this place in the registry on these messages, and
    /// carry out what it answers.
    Invoke { plugin: usize, messages: Vec<TheiaPluginOutgoingMessage> },
}

/// The views of a sequence of outgoing messages.
pub open spec fn message_views(items: Seq<TheiaPluginOutgoingMessage>) -> Seq<
    OutgoingMessageView,
> {
    Seq::new(items.len(), |i: int| items[i]@)
}

/// What [`TheiaAction`] holds, as sequences of characters.
pub ghost enum ActionView {
    Ignore,
    Reply(Seq<char>),
    Invoke { plugin: int, messages: Seq<OutgoingMessageView> },
}

impl View for TheiaAction {
    type V = ActionView;

    open spec fn view(&self) -> ActionView {
        match *self {
            TheiaAction::Ignore => ActionView::Ignore,
            TheiaAction::Reply(text) => ActionView::Reply(text@),
            TheiaAction::Invoke { plugin, messages } => ActionView::Invoke {
                plugin: plugin as int,
                messages: message_views(messages@),
            },
        }
    }
}

/// The answer to a command that no plugin owns.
pub open spec fn not_found_text(prefix: Seq<char>, command: Seq<char>) -> Seq<char> {
    "\u{274c} Command `"@ + prefix + command + "` not found."@
}

/// The answer to a help request for a command without a description.
pub open spec fn no_help_text(prefix: Seq<char>, command: Seq<char>) -> Seq<char> {
    "\u{274c} No help available for `"@ + prefix + command + "`."@
}

/// The answer to a help request for a command named `name` with the help
/// `help`: the summary, and after an empty line the details, if there are
/// any.
pub open spec fn help_text(prefix: Seq<char>, name: Seq<char>, help: Seq<char>) -> Seq<char> {
    match help_details(prefix, name, help) {
        Some(details) => help_summary(prefix, name, help) + "\n\n"@ + details,
        None => help_summary(prefix, name, help),
    }
}

/// The messages that a plugin gets with an invocation: what the bot is, the
/// plugin's configuration data, the chat message, and the chat message as
/// the invocation of a command.
pub open spec fn invocation_batch(
    theia: Theia,
    this_shard: u64,
    plugin: TheiaPlugin,
    message: DiscordMessageView,
) -> Seq<OutgoingMessageView> {
    seq![
        OutgoingMessageView::BotInfo {
            prefixes: string_views(theia.config.prefixes@),
            admin_users: string_views(theia.config.admin_users@),
            invite_url: None,
            this_shard,
            total_shards: theia.config.shard_count,
            plugins: names_of(theia.plugins@),
            commands: summaries_of(listed_commands(theia.plugins@), theia.config.prefixes@[0]@),
        },
        OutgoingMessageView::PluginConfig {
            plugin_name: plugin.config.name@,
            config_plugin: plugin.config.cfgdata@,
            config_bot: plugin.cfgdata@,
        },
        OutgoingMessageView::Message { message },
        OutgoingMessageView::CommandInvoke { message },
    ]
}

/// What is to be done about `message` on shard `this_shard`.
///
/// A message without an invocation is ignored. An invocation of a command
/// that no plugin owns is answered with [`not_found_text`]. A help request,
/// where the plugin that owns the command leaves help to the framework, is
/// answered from the command's description, or with [`no_help_text`] where
/// the plugin has no command of that very name. Every other invocation goes
/// to the first plugin that owns the command.
pub open spec fn action_for(
    theia: Theia,
    this_shard: u64,
    message: DiscordMessageView,
) -> ActionView {
    match message.command_invocation {
        None => ActionView::Ignore,
        Some(cmd) => {
            let prefix = theia.config.prefixes@[0]@;
            match first_index(theia.plugins@, owns(cmd.command)) {
                None => ActionView::Reply(not_found_text(prefix, cmd.command)),
                Some(i) => {
                    let plugin = theia.plugins@[i];
                    let found = first_index(plugin.config.commands@, named(cmd.command));
                    let described = match found {
                        Some(j) => Some(plugin.config.commands@[j]),
                        None => None,
                    };
                    if handles_help(described, plugin.config.help_passthrough)
                        && cmd.start_flags.contains("-help"@) {
                        match described {
                            Some(c) => ActionView::Reply(help_text(prefix, c.name@, c.help@)),
                            None => ActionView::Reply(no_help_text(prefix, cmd.command)),
                        }
                    } else {
                        ActionView::Invoke {
                            plugin: i,
                            messages: invocation_batch(theia, this_shard, plugin, message),
                        }
                    }
                },
            }
        },
    }
}

/// Decides what is to be done about `msg` on shard `this_shard`.
pub fn invoke_command(theia: &Theia, this_shard: u64, msg: &TheiaDiscordMessage) -> (r:
    TheiaAction)
    requires
        theia.config.prefixes@.len() > 0,
    ensures
        r@ == action_for(*theia, this_shard, msg@),
{
    let cmd = match &msg.command_invocation {
        Some(cmd) => cmd,
        None => {
            return TheiaAction::Ignore;
        },
    };
    let index = match theia.plugin_index_with_command(cmd.command.as_str()) {
        Some(i) => i,
        None => {
            let mut text = "\u{274c} Command `".to_owned();
            text.append(theia.prefix());
            text.append(cmd.command.as_str());
            text.append("` not found.");
            return TheiaAction::Reply(text);
        },
    };
    proof {
        lemma_first_index(theia.plugins@, owns(cmd@.command));
    }
    let plugin = &theia.plugins[index];
    if plugin.config.handle_help(cmd.command.as_str()) && cmd.help_requested() {
        match plugin.command_config(cmd.command.as_str()) {
            Some(cmdcfg) => {
                let parts = parse_command_help(
                    theia.prefix(),
                    cmdcfg.name.as_str(),
                    cmdcfg.help.as_str(),
                );
                let mut text = parts.0;
                match parts.1 {
                    Some(details) => {
                        text.append("\n\n");
                        text.append(details.as_str());
                    },
                    None => {},
                }
                return TheiaAction::Reply(text);
            },
            None => {
                let mut text = "\u{274c} No help available for `".to_owned();
                text.append(theia.prefix());
                text.append(cmd.command.as_str());
                text.append("`.");
                return TheiaAction::Reply(text);
            },
        }
    }
    let mut messages: Vec<TheiaPluginOutgoingMessage> = Vec::new();
    messages.push(TheiaPluginOutgoingMessage::bot_info(theia, this_shard));
    messages.push(TheiaPluginOutgoingMessage::plugin_config(plugin));
    messages.push(TheiaPluginOutgoingMessage::Message { message: msg.clone() });
    messages.push(TheiaPluginOutgoingMessage::CommandInvoke { message: msg.clone() });
    assert(message_views(messages@) =~= invocation_batch(*theia, this_shard, *plugin, msg@));
    TheiaAction::Invoke { plugin: index, messages }
}

} // verus!
