//! A chat-command router: messages are parsed into command invocations,
//! resolved against a registry of plugins, and handed to plugin processes
//! over a line-oriented exchange.
//!
//! Everything here is pure: values in, values out, each function with a
//! contract that is proved. A program around this library owns the chat gateway,
//! the files and the processes. It hands each message to
//! [`discord::message::TheiaDiscordMessage::parse_as_command`] and the
//! result to [`command::invoke_command`], carries out the action that comes
//! back, and for an invocation follows the steps laid out in [`plugin`].
//!
//! - [`command`] and [`parser`] read invocations and help strings;
//! - [`plugin`] holds descriptors, messages, and the framing of an exchange;
//! - this module holds [`Theia`], the registry;
//! - [`text`], [`split`], [`runs`] and [`number`] are the text primitives
//!   that the rest is stated over.

pub mod command;
pub mod config;
pub mod discord;
pub mod error;
pub mod event;
pub mod number;
pub mod parser;
pub mod plugin;
pub mod prelude;
pub mod runs;
pub mod split;
pub mod text;
pub mod util;

use crate::config::TheiaConfig;
use crate::error::TheiaError;
use crate::number::{parse_u64, written_u64};
use crate::parser::cmdhelp::{help_summary, parse_command_help};
use crate::plugin::comms::pair_views;
use crate::plugin::config::{TheiaPluginCommandConfig, answers_to};
use crate::plugin::TheiaPlugin;
use crate::runs::{first_index, lemma_first_index_is};
use crate::text::{copy_strings, string_views};
use vstd::prelude::*;

verus! {

/// The bot: its configuration and the registry of its plugins, in the order
/// in which they were loaded.
pub struct Theia {
    pub config_path: std::path::PathBuf,
    pub config: TheiaConfig,
    /// The registry of plugins.
    pub plugins: Vec<TheiaPlugin>,
}

/// The predicate that holds of the plugins named `name`.
pub open spec fn called(name: Seq<char>) -> spec_fn(TheiaPlugin) -> bool {
    |p: TheiaPlugin| p.config.name@ == name
}

/// The predicate that holds of the plugins with a command that `token`
/// calls, by name or by alias.
pub open spec fn owns(token: Seq<char>) -> spec_fn(TheiaPlugin) -> bool {
    |p: TheiaPlugin| first_index(p.config.commands@, answers_to(token)) is Some
}

/// The predicate that holds of the commands that command listings show.
pub open spec fn listed() -> spec_fn(TheiaPluginCommandConfig) -> bool {
    |c: TheiaPluginCommandConfig| !c.hidden
}

/// The names of `plugins`, in order.
pub open spec fn names_of(plugins: Seq<TheiaPlugin>) -> Seq<Seq<char>> {
    Seq::new(plugins.len(), |i: int| plugins[i].config.name@)
}

/// The commands of `plugins` that command listings show: plugin by plugin,
/// each plugin's commands in their order.
pub open spec fn listed_commands(plugins: Seq<TheiaPlugin>) -> Seq<TheiaPluginCommandConfig>
    decreases plugins.len(),
{
    if plugins.len() == 0 {
        Seq::empty()
    } else {
        listed_commands(plugins.drop_last()) + plugins.last().config.commands@.filter(listed())
    }
}

/// Each of `commands` with the summary of its help under `prefix`.
pub open spec fn summaries_of(commands: Seq<TheiaPluginCommandConfig>, prefix: Seq<char>) -> Seq<
    (Seq<char>, Seq<char>),
> {
    Seq::new(
        commands.len(),
        |i: int| (commands[i].name@, help_summary(prefix, commands[i].name@, commands[i].help@)),
    )
}

impl Theia {
    /// A bot that is to be configured from `config_path`: it starts with an
    /// empty configuration and no plugins.
    pub fn new(config_path: std::path::PathBuf) -> (r: Result<Theia, TheiaError>)
        ensures
            r matches Ok(bot) && bot.config_path == config_path && bot.plugins@.len() == 0
                && bot.config.prefixes@.len() == 0 && bot.config.admin_users@.len() == 0
                && bot.config.shard_count == 0 && bot.config.plugin_cfg@.is_empty(),
    {
        Ok(Theia { config_path, config: TheiaConfig::default(), plugins: Vec::new() })
    }

    /// Replaces the configuration and the whole registry at once.
    pub fn reload(&mut self, config: TheiaConfig, plugins: Vec<TheiaPlugin>)
        ensures
            final(self).config == config,
            final(self).plugins@ == plugins@,
            final(self).config_path == old(self).config_path,
    {
        self.config = config;
        self.plugins = plugins;
    }

    /// The first of the configured prefixes.
    pub fn prefix(&self) -> (r: &str)
        requires
            self.config.prefixes@.len() > 0,
        ensures
            r@ == self.config.prefixes@[0]@,
    {
        self.config.prefixes[0].as_str()
    }

    /// The configured prefixes.
    pub fn prefixes(&self) -> (r: Vec<String>)
        ensures
            string_views(r@) == string_views(self.config.prefixes@),
    {
        copy_strings(&self.config.prefixes)
    }

    /// The place in the registry of the first plugin named `name`.
    pub fn plugin_index(&self, name: &str) -> (r: Option<usize>)
        ensures
            match r {
                Some(i) => first_index(self.plugins@, called(name@)) == Some(i as int),
                None => first_index(self.plugins@, called(name@)) is None,
            },
    {
        let wanted = name.to_owned();
        let mut i: usize = 0;
        while i < self.plugins.len()
            invariant
                i <= self.plugins.len(),
                wanted@ == name@,
                forall|k: int| 0 <= k < i ==> !called(name@)(#[trigger] self.plugins@[k]),
            decreases self.plugins.len() - i,
        {
            if self.plugins[i].config.name == wanted {
                proof {
                    lemma_first_index_is(self.plugins@, called(name@), i as int);
                }
                return Some(i);
            }
            i += 1;
        }
        proof {
            lemma_first_index_is(self.plugins@, called(name@), i as int);
        }
        None
    }

    /// The first plugin named `name`.
    pub fn plugin(&self, name: &str) -> (r: Option<&TheiaPlugin>)
        ensures
            match first_index(self.plugins@, called(name@)) {
                Some(i) => r == Some(&self.plugins@[i]),
                None => r is None,
            },
    {
        match self.plugin_index(name) {
            Some(i) => Some(&self.plugins[i]),
            None => None,
        }
    }

    /// The place in the registry of the first plugin with a command that
    /// `cmd_name` calls, by name or by alias.
    pub fn plugin_index_with_command(&self, cmd_name: &str) -> (r: Option<usize>)
        ensures
            match r {
                Some(i) => first_index(self.plugins@, owns(cmd_name@)) == Some(i as int),
                None => first_index(self.plugins@, owns(cmd_name@)) is None,
            },
    {
        let mut i: usize = 0;
        while i < self.plugins.len()
            invariant
                i <= self.plugins.len(),
                forall|k: int| 0 <= k < i ==> !owns(cmd_name@)(#[trigger] self.plugins@[k]),
            decreases self.plugins.len() - i,
        {
            if self.plugins[i].config.owns_command(cmd_name) {
                proof {
                    lemma_first_index_is(self.plugins@, owns(cmd_name@), i as int);
                }
                return Some(i);
            }
            i += 1;
        }
        proof {
            lemma_first_index_is(self.plugins@, owns(cmd_name@), i as int);
        }
        None
    }

    /// The first plugin with a command that `cmd_name` calls, by name or by
    /// alias.
    pub fn plugin_with_command(&self, cmd_name: &str) -> (r: Option<&TheiaPlugin>)
        ensures
            match first_index(self.plugins@, owns(cmd_name@)) {
                Some(i) => r == Some(&self.plugins@[i]),
                None => r is None,
            },
    {
        match self.plugin_index_with_command(cmd_name) {
            Some(i) => Some(&self.plugins[i]),
            None => None,
        }
    }

    /// The names of the plugins, in the order of the registry.
    pub fn plugin_names(&self) -> (r: Vec<String>)
        ensures
            string_views(r@) == names_of(self.plugins@),
    {
        let mut r: Vec<String> = Vec::new();
        let mut i: usize = 0;
        while i < self.plugins.len()
            invariant
                i <= self.plugins.len(),
                r@.len() == i,
                forall|k: int| 0 <= k < i ==> (#[trigger] r@[k])@ == self.plugins@[k].config.name@,
            decreases self.plugins.len() - i,
        {
            r.push(self.plugins[i].config.name.clone());
            i += 1;
        }
        assert(string_views(r@) =~= names_of(self.plugins@));
        r
    }
}

impl Theia {
    /// The commands that command listings show, each with the summary of
    /// its help under the first of the configured prefixes.
    pub fn plugin_command_summaries(&self) -> (r: Vec<(String, String)>)
        requires
            self.config.prefixes@.len() > 0,
        ensures
            pair_views(r@) == summaries_of(
                listed_commands(self.plugins@),
                self.config.prefixes@[0]@,
            ),
    {
        let ghost prefix = self.config.prefixes@[0]@;
        let mut r: Vec<(String, String)> = Vec::new();
        let mut i: usize = 0;
        proof {
            assert(self.plugins@.take(0) =~= Seq::<TheiaPlugin>::empty());
            assert(pair_views(r@) =~= summaries_of(listed_commands(self.plugins@.take(0)), prefix));
        }
        while i < self.plugins.len()
            invariant
                i <= self.plugins.len(),
                self.config.prefixes@.len() > 0,
                prefix == self.config.prefixes@[0]@,
                pair_views(r@) == summaries_of(
                    listed_commands(self.plugins@.take(i as int)),
                    prefix,
                ),
            decreases self.plugins.len() - i,
        {
            let commands = &self.plugins[i].config.commands;
            let ghost before = listed_commands(self.plugins@.take(i as int));
            let mut j: usize = 0;
            proof {
                reveal(Seq::filter);
                assert(commands@.take(0) =~= Seq::<TheiaPluginCommandConfig>::empty());
                assert(before + commands@.take(0).filter(listed()) =~= before);
            }
            while j < commands.len()
                invariant
                    j <= commands.len(),
                    self.config.prefixes@.len() > 0,
                    prefix == self.config.prefixes@[0]@,
                    pair_views(r@) == summaries_of(
                        before + commands@.take(j as int).filter(listed()),
                        prefix,
                    ),
                decreases commands.len() - j,
            {
                let command = &commands[j];
                let ghost shown = before + commands@.take(j as int).filter(listed());
                proof {
                    reveal(Seq::filter);
                    assert(commands@.take(j + 1).drop_last() =~= commands@.take(j as int));
                    assert(commands@.take(j + 1).last() == *command);
                }
                if !command.hidden {
                    let parts = parse_command_help(
                        self.prefix(),
                        command.name.as_str(),
                        command.help.as_str(),
                    );
                    let entry = (command.name.clone(), parts.0);
                    proof {
                        assert(before + commands@.take(j + 1).filter(listed()) =~= shown.push(
                            *command,
                        ));
                        let now = pair_views(r@.push(entry));
                        let want = summaries_of(shown.push(*command), prefix);
                        assert(pair_views(r@).len() == summaries_of(shown, prefix).len());
                        assert forall|k: int| 0 <= k < now.len() implies now[k] == want[k] by {
                            if k < r@.len() {
                                assert(now[k] == pair_views(r@)[k]);
                                assert(want[k] == summaries_of(shown, prefix)[k]);
                            }
                        }
                        assert(now =~= want);
                    }
                    r.push(entry);
                }
                j += 1;
            }
            proof {
                assert(commands@.take(j as int) =~= commands@);
                assert(self.plugins@.take(i + 1).drop_last() =~= self.plugins@.take(i as int));
                assert(self.plugins@.take(i + 1).last() == self.plugins@[i as int]);
            }
            i += 1;
        }
        assert(self.plugins@.take(i as int) =~= self.plugins@);
        r
    }
}

impl Theia {
    /// The range of shards to start, from the two settings that may narrow
    /// it: a setting that writes no number leaves its end of the range at
    /// the first shard, or at the last.
    pub fn shard_range(&self, start: &str, end: &str) -> (r: [u64; 2])
        requires
            self.config.shard_count > 0,
        ensures
            r[0] == match written_u64(start@) {
                Some(n) => n,
                None => 0,
            },
            r[1] == match written_u64(end@) {
                Some(n) => n,
                None => (self.config.shard_count - 1) as u64,
            },
    {
        let first = match parse_u64(start) {
            Ok(n) => n,
            Err(_) => 0,
        };
        let last = match parse_u64(end) {
            Ok(n) => n,
            Err(_) => self.config.shard_count - 1,
        };
        [first, last]
    }
}

} // verus!
