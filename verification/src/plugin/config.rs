//! What a plugin's descriptor says: how to run it and which commands it
//! answers.

use crate::runs::{first_index, lemma_first_index_is};
use crate::text::string_views;
use crate::util::runnable::RunnableCommand;
use std::collections::HashMap;
use vstd::prelude::*;

verus! {

/// A JSON value of `serde_json`. Configuration data is carried through as it
/// was read; nothing here looks inside.
#[verifier::external_type_specification]
#[verifier::external_body]
pub struct ExJsonValue(serde_json::Value);

/// Configuration for an individual command of a plugin.
#[derive(Debug)]
pub struct TheiaPluginCommandConfig {
    /// Name of this command.
    pub name: String,
    /// Aliases for this command.
    pub aliases: Vec<String>,
    /// Whether help invocations go to this command itself; unset, the
    /// plugin's setting holds.
    pub help_passthrough: Option<bool>,
    /// Help text for this command.
    pub help: String,
    /// Whether this command is left out of command listings.
    pub hidden: bool,
}

/// Configuration for a plugin.
#[derive(Debug)]
pub struct TheiaPluginConfig {
    /// Plugin name.
    pub name: String,
    /// Executable to run for this plugin.
    pub run: RunnableCommand,
    /// Whether help invocations go to the commands themselves. A command's
    /// own setting takes precedence.
    pub help_passthrough: bool,
    /// Plugin configuration data, sent to the plugin with each invocation.
    pub cfgdata: HashMap<String, serde_json::Value>,
    /// The commands known by this plugin.
    pub commands: Vec<TheiaPluginCommandConfig>,
}

/// The predicate that holds of the commands named `name`.
pub open spec fn named(name: Seq<char>) -> spec_fn(TheiaPluginCommandConfig) -> bool {
    |c: TheiaPluginCommandConfig| c.name@ == name
}

/// The predicate that holds of the commands that `token` calls, by name or
/// by alias.
pub open spec fn answers_to(token: Seq<char>) -> spec_fn(TheiaPluginCommandConfig) -> bool {
    |c: TheiaPluginCommandConfig| c.name@ == token || string_views(c.aliases@).contains(token)
}

/// Whether the framework answers a help request itself, given the command
/// that was found under the requested name, if any, and the plugin's
/// setting: a command's own setting decides, else the plugin's; help that is
/// passed through is not answered here.
pub open spec fn handles_help(found: Option<TheiaPluginCommandConfig>, plugin_wide: bool) -> bool {
    match found {
        Some(c) => match c.help_passthrough {
            Some(passthrough) => !passthrough,
            None => !plugin_wide,
        },
        None => !plugin_wide,
    }
}

/// Tells whether `items` holds `wanted`.
pub fn holds_string(items: &Vec<String>, wanted: &String) -> (r: bool)
    ensures
        r == string_views(items@).contains(wanted@),
{
    let mut i: usize = 0;
    while i < items.len()
        invariant
            i <= items.len(),
            forall|k: int| 0 <= k < i ==> (#[trigger] items@[k])@ != wanted@,
        decreases items.len() - i,
    {
        if items[i] == *wanted {
            assert(string_views(items@)[i as int] == wanted@);
            return true;
        }
        i += 1;
    }
    assert(!string_views(items@).contains(wanted@)) by {
        if string_views(items@).contains(wanted@) {
            let k = choose|k: int|
                0 <= k < string_views(items@).len() && string_views(items@)[k] == wanted@;
            assert(items@[k]@ == wanted@);
        }
    }
    false
}

impl TheiaPluginCommandConfig {
    /// Tells whether `token` calls this command, by name or by alias.
    pub fn is_called_by(&self, token: &String) -> (r: bool)
        ensures
            r == answers_to(token@)(*self),
    {
        self.name == *token || holds_string(&self.aliases, token)
    }
}

impl TheiaPluginConfig {
    /// The first command named `cmd_name`, by its place among the commands.
    pub fn command_index(&self, cmd_name: &str) -> (r: Option<usize>)
        ensures
            match r {
                Some(i) => first_index(self.commands@, named(cmd_name@)) == Some(i as int),
                None => first_index(self.commands@, named(cmd_name@)) is None,
            },
    {
        let wanted = cmd_name.to_owned();
        let mut i: usize = 0;
        while i < self.commands.len()
            invariant
                i <= self.commands.len(),
                wanted@ == cmd_name@,
                forall|k: int| 0 <= k < i ==> !named(cmd_name@)(#[trigger] self.commands@[k]),
            decreases self.commands.len() - i,
        {
            if self.commands[i].name == wanted {
                proof {
                    lemma_first_index_is(self.commands@, named(cmd_name@), i as int);
                }
                return Some(i);
            }
            i += 1;
        }
        proof {
            lemma_first_index_is(self.commands@, named(cmd_name@), i as int);
        }
        None
    }

    /// The first command that `token` calls, by name or by alias, by its
    /// place among the commands.
    pub fn answering_index(&self, token: &str) -> (r: Option<usize>)
        ensures
            match r {
                Some(i) => first_index(self.commands@, answers_to(token@)) == Some(i as int),
                None => first_index(self.commands@, answers_to(token@)) is None,
            },
    {
        let wanted = token.to_owned();
        let mut i: usize = 0;
        while i < self.commands.len()
            invariant
                i <= self.commands.len(),
                wanted@ == token@,
                forall|k: int| 0 <= k < i ==> !answers_to(token@)(#[trigger] self.commands@[k]),
            decreases self.commands.len() - i,
        {
            if self.commands[i].is_called_by(&wanted) {
                proof {
                    lemma_first_index_is(self.commands@, answers_to(token@), i as int);
                }
                return Some(i);
            }
            i += 1;
        }
        proof {
            lemma_first_index_is(self.commands@, answers_to(token@), i as int);
        }
        None
    }

    /// Tells whether some command of this plugin answers to `token`.
    pub fn owns_command(&self, token: &str) -> (r: bool)
        ensures
            r == first_index(self.commands@, answers_to(token@)) is Some,
    {
        self.answering_index(token).is_some()
    }

    /// The name of the command that `token` calls; `token` itself where it
    /// calls none.
    pub fn resolve_alias(&self, token: &str) -> (r: String)
        ensures
            r@ == match first_index(self.commands@, answers_to(token@)) {
                Some(i) => self.commands@[i].name@,
                None => token@,
            },
    {
        match self.answering_index(token) {
            Some(i) => self.commands[i].name.clone(),
            None => token.to_owned(),
        }
    }

    /// Tells whether the framework answers help requests for the command
    /// named `cmd_name` itself, rather than pass them to the plugin.
    pub fn handle_help(&self, cmd_name: &str) -> (r: bool)
        ensures
            r == handles_help(
                match first_index(self.commands@, named(cmd_name@)) {
                    Some(i) => Some(self.commands@[i]),
                    None => None,
                },
                self.help_passthrough,
            ),
    {
        match self.command_index(cmd_name) {
            Some(i) => {
                match self.commands[i].help_passthrough {
                    Some(passthrough) => !passthrough,
                    None => !self.help_passthrough,
                }
            },
            None => !self.help_passthrough,
        }
    }
}

/// The names that call a command: its own name, then its aliases.
pub open spec fn command_names(c: TheiaPluginCommandConfig) -> Seq<Seq<char>> {
    seq![c.name@] + string_views(c.aliases@)
}

/// The names that call any of `commands`, command by command.
pub open spec fn all_names(commands: Seq<TheiaPluginCommandConfig>) -> Seq<Seq<char>>
    decreases commands.len(),
{
    if commands.len() == 0 {
        Seq::empty()
    } else {
        all_names(commands.drop_last()) + command_names(commands.last())
    }
}

/// A name that calls one of `commands` is among the names of them all.
pub proof fn lemma_names_contained(
    commands: Seq<TheiaPluginCommandConfig>,
    k: int,
    token: Seq<char>,
)
    requires
        0 <= k < commands.len(),
        answers_to(token)(commands[k]),
    ensures
        all_names(commands).contains(token),
    decreases commands.len(),
{
    let front = all_names(commands.drop_last());
    let last = command_names(commands.last());
    if k == commands.len() - 1 {
        if commands[k].name@ == token {
            assert(last[0] == token);
            assert(all_names(commands)[front.len() as int] == token);
        } else {
            let aliases = string_views(commands[k].aliases@);
            let a = choose|a: int| 0 <= a < aliases.len() && aliases[a] == token;
            assert(last[a + 1] == token);
            assert(all_names(commands)[front.len() + a + 1] == token);
        }
    } else {
        assert(commands.drop_last()[k] == commands[k]);
        lemma_names_contained(commands.drop_last(), k, token);
        let p = choose|p: int| 0 <= p < front.len() && front[p] == token;
        assert(all_names(commands)[p] == token);
    }
}

/// Where no name is used twice among `commands`, a name calls one command
/// at most.
pub proof fn lemma_unique_answer(
    commands: Seq<TheiaPluginCommandConfig>,
    token: Seq<char>,
    i: int,
    j: int,
)
    requires
        all_names(commands).no_duplicates(),
        0 <= i < commands.len(),
        0 <= j < commands.len(),
        answers_to(token)(commands[i]),
        answers_to(token)(commands[j]),
    ensures
        i == j,
    decreases commands.len(),
{
    let n = commands.len() - 1;
    let rest = commands.drop_last();
    let front = all_names(rest);
    let last = command_names(commands.last());
    let all = all_names(commands);
    if i < n && j < n {
        assert(rest[i] == commands[i]);
        assert(rest[j] == commands[j]);
        assert forall|p: int, q: int| 0 <= p < front.len() && 0 <= q < front.len() && p != q
            implies front[p] != front[q] by {
            assert(all[p] == front[p] && all[q] == front[q]);
        }
        lemma_unique_answer(rest, token, i, j);
    } else if i != j {
        let low = if i < n {
            i
        } else {
            j
        };
        assert(rest[low] == commands[low]);
        lemma_names_contained(rest, low, token);
        let p = choose|p: int| 0 <= p < front.len() && front[p] == token;
        assert(all[p] == token);
        if commands[n].name@ == token {
            assert(all[front.len() as int] == last[0]);
        } else {
            let aliases = string_views(commands[n].aliases@);
            let a = choose|a: int| 0 <= a < aliases.len() && aliases[a] == token;
            assert(all[front.len() + a + 1] == last[a + 1]);
        }
    }
}

/// Tells whether no member of `items` occurs twice.
pub fn all_different(items: &Vec<String>) -> (r: bool)
    ensures
        r == string_views(items@).no_duplicates(),
{
    let ghost views = string_views(items@);
    let mut i: usize = 0;
    while i < items.len()
        invariant
            i <= items.len(),
            views == string_views(items@),
            forall|p: int, q: int| 0 <= p < q < i ==> views[p] != views[q],
        decreases items.len() - i,
    {
        let mut k: usize = 0;
        while k < i
            invariant
                k <= i < items.len(),
                views == string_views(items@),
                forall|p: int| 0 <= p < k ==> views[p] != views[i as int],
            decreases i - k,
        {
            if items[k] == items[i] {
                assert(views[k as int] == views[i as int]);
                return false;
            }
            k += 1;
        }
        i += 1;
    }
    assert forall|p: int, q: int| 0 <= p < views.len() && 0 <= q < views.len() && p != q
        implies views[p] != views[q] by {
        if p < q {
        } else {
            assert(views[q] != views[p]);
        }
    }
    true
}

impl TheiaPluginConfig {
    /// No name or alias is used twice among the commands of this plugin.
    pub open spec fn well_formed(&self) -> bool {
        all_names(self.commands@).no_duplicates()
    }

    /// Tells whether no name or alias is used twice among the commands of
    /// this plugin.
    pub fn is_well_formed(&self) -> (r: bool)
        ensures
            r == self.well_formed(),
    {
        let mut names: Vec<String> = Vec::new();
        let mut i: usize = 0;
        assert(self.commands@.take(0) =~= Seq::<TheiaPluginCommandConfig>::empty());
        assert(string_views(names@) =~= all_names(self.commands@.take(0)));
        while i < self.commands.len()
            invariant
                i <= self.commands.len(),
                string_views(names@) == all_names(self.commands@.take(i as int)),
            decreases self.commands.len() - i,
        {
            let command = &self.commands[i];
            let ghost before = string_views(names@);
            names.push(command.name.clone());
            assert(string_views(names@) =~= before + seq![command.name@]);
            let mut k: usize = 0;
            while k < command.aliases.len()
                invariant
                    k <= command.aliases.len(),
                    string_views(names@) == before + seq![command.name@] + string_views(
                        command.aliases@,
                    ).take(k as int),
                decreases command.aliases.len() - k,
            {
                let ghost now = string_views(names@);
                names.push(command.aliases[k].clone());
                assert(string_views(names@) =~= now.push(command.aliases@[k as int]@));
                assert(string_views(command.aliases@).take(k + 1) =~= string_views(
                    command.aliases@,
                ).take(k as int).push(command.aliases@[k as int]@));
                k += 1;
            }
            proof {
                assert(string_views(command.aliases@).take(k as int) =~= string_views(
                    command.aliases@,
                ));
                assert(self.commands@.take(i + 1).drop_last() =~= self.commands@.take(i as int));
                assert(self.commands@.take(i + 1).last() == *command);
                assert(string_views(names@) =~= before + command_names(*command));
            }
            i += 1;
        }
        assert(self.commands@.take(i as int) =~= self.commands@);
        all_different(&names)
    }
}

} // verus!
