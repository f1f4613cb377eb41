//! An executable with its arguments, as a plugin descriptor names it.

use crate::text::{string_views, strings_in};
use vstd::prelude::*;

verus! {

/// An executable and the arguments to run it with.
#[derive(Debug, Clone, PartialEq)]
pub struct RunnableCommand {
    pub command: String,
    pub arguments: Vec<String>,
}

/// The name of the shell that runs a command given as one line.
pub open spec fn shell_name() -> Seq<char> {
    seq!['s', 'h']
}

/// The option that hands the shell its command line.
pub open spec fn shell_option() -> Seq<char> {
    seq!['-', 'c']
}

impl RunnableCommand {
    /// The command that runs `line` through the shell: `sh -c <line>`. An
    /// empty line names no command.
    pub fn from_shell_line(line: &str) -> (r: Option<RunnableCommand>)
        ensures
            r is Some <==> line@.len() > 0,
            r matches Some(run) ==> {
                &&& run.command@ == shell_name()
                &&& string_views(run.arguments@) == seq![shell_option(), line@]
            },
    {
        if line.is_empty() {
            return None;
        }
        let mut command = String::new();
        command.push('s');
        command.push('h');
        let mut option = String::new();
        option.push('-');
        option.push('c');
        let mut arguments: Vec<String> = Vec::new();
        arguments.push(option);
        arguments.push(line.to_owned());
        proof {
            assert(command@ =~= shell_name());
            assert(arguments@[0]@ =~= shell_option());
            assert(string_views(arguments@) =~= seq![shell_option(), line@]);
        }
        Some(RunnableCommand { command, arguments })
    }

    /// The command whose executable is the first of `items` and whose
    /// arguments are the rest. An empty list names no command.
    pub fn from_list(items: &Vec<String>) -> (r: Option<RunnableCommand>)
        ensures
            r is Some <==> items@.len() > 0,
            r matches Some(run) ==> {
                &&& run.command@ == items@[0]@
                &&& string_views(run.arguments@) == string_views(items@).skip(1)
            },
    {
        if items.len() == 0 {
            return None;
        }
        let command = items[0].clone();
        let arguments = strings_in(items, 1, items.len());
        Some(RunnableCommand { command, arguments })
    }
}

} // verus!
