//! The items that most users of the router need.

pub use crate::command::{invoke_command, CommandInvocation, TheiaAction};
pub use crate::config::TheiaConfig;
pub use crate::discord::message::TheiaDiscordMessage;
pub use crate::error::{TheiaError, TheiaPluginLoadError};
pub use crate::parser::cmdhelp::parse_command_help;
pub use crate::plugin::TheiaPlugin;
pub use crate::util::runnable::RunnableCommand;
pub use crate::Theia;
