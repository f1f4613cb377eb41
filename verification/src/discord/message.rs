//! A chat message as the router and the plugins see it.

pub mod cmdhooks;

use crate::command::{CommandInvocation, InvocationView};
use crate::discord::message::cmdhooks::{parse_command, with_invocation};
use crate::error::TheiaError;
use crate::number::{parse_u64, written_u64};
use crate::text::string_views;
use crate::Theia;
use vstd::prelude::*;

verus! {

/// A chat message. Identifiers are kept as the decimal strings that go over
/// the wire to plugins.
#[derive(Debug)]
pub struct TheiaDiscordMessage {
    pub message_id: String,
    pub channel_id: String,
    pub author_id: String,
    pub guild_id: Option<String>,
    pub webhook_id: Option<String>,
    pub content: String,
    /// The invocation that the content spells, once it has been parsed.
    pub command_invocation: Option<CommandInvocation>,
    pub message_proxy: Option<()>,
}

/// What a [`TheiaDiscordMessage`] holds, as sequences of characters.
pub ghost struct DiscordMessageView {
    pub message_id: Seq<char>,
    pub channel_id: Seq<char>,
    pub author_id: Seq<char>,
    pub guild_id: Option<Seq<char>>,
    pub webhook_id: Option<Seq<char>>,
    pub content: Seq<char>,
    pub command_invocation: Option<InvocationView>,
    pub message_proxy: Option<()>,
}

/// The view of a string that may be absent.
pub open spec fn option_view(s: Option<String>) -> Option<Seq<char>> {
    match s {
        Some(s) => Some(s@),
        None => None,
    }
}

/// A copy of a string that may be absent.
pub fn clone_option(s: &Option<String>) -> (r: Option<String>)
    ensures
        option_view(r) == option_view(*s),
{
    match s {
        Some(s) => Some(s.clone()),
        None => None,
    }
}

impl View for TheiaDiscordMessage {
    type V = DiscordMessageView;

    open spec fn view(&self) -> DiscordMessageView {
        DiscordMessageView {
            message_id: self.message_id@,
            channel_id: self.channel_id@,
            author_id: self.author_id@,
            guild_id: option_view(self.guild_id),
            webhook_id: option_view(self.webhook_id),
            content: self.content@,
            command_invocation: match self.command_invocation {
                Some(cmd) => Some(cmd@),
                None => None,
            },
            message_proxy: self.message_proxy,
        }
    }
}

impl Clone for TheiaDiscordMessage {
    fn clone(&self) -> (r: TheiaDiscordMessage)
        ensures
            r@ == self@,
    {
        TheiaDiscordMessage {
            message_id: self.message_id.clone(),
            channel_id: self.channel_id.clone(),
            author_id: self.author_id.clone(),
            guild_id: clone_option(&self.guild_id),
            webhook_id: clone_option(&self.webhook_id),
            content: self.content.clone(),
            command_invocation: match &self.command_invocation {
                Some(cmd) => Some(cmd.clone()),
                None => None,
            },
            message_proxy: self.message_proxy,
        }
    }
}

/// Where a message goes: a channel, and the message that it answers, if any.
#[derive(Debug, Clone, Copy, PartialEq, Eq, Structural)]
pub struct SendTarget {
    pub channel_id: u64,
    pub in_reply_to: Option<u64>,
}

/// The target that the identifiers `channel_id` and `in_reply_to` write, if
/// each of them writes a number.
pub open spec fn target_of(channel_id: Seq<char>, in_reply_to: Option<Seq<char>>) -> Option<
    SendTarget,
> {
    match written_u64(channel_id) {
        None => None,
        Some(channel) => match in_reply_to {
            None => Some(SendTarget { channel_id: channel, in_reply_to: None }),
            Some(id) => match written_u64(id) {
                None => None,
                Some(message) => Some(
                    SendTarget { channel_id: channel, in_reply_to: Some(message) },
                ),
            },
        },
    }
}

/// Reads the identifiers of a channel and, where there is one, of the
/// message to answer. An identifier that writes no number gives the error of
/// reading it, the channel's before the message's.
pub fn read_target(channel_id: &str, in_reply_to: Option<&str>) -> (r: Result<
    SendTarget,
    TheiaError,
>)
    ensures
        match r {
            Ok(target) => target_of(
                channel_id@,
                match in_reply_to {
                    Some(id) => Some(id@),
                    None => None,
                },
            ) == Some(target),
            Err(e) => e is ParseIntError && target_of(
                channel_id@,
                match in_reply_to {
                    Some(id) => Some(id@),
                    None => None,
                },
            ) is None,
        },
{
    let channel = match parse_u64(channel_id) {
        Ok(v) => v,
        Err(e) => {
            return Err(TheiaError::from(e));
        },
    };
    let message = match in_reply_to {
        None => None,
        Some(id) => match parse_u64(id) {
            Ok(v) => Some(v),
            Err(e) => {
                return Err(TheiaError::from(e));
            },
        },
    };
    Ok(SendTarget { channel_id: channel, in_reply_to: message })
}

impl TheiaDiscordMessage {
    /// Where a reply to this message goes: to its channel, in answer to it.
    pub fn reply_target(&self) -> (r: Result<SendTarget, TheiaError>)
        ensures
            match r {
                Ok(target) => target_of(self.channel_id@, Some(self.message_id@)) == Some(target),
                Err(e) => e is ParseIntError && target_of(
                    self.channel_id@,
                    Some(self.message_id@),
                ) is None,
            },
    {
        read_target(self.channel_id.as_str(), Some(self.message_id.as_str()))
    }
}

impl TheiaDiscordMessage {
    /// Reads this message as a command of `theia`: a copy that carries the
    /// invocation, or nothing where the content spells no command.
    pub fn parse_as_command(&self, theia: &Theia) -> (r: Result<
        Option<TheiaDiscordMessage>,
        TheiaError,
    >)
        ensures
            r is Ok,
            match r->Ok_0 {
                Some(out) => with_invocation(
                    string_views(theia.config.prefixes@),
                    theia.plugins@,
                    self@,
                ) == Some(out@),
                None => with_invocation(
                    string_views(theia.config.prefixes@),
                    theia.plugins@,
                    self@,
                ) is None,
            },
    {
        parse_command(theia, self.clone())
    }
}

} // verus!
