//! The messages that go to a plugin process and come back from it.

use crate::discord::message::{
    DiscordMessageView, SendTarget, TheiaDiscordMessage, option_view, read_target, target_of,
};
use crate::error::TheiaError;
use crate::plugin::TheiaPlugin;
use crate::text::{copy_strings, string_views};
use crate::{Theia, listed_commands, names_of, summaries_of};
use std::collections::HashMap;
use vstd::prelude::*;

verus! {

/// A message to a plugin process. Each goes out as one line.
#[derive(Debug)]
pub enum TheiaPluginOutgoingMessage {
    /// What the bot is: its prefixes, admins and shards, the plugins that
    /// are loaded and the commands that are listed.
    BotInfo {
        prefixes: Vec<String>,
        admin_users: Vec<String>,
        invite_url: Option<String>,
        this_shard: u64,
        total_shards: u64,
        plugins: Vec<String>,
        commands: Vec<(String, String)>,
    },
    /// The configuration data of the plugin that is invoked: its own, and
    /// what the bot's configuration holds for it.
    PluginConfig {
        plugin_name: String,
        config_plugin: HashMap<String, serde_json::Value>,
        config_bot: HashMap<String, serde_json::Value>,
    },
    /// The chat message that is handled.
    Message { message: TheiaDiscordMessage },
    /// The chat message with the invocation that was read from it.
    CommandInvoke { message: TheiaDiscordMessage },
}

/// The views of a sequence of pairs of strings.
pub open spec fn pair_views(items: Seq<(String, String)>) -> Seq<(Seq<char>, Seq<char>)> {
    Seq::new(items.len(), |i: int| (items[i].0@, items[i].1@))
}

/// What a [`TheiaPluginOutgoingMessage`] holds, as sequences of characters.
pub ghost enum OutgoingMessageView {
    BotInfo {
        prefixes: Seq<Seq<char>>,
        admin_users: Seq<Seq<char>>,
        invite_url: Option<Seq<char>>,
        this_shard: u64,
        total_shards: u64,
        plugins: Seq<Seq<char>>,
        commands: Seq<(Seq<char>, Seq<char>)>,
    },
    PluginConfig {
        plugin_name: Seq<char>,
        config_plugin: Map<String, serde_json::Value>,
        config_bot: Map<String, serde_json::Value>,
    },
    Message { message: DiscordMessageView },
    CommandInvoke { message: DiscordMessageView },
}

impl View for TheiaPluginOutgoingMessage {
    type V = OutgoingMessageView;

    open spec fn view(&self) -> OutgoingMessageView {
        match *self {
            TheiaPluginOutgoingMessage::BotInfo {
                prefixes,
                admin_users,
                invite_url,
                this_shard,
                total_shards,
                plugins,
                commands,
            } => OutgoingMessageView::BotInfo {
                prefixes: string_views(prefixes@),
                admin_users: string_views(admin_users@),
                invite_url: option_view(invite_url),
                this_shard,
                total_shards,
                plugins: string_views(plugins@),
                commands: pair_views(commands@),
            },
            TheiaPluginOutgoingMessage::PluginConfig {
                plugin_name,
                config_plugin,
                config_bot,
            } => OutgoingMessageView::PluginConfig {
                plugin_name: plugin_name@,
                config_plugin: config_plugin@,
                config_bot: config_bot@,
            },
            TheiaPluginOutgoingMessage::Message { message } => OutgoingMessageView::Message {
                message: message@,
            },
            TheiaPluginOutgoingMessage::CommandInvoke {
                message,
            } => OutgoingMessageView::CommandInvoke { message: message@ },
        }
    }
}

/// A message from a plugin process. Each comes in as one line.
#[derive(Debug, PartialEq)]
#[non_exhaustive]
pub enum TheiaPluginIncomingMessage {
    /// Send `content` to a channel, in answer to a message if one is named.
    SendMessage { channel_id: String, in_reply_to: Option<String>, content: String },
}

impl TheiaPluginIncomingMessage {
    /// Where this message asks to send to.
    pub fn send_target(&self) -> (r: Result<SendTarget, TheiaError>)
        ensures
            match *self {
                TheiaPluginIncomingMessage::SendMessage { channel_id, in_reply_to, .. } => match r {
                    Ok(target) => target_of(channel_id@, option_view(in_reply_to)) == Some(target),
                    Err(e) => e is ParseIntError && target_of(
                        channel_id@,
                        option_view(in_reply_to),
                    ) is None,
                },
            },
    {
        match self {
            TheiaPluginIncomingMessage::SendMessage { channel_id, in_reply_to, .. } => {
                let reply: Option<&str> = match in_reply_to {
                    Some(id) => Some(id.as_str()),
                    None => None,
                };
                read_target(channel_id.as_str(), reply)
            },
        }
    }
}

impl TheiaPluginOutgoingMessage {
    /// What the bot is, as shard `this_shard` sees it.
    pub fn bot_info(theia: &Theia, this_shard: u64) -> (r: TheiaPluginOutgoingMessage)
        requires
            theia.config.prefixes@.len() > 0,
        ensures
            r@ == (OutgoingMessageView::BotInfo {
                prefixes: string_views(theia.config.prefixes@),
                admin_users: string_views(theia.config.admin_users@),
                invite_url: None,
                this_shard,
                total_shards: theia.config.shard_count,
                plugins: names_of(theia.plugins@),
                commands: summaries_of(listed_commands(theia.plugins@), theia.config.prefixes@[0]@),
            }),
    {
        TheiaPluginOutgoingMessage::BotInfo {
            prefixes: theia.prefixes(),
            admin_users: copy_strings(&theia.config.admin_users),
            invite_url: None,
            this_shard,
            total_shards: theia.config.shard_count,
            plugins: theia.plugin_names(),
            commands: theia.plugin_command_summaries(),
        }
    }

    /// The configuration data for `plugin`: the plugin's own, and what the
    /// bot's configuration holds for it.
    pub fn plugin_config(plugin: &TheiaPlugin) -> (r: TheiaPluginOutgoingMessage)
        ensures
            r@ == (OutgoingMessageView::PluginConfig {
                plugin_name: plugin.config.name@,
                config_plugin: plugin.config.cfgdata@,
                config_bot: plugin.cfgdata@,
            }),
    {
        TheiaPluginOutgoingMessage::PluginConfig {
            plugin_name: plugin.config.name.clone(),
            config_plugin: plugin.config.cfgdata.clone(),
            config_bot: plugin.cfgdata.clone(),
        }
    }
}

} // verus!
