//! Bot configuration.

use std::collections::HashMap;
use vstd::prelude::*;

verus! {

/// A path of `std`. Paths are carried through to where files are opened;
/// nothing here looks inside.
#[verifier::external_type_specification]
#[verifier::external_body]
pub struct ExPathBuf(std::path::PathBuf);

/// What the bot's configuration says of one plugin.
#[derive(Debug)]
pub struct TheiaRootPluginConfig {
    /// Path to the plugin directory.
    pub path: std::path::PathBuf,
    /// The bot's own configuration data for the plugin.
    pub cfgdata: HashMap<String, serde_json::Value>,
}

/// The bot's configuration.
#[derive(Debug)]
pub struct TheiaConfig {
    /// The command prefixes; the first is the one shown in help texts.
    pub prefixes: Vec<String>,
    /// The users that may perform administration commands.
    pub admin_users: Vec<String>,
    /// Total shard count.
    pub shard_count: u64,
    /// The plugins to load, by logical name.
    pub plugin_cfg: HashMap<String, TheiaRootPluginConfig>,
}

/// Something amiss in a configuration that does not keep the bot from
/// starting.
#[derive(Debug, Clone, Copy, PartialEq, Eq, Structural)]
pub enum TheiaConfigWarning {
    /// No admin users are defined.
    NoAdminUsers,
    /// No plugins are listed.
    NoPlugins,
}

impl Default for TheiaConfig {
    fn default() -> (r: TheiaConfig)
        ensures
            r.prefixes@.len() == 0,
            r.admin_users@.len() == 0,
            r.shard_count == 0,
            r.plugin_cfg@ == Map::<String, TheiaRootPluginConfig>::empty(),
    {
        TheiaConfig {
            prefixes: Vec::new(),
            admin_users: Vec::new(),
            shard_count: 0,
            plugin_cfg: HashMap::new(),
        }
    }
}

/// The warnings for a configuration, given what it lacks: missing admin
/// users come first, missing plugins second.
pub open spec fn warnings_of(no_admin_users: bool, no_plugins: bool) -> Seq<TheiaConfigWarning> {
    (if no_admin_users {
        seq![TheiaConfigWarning::NoAdminUsers]
    } else {
        Seq::empty()
    }) + (if no_plugins {
        seq![TheiaConfigWarning::NoPlugins]
    } else {
        Seq::empty()
    })
}

impl TheiaConfig {
    /// What to warn of in this configuration.
    pub fn warnings(&self) -> (r: Vec<TheiaConfigWarning>)
        ensures
            r@ == warnings_of(self.admin_users@.len() == 0, self.plugin_cfg@.is_empty()),
    {
        let mut r: Vec<TheiaConfigWarning> = Vec::new();
        if self.admin_users.len() < 1 {
            r.push(TheiaConfigWarning::NoAdminUsers);
        }
        if self.plugin_cfg.is_empty() {
            r.push(TheiaConfigWarning::NoPlugins);
        }
        assert(r@ =~= warnings_of(self.admin_users@.len() == 0, self.plugin_cfg@.is_empty()));
        r
    }
}

} // verus!
