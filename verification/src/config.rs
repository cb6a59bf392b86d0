//! The persisted configuration document's logic: its default value and the
//! settings update.  Reading and writing the file itself is the
//! configuration adapter's job; it hands the parsed document in and receives
//! the full document to write back after every mutation.

use crate::types::{clone_string, AppConfig};
use vstd::prelude::*;
use vstd::string::StringExecFns;

verus! {

impl Default for AppConfig {
    /// The configuration used when none is stored yet: no mappings, no
    /// autostart, minimize to the tray, auto-connect, dark theme.
    fn default() -> (r: AppConfig)
        ensures
            r.channel_mappings.deep_view() == Seq::<crate::types::ChannelMappingView>::empty(),
            r.start_with_windows == false,
            r.minimize_to_tray == true,
            r.auto_connect == true,
            r.theme@ == "dark"@,
    {
        let mut theme = String::new();
        theme.append("dark");
        let r = AppConfig {
            channel_mappings: Vec::new(),
            start_with_windows: false,
            minimize_to_tray: true,
            auto_connect: true,
            theme,
        };
        proof {
            assert(r.channel_mappings.deep_view()
                =~= Seq::<crate::types::ChannelMappingView>::empty());
        }
        r
    }
}

/// Apply a settings update: each given value replaces its field, each absent
/// one leaves its field alone.  The mapping table is untouched.
pub fn update_settings(
    config: &mut AppConfig,
    start_with_windows: Option<bool>,
    minimize_to_tray: Option<bool>,
    auto_connect: Option<bool>,
    theme: Option<String>,
)
    ensures
        final(config).channel_mappings.deep_view() == old(config).channel_mappings.deep_view(),
        final(config).start_with_windows == (match start_with_windows {
            Some(v) => v,
            None => old(config).start_with_windows,
        }),
        final(config).minimize_to_tray == (match minimize_to_tray {
            Some(v) => v,
            None => old(config).minimize_to_tray,
        }),
        final(config).auto_connect == (match auto_connect {
            Some(v) => v,
            None => old(config).auto_connect,
        }),
        final(config).theme@ == (match theme {
            Some(v) => v@,
            None => old(config).theme@,
        }),
{
    match start_with_windows {
        Some(v) => config.start_with_windows = v,
        None => {},
    }
    match minimize_to_tray {
        Some(v) => config.minimize_to_tray = v,
        None => {},
    }
    match auto_connect {
        Some(v) => config.auto_connect = v,
        None => {},
    }
    match theme {
        Some(v) => config.theme = v,
        None => {},
    }
}

/// A copy of the configuration with the same value, with the given mapping
/// table in place of the old one: the document to persist after a mapping
/// mutation.
pub fn config_with_mappings(config: &AppConfig, mappings: &Vec<crate::types::ChannelMapping>)
    -> (r: AppConfig)
    ensures
        r.channel_mappings.deep_view() == mappings.deep_view(),
        r.start_with_windows == config.start_with_windows,
        r.minimize_to_tray == config.minimize_to_tray,
        r.auto_connect == config.auto_connect,
        r.theme@ == config.theme@,
{
    let mut table: Vec<crate::types::ChannelMapping> = Vec::new();
    let mut i: usize = 0;
    while i < mappings.len()
        invariant
            i <= mappings@.len(),
            table@.len() == i,
            forall|j: int|
                0 <= j < i ==> (#[trigger] table@[j]).deep_view() == mappings@[j].deep_view(),
        decreases mappings@.len() - i,
    {
        table.push(mappings[i].clone_mapping());
        i += 1;
    }
    proof {
        assert(table.deep_view() =~= mappings.deep_view());
    }
    AppConfig {
        channel_mappings: table,
        start_with_windows: config.start_with_windows,
        minimize_to_tray: config.minimize_to_tray,
        auto_connect: config.auto_connect,
        theme: clone_string(&config.theme),
    }
}

} // verus!
