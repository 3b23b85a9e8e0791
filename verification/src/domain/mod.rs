//! The plugin's domain: catalogue, errors, identifiers, panes and the pure
//! rules that decide what the sidebar does.

use vstd::prelude::*;

pub mod catalog;
pub mod error;
pub mod fuzzy;
pub mod geometry;
pub mod ids;
pub mod json;
pub mod package_manager;
pub mod pane;
pub mod run_command;
pub mod sidebar_decision;
pub mod text;

verus! {

/// Session token key that marks a pane as this plugin's sidebar.
pub const SIDEBAR_TOKEN_KEY: &'static str = "herdr_npm_sidebar";

/// Value of the session token for the current sidebar protocol.
pub const SIDEBAR_TOKEN_VALUE: &'static str = "v1";

/// Session token key of the herdr-sidebar explorer.
pub const EXPLORER_TOKEN_KEY: &'static str = "herdr-sidebar-explorer";

/// Identifier of the plugin in Herdr.
pub const PLUGIN_ID: &'static str = "herdr-npm";

/// Entrypoint of the plugin pane.
pub const PANE_ENTRYPOINT: &'static str = "sidebar";

/// Visible label of the sidebar pane.
pub const SIDEBAR_LABEL: &'static str = "npm";

/// Environment variables that carry the origin of a toggle into the pane.
pub const ORIGIN_WORKSPACE_ENV: &'static str = "HERDR_NPM_ORIGIN_WORKSPACE_ID";

pub const ORIGIN_TAB_ENV: &'static str = "HERDR_NPM_ORIGIN_TAB_ID";

pub const ORIGIN_PANE_ENV: &'static str = "HERDR_NPM_ORIGIN_PANE_ID";

pub const ORIGIN_FOREGROUND_CWD_ENV: &'static str = "HERDR_NPM_ORIGIN_FOREGROUND_CWD";

pub const ORIGIN_CWD_ENV: &'static str = "HERDR_NPM_ORIGIN_CWD";

/// Note shown when the catalogue was resolved from the pane's start directory
/// because its foreground directory was unknown.
pub const CWD_FALLBACK_NOTE: &'static str = "Foreground directory unknown; using the pane's start directory";

/// Preferred outer width of the sidebar, in columns.
pub const PREFERRED_OUTER_COLUMNS: u16 = 32;

} // verus!
