//! Application-level error. A transport whose effect is unknown is `Uncertain`.

use vstd::prelude::*;

use super::text::owned;

verus! {

#[derive(Debug, Clone, PartialEq, Eq)]
pub enum AppError {
    OriginMissing,
    SnapshotUnreadable { detail: String },
    OriginChanged,
    NoWorkingTarget,
    SeveralSidebars,
    CannotDetermineProjectDir,
    NoPackageJson,
    InvalidPackageJson,
    CannotReadPackageJson { path: String },
    InvalidWorkspace { path: String, detail: String },
    ScriptsNotObjectOfStrings,
    NoScripts,
    TerminalTooSmall,
    ScriptUnavailable { package_root: String, script_name: String },
    LaunchNotConfirmed { tab_id: Option<String> },
    Herdr { method: String, code: String, message: String },
    Uncertain { method: String, message: String },
    Io { message: String },
}

/// The text shown to the user for an error.
pub open spec fn error_text(e: AppError) -> Seq<char> {
    match e {
        AppError::OriginMissing => "origin workspace, tab or pane is missing"@,
        AppError::SnapshotUnreadable { detail } => "pane snapshot cannot be interpreted: "@
            + detail@,
        AppError::OriginChanged => "captured origin pane is no longer present in the pane list"@,
        AppError::NoWorkingTarget => "no working pane is available as a split target"@,
        AppError::SeveralSidebars => "several herdr-npm sidebars are recognised in the target tab"@,
        AppError::CannotDetermineProjectDir => "Cannot determine project directory"@,
        AppError::NoPackageJson => "No package.json found"@,
        AppError::InvalidPackageJson => "package.json is not valid JSON"@,
        AppError::CannotReadPackageJson { path } => "Cannot read package.json ("@ + path@ + ")"@,
        AppError::InvalidWorkspace { path, detail } => "Invalid workspace "@ + path@ + ": "@
            + detail@,
        AppError::ScriptsNotObjectOfStrings => "package.json scripts must be an object of strings"@,
        AppError::NoScripts => "This package.json has no scripts"@,
        AppError::TerminalTooSmall => "Terminal too small"@,
        AppError::ScriptUnavailable { package_root, script_name } => "Script "@ + script_name@
            + " is not available in "@ + package_root@,
        AppError::LaunchNotConfirmed { tab_id } => match tab_id {
            Some(id) => "Script launch not confirmed ("@ + id@ + ")"@,
            None => "Script launch not confirmed"@,
        },
        AppError::Herdr { method, code, message } => method@ + " failed ("@ + code@ + "): "@
            + message@,
        AppError::Uncertain { method, message } => method@ + " did not confirm: "@ + message@
            + ". Inspect the layout before another attempt."@,
        AppError::Io { message } => message@,
    }
}

impl AppError {
    /// A refusal reported by Herdr.
    pub fn herdr(method: &str, code: &str, message: &str) -> (r: AppError)
        ensures
            r is Herdr,
            r->Herdr_method@ == method@,
            r->Herdr_code@ == code@,
            r->Herdr_message@ == message@,
    {
        AppError::Herdr { method: owned(method), code: owned(code), message: owned(message) }
    }

    /// A request whose effect Herdr did not confirm.
    pub fn uncertain(method: &str, message: &str) -> (r: AppError)
        ensures
            r is Uncertain,
            r->Uncertain_method@ == method@,
            r->Uncertain_message@ == message@,
    {
        AppError::Uncertain { method: owned(method), message: owned(message) }
    }

    /// Process exit status: 2 when the outcome is uncertain, 1 otherwise.
    pub fn exit_code(&self) -> (r: i32)
        ensures
            r == (if *self is Uncertain { 2i32 } else { 1i32 }),
    {
        match self {
            AppError::Uncertain { .. } => 2,
            _ => 1,
        }
    }

    /// The text shown to the user.
    pub fn message(&self) -> (r: String)
        ensures
            r@ == error_text(*self),
    {
        match self {
            AppError::OriginMissing => owned("origin workspace, tab or pane is missing"),
            AppError::SnapshotUnreadable { detail } => {
                let mut out = owned("pane snapshot cannot be interpreted: ");
                out.append(detail.as_str());
                out
            },
            AppError::OriginChanged => owned(
                "captured origin pane is no longer present in the pane list",
            ),
            AppError::NoWorkingTarget => owned("no working pane is available as a split target"),
            AppError::SeveralSidebars => owned(
                "several herdr-npm sidebars are recognised in the target tab",
            ),
            AppError::CannotDetermineProjectDir => owned("Cannot determine project directory"),
            AppError::NoPackageJson => owned("No package.json found"),
            AppError::InvalidPackageJson => owned("package.json is not valid JSON"),
            AppError::CannotReadPackageJson { path } => {
                let mut out = owned("Cannot read package.json (");
                out.append(path.as_str());
                out.append(")");
                out
            },
            AppError::InvalidWorkspace { path, detail } => {
                let mut out = owned("Invalid workspace ");
                out.append(path.as_str());
                out.append(": ");
                out.append(detail.as_str());
                out
            },
            AppError::ScriptsNotObjectOfStrings => owned(
                "package.json scripts must be an object of strings",
            ),
            AppError::NoScripts => owned("This package.json has no scripts"),
            AppError::TerminalTooSmall => owned("Terminal too small"),
            AppError::ScriptUnavailable { package_root, script_name } => {
                let mut out = owned("Script ");
                out.append(script_name.as_str());
                out.append(" is not available in ");
                out.append(package_root.as_str());
                out
            },
            AppError::LaunchNotConfirmed { tab_id } => match tab_id {
                Some(id) => {
                    let mut out = owned("Script launch not confirmed (");
                    out.append(id.as_str());
                    out.append(")");
                    out
                },
                None => owned("Script launch not confirmed"),
            },
            AppError::Herdr { method, code, message } => {
                let mut out = owned(method.as_str());
                out.append(" failed (");
                out.append(code.as_str());
                out.append("): ");
                out.append(message.as_str());
                out
            },
            AppError::Uncertain { method, message } => {
                let mut out = owned(method.as_str());
                out.append(" did not confirm: ");
                out.append(message.as_str());
                out.append(". Inspect the layout before another attempt.");
                out
            },
            AppError::Io { message } => owned(message.as_str()),
        }
    }

    /// A copy of the error.
    pub fn duplicate(&self) -> (r: AppError)
        ensures
            r == *self,
    {
        match self {
            AppError::OriginMissing => AppError::OriginMissing,
            AppError::SnapshotUnreadable { detail } => AppError::SnapshotUnreadable {
                detail: detail.clone(),
            },
            AppError::OriginChanged => AppError::OriginChanged,
            AppError::NoWorkingTarget => AppError::NoWorkingTarget,
            AppError::SeveralSidebars => AppError::SeveralSidebars,
            AppError::CannotDetermineProjectDir => AppError::CannotDetermineProjectDir,
            AppError::NoPackageJson => AppError::NoPackageJson,
            AppError::InvalidPackageJson => AppError::InvalidPackageJson,
            AppError::CannotReadPackageJson { path } => AppError::CannotReadPackageJson {
                path: path.clone(),
            },
            AppError::InvalidWorkspace { path, detail } => AppError::InvalidWorkspace {
                path: path.clone(),
                detail: detail.clone(),
            },
            AppError::ScriptsNotObjectOfStrings => AppError::ScriptsNotObjectOfStrings,
            AppError::NoScripts => AppError::NoScripts,
            AppError::TerminalTooSmall => AppError::TerminalTooSmall,
            AppError::ScriptUnavailable { package_root, script_name } =>
                AppError::ScriptUnavailable {
                package_root: package_root.clone(),
                script_name: script_name.clone(),
            },
            AppError::LaunchNotConfirmed { tab_id } => AppError::LaunchNotConfirmed {
                tab_id: match tab_id {
                    Some(id) => Some(id.clone()),
                    None => None,
                },
            },
            AppError::Herdr { method, code, message } => AppError::Herdr {
                method: method.clone(),
                code: code.clone(),
                message: message.clone(),
            },
            AppError::Uncertain { method, message } => AppError::Uncertain {
                method: method.clone(),
                message: message.clone(),
            },
            AppError::Io { message } => AppError::Io { message: message.clone() },
        }
    }
}

} // verus!
