//! The error kinds the subsystem surfaces. Decoding failures of the
//! on-disk cache are not among them: a cache entry that does not decode
//! is a miss, never an error.

use vstd::prelude::*;

verus! {

#[derive(Debug)]
pub enum Error {
    /// An operation needed an installed plugin, or the user declined the
    /// install prompt.
    PluginNotInstalled { plugin: String },
    /// An install was requested but no repository URL is known.
    NoRepoUrl { plugin: String },
    /// An operation required a script the plugin does not provide.
    ScriptMissing { plugin: String, script: String },
    /// A script exited non-zero (or was killed; then `exit_code` is `None`).
    ScriptFailed { plugin: String, script: String, exit_code: Option<i32>, stderr_tail: String },
    /// The remote-version listing exceeded its wall-clock timeout.
    ScriptTimeout { plugin: String, script: String },
    /// A git invocation failed.
    GitFailure { plugin: String, op: String, cause: String },
    /// A filesystem operation failed.
    Io { path: String, cause: String },
}

/// The human-readable rendering of an error, one line, plugin name first.
pub open spec fn spec_render(e: Error) -> Seq<char> {
    match e {
        Error::PluginNotInstalled { plugin } => "plugin is not installed: "@ + plugin@,
        Error::NoRepoUrl { plugin } => "no repository found for plugin "@ + plugin@,
        Error::ScriptMissing { plugin, script } => "plugin "@ + plugin@ + " has no script "@
            + script@,
        Error::ScriptFailed { plugin, script, exit_code: _, stderr_tail } => "plugin "@ + plugin@
            + ": script "@ + script@ + " failed: "@ + stderr_tail@,
        Error::ScriptTimeout { plugin, script } => "plugin "@ + plugin@ + ": script "@ + script@
            + " timed out"@,
        Error::GitFailure { plugin, op, cause } => "plugin "@ + plugin@ + ": git "@ + op@
            + " failed: "@ + cause@,
        Error::Io { path, cause } => "io error at "@ + path@ + ": "@ + cause@,
    }
}

impl Error {
    /// Render the error for the user.
    pub fn render(&self) -> (r: String)
        ensures
            r@ == spec_render(*self),
    {
        match self {
            Error::PluginNotInstalled { plugin } => crate::text::concat_str(
                "plugin is not installed: ",
                plugin.as_str(),
            ),
            Error::NoRepoUrl { plugin } => crate::text::concat_str(
                "no repository found for plugin ",
                plugin.as_str(),
            ),
            Error::ScriptMissing { plugin, script } => {
                let a = crate::text::concat3_str("plugin ", plugin.as_str(), " has no script ");
                crate::text::concat_str(a.as_str(), script.as_str())
            },
            Error::ScriptFailed { plugin, script, exit_code: _, stderr_tail } => {
                let a = crate::text::concat3_str("plugin ", plugin.as_str(), ": script ");
                let b = crate::text::concat3_str(a.as_str(), script.as_str(), " failed: ");
                crate::text::concat_str(b.as_str(), stderr_tail.as_str())
            },
            Error::ScriptTimeout { plugin, script } => {
                let a = crate::text::concat3_str("plugin ", plugin.as_str(), ": script ");
                let b = crate::text::concat3_str(a.as_str(), script.as_str(), " timed out");
                b
            },
            Error::GitFailure { plugin, op, cause } => {
                let a = crate::text::concat3_str("plugin ", plugin.as_str(), ": git ");
                let b = crate::text::concat3_str(a.as_str(), op.as_str(), " failed: ");
                crate::text::concat_str(b.as_str(), cause.as_str())
            },
            Error::Io { path, cause } => {
                let a = crate::text::concat3_str("io error at ", path.as_str(), ": ");
                crate::text::concat_str(a.as_str(), cause.as_str())
            },
        }
    }
}

} // verus!
