//! Core of a polyglot runtime-version manager's external-plugin subsystem.
//!
//! An external plugin is a git clone holding well-known shell scripts
//! (`bin/list-all`, `bin/install`, ...). This library holds the verified
//! logic of that subsystem: the stdout grammars of the scripts, the
//! environment composed for their invocation, the on-disk caches with
//! their freshness rules, and the decisions taken during the plugin and
//! tool-version lifecycle. Subprocesses, git and the real filesystem live
//! outside; their observable facts (file mtimes, script outcomes) enter
//! as plain values and every decision on them is verified.

pub mod cache;
pub mod codec;
pub mod envdiff;
pub mod error;
pub mod external_plugin;
pub mod fsmodel;
pub mod git;
pub mod hashstr;
pub mod ls_remote;
pub mod manifest;
pub mod script;
pub mod text;
pub mod toolversion;
pub mod tvcache;
pub mod uninstall;
