//! The well-known plugin scripts, where they live inside a plugin, and
//! the environment composed for their invocation. Running a subprocess
//! is the caller's part; what the caller hands back is a `ScriptOutcome`,
//! and every decision on an outcome is verified.

use vstd::prelude::*;
use crate::fsmodel::FsModel;

verus! {

/// The closed set of scripts a plugin may provide.
pub enum Script {
    ListAll,
    LatestStable,
    ListAliases,
    ListLegacyFilenames,
    /// Carries the path of the legacy file handed as argument.
    ParseLegacyFile(String),
    Download,
    Install,
    Uninstall,
    ListBinPaths,
    ExecEnv,
    /// Carries the full script path and the captured arguments.
    RunExternalCommand(String, Vec<String>),
}

/// The file name of a script under the plugin's `bin/` directory.
pub open spec fn spec_script_name(s: Script) -> Seq<char> {
    match s {
        Script::ListAll => "list-all"@,
        Script::LatestStable => "latest-stable"@,
        Script::ListAliases => "list-aliases"@,
        Script::ListLegacyFilenames => "list-legacy-filenames"@,
        Script::ParseLegacyFile(_) => "parse-legacy-file"@,
        Script::Download => "download"@,
        Script::Install => "install"@,
        Script::Uninstall => "uninstall"@,
        Script::ListBinPaths => "list-bin-paths"@,
        Script::ExecEnv => "exec-env"@,
        Script::RunExternalCommand(path, _) => path@,
    }
}

/// The path of the script file called `name` inside a plugin.
pub open spec fn spec_script_file_path(plugin_path: Seq<char>, name: Seq<char>) -> Seq<char> {
    plugin_path + "/bin/"@ + name
}

/// The full path of a script: under `bin/` of the plugin, except an
/// external command, which already carries its path.
pub open spec fn spec_script_path(plugin_path: Seq<char>, s: Script) -> Seq<char> {
    match s {
        Script::RunExternalCommand(path, _) => path@,
        _ => spec_script_file_path(plugin_path, spec_script_name(s)),
    }
}

impl Script {
    pub fn name(&self) -> (r: String)
        ensures
            r@ == spec_script_name(*self),
    {
        match self {
            Script::ListAll => "list-all".to_owned(),
            Script::LatestStable => "latest-stable".to_owned(),
            Script::ListAliases => "list-aliases".to_owned(),
            Script::ListLegacyFilenames => "list-legacy-filenames".to_owned(),
            Script::ParseLegacyFile(_) => "parse-legacy-file".to_owned(),
            Script::Download => "download".to_owned(),
            Script::Install => "install".to_owned(),
            Script::Uninstall => "uninstall".to_owned(),
            Script::ListBinPaths => "list-bin-paths".to_owned(),
            Script::ExecEnv => "exec-env".to_owned(),
            Script::RunExternalCommand(path, _) => path.clone(),
        }
    }
}

/// What a finished script invocation looks like from outside: whether
/// the timeout killed it, its exit code (`None` when a signal ended it),
/// and the two captured streams.
pub struct ScriptOutcome {
    pub timed_out: bool,
    pub exit_code: Option<i32>,
    pub stdout: String,
    pub stderr: String,
}

impl ScriptOutcome {
    /// The invocation ran to completion and exited zero.
    pub open spec fn spec_success(self) -> bool {
        !self.timed_out && self.exit_code == Some(0i32)
    }

    pub fn success(&self) -> (r: bool)
        ensures
            r == self.spec_success(),
    {
        !self.timed_out && match self.exit_code {
            Some(c) => c == 0,
            None => false,
        }
    }
}

/// The environment a list of (key, value) pairs composes: a later pair
/// for the same key overrides an earlier one.
pub open spec fn env_of(s: Seq<(String, String)>) -> Map<Seq<char>, Seq<char>>
    decreases s.len(),
{
    if s.len() == 0 {
        Map::empty()
    } else {
        env_of(s.drop_last()).insert(s.last().0@, s.last().1@)
    }
}

/// Locates scripts inside one plugin and carries the environment their
/// invocations receive.
#[derive(Debug)]
pub struct ScriptManager {
    pub plugin_path: String,
    pub env: Vec<(String, String)>,
}

impl ScriptManager {
    pub open spec fn env_map(self) -> Map<Seq<char>, Seq<char>> {
        env_of(self.env@)
    }

    /// A fresh manager with an empty environment overlay. The caller
    /// adds its (filtered) process environment baseline through
    /// `with_env` before any script runs.
    pub fn new(plugin_path: String) -> (r: ScriptManager)
        ensures
            r.plugin_path@ == plugin_path@,
            r.env_map() == Map::<Seq<char>, Seq<char>>::empty(),
    {
        ScriptManager { plugin_path, env: Vec::new() }
    }

    /// The manager with `key` now bound to `value`, overriding an
    /// earlier binding.
    pub fn with_env(self, key: String, value: String) -> (r: ScriptManager)
        ensures
            r.plugin_path@ == self.plugin_path@,
            r.env_map() == self.env_map().insert(key@, value@),
    {
        let ghost old_env = self.env@;
        let mut env = self.env;
        let ghost k = key@;
        let ghost v = value@;
        env.push((key, value));
        proof {
            assert(env@.drop_last() =~= old_env);
            assert(env@.last().0@ == k && env@.last().1@ == v);
        }
        ScriptManager { plugin_path: self.plugin_path, env }
    }

    /// A copy with the same plugin path and the same composed
    /// environment, for deriving a per-tool-version manager.
    pub fn duplicate(&self) -> (r: ScriptManager)
        ensures
            r.plugin_path@ == self.plugin_path@,
            r.env_map() == self.env_map(),
    {
        let mut env: Vec<(String, String)> = Vec::new();
        let n = self.env.len();
        let mut i: usize = 0;
        proof {
            assert(self.env@.take(0) =~= Seq::<(String, String)>::empty());
            assert(env_of(env@) =~= env_of(self.env@.take(0)));
        }
        while i < n
            invariant
                n == self.env@.len(),
                i <= n,
                env_of(env@) == env_of(self.env@.take(i as int)),
            decreases n - i,
        {
            let ghost old_env = env@;
            let pair = &self.env[i];
            env.push((pair.0.clone(), pair.1.clone()));
            proof {
                assert(env@.drop_last() =~= old_env);
                assert(self.env@.take(i as int + 1).drop_last() =~= self.env@.take(i as int));
                assert(self.env@.take(i as int + 1).last() == self.env@[i as int]);
            }
            i = i + 1;
        }
        proof {
            assert(self.env@.take(n as int) =~= self.env@);
        }
        ScriptManager { plugin_path: self.plugin_path.clone(), env }
    }

    /// Look `key` up in the composed environment.
    pub fn get_env(&self, key: &str) -> (r: Option<&String>)
        ensures
            match r {
                Some(v) => self.env_map().contains_key(key@) && v@ == self.env_map()[key@],
                None => !self.env_map().contains_key(key@),
            },
    {
        let n = self.env.len();
        let mut i: usize = n;
        proof {
            assert(self.env@.take(n as int) =~= self.env@);
        }
        while i > 0
            invariant
                n == self.env@.len(),
                i <= n,
                env_of(self.env@).contains_key(key@) ==> env_of(
                    self.env@.take(i as int),
                ).contains_key(key@) && env_of(self.env@.take(i as int))[key@] == env_of(
                    self.env@,
                )[key@],
                !env_of(self.env@).contains_key(key@) ==> !env_of(
                    self.env@.take(i as int),
                ).contains_key(key@),
            decreases i,
        {
            i = i - 1;
            proof {
                assert(self.env@.take(i as int + 1).drop_last() =~= self.env@.take(i as int));
                assert(self.env@.take(i as int + 1).last() == self.env@[i as int]);
            }
            let pair = &self.env[i];
            if crate::text::str_eq(pair.0.as_str(), key) {
                return Some(&pair.1);
            }
        }
        proof {
            assert(self.env@.take(0) =~= Seq::<(String, String)>::empty());
        }
        None
    }

    /// The path of a script inside this plugin.
    pub fn get_script_path(&self, script: &Script) -> (r: String)
        ensures
            r@ == spec_script_path(self.plugin_path@, *script),
    {
        match script {
            Script::RunExternalCommand(path, _) => path.clone(),
            _ => {
                let name = script.name();
                crate::text::concat3_str(
                    self.plugin_path.as_str(),
                    "/bin/",
                    name.as_str(),
                )
            },
        }
    }

    /// Whether the plugin provides `script`: its file exists.
    pub fn script_exists(&self, fs: &FsModel, script: &Script) -> (r: bool)
        ensures
            r == fs.spec_exists(spec_script_path(self.plugin_path@, *script)),
    {
        let p = self.get_script_path(script);
        fs.path_exists(p.as_str())
    }
}

/// The plugin-wide environment baseline every script invocation sees:
/// the plugin's name and path, and where the shims live (a path under
/// the same data root the plugin paths are relative to).
pub fn build_script_man(name: &str, plugin_path: &str) -> (r: ScriptManager)
    ensures
        r.plugin_path@ == plugin_path@,
        r.env_map() == Map::<Seq<char>, Seq<char>>::empty().insert(
            "RTX_PLUGIN_NAME"@,
            name@,
        ).insert("RTX_PLUGIN_PATH"@, plugin_path@).insert("RTX_SHIMS_DIR"@, "shims"@),
{
    let sm = ScriptManager::new(plugin_path.to_owned());
    let sm = sm.with_env("RTX_PLUGIN_NAME".to_owned(), name.to_owned());
    let sm = sm.with_env("RTX_PLUGIN_PATH".to_owned(), plugin_path.to_owned());
    let sm = sm.with_env("RTX_SHIMS_DIR".to_owned(), "shims".to_owned());
    sm
}

} // verus!
