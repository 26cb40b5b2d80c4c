//! The external plugin façade: lifecycle, capability probes, cached
//! queries, per-tool-version operations and external command discovery.
//! The plugin itself is a git clone under `plugins/<name>`; everything
//! the façade decides is verified over the filesystem model and the
//! outcomes of script invocations.

use vstd::prelude::*;
use crate::cache::CacheManager;
use crate::codec::{CacheValue, SpecCacheValue, pair_views, seq_views};
use crate::error::Error;
use crate::fsmodel::{FsFile, FsModel, remove_under};
use crate::manifest::PluginManifest;
use crate::script::{Script, ScriptManager, ScriptOutcome, build_script_man, spec_script_path};
use crate::text::{split_on, split_ws, spec_trim};
use crate::toolversion::ToolVersion;

verus! {

/// A plugin installed to (or installable at) `plugins/<name>` under the
/// manager's data root.
#[derive(Debug)]
pub struct ExternalPlugin {
    pub name: String,
    pub plugin_path: String,
    pub cache_path: String,
    pub downloads_path: String,
    pub installs_path: String,
    pub repo_url: Option<String>,
    pub toml: PluginManifest,
    pub script_man: ScriptManager,
    pub remote_version_cache: CacheManager,
    pub latest_stable_cache: CacheManager,
    pub alias_cache: CacheManager,
    pub legacy_filename_cache: CacheManager,
}

/// The alias lines with exactly two whitespace-separated tokens, as
/// (name, value) pairs; other lines are skipped.
pub open spec fn alias_pairs_of_lines(ls: Seq<Seq<char>>) -> Seq<(Seq<char>, Seq<char>)>
    decreases ls.len(),
{
    if ls.len() == 0 {
        Seq::empty()
    } else {
        let ts = split_ws(ls[0]);
        let rest = alias_pairs_of_lines(ls.skip(1));
        if ts.len() == 2 {
            seq![(ts[0], ts[1])] + rest
        } else {
            rest
        }
    }
}

/// The alias pairs of a `list-aliases` stdout or manifest text.
pub open spec fn spec_parse_aliases(s: Seq<char>) -> Seq<(Seq<char>, Seq<char>)> {
    alias_pairs_of_lines(split_on(s, '\n'))
}

/// Where the bin paths of a tool version come from.
#[derive(Debug, PartialEq, Eq, Structural)]
pub enum BinPathsSource {
    /// A `System` version exposes no paths.
    SystemEmpty,
    /// The plugin's `list-bin-paths` script decides.
    RunScript,
    /// The conventional single `bin` directory.
    DefaultBin,
}

/// How a legacy version file is parsed.
pub enum LegacyFilePlan {
    /// The cached parse is current; this is it.
    Cached(String),
    /// Run `parse-legacy-file` with the file as argument.
    RunScript,
    /// Read the file verbatim as the version string.
    ReadFile,
}

/// One step of installing a tool version.
#[derive(Debug, PartialEq, Eq, Structural)]
pub enum InstallStep {
    SetProgressDownloading,
    RunDownloadScript,
    SetProgressInstalling,
    RunInstallScript,
}

/// What `ensure_installed` does next.
pub enum EnsurePlan {
    /// Installed already and not forced: nothing to do.
    AlreadyInstalled,
    /// A community-registry plugin needs the user's confirmation; the
    /// URL shown. A decline maps to the not-installed error.
    Confirm(String),
    /// Proceed to install under the plugin's file lock.
    Install,
}

/// What `update` does.
#[derive(Debug, PartialEq, Eq, Structural)]
pub enum UpdatePlan {
    /// The clone is a symlink: warn, touch nothing.
    SkipSymlink,
    /// The clone is not a git repository: warn, touch nothing.
    SkipNotRepo,
    /// Hand the optional ref to git's update.
    Run,
}

/// The resolved decisions of a plugin install.
pub struct InstallPlan {
    /// An earlier clone is removed first.
    pub uninstall_first: bool,
    /// What to clone.
    pub clone_url: String,
    /// The ref to check out after the clone, when the spec named one.
    pub checkout_ref: Option<String>,
}

/// Which caches to warm after the clone, in this order: remote
/// versions, then aliases, then legacy filenames — each only where the
/// script exists.
pub struct WarmPlan {
    pub list_remote_versions: bool,
    pub aliases: bool,
    pub legacy_filenames: bool,
}

/// Joining a relative bin path onto an install path.
pub open spec fn bin_join(install_path: Seq<char>) -> spec_fn(Seq<char>) -> Seq<char> {
    |p: Seq<char>| install_path + "/"@ + p
}

/// The tool-option overlay: one `RTX_TOOL_OPTS__<KEY>` binding per
/// option, keys uppercased, later options later.
pub open spec fn with_opts(
    m: Map<Seq<char>, Seq<char>>,
    opts: Seq<(String, String)>,
) -> Map<Seq<char>, Seq<char>>
    decreases opts.len(),
{
    if opts.len() == 0 {
        m
    } else {
        with_opts(m, opts.drop_last()).insert(
            "RTX_TOOL_OPTS__"@ + crate::text::spec_upper(opts.last().0@),
            opts.last().1@,
        )
    }
}

/// The whole per-tool-version environment: the plugin-wide baseline,
/// the tool options, the project root when known, then the install and
/// download paths, the install type and the version, each with its
/// `ASDF_*` alias.
pub open spec fn spec_tv_env(
    base: Map<Seq<char>, Seq<char>>,
    project_root: Option<Seq<char>>,
    tv: ToolVersion,
) -> Map<Seq<char>, Seq<char>> {
    let m1 = with_opts(base, tv.opts@);
    let m2 = match project_root {
        Some(p) => m1.insert("RTX_PROJECT_ROOT"@, p),
        None => m1,
    };
    m2.insert("RTX_INSTALL_PATH"@, tv.spec_install_path()).insert(
        "ASDF_INSTALL_PATH"@,
        tv.spec_install_path(),
    ).insert("RTX_DOWNLOAD_PATH"@, tv.spec_download_path()).insert(
        "ASDF_DOWNLOAD_PATH"@,
        tv.spec_download_path(),
    ).insert("RTX_INSTALL_TYPE"@, tv.spec_install_type()).insert(
        "ASDF_INSTALL_TYPE"@,
        tv.spec_install_type(),
    ).insert("RTX_INSTALL_VERSION"@, tv.spec_install_version()).insert(
        "ASDF_INSTALL_VERSION"@,
        tv.spec_install_version(),
    )
}

impl ExternalPlugin {
    /// The fixed layout a constructed plugin has: paths derived from
    /// the name, the script manager rooted at the clone, and the four
    /// caches under `cache/<name>` with their sentinels.
    pub open spec fn wf(self) -> bool {
        &&& self.plugin_path@ == "plugins/"@ + self.name@
        &&& self.cache_path@ == "cache/"@ + self.name@
        &&& self.downloads_path@ == "downloads/"@ + self.name@
        &&& self.installs_path@ == "installs/"@ + self.name@
        &&& self.script_man.plugin_path@ == self.plugin_path@
        &&& self.remote_version_cache.path@ == self.cache_path@ + "/remote_versions.cache"@
        &&& self.remote_version_cache.fresh_duration == Some(86400u64)
        &&& self.remote_version_cache.fresh_files@.len() == 2
        &&& self.remote_version_cache.fresh_files@[0]@ == self.plugin_path@
        &&& self.remote_version_cache.fresh_files@[1]@ == self.plugin_path@ + "/bin/list-all"@
        &&& self.latest_stable_cache.path@ == self.cache_path@ + "/latest_stable.cache"@
        &&& self.latest_stable_cache.fresh_duration == Some(86400u64)
        &&& self.latest_stable_cache.fresh_files@.len() == 2
        &&& self.latest_stable_cache.fresh_files@[0]@ == self.plugin_path@
        &&& self.latest_stable_cache.fresh_files@[1]@ == self.plugin_path@ + "/bin/latest-stable"@
        &&& self.alias_cache.path@ == self.cache_path@ + "/aliases.cache"@
        &&& self.alias_cache.fresh_duration is None
        &&& self.alias_cache.fresh_files@.len() == 2
        &&& self.alias_cache.fresh_files@[0]@ == self.plugin_path@
        &&& self.alias_cache.fresh_files@[1]@ == self.plugin_path@ + "/bin/list-aliases"@
        &&& self.legacy_filename_cache.path@ == self.cache_path@ + "/legacy_filenames.cache"@
        &&& self.legacy_filename_cache.fresh_duration is None
        &&& self.legacy_filename_cache.fresh_files@.len() == 2
        &&& self.legacy_filename_cache.fresh_files@[1]@ == self.plugin_path@
            + "/bin/list-legacy-filenames"@
        &&& self.legacy_filename_cache.fresh_files@[0]@ == self.plugin_path@
    }

    /// A plugin constructed from its name alone: paths and caches are
    /// computed whether or not the plugin is installed; no repository
    /// override; an empty manifest until one is loaded.
    pub fn new(name: String) -> (r: ExternalPlugin)
        ensures
            r.wf(),
            r.name@ == name@,
            r.repo_url is None,
            r.toml.list_aliases_data is None,
            r.toml.list_legacy_filenames_data is None,
            r.script_man.env_map() == Map::<Seq<char>, Seq<char>>::empty().insert(
                "RTX_PLUGIN_NAME"@,
                name@,
            ).insert("RTX_PLUGIN_PATH"@, "plugins/"@ + name@).insert("RTX_SHIMS_DIR"@, "shims"@),
    {
        let plugin_path = crate::text::concat_str("plugins/", name.as_str());
        let cache_path = crate::text::concat_str("cache/", name.as_str());
        let downloads_path = crate::text::concat_str("downloads/", name.as_str());
        let installs_path = crate::text::concat_str("installs/", name.as_str());
        let script_man = build_script_man(name.as_str(), plugin_path.as_str());
        let remote_version_cache = CacheManager::new(
            crate::text::concat_str(cache_path.as_str(), "/remote_versions.cache"),
        ).with_fresh_duration(86400).with_fresh_file(plugin_path.clone()).with_fresh_file(
            crate::text::concat_str(plugin_path.as_str(), "/bin/list-all"),
        );
        let latest_stable_cache = CacheManager::new(
            crate::text::concat_str(cache_path.as_str(), "/latest_stable.cache"),
        ).with_fresh_duration(86400).with_fresh_file(plugin_path.clone()).with_fresh_file(
            crate::text::concat_str(plugin_path.as_str(), "/bin/latest-stable"),
        );
        let alias_cache = CacheManager::new(
            crate::text::concat_str(cache_path.as_str(), "/aliases.cache"),
        ).with_fresh_file(plugin_path.clone()).with_fresh_file(
            crate::text::concat_str(plugin_path.as_str(), "/bin/list-aliases"),
        );
        let legacy_filename_cache = CacheManager::new(
            crate::text::concat_str(cache_path.as_str(), "/legacy_filenames.cache"),
        ).with_fresh_file(plugin_path.clone()).with_fresh_file(
            crate::text::concat_str(plugin_path.as_str(), "/bin/list-legacy-filenames"),
        );
        ExternalPlugin {
            name,
            plugin_path,
            cache_path,
            downloads_path,
            installs_path,
            repo_url: None,
            toml: PluginManifest::empty(),
            script_man,
            remote_version_cache,
            latest_stable_cache,
            alias_cache,
            legacy_filename_cache,
        }
    }

    /// The plugin is installed exactly when its clone path exists.
    pub fn is_installed(&self, fs: &FsModel) -> (r: bool)
        ensures
            r == fs.spec_exists(self.plugin_path@),
    {
        fs.path_exists(self.plugin_path.as_str())
    }

    /// The plugin provides `list-all`: the script file exists.
    pub fn has_list_all_script(&self, fs: &FsModel) -> (r: bool)
        ensures
            r == fs.spec_exists(spec_script_path(self.script_man.plugin_path@, Script::ListAll)),
    {
        self.script_man.script_exists(fs, &Script::ListAll)
    }

    /// The plugin provides `list-aliases`: the script file exists.
    pub fn has_list_alias_script(&self, fs: &FsModel) -> (r: bool)
        ensures
            r == fs.spec_exists(
                spec_script_path(self.script_man.plugin_path@, Script::ListAliases),
            ),
    {
        self.script_man.script_exists(fs, &Script::ListAliases)
    }

    /// The plugin provides `list-legacy-filenames`: the file exists.
    pub fn has_list_legacy_filenames_script(&self, fs: &FsModel) -> (r: bool)
        ensures
            r == fs.spec_exists(
                spec_script_path(self.script_man.plugin_path@, Script::ListLegacyFilenames),
            ),
    {
        self.script_man.script_exists(fs, &Script::ListLegacyFilenames)
    }

    /// The plugin provides `latest-stable`: the script file exists.
    pub fn has_latest_stable_script(&self, fs: &FsModel) -> (r: bool)
        ensures
            r == fs.spec_exists(
                spec_script_path(self.script_man.plugin_path@, Script::LatestStable),
            ),
    {
        self.script_man.script_exists(fs, &Script::LatestStable)
    }

    /// The repository to install from: the user's override wins over
    /// the registry; neither is an error.
    pub fn get_repo_url(&self, registry_url: Option<&String>) -> (r: Result<String, Error>)
        ensures
            match self.repo_url {
                Some(u) => r matches Ok(v) && v@ == u@,
                None => match registry_url {
                    Some(u) => r matches Ok(v) && v@ == u@,
                    None => r matches Err(Error::NoRepoUrl { plugin }) && plugin@ == self.name@,
                },
            },
    {
        match &self.repo_url {
            Some(u) => Ok(u.clone()),
            None => match registry_url {
                Some(u) => Ok(u.clone()),
                None => Err(Error::NoRepoUrl { plugin: self.name.clone() }),
            },
        }
    }

    /// Turn a finished `list-all` invocation into the version list:
    /// a timeout and a non-zero exit are the two failures; success is
    /// the whitespace-separated stdout tokens.
    pub fn fetch_remote_versions(&self, outcome: &ScriptOutcome) -> (r: Result<Vec<String>, Error>)
        ensures
            outcome.timed_out ==> (r matches Err(Error::ScriptTimeout { plugin, script })
                && plugin@ == self.name@ && script@ == "list-all"@),
            !outcome.timed_out && !outcome.spec_success() ==> (r matches Err(
                Error::ScriptFailed { plugin, script, exit_code, stderr_tail },
            ) && plugin@ == self.name@ && script@ == "list-all"@ && exit_code == outcome.exit_code
                && stderr_tail@ == spec_trim(outcome.stderr@)),
            outcome.spec_success() ==> (r matches Ok(vs) && seq_views(vs@) == split_ws(
                outcome.stdout@,
            )),
    {
        if outcome.timed_out {
            return Err(
                Error::ScriptTimeout { plugin: self.name.clone(), script: "list-all".to_owned() },
            );
        }
        if !outcome.success() {
            return Err(
                Error::ScriptFailed {
                    plugin: self.name.clone(),
                    script: "list-all".to_owned(),
                    exit_code: outcome.exit_code,
                    stderr_tail: crate::text::trim_str(outcome.stderr.as_str()),
                },
            );
        }
        Ok(crate::text::split_ws_str(outcome.stdout.as_str()))
    }

    /// Whitespace-split legacy filenames, from a script or the manifest.
    pub fn parse_legacy_filenames(&self, data: &str) -> (r: Vec<String>)
        ensures
            seq_views(r@) == split_ws(data@),
    {
        crate::text::split_ws_str(data)
    }

    /// The alias pairs of a `list-aliases` text: per line, exactly two
    /// whitespace-separated tokens make a pair; other lines are skipped.
    pub fn parse_aliases(&self, data: &str) -> (r: Vec<(String, String)>)
        ensures
            pair_views(r@) == spec_parse_aliases(data@),
    {
        let cs = crate::text::to_chars(data);
        let lines = crate::text::split_on_exec(&cs, '\n');
        let ghost lviews = split_on(data@, '\n');
        let mut r: Vec<(String, String)> = Vec::new();
        let n = lines.len();
        let mut i: usize = 0;
        proof {
            assert(lviews.skip(0) =~= lviews);
            assert(pair_views(r@) =~= Seq::<(Seq<char>, Seq<char>)>::empty());
        }
        while i < n
            invariant
                n == lines@.len(),
                i <= n,
                lines@.map_values(|t: String| t@) == lviews,
                alias_pairs_of_lines(lviews) == pair_views(r@) + alias_pairs_of_lines(
                    lviews.skip(i as int),
                ),
            decreases n - i,
        {
            let toks = crate::text::split_ws_str(lines[i].as_str());
            proof {
                assert(lviews.skip(i as int)[0] == lviews[i as int]);
                assert(lviews[i as int] == lines@[i as int]@);
                assert(lviews.skip(i as int).skip(1) =~= lviews.skip(i as int + 1));
            }
            if toks.len() == 2 {
                let ghost old_r = r@;
                let v = toks[1].clone();
                let k = toks[0].clone();
                proof {
                    assert(toks@.map_values(|t: String| t@)[0] == toks@[0]@);
                    assert(toks@.map_values(|t: String| t@)[1] == toks@[1]@);
                }
                r.push((k, v));
                proof {
                    assert(pair_views(r@) =~= pair_views(old_r).push((k@, v@)));
                    let ts = split_ws(lviews[i as int]);
                    assert(pair_views(old_r) + (seq![(ts[0], ts[1])] + alias_pairs_of_lines(
                        lviews.skip(i as int + 1),
                    )) =~= pair_views(old_r).push((ts[0], ts[1])) + alias_pairs_of_lines(
                        lviews.skip(i as int + 1),
                    ));
                }
            }
            i = i + 1;
        }
        proof {
            assert(lviews.skip(n as int) =~= Seq::<Seq<char>>::empty());
            assert(pair_views(r@) + alias_pairs_of_lines(lviews.skip(n as int)) =~= pair_views(
                r@,
            ));
        }
        r
    }

    /// Turn a finished script run (no timeout is enforced for these)
    /// into its trimmed-or-failed reading: the shared failure shape.
    fn script_failure(&self, script_name: &str, outcome: &ScriptOutcome) -> (r: Error)
        ensures
            r matches Error::ScriptFailed { plugin, script, exit_code, stderr_tail } && plugin@
                == self.name@ && script@ == script_name@ && exit_code == outcome.exit_code
                && stderr_tail@ == spec_trim(outcome.stderr@),
    {
        Error::ScriptFailed {
            plugin: self.name.clone(),
            script: script_name.to_owned(),
            exit_code: outcome.exit_code,
            stderr_tail: crate::text::trim_str(outcome.stderr.as_str()),
        }
    }

    /// Turn a finished `latest-stable` invocation into its result: the
    /// trimmed stdout, `None` when that is empty.
    pub fn fetch_latest_stable(&self, outcome: &ScriptOutcome) -> (r: Result<Option<String>, Error>)
        requires
            !outcome.timed_out,
        ensures
            !outcome.spec_success() ==> (r matches Err(
                Error::ScriptFailed { plugin, script, exit_code, stderr_tail },
            ) && plugin@ == self.name@ && script@ == "latest-stable"@ && exit_code
                == outcome.exit_code && stderr_tail@ == spec_trim(outcome.stderr@)),
            outcome.spec_success() && spec_trim(outcome.stdout@).len() == 0 ==> (r matches Ok(o)
                && o is None),
            outcome.spec_success() && spec_trim(outcome.stdout@).len() > 0 ==> (r matches Ok(o)
                && o matches Some(v) && v@ == spec_trim(outcome.stdout@)),
    {
        if !outcome.success() {
            return Err(self.script_failure("latest-stable", outcome));
        }
        let t = crate::text::trim_str(outcome.stdout.as_str());
        if t.as_str().unicode_len() == 0 {
            Ok(None)
        } else {
            Ok(Some(t))
        }
    }

    /// Turn a finished `list-legacy-filenames` invocation into the
    /// filename list.
    pub fn fetch_legacy_filenames(&self, outcome: &ScriptOutcome) -> (r: Result<Vec<String>, Error>)
        requires
            !outcome.timed_out,
        ensures
            !outcome.spec_success() ==> (r matches Err(
                Error::ScriptFailed { plugin, script, exit_code, stderr_tail },
            ) && plugin@ == self.name@ && script@ == "list-legacy-filenames"@ && exit_code
                == outcome.exit_code && stderr_tail@ == spec_trim(outcome.stderr@)),
            outcome.spec_success() ==> (r matches Ok(fs2) && seq_views(fs2@) == split_ws(
                outcome.stdout@,
            )),
    {
        if !outcome.success() {
            return Err(self.script_failure("list-legacy-filenames", outcome));
        }
        Ok(self.parse_legacy_filenames(outcome.stdout.as_str()))
    }

    /// The per-tool-version script manager: the plugin-wide manager
    /// with the tool options, the project root and the install paths
    /// layered on top, `ASDF_*` aliases included. Never composed for a
    /// `System` version.
    pub fn script_man_for_tv(&self, project_root: Option<&String>, tv: &ToolVersion) -> (r:
        ScriptManager)
        requires
            !tv.is_system(),
        ensures
            r.plugin_path@ == self.script_man.plugin_path@,
            r.env_map() == spec_tv_env(
                self.script_man.env_map(),
                match project_root {
                    Some(p) => Some(p@),
                    None => None,
                },
                *tv,
            ),
    {
        let ghost base = self.script_man.env_map();
        let mut sm = self.script_man.duplicate();
        let n = tv.opts.len();
        let mut i: usize = 0;
        proof {
            assert(tv.opts@.take(0) =~= Seq::<(String, String)>::empty());
        }
        while i < n
            invariant
                n == tv.opts@.len(),
                i <= n,
                sm.plugin_path@ == self.script_man.plugin_path@,
                sm.env_map() == with_opts(base, tv.opts@.take(i as int)),
                base == self.script_man.env_map(),
            decreases n - i,
        {
            let opt = &tv.opts[i];
            let upper = crate::text::upper_str(opt.0.as_str());
            let k = crate::text::concat_str("RTX_TOOL_OPTS__", upper.as_str());
            sm = sm.with_env(k, opt.1.clone());
            proof {
                assert(tv.opts@.take(i as int + 1).drop_last() =~= tv.opts@.take(i as int));
                assert(tv.opts@.take(i as int + 1).last() == tv.opts@[i as int]);
            }
            i = i + 1;
        }
        proof {
            assert(tv.opts@.take(n as int) =~= tv.opts@);
        }
        match project_root {
            Some(p) => {
                sm = sm.with_env("RTX_PROJECT_ROOT".to_owned(), p.clone());
            },
            None => {},
        }
        let install_path = tv.install_path();
        let download_path = tv.download_path();
        let install_type = tv.install_type();
        let install_version = tv.install_version_value();
        let sm = sm.with_env("RTX_INSTALL_PATH".to_owned(), install_path.clone());
        let sm = sm.with_env("ASDF_INSTALL_PATH".to_owned(), install_path);
        let sm = sm.with_env("RTX_DOWNLOAD_PATH".to_owned(), download_path.clone());
        let sm = sm.with_env("ASDF_DOWNLOAD_PATH".to_owned(), download_path);
        let sm = sm.with_env("RTX_INSTALL_TYPE".to_owned(), install_type.clone());
        let sm = sm.with_env("ASDF_INSTALL_TYPE".to_owned(), install_type);
        let sm = sm.with_env("RTX_INSTALL_VERSION".to_owned(), install_version.clone());
        let sm = sm.with_env("ASDF_INSTALL_VERSION".to_owned(), install_version);
        sm
    }

    /// Where the bin paths of `tv` come from: nowhere for `System`,
    /// the `list-bin-paths` script when the plugin has one, else the
    /// single default `bin` directory.
    pub fn bin_paths_source(&self, fs: &FsModel, tv: &ToolVersion) -> (r: BinPathsSource)
        ensures
            tv.is_system() ==> r == BinPathsSource::SystemEmpty,
            !tv.is_system() && fs.spec_exists(
                spec_script_path(self.script_man.plugin_path@, Script::ListBinPaths),
            ) ==> r == BinPathsSource::RunScript,
            !tv.is_system() && !fs.spec_exists(
                spec_script_path(self.script_man.plugin_path@, Script::ListBinPaths),
            ) ==> r == BinPathsSource::DefaultBin,
    {
        match &tv.request {
            crate::toolversion::ToolVersionRequest::System(_) => BinPathsSource::SystemEmpty,
            _ => {
                if self.script_man.script_exists(fs, &Script::ListBinPaths) {
                    BinPathsSource::RunScript
                } else {
                    BinPathsSource::DefaultBin
                }
            },
        }
    }

    /// The bin paths a `list-bin-paths` stdout names: each whitespace
    /// token joined onto the version's install path.
    pub fn bin_paths_from_output(&self, tv: &ToolVersion, output: &str) -> (r: Vec<String>)
        ensures
            seq_views(r@) == split_ws(output@).map_values(bin_join(tv.spec_install_path())),
    {
        let ghost f = bin_join(tv.spec_install_path());
        let toks = crate::text::split_ws_str(output);
        let install_path = tv.install_path();
        let mut r: Vec<String> = Vec::new();
        let n = toks.len();
        let mut i: usize = 0;
        proof {
            assert(seq_views(r@) =~= split_ws(output@).take(0).map_values(f));
        }
        while i < n
            invariant
                n == toks@.len(),
                i <= n,
                toks@.map_values(|t: String| t@) == split_ws(output@),
                install_path@ == tv.spec_install_path(),
                f == bin_join(tv.spec_install_path()),
                seq_views(r@) == split_ws(output@).take(i as int).map_values(f),
            decreases n - i,
        {
            let joined = crate::text::concat3_str(install_path.as_str(), "/", toks[i].as_str());
            let ghost old_r = r@;
            r.push(joined);
            proof {
                assert(toks@.map_values(|t: String| t@)[i as int] == toks@[i as int]@);
                assert(seq_views(r@) =~= seq_views(old_r).push(joined@));
                assert(seq_views(r@) =~= split_ws(output@).take(i as int + 1).map_values(f));
            }
            i = i + 1;
        }
        proof {
            assert(split_ws(output@).take(n as int) =~= split_ws(output@));
        }
        r
    }

    /// The default bin paths: the single `bin` directory under the
    /// install path.
    pub fn bin_paths_default(&self, tv: &ToolVersion) -> (r: Vec<String>)
        ensures
            seq_views(r@) == seq![tv.spec_install_path() + "/bin"@],
    {
        let install_path = tv.install_path();
        let p = crate::text::concat_str(install_path.as_str(), "/bin");
        let mut r: Vec<String> = Vec::new();
        r.push(p);
        proof {
            assert(seq_views(r@) =~= seq![tv.spec_install_path() + "/bin"@]);
        }
        r
    }

    /// The bin paths of a tool version: none for `System`; the joined
    /// tokens of the script's stdout where the plugin has
    /// `list-bin-paths` (callers hand that stdout in, and may hand
    /// anything when the script does not run — it is ignored); the
    /// single default `bin` otherwise.
    pub fn list_bin_paths(&self, fs: &FsModel, tv: &ToolVersion, script_stdout: &str) -> (r: Vec<
        String,
    >)
        ensures
            tv.is_system() ==> r@.len() == 0,
            !tv.is_system() && fs.spec_exists(
                spec_script_path(self.script_man.plugin_path@, Script::ListBinPaths),
            ) ==> seq_views(r@) == split_ws(script_stdout@).map_values(
                bin_join(tv.spec_install_path()),
            ),
            !tv.is_system() && !fs.spec_exists(
                spec_script_path(self.script_man.plugin_path@, Script::ListBinPaths),
            ) ==> seq_views(r@) == seq![tv.spec_install_path() + "/bin"@],
    {
        match self.bin_paths_source(fs, tv) {
            BinPathsSource::SystemEmpty => Vec::new(),
            BinPathsSource::RunScript => self.bin_paths_from_output(tv, script_stdout),
            BinPathsSource::DefaultBin => self.bin_paths_default(tv),
        }
    }

    /// `exec-env` runs only for a non-`System` version, only when the
    /// plugin has the script, and never from within a plugin script
    /// (the re-entry sentinel breaks the recursion).
    pub fn should_run_exec_env(&self, fs: &FsModel, tv: &ToolVersion, in_script: bool) -> (r: bool)
        ensures
            r == (!tv.is_system() && fs.spec_exists(
                spec_script_path(self.script_man.plugin_path@, Script::ExecEnv),
            ) && !in_script),
    {
        let system = match &tv.request {
            crate::toolversion::ToolVersionRequest::System(_) => true,
            _ => false,
        };
        !system && self.script_man.script_exists(fs, &Script::ExecEnv) && !in_script
    }

    /// The environment `exec-env` grants a version: empty for `System`,
    /// a missing script or a nested invocation; otherwise the variables
    /// the sourced script added or changed against the pre-invocation
    /// dump.
    pub fn exec_env(
        &self,
        fs: &FsModel,
        tv: &ToolVersion,
        in_script: bool,
        pre: &Vec<(String, String)>,
        post: &Vec<(String, String)>,
    ) -> (r: Vec<(String, String)>)
        ensures
            !(!tv.is_system() && fs.spec_exists(
                spec_script_path(self.script_man.plugin_path@, Script::ExecEnv),
            ) && !in_script) ==> r@ == Seq::<(String, String)>::empty(),
            (!tv.is_system() && fs.spec_exists(
                spec_script_path(self.script_man.plugin_path@, Script::ExecEnv),
            ) && !in_script) ==> r@ == crate::envdiff::spec_env_diff(pre@, post@),
    {
        if !self.should_run_exec_env(fs, tv, in_script) {
            let r: Vec<(String, String)> = Vec::new();
            proof {
                assert(r@ =~= Seq::<(String, String)>::empty());
            }
            return r;
        }
        crate::envdiff::env_diff_added_changed(pre, post)
    }

    /// The path of the per-file legacy cache entry: keyed by the hash
    /// of the legacy file's path.
    pub fn legacy_cache_file_path(&self, legacy_file: &str) -> (r: String)
        ensures
            r@ == self.spec_legacy_cache_path(legacy_file@),
    {
        let h = crate::hashstr::hash_to_str(legacy_file);
        let a = crate::text::concat3_str(self.cache_path.as_str(), "/legacy/", self.name.as_str());
        let b = crate::text::concat3_str(a.as_str(), "/", h.as_str());
        crate::text::concat_str(b.as_str(), ".txt")
    }

    /// Where the cached parse of a legacy file lives.
    pub open spec fn spec_legacy_cache_path(self, legacy_file: Seq<char>) -> Seq<char> {
        self.cache_path@ + "/legacy/"@ + self.name@ + "/"@ + crate::hashstr::spec_hash_to_str(
            legacy_file,
        ) + ".txt"@
    }

    /// The cached parse of a legacy file: a hit exactly when the cache
    /// entry exists and is no older than the legacy file.
    pub fn fetch_cached_legacy_file(&self, fs: &FsModel, legacy_file: &str) -> (r: Option<String>)
        requires
            fs.has_file(legacy_file@),
        ensures
            match r {
                Some(v) => fs.has_file(self.spec_legacy_cache_path(legacy_file@)) && fs.file_mtime(
                    self.spec_legacy_cache_path(legacy_file@),
                ) >= fs.file_mtime(legacy_file@) && v@ == spec_trim(
                    fs.file_content(self.spec_legacy_cache_path(legacy_file@)),
                ),
                None => !(fs.has_file(self.spec_legacy_cache_path(legacy_file@)) && fs.file_mtime(
                    self.spec_legacy_cache_path(legacy_file@),
                ) >= fs.file_mtime(legacy_file@)),
            },
    {
        let fp = self.legacy_cache_file_path(legacy_file);
        let legacy_mtime = match fs.lookup(legacy_file) {
            Some((m, _)) => m,
            None => {
                return None;
            },
        };
        match fs.lookup(fp.as_str()) {
            Some((m, content)) => {
                if m >= legacy_mtime {
                    Some(crate::text::trim_str(content.as_str()))
                } else {
                    None
                }
            },
            None => None,
        }
    }

    /// Write the parsed version of a legacy file through the cache.
    pub fn write_legacy_cache(
        &self,
        fs: &mut FsModel,
        legacy_file: &str,
        legacy_version: &str,
        now: u64,
    )
        ensures
            final(fs).files() == old(fs).files().insert(
                self.spec_legacy_cache_path(legacy_file@),
                FsFile { mtime: now, content: legacy_version@ },
            ),
    {
        let fp = self.legacy_cache_file_path(legacy_file);
        fs.write(fp.as_str(), legacy_version, now);
    }

    /// How to parse a legacy file: the cached value when it is current,
    /// else the plugin's `parse-legacy-file` script when it has one,
    /// else the file's own content.
    pub fn parse_legacy_file_plan(&self, fs: &FsModel, legacy_file: &str) -> (r: LegacyFilePlan)
        requires
            fs.has_file(legacy_file@),
        ensures
            (fs.has_file(self.spec_legacy_cache_path(legacy_file@)) && fs.file_mtime(
                self.spec_legacy_cache_path(legacy_file@),
            ) >= fs.file_mtime(legacy_file@)) ==> (r matches LegacyFilePlan::Cached(v) && v@
                == spec_trim(fs.file_content(self.spec_legacy_cache_path(legacy_file@)))),
            !(fs.has_file(self.spec_legacy_cache_path(legacy_file@)) && fs.file_mtime(
                self.spec_legacy_cache_path(legacy_file@),
            ) >= fs.file_mtime(legacy_file@)) && fs.spec_exists(
                crate::script::spec_script_file_path(
                    self.script_man.plugin_path@,
                    "parse-legacy-file"@,
                ),
            ) ==> r is RunScript,
            !(fs.has_file(self.spec_legacy_cache_path(legacy_file@)) && fs.file_mtime(
                self.spec_legacy_cache_path(legacy_file@),
            ) >= fs.file_mtime(legacy_file@)) && !fs.spec_exists(
                crate::script::spec_script_file_path(
                    self.script_man.plugin_path@,
                    "parse-legacy-file"@,
                ),
            ) ==> r is ReadFile,
    {
        match self.fetch_cached_legacy_file(fs, legacy_file) {
            Some(v) => LegacyFilePlan::Cached(v),
            None => {
                let script = Script::ParseLegacyFile(legacy_file.to_owned());
                if self.script_man.script_exists(fs, &script) {
                    LegacyFilePlan::RunScript
                } else {
                    LegacyFilePlan::ReadFile
                }
            },
        }
    }

    /// Finish parsing a legacy file: trim what the script printed (or
    /// the file held), write it through the cache, return it.
    pub fn parse_legacy_file_finish(
        &self,
        fs: &mut FsModel,
        legacy_file: &str,
        raw: &str,
        now: u64,
    ) -> (r: String)
        ensures
            r@ == spec_trim(raw@),
            final(fs).files() == old(fs).files().insert(
                self.spec_legacy_cache_path(legacy_file@),
                FsFile { mtime: now, content: spec_trim(raw@) },
            ),
    {
        let v = crate::text::trim_str(raw);
        self.write_legacy_cache(fs, legacy_file, v.as_str(), now);
        v
    }

    /// Remove the plugin's clone; nothing else (installs, downloads and
    /// caches stay). Succeeds also when nothing is installed.
    pub fn uninstall(&self, fs: &mut FsModel) -> (r: Result<(), Error>)
        ensures
            r is Ok,
            final(fs).files() == remove_under(old(fs).files(), self.plugin_path@),
            !final(fs).spec_exists(self.plugin_path@),
    {
        if !fs.path_exists(self.plugin_path.as_str()) {
            proof {
                assert forall|q: Seq<char>| remove_under(
                    fs.files(),
                    self.plugin_path@,
                ).dom().contains(q) == fs.files().dom().contains(q) by {
                    if fs.files().dom().contains(q) {
                        assert(!crate::fsmodel::under(q, self.plugin_path@));
                    }
                }
                assert(remove_under(fs.files(), self.plugin_path@) =~= fs.files());
            }
            return Ok(());
        }
        fs.remove_all(self.plugin_path.as_str());
        Ok(())
    }

    /// Whether `uninstall-version` will run the plugin's script: only
    /// when `bin/uninstall` exists.
    pub fn uninstall_version_runs_script(&self, fs: &FsModel) -> (r: bool)
        ensures
            r == fs.spec_exists(spec_script_path(self.script_man.plugin_path@, Script::Uninstall)),
    {
        self.script_man.script_exists(fs, &Script::Uninstall)
    }

    /// The steps of installing a tool version, in order: `download`
    /// runs exactly when the plugin ships `bin/download`, and always
    /// before `install`; the progress message changes before each.
    pub fn install_version_steps(&self, fs: &FsModel, tv: &ToolVersion) -> (steps: Vec<InstallStep>)
        requires
            !tv.is_system(),
        ensures
            fs.spec_exists(spec_script_path(self.script_man.plugin_path@, Script::Download))
                ==> steps@ == seq![
                InstallStep::SetProgressDownloading,
                InstallStep::RunDownloadScript,
                InstallStep::SetProgressInstalling,
                InstallStep::RunInstallScript,
            ],
            !fs.spec_exists(spec_script_path(self.script_man.plugin_path@, Script::Download))
                ==> steps@ == seq![InstallStep::SetProgressInstalling, InstallStep::RunInstallScript],
    {
        let mut steps: Vec<InstallStep> = Vec::new();
        if self.script_man.script_exists(fs, &Script::Download) {
            steps.push(InstallStep::SetProgressDownloading);
            steps.push(InstallStep::RunDownloadScript);
            steps.push(InstallStep::SetProgressInstalling);
            steps.push(InstallStep::RunInstallScript);
            proof {
                assert(steps@ =~= seq![
                    InstallStep::SetProgressDownloading,
                    InstallStep::RunDownloadScript,
                    InstallStep::SetProgressInstalling,
                    InstallStep::RunInstallScript,
                ]);
            }
        } else {
            steps.push(InstallStep::SetProgressInstalling);
            steps.push(InstallStep::RunInstallScript);
            proof {
                assert(steps@ =~= seq![
                    InstallStep::SetProgressInstalling,
                    InstallStep::RunInstallScript,
                ]);
            }
        }
        steps
    }

    /// Turn a finished `list-aliases` invocation into the alias pairs.
    pub fn fetch_aliases(&self, outcome: &ScriptOutcome) -> (r: Result<Vec<(String, String)>, Error>)
        requires
            !outcome.timed_out,
        ensures
            !outcome.spec_success() ==> (r matches Err(
                Error::ScriptFailed { plugin, script, exit_code, stderr_tail },
            ) && plugin@ == self.name@ && script@ == "list-aliases"@ && exit_code
                == outcome.exit_code && stderr_tail@ == spec_trim(outcome.stderr@)),
            outcome.spec_success() ==> (r matches Ok(ps) && pair_views(ps@) == spec_parse_aliases(
                outcome.stdout@,
            )),
    {
        if !outcome.success() {
            return Err(self.script_failure("list-aliases", outcome));
        }
        Ok(self.parse_aliases(outcome.stdout.as_str()))
    }

    /// The remote version cache's answer, when it is fresh and holds a
    /// version list. `None` means the caller must run `list-all` and
    /// store the result; a hit needs no invocation.
    pub fn list_remote_versions_cached(&self, fs: &FsModel, now: u64) -> (r: Option<Vec<String>>)
        ensures
            match r {
                Some(vs) => self.remote_version_cache.spec_lookup(*fs, now) == Some(
                    SpecCacheValue::RemoteVersions(seq_views(vs@)),
                ),
                None => !(self.remote_version_cache.spec_lookup(*fs, now) matches Some(
                    SpecCacheValue::RemoteVersions(_),
                )),
            },
    {
        match self.remote_version_cache.lookup_value(fs, now) {
            Some(CacheValue::RemoteVersions(vs)) => Some(vs),
            _ => None,
        }
    }

    /// Turn a finished `list-all` run into the version list and store
    /// it through the cache; a failure stores nothing.
    pub fn list_remote_versions_fetch_store(
        &self,
        fs: &mut FsModel,
        outcome: &ScriptOutcome,
        now: u64,
    ) -> (r: Result<Vec<String>, Error>)
        ensures
            outcome.spec_success() ==> (r matches Ok(vs) && seq_views(vs@) == split_ws(
                outcome.stdout@,
            ) && final(fs).files() == old(fs).files().insert(
                self.remote_version_cache.path@,
                FsFile {
                    mtime: now,
                    content: crate::codec::spec_encode(
                        SpecCacheValue::RemoteVersions(split_ws(outcome.stdout@)),
                    ),
                },
            )),
            !outcome.spec_success() ==> final(fs).files() == old(fs).files(),
            outcome.timed_out ==> (r matches Err(Error::ScriptTimeout { plugin, script })
                && plugin@ == self.name@ && script@ == "list-all"@),
            !outcome.timed_out && !outcome.spec_success() ==> (r matches Err(
                Error::ScriptFailed { plugin, script, exit_code, stderr_tail },
            ) && plugin@ == self.name@ && script@ == "list-all"@ && exit_code == outcome.exit_code
                && stderr_tail@ == spec_trim(outcome.stderr@)),
    {
        match self.fetch_remote_versions(outcome) {
            Err(e) => Err(e),
            Ok(vs) => {
                let cv = CacheValue::RemoteVersions(vs);
                self.remote_version_cache.store(fs, &cv, now);
                match cv {
                    CacheValue::RemoteVersions(vs) => Ok(vs),
                    _ => Ok(Vec::new()),
                }
            },
        }
    }

    /// The latest-stable cache's answer: `Some(None)` outright when the
    /// plugin has no `latest-stable` script; a fresh stored answer
    /// otherwise; outer `None` when the script must run.
    pub fn latest_stable_version_cached(&self, fs: &FsModel, now: u64) -> (r: Option<
        Option<String>,
    >)
        ensures
            !fs.spec_exists(spec_script_path(self.script_man.plugin_path@, Script::LatestStable))
                ==> (r matches Some(o) && o is None),
            fs.spec_exists(spec_script_path(self.script_man.plugin_path@, Script::LatestStable))
                ==> match r {
                Some(o) => self.latest_stable_cache.spec_lookup(*fs, now) == Some(
                    SpecCacheValue::LatestStable(
                        match o {
                            Some(s) => Some(s@),
                            None => None,
                        },
                    ),
                ),
                None => !(self.latest_stable_cache.spec_lookup(*fs, now) matches Some(
                    SpecCacheValue::LatestStable(_),
                )),
            },
    {
        if !self.has_latest_stable_script(fs) {
            return Some(None);
        }
        match self.latest_stable_cache.lookup_value(fs, now) {
            Some(CacheValue::LatestStable(o)) => Some(o),
            _ => None,
        }
    }

    /// Turn a finished `latest-stable` run into its answer and store it.
    pub fn latest_stable_fetch_store(
        &self,
        fs: &mut FsModel,
        outcome: &ScriptOutcome,
        now: u64,
    ) -> (r: Result<Option<String>, Error>)
        requires
            !outcome.timed_out,
        ensures
            outcome.spec_success() ==> (r matches Ok(o) && (match o {
                Some(v) => spec_trim(outcome.stdout@).len() > 0 && v@ == spec_trim(
                    outcome.stdout@,
                ),
                None => spec_trim(outcome.stdout@).len() == 0,
            }) && final(fs).files() == old(fs).files().insert(
                self.latest_stable_cache.path@,
                FsFile {
                    mtime: now,
                    content: crate::codec::spec_encode(
                        SpecCacheValue::LatestStable(
                            if spec_trim(outcome.stdout@).len() == 0 {
                                None
                            } else {
                                Some(spec_trim(outcome.stdout@))
                            },
                        ),
                    ),
                },
            )),
            !outcome.spec_success() ==> (final(fs).files() == old(fs).files() && (r matches Err(
                Error::ScriptFailed { plugin, script, exit_code, stderr_tail },
            ) && plugin@ == self.name@ && script@ == "latest-stable"@ && exit_code
                == outcome.exit_code && stderr_tail@ == spec_trim(outcome.stderr@))),
    {
        match self.fetch_latest_stable(outcome) {
            Err(e) => Err(e),
            Ok(o) => {
                let cv = CacheValue::LatestStable(o);
                self.latest_stable_cache.store(fs, &cv, now);
                match cv {
                    CacheValue::LatestStable(o) => Ok(o),
                    _ => Ok(None),
                }
            },
        }
    }

    /// The aliases without running anything: the manifest's data when
    /// it has any (the manifest wins over the script), the empty list
    /// when the plugin has no `list-aliases` script, the fresh cached
    /// pairs otherwise. Outer `None` when the script must run.
    pub fn get_aliases_cached(&self, fs: &FsModel, now: u64) -> (r: Option<Vec<(String, String)>>)
        ensures
            self.toml.list_aliases_data matches Some(d) ==> (r matches Some(ps) && pair_views(ps@)
                == spec_parse_aliases(d@)),
            self.toml.list_aliases_data is None && !fs.spec_exists(
                spec_script_path(self.script_man.plugin_path@, Script::ListAliases),
            ) ==> (r matches Some(ps) && ps@.len() == 0),
            self.toml.list_aliases_data is None && fs.spec_exists(
                spec_script_path(self.script_man.plugin_path@, Script::ListAliases),
            ) ==> match r {
                Some(ps) => self.alias_cache.spec_lookup(*fs, now) == Some(
                    SpecCacheValue::Aliases(pair_views(ps@)),
                ),
                None => !(self.alias_cache.spec_lookup(*fs, now) matches Some(
                    SpecCacheValue::Aliases(_),
                )),
            },
    {
        match &self.toml.list_aliases_data {
            Some(d) => {
                return Some(self.parse_aliases(d.as_str()));
            },
            None => {},
        }
        if !self.has_list_alias_script(fs) {
            return Some(Vec::new());
        }
        match self.alias_cache.lookup_value(fs, now) {
            Some(CacheValue::Aliases(ps)) => Some(ps),
            _ => None,
        }
    }

    /// Turn a finished `list-aliases` run into the pairs and store them.
    pub fn get_aliases_fetch_store(
        &self,
        fs: &mut FsModel,
        outcome: &ScriptOutcome,
        now: u64,
    ) -> (r: Result<Vec<(String, String)>, Error>)
        requires
            !outcome.timed_out,
        ensures
            outcome.spec_success() ==> (r matches Ok(ps) && pair_views(ps@) == spec_parse_aliases(
                outcome.stdout@,
            ) && final(fs).files() == old(fs).files().insert(
                self.alias_cache.path@,
                FsFile {
                    mtime: now,
                    content: crate::codec::spec_encode(
                        SpecCacheValue::Aliases(spec_parse_aliases(outcome.stdout@)),
                    ),
                },
            )),
            !outcome.spec_success() ==> (final(fs).files() == old(fs).files() && (r matches Err(
                Error::ScriptFailed { plugin, script, exit_code, stderr_tail },
            ) && plugin@ == self.name@ && script@ == "list-aliases"@ && exit_code
                == outcome.exit_code && stderr_tail@ == spec_trim(outcome.stderr@))),
    {
        match self.fetch_aliases(outcome) {
            Err(e) => Err(e),
            Ok(ps) => {
                let cv = CacheValue::Aliases(ps);
                self.alias_cache.store(fs, &cv, now);
                match cv {
                    CacheValue::Aliases(ps) => Ok(ps),
                    _ => Ok(Vec::new()),
                }
            },
        }
    }

    /// The legacy filenames without running anything: manifest first,
    /// empty without the script, else the fresh cached list. Outer
    /// `None` when the script must run.
    pub fn legacy_filenames_cached(&self, fs: &FsModel, now: u64) -> (r: Option<Vec<String>>)
        ensures
            self.toml.list_legacy_filenames_data matches Some(d) ==> (r matches Some(ns)
                && seq_views(ns@) == split_ws(d@)),
            self.toml.list_legacy_filenames_data is None && !fs.spec_exists(
                spec_script_path(self.script_man.plugin_path@, Script::ListLegacyFilenames),
            ) ==> (r matches Some(ns) && ns@.len() == 0),
            self.toml.list_legacy_filenames_data is None && fs.spec_exists(
                spec_script_path(self.script_man.plugin_path@, Script::ListLegacyFilenames),
            ) ==> match r {
                Some(ns) => self.legacy_filename_cache.spec_lookup(*fs, now) == Some(
                    SpecCacheValue::LegacyFilenames(seq_views(ns@)),
                ),
                None => !(self.legacy_filename_cache.spec_lookup(*fs, now) matches Some(
                    SpecCacheValue::LegacyFilenames(_),
                )),
            },
    {
        match &self.toml.list_legacy_filenames_data {
            Some(d) => {
                return Some(self.parse_legacy_filenames(d.as_str()));
            },
            None => {},
        }
        if !self.has_list_legacy_filenames_script(fs) {
            return Some(Vec::new());
        }
        match self.legacy_filename_cache.lookup_value(fs, now) {
            Some(CacheValue::LegacyFilenames(ns)) => Some(ns),
            _ => None,
        }
    }

    /// Turn a finished `list-legacy-filenames` run into the list and
    /// store it.
    pub fn legacy_filenames_fetch_store(
        &self,
        fs: &mut FsModel,
        outcome: &ScriptOutcome,
        now: u64,
    ) -> (r: Result<Vec<String>, Error>)
        requires
            !outcome.timed_out,
        ensures
            outcome.spec_success() ==> (r matches Ok(ns) && seq_views(ns@) == split_ws(
                outcome.stdout@,
            ) && final(fs).files() == old(fs).files().insert(
                self.legacy_filename_cache.path@,
                FsFile {
                    mtime: now,
                    content: crate::codec::spec_encode(
                        SpecCacheValue::LegacyFilenames(split_ws(outcome.stdout@)),
                    ),
                },
            )),
            !outcome.spec_success() ==> (final(fs).files() == old(fs).files() && (r matches Err(
                Error::ScriptFailed { plugin, script, exit_code, stderr_tail },
            ) && plugin@ == self.name@ && script@ == "list-legacy-filenames"@ && exit_code
                == outcome.exit_code && stderr_tail@ == spec_trim(outcome.stderr@))),
    {
        match self.fetch_legacy_filenames(outcome) {
            Err(e) => Err(e),
            Ok(ns) => {
                let cv = CacheValue::LegacyFilenames(ns);
                self.legacy_filename_cache.store(fs, &cv, now);
                match cv {
                    CacheValue::LegacyFilenames(ns) => Ok(ns),
                    _ => Ok(Vec::new()),
                }
            },
        }
    }

    /// The resolved repository spec: override, else registry.
    pub open spec fn spec_repo_url(self, registry_url: Option<Seq<char>>) -> Option<Seq<char>> {
        match self.repo_url {
            Some(u) => Some(u@),
            None => registry_url,
        }
    }

    /// What `ensure_installed` does: nothing when installed and not
    /// forced; a confirmation step for a community-registry URL when
    /// neither forced, auto-confirmed, nor overridden; else install.
    pub fn ensure_installed_plan(
        &self,
        fs: &FsModel,
        registry_url: Option<&String>,
        yes: bool,
        force: bool,
    ) -> (r: Result<EnsurePlan, Error>)
        ensures
            !force && fs.spec_exists(self.plugin_path@) ==> (r matches Ok(p)
                && p is AlreadyInstalled),
            !force && !fs.spec_exists(self.plugin_path@) && !yes && self.repo_url is None
                ==> match registry_url {
                Some(u) => r matches Ok(EnsurePlan::Confirm(c)) && c@ == u@,
                None => r matches Err(Error::NoRepoUrl { plugin }) && plugin@ == self.name@,
            },
            force ==> (r matches Ok(p) && p is Install),
            !force && !fs.spec_exists(self.plugin_path@) && (yes || self.repo_url is Some) ==> (
            r matches Ok(p) && p is Install),
    {
        if !force {
            if self.is_installed(fs) {
                return Ok(EnsurePlan::AlreadyInstalled);
            }
            if !yes && self.repo_url.is_none() {
                match self.get_repo_url(registry_url) {
                    Ok(url) => {
                        return Ok(EnsurePlan::Confirm(url));
                    },
                    Err(e) => {
                        return Err(e);
                    },
                }
            }
        }
        Ok(EnsurePlan::Install)
    }

    /// The error a declined confirmation maps to.
    pub fn decline_error(&self) -> (r: Error)
        ensures
            r matches Error::PluginNotInstalled { plugin } && plugin@ == self.name@,
    {
        Error::PluginNotInstalled { plugin: self.name.clone() }
    }

    /// The decisions of a plugin install: what to clone (the resolved
    /// spec split at `#`), whether an earlier clone goes first.
    pub fn install_plan(&self, fs: &FsModel, registry_url: Option<&String>) -> (r: Result<
        InstallPlan,
        Error,
    >)
        ensures
            self.spec_repo_url(
                match registry_url {
                    Some(u) => Some(u@),
                    None => None,
                },
            ) is None ==> (r matches Err(Error::NoRepoUrl { plugin }) && plugin@ == self.name@),
            self.spec_repo_url(
                match registry_url {
                    Some(u) => Some(u@),
                    None => None,
                },
            ) matches Some(spec) ==> (r matches Ok(p) && p.uninstall_first == fs.spec_exists(
                self.plugin_path@,
            ) && p.clone_url@ == crate::git::spec_split_url_and_ref(spec).0 && (match p.checkout_ref {
                Some(rf) => crate::git::spec_split_url_and_ref(spec).1 == Some(rf@),
                None => crate::git::spec_split_url_and_ref(spec).1 is None,
            })),
    {
        let repository = match self.get_repo_url(registry_url) {
            Ok(u) => u,
            Err(e) => {
                return Err(e);
            },
        };
        let (clone_url, checkout_ref) = crate::git::split_url_and_ref(repository.as_str());
        let uninstall_first = self.is_installed(fs);
        Ok(InstallPlan { uninstall_first, clone_url, checkout_ref })
    }

    /// Which caches to warm right after the clone: each query runs
    /// only where its script exists, in the order remote versions,
    /// aliases, legacy filenames.
    pub fn post_install_warm_plan(&self, fs: &FsModel) -> (r: WarmPlan)
        ensures
            r.list_remote_versions == fs.spec_exists(
                spec_script_path(self.script_man.plugin_path@, Script::ListAll),
            ),
            r.aliases == fs.spec_exists(
                spec_script_path(self.script_man.plugin_path@, Script::ListAliases),
            ),
            r.legacy_filenames == fs.spec_exists(
                spec_script_path(self.script_man.plugin_path@, Script::ListLegacyFilenames),
            ),
    {
        WarmPlan {
            list_remote_versions: self.has_list_all_script(fs),
            aliases: self.has_list_alias_script(fs),
            legacy_filenames: self.has_list_legacy_filenames_script(fs),
        }
    }

    /// The message an install finishes with: `URL#<short-sha>`.
    pub fn install_finish_message(&self, url: &str, sha: &str) -> (r: String)
        ensures
            r@ == url@ + "#"@ + sha@,
    {
        crate::text::concat3_str(url, "#", sha)
    }

    /// What `update` does with the clone: skip (with a warning) a
    /// symlinked or non-git plugin, else run git's update.
    pub fn update_plan(&self, is_symlink: bool, is_repo: bool) -> (r: UpdatePlan)
        ensures
            is_symlink ==> r == UpdatePlan::SkipSymlink,
            !is_symlink && !is_repo ==> r == UpdatePlan::SkipNotRepo,
            !is_symlink && is_repo ==> r == UpdatePlan::Run,
    {
        if is_symlink {
            UpdatePlan::SkipSymlink
        } else if !is_repo {
            UpdatePlan::SkipNotRepo
        } else {
            UpdatePlan::Run
        }
    }

    /// The plugin's remote URL: what git reports, else the override.
    pub fn get_remote_url(&self, git_url: Option<String>) -> (r: Option<String>)
        ensures
            git_url matches Some(u) ==> (r matches Some(v) && v@ == u@),
            git_url is None ==> match self.repo_url {
                Some(u) => r matches Some(v) && v@ == u@,
                None => r is None,
            },
    {
        match git_url {
            Some(u) => Some(u),
            None => self.repo_url.clone(),
        }
    }

    /// The subcommands the plugin's `lib/commands` directory offers:
    /// each `command-<name>[-<sub>]*.bash` file, split at hyphens. A
    /// plugin that is not installed offers none, and so does `direnv`
    /// (its commands clash with built-in functionality).
    pub fn external_commands(&self, fs: &FsModel, files: &Vec<String>) -> (r: Vec<Vec<String>>)
        ensures
            !fs.spec_exists(self.plugin_path@) || self.name@ == "direnv"@ ==> r@.len() == 0,
            fs.spec_exists(self.plugin_path@) && self.name@ != "direnv"@ ==> r@.map_values(
                |c: Vec<String>| seq_views(c@),
            ) == commands_of(seq_views(files@)),
    {
        if !self.is_installed(fs) || crate::text::str_eq(self.name.as_str(), "direnv") {
            return Vec::new();
        }
        let ghost fviews = seq_views(files@);
        let mut r: Vec<Vec<String>> = Vec::new();
        let n = files.len();
        let mut i: usize = 0;
        proof {
            assert(fviews.skip(0) =~= fviews);
            assert(r@.map_values(|c: Vec<String>| seq_views(c@)) =~= Seq::<
                Seq<Seq<char>>,
            >::empty());
        }
        while i < n
            invariant
                n == files@.len(),
                i <= n,
                fviews == seq_views(files@),
                commands_of(fviews) == r@.map_values(|c: Vec<String>| seq_views(c@))
                    + commands_of(fviews.skip(i as int)),
            decreases n - i,
        {
            let f = &files[i];
            proof {
                assert(fviews.skip(i as int)[0] == fviews[i as int]);
                assert(fviews[i as int] == files@[i as int]@);
                assert(fviews.skip(i as int).skip(1) =~= fviews.skip(i as int + 1));
                reveal_strlit("command-");
                reveal_strlit(".bash");
            }
            let flen = f.as_str().unicode_len();
            if crate::text::str_starts_with(f.as_str(), "command-") && crate::text::str_ends_with(
                f.as_str(),
                ".bash",
            ) && flen >= 13 {
                let mid = f.as_str().substring_char(8, flen - 5);
                let midc = crate::text::to_chars(mid);
                let parts = crate::text::split_on_exec(&midc, '-');
                let ghost old_r = r@;
                r.push(parts);
                proof {
                    let fv = fviews[i as int];
                    assert(spec_command_parts(fv) == Some(
                        split_on(fv.subrange(8, fv.len() - 5), '-'),
                    ));
                    assert(r@.map_values(|c: Vec<String>| seq_views(c@)) =~= old_r.map_values(
                        |c: Vec<String>| seq_views(c@),
                    ).push(seq_views(parts@)));
                    assert(old_r.map_values(|c: Vec<String>| seq_views(c@)) + (seq![
                        seq_views(parts@),
                    ] + commands_of(fviews.skip(i as int + 1))) =~= old_r.map_values(
                        |c: Vec<String>| seq_views(c@),
                    ).push(seq_views(parts@)) + commands_of(fviews.skip(i as int + 1)));
                }
            } else {
                proof {
                    let fv = fviews[i as int];
                    assert(spec_command_parts(fv) is None);
                }
            }
            i = i + 1;
        }
        proof {
            assert(fviews.skip(n as int) =~= Seq::<Seq<char>>::empty());
            assert(r@.map_values(|c: Vec<String>| seq_views(c@)) + commands_of(
                fviews.skip(n as int),
            ) =~= r@.map_values(|c: Vec<String>| seq_views(c@)));
        }
        r
    }

    /// The invocation of one external command: its script under
    /// `lib/commands`, with the captured arguments. Requires the
    /// plugin to be installed.
    pub fn external_command_script(&self, fs: &FsModel, command: &str, args: Vec<String>) -> (r:
        Result<Script, Error>)
        ensures
            !fs.spec_exists(self.plugin_path@) ==> (r matches Err(
                Error::PluginNotInstalled { plugin },
            ) && plugin@ == self.name@),
            fs.spec_exists(self.plugin_path@) ==> (r matches Ok(
                Script::RunExternalCommand(p, a),
            ) && p@ == self.plugin_path@ + "/lib/commands/command-"@ + command@ + ".bash"@ && a@
                == args@),
    {
        if !self.is_installed(fs) {
            return Err(Error::PluginNotInstalled { plugin: self.name.clone() });
        }
        let a = crate::text::concat3_str(
            self.plugin_path.as_str(),
            "/lib/commands/command-",
            command,
        );
        let p = crate::text::concat_str(a.as_str(), ".bash");
        Ok(Script::RunExternalCommand(p, args))
    }
}

/// The kind of a plugin: dispatch between the core tools built into
/// the manager and the external, git-cloned ones happens on this tag.
#[derive(Debug, PartialEq, Eq, Structural)]
pub enum PluginType {
    External,
    Core,
}

impl ExternalPlugin {
    /// The plugin's name; equality and hashing go by it alone.
    pub fn name(&self) -> (r: &String)
        ensures
            r@ == self.name@,
    {
        &self.name
    }

    pub fn get_type(&self) -> (r: PluginType)
        ensures
            r == PluginType::External,
    {
        PluginType::External
    }
}

impl PartialEq for ExternalPlugin {
    /// Two plugins are the same plugin exactly when their names match.
    fn eq(&self, other: &ExternalPlugin) -> (r: bool) {
        self.name == other.name
    }
}

impl vstd::std_specs::cmp::PartialEqSpecImpl for ExternalPlugin {
    open spec fn obeys_eq_spec() -> bool {
        true
    }

    open spec fn eq_spec(&self, other: &ExternalPlugin) -> bool {
        self.name@ == other.name@
    }
}

/// The parts of an external command file name: `command-<tail>.bash`
/// yields the hyphen-split tail; any other name is no command.
pub open spec fn spec_command_parts(f: Seq<char>) -> Option<Seq<Seq<char>>> {
    if crate::text::starts_with(f, "command-"@) && crate::text::ends_with(f, ".bash"@) && f.len()
        >= 13 {
        Some(split_on(f.subrange(8, f.len() - 5), '-'))
    } else {
        None
    }
}

/// The commands of a `lib/commands` directory listing, in order.
pub open spec fn commands_of(files: Seq<Seq<char>>) -> Seq<Seq<Seq<char>>>
    decreases files.len(),
{
    if files.len() == 0 {
        Seq::empty()
    } else {
        let rest = commands_of(files.skip(1));
        match spec_command_parts(files[0]) {
            Some(c) => seq![c] + rest,
            None => rest,
        }
    }
}

/// Uninstalling is idempotent, and an uninstalled plugin is not
/// installed: a second uninstall changes nothing.
pub proof fn law_uninstall_idempotent(p: ExternalPlugin, fs0: FsModel, fs1: FsModel, fs2: FsModel)
    requires
        fs1.files() == remove_under(fs0.files(), p.plugin_path@),
        fs2.files() == remove_under(fs1.files(), p.plugin_path@),
    ensures
        fs2.files() == fs1.files(),
        !fs1.spec_exists(p.plugin_path@),
{
    crate::fsmodel::lemma_remove_under_idempotent(fs0.files(), p.plugin_path@);
    if fs1.spec_exists(p.plugin_path@) {
        let q = choose|q: Seq<char>|
            fs1.files().dom().contains(q) && crate::fsmodel::under(q, p.plugin_path@);
        assert(false);
    }
}

/// `install_version` runs `download` exactly when the plugin ships the
/// script, and always before `install`.
pub proof fn law_install_version_download_order(steps: Seq<InstallStep>, has_download: bool)
    requires
        has_download ==> steps == seq![
            InstallStep::SetProgressDownloading,
            InstallStep::RunDownloadScript,
            InstallStep::SetProgressInstalling,
            InstallStep::RunInstallScript,
        ],
        !has_download ==> steps == seq![
            InstallStep::SetProgressInstalling,
            InstallStep::RunInstallScript,
        ],
    ensures
        steps.contains(InstallStep::RunDownloadScript) <==> has_download,
        steps.contains(InstallStep::RunInstallScript),
        has_download ==> exists|i: int, j: int|
            0 <= i < j < steps.len() && steps[i] == InstallStep::RunDownloadScript && steps[j]
                == InstallStep::RunInstallScript,
{
    if has_download {
        assert(steps[1] == InstallStep::RunDownloadScript);
        assert(steps[3] == InstallStep::RunInstallScript);
        assert(steps.contains(InstallStep::RunDownloadScript));
        assert(steps.contains(InstallStep::RunInstallScript));
        assert(0 <= 1 < 3 < steps.len() && steps[1] == InstallStep::RunDownloadScript && steps[3]
            == InstallStep::RunInstallScript);
    } else {
        assert(steps[1] == InstallStep::RunInstallScript);
        assert(steps.contains(InstallStep::RunInstallScript));
        if steps.contains(InstallStep::RunDownloadScript) {
            let i = choose|i: int| 0 <= i < steps.len() && steps[i]
                == InstallStep::RunDownloadScript;
            assert(false);
        }
    }
}

} // verus!
