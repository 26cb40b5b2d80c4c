//! The plugin façade: capability probes, install and uninstall
//! decisions, the per-version environment and the exec-env guards.

use rtx::external_plugin::{
    BinPathsSource, EnsurePlan, ExternalPlugin, InstallStep, LegacyFilePlan, UpdatePlan,
};
use rtx::fsmodel::FsModel;
use rtx::toolversion::{ToolVersion, ToolVersionRequest};

fn dummy() -> ExternalPlugin {
    ExternalPlugin::new("dummy".to_string())
}

fn installed_fs() -> FsModel {
    let mut fs = FsModel::new();
    fs.write("plugins/dummy/bin/list-all", "#!/bin/sh", 0);
    fs
}

fn tv() -> ToolVersion {
    ToolVersion {
        plugin_name: "dummy".to_string(),
        request: ToolVersionRequest::Version("dummy".to_string(), "1.0.0".to_string()),
        version: "1.0.0".to_string(),
        opts: Vec::new(),
    }
}

fn system_tv() -> ToolVersion {
    ToolVersion {
        plugin_name: "dummy".to_string(),
        request: ToolVersionRequest::System("dummy".to_string()),
        version: "system".to_string(),
        opts: Vec::new(),
    }
}

#[test]
fn test_script_probes_follow_files() {
    let p = dummy();
    let mut fs = installed_fs();
    assert!(p.has_list_all_script(&fs));
    assert!(!p.has_list_alias_script(&fs));
    assert!(!p.has_list_legacy_filenames_script(&fs));
    assert!(!p.has_latest_stable_script(&fs));
    fs.write("plugins/dummy/bin/list-aliases", "#!/bin/sh", 1);
    fs.write("plugins/dummy/bin/latest-stable", "#!/bin/sh", 1);
    assert!(p.has_list_alias_script(&fs));
    assert!(p.has_latest_stable_script(&fs));
}

#[test]
fn test_install_version_steps_with_download() {
    let p = dummy();
    let mut fs = installed_fs();
    fs.write("plugins/dummy/bin/download", "#!/bin/sh", 0);
    fs.write("plugins/dummy/bin/install", "#!/bin/sh", 0);
    let steps = p.install_version_steps(&fs, &tv());
    assert_eq!(
        steps,
        vec![
            InstallStep::SetProgressDownloading,
            InstallStep::RunDownloadScript,
            InstallStep::SetProgressInstalling,
            InstallStep::RunInstallScript,
        ]
    );
}

#[test]
fn test_install_version_steps_without_download() {
    let p = dummy();
    let mut fs = installed_fs();
    fs.write("plugins/dummy/bin/install", "#!/bin/sh", 0);
    let steps = p.install_version_steps(&fs, &tv());
    assert_eq!(
        steps,
        vec![InstallStep::SetProgressInstalling, InstallStep::RunInstallScript]
    );
}

#[test]
fn test_uninstall_idempotent_on_missing_path() {
    let p = dummy();
    let mut fs = FsModel::new();
    fs.write("cache/dummy/remote_versions.cache", "V%;", 5);
    assert!(p.uninstall(&mut fs).is_ok());
    assert!(!p.is_installed(&fs));
    // The cache file is untouched.
    assert!(fs.lookup("cache/dummy/remote_versions.cache").is_some());
}

#[test]
fn test_uninstall_removes_clone_only() {
    let p = dummy();
    let mut fs = installed_fs();
    fs.write("cache/dummy/aliases.cache", "A%;", 3);
    assert!(p.is_installed(&fs));
    assert!(p.uninstall(&mut fs).is_ok());
    assert!(!p.is_installed(&fs));
    assert!(fs.lookup("plugins/dummy/bin/list-all").is_none());
    assert!(fs.lookup("cache/dummy/aliases.cache").is_some());
    // A second uninstall still succeeds.
    assert!(p.uninstall(&mut fs).is_ok());
    assert!(!p.is_installed(&fs));
}

#[test]
fn test_exec_env_recursion_guard() {
    let p = dummy();
    let mut fs = installed_fs();
    fs.write("plugins/dummy/bin/exec-env", "export FOO=bar", 0);
    let pre = vec![("PATH".to_string(), "/usr/bin".to_string())];
    let post = vec![
        ("PATH".to_string(), "/usr/bin".to_string()),
        ("FOO".to_string(), "bar".to_string()),
    ];
    // Nested inside a plugin script: empty, no shell launched.
    assert!(p.exec_env(&fs, &tv(), true, &pre, &post).is_empty());
    // System version: empty.
    assert!(p.exec_env(&fs, &system_tv(), false, &pre, &post).is_empty());
    // Otherwise: the added variable.
    assert_eq!(
        p.exec_env(&fs, &tv(), false, &pre, &post),
        vec![("FOO".to_string(), "bar".to_string())]
    );
}

#[test]
fn test_exec_env_reports_changed_not_removed() {
    let p = dummy();
    let mut fs = installed_fs();
    fs.write("plugins/dummy/bin/exec-env", "export A=2", 0);
    let pre = vec![
        ("A".to_string(), "1".to_string()),
        ("GONE".to_string(), "x".to_string()),
    ];
    let post = vec![("A".to_string(), "2".to_string())];
    assert_eq!(
        p.exec_env(&fs, &tv(), false, &pre, &post),
        vec![("A".to_string(), "2".to_string())]
    );
}

#[test]
fn test_list_bin_paths_system_is_empty() {
    let p = dummy();
    let fs = installed_fs();
    assert_eq!(p.bin_paths_source(&fs, &system_tv()), BinPathsSource::SystemEmpty);
    assert_eq!(p.list_bin_paths(&fs, &system_tv(), ""), Vec::<String>::new());
}

#[test]
fn test_list_bin_paths_from_script_and_default() {
    let p = dummy();
    let mut fs = installed_fs();
    assert_eq!(p.bin_paths_source(&fs, &tv()), BinPathsSource::DefaultBin);
    assert_eq!(
        p.list_bin_paths(&fs, &tv(), ""),
        vec!["installs/dummy/1.0.0/bin".to_string()]
    );
    fs.write("plugins/dummy/bin/list-bin-paths", "#!/bin/sh", 0);
    assert_eq!(p.bin_paths_source(&fs, &tv()), BinPathsSource::RunScript);
    assert_eq!(
        p.list_bin_paths(&fs, &tv(), "bin tools/bin"),
        vec![
            "installs/dummy/1.0.0/bin".to_string(),
            "installs/dummy/1.0.0/tools/bin".to_string(),
        ]
    );
}

#[test]
fn test_tool_version_environment() {
    let p = dummy();
    let mut t = tv();
    t.opts.push(("jobs".to_string(), "4".to_string()));
    let root = "/work/project".to_string();
    let sm = p.script_man_for_tv(Some(&root), &t);
    let get = |k: &str| sm.get_env(k).cloned().unwrap_or_default();
    assert_eq!(get("RTX_INSTALL_PATH"), "installs/dummy/1.0.0");
    assert_eq!(get("ASDF_INSTALL_PATH"), "installs/dummy/1.0.0");
    assert_eq!(get("RTX_DOWNLOAD_PATH"), "downloads/dummy/1.0.0");
    assert_eq!(get("ASDF_DOWNLOAD_PATH"), "downloads/dummy/1.0.0");
    assert_eq!(get("RTX_INSTALL_TYPE"), "version");
    assert_eq!(get("ASDF_INSTALL_TYPE"), "version");
    assert_eq!(get("RTX_INSTALL_VERSION"), "1.0.0");
    assert_eq!(get("RTX_TOOL_OPTS__JOBS"), "4");
    assert_eq!(get("RTX_PROJECT_ROOT"), "/work/project");
    assert_eq!(get("RTX_PLUGIN_NAME"), "dummy");
    assert_eq!(get("RTX_PLUGIN_PATH"), "plugins/dummy");
}

#[test]
fn test_ref_version_environment() {
    let p = dummy();
    let t = ToolVersion {
        plugin_name: "dummy".to_string(),
        request: ToolVersionRequest::Ref("dummy".to_string(), "master".to_string()),
        version: "ref-master".to_string(),
        opts: Vec::new(),
    };
    let sm = p.script_man_for_tv(None, &t);
    assert_eq!(sm.get_env("RTX_INSTALL_TYPE").unwrap(), "ref");
    // The bare ref, not the resolved version string.
    assert_eq!(sm.get_env("RTX_INSTALL_VERSION").unwrap(), "master");
}

#[test]
fn test_ensure_installed_plan() {
    let p = dummy();
    let fs = installed_fs();
    let empty = FsModel::new();
    let registry = "https://example.com/dummy.git".to_string();
    match p.ensure_installed_plan(&fs, Some(&registry), false, false) {
        Ok(EnsurePlan::AlreadyInstalled) => {}
        _ => panic!("installed plugin needs no work"),
    }
    match p.ensure_installed_plan(&empty, Some(&registry), false, false) {
        Ok(EnsurePlan::Confirm(url)) => assert_eq!(url, registry),
        _ => panic!("community plugin asks first"),
    }
    match p.ensure_installed_plan(&empty, Some(&registry), true, false) {
        Ok(EnsurePlan::Install) => {}
        _ => panic!("auto-confirm installs"),
    }
    match p.ensure_installed_plan(&empty, None, false, false) {
        Err(rtx::error::Error::NoRepoUrl { plugin }) => assert_eq!(plugin, "dummy"),
        _ => panic!("no URL is an error"),
    }
}

#[test]
fn test_install_plan_splits_ref() {
    let p = dummy();
    let fs = FsModel::new();
    let registry = "https://example.com/dummy.git#v2".to_string();
    let plan = p.install_plan(&fs, Some(&registry)).unwrap();
    assert!(!plan.uninstall_first);
    assert_eq!(plan.clone_url, "https://example.com/dummy.git");
    assert_eq!(plan.checkout_ref, Some("v2".to_string()));
    assert_eq!(
        p.install_finish_message(&plan.clone_url, "abc1234"),
        "https://example.com/dummy.git#abc1234"
    );
}

#[test]
fn test_update_plan_skips() {
    let p = dummy();
    assert_eq!(p.update_plan(true, true), UpdatePlan::SkipSymlink);
    assert_eq!(p.update_plan(false, false), UpdatePlan::SkipNotRepo);
    assert_eq!(p.update_plan(false, true), UpdatePlan::Run);
}

#[test]
fn test_external_commands_discovery() {
    let p = dummy();
    let fs = installed_fs();
    let files = vec![
        "command-batch.bash".to_string(),
        "command-env-list.bash".to_string(),
        "README.md".to_string(),
        "command-x.sh".to_string(),
    ];
    let cmds = p.external_commands(&fs, &files);
    assert_eq!(
        cmds,
        vec![
            vec!["batch".to_string()],
            vec!["env".to_string(), "list".to_string()],
        ]
    );
    // Not installed: nothing.
    assert!(p.external_commands(&FsModel::new(), &files).is_empty());
    // direnv's commands are suppressed.
    let direnv = ExternalPlugin::new("direnv".to_string());
    let mut dfs = FsModel::new();
    dfs.write("plugins/direnv/bin/list-all", "#!/bin/sh", 0);
    assert!(direnv.external_commands(&dfs, &files).is_empty());
}

#[test]
fn test_external_command_script_path() {
    let p = dummy();
    let fs = installed_fs();
    match p.external_command_script(&fs, "env-list", vec!["--x".to_string()]) {
        Ok(rtx::script::Script::RunExternalCommand(path, args)) => {
            assert_eq!(path, "plugins/dummy/lib/commands/command-env-list.bash");
            assert_eq!(args, vec!["--x".to_string()]);
        }
        _ => panic!("installed plugin runs its command"),
    }
    match p.external_command_script(&FsModel::new(), "env-list", Vec::new()) {
        Err(rtx::error::Error::PluginNotInstalled { plugin }) => assert_eq!(plugin, "dummy"),
        _ => panic!("not installed is an error"),
    }
}

#[test]
fn test_legacy_file_plan_and_cache() {
    let p = dummy();
    let mut fs = FsModel::new();
    // A legacy file written at t=0 with 1.0: no cache yet, read the file.
    fs.write(".tool-versions", "1.0\n", 0);
    match p.parse_legacy_file_plan(&fs, ".tool-versions") {
        LegacyFilePlan::ReadFile => {}
        _ => panic!("no cache and no script reads the file"),
    }
    let (_, raw) = fs.lookup(".tool-versions").unwrap();
    let v = p.parse_legacy_file_finish(&mut fs, ".tool-versions", &raw, 0);
    assert_eq!(v, "1.0");
    // Asking again hits the cache.
    match p.parse_legacy_file_plan(&fs, ".tool-versions") {
        LegacyFilePlan::Cached(v) => assert_eq!(v, "1.0"),
        _ => panic!("current cache is a hit"),
    }
    // Overwritten at t=1 with 2.0: the stale cache is bypassed.
    fs.write(".tool-versions", "2.0\n", 1);
    match p.parse_legacy_file_plan(&fs, ".tool-versions") {
        LegacyFilePlan::ReadFile => {}
        _ => panic!("newer legacy file invalidates the cache"),
    }
    let (_, raw) = fs.lookup(".tool-versions").unwrap();
    let v = p.parse_legacy_file_finish(&mut fs, ".tool-versions", &raw, 1);
    assert_eq!(v, "2.0");
}

#[test]
fn test_legacy_file_script_plan() {
    let p = dummy();
    let mut fs = FsModel::new();
    fs.write(".nvmrc", "18\n", 0);
    fs.write("plugins/dummy/bin/parse-legacy-file", "#!/bin/sh", 0);
    match p.parse_legacy_file_plan(&fs, ".nvmrc") {
        LegacyFilePlan::RunScript => {}
        _ => panic!("the plugin's parser wins over the raw read"),
    }
}

#[test]
fn test_exec_env_memo() {
    let mut cache = rtx::tvcache::ExternalPluginCache::new();
    let mut t = tv();
    t.opts.push(("jobs".to_string(), "4".to_string()));
    let key = t.cache_key();
    assert_eq!(key, "dummy@1.0.0#version;jobs=4");
    assert!(cache.get_exec_env(&key).is_none());
    let env = vec![("FOO".to_string(), "bar".to_string())];
    cache.insert_exec_env(key.clone(), env.clone());
    assert_eq!(cache.get_exec_env(&key), Some(&env));
    // The other table is untouched, and other keys still miss.
    assert!(cache.get_bin_paths(&key).is_none());
    assert!(cache.get_exec_env("dummy@2.0.0#version").is_none());
    // A newer entry for the same key wins.
    let env2 = vec![("FOO".to_string(), "baz".to_string())];
    cache.insert_exec_env(key.clone(), env2.clone());
    assert_eq!(cache.get_exec_env(&key), Some(&env2));
}

#[test]
fn test_bin_paths_memo() {
    let mut cache = rtx::tvcache::ExternalPluginCache::new();
    let key = tv().cache_key();
    let paths = vec!["installs/dummy/1.0.0/bin".to_string()];
    cache.insert_bin_paths(key.clone(), paths.clone());
    assert_eq!(cache.get_bin_paths(&key), Some(&paths));
}

#[test]
fn test_legacy_cache_path_is_hashed() {
    let p = dummy();
    assert_eq!(
        p.legacy_cache_file_path(".tool-versions"),
        "cache/dummy/legacy/dummy/c757ca0cb978ac4f.txt"
    );
}
