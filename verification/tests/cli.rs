//! The ls-remote and uninstall commands against a dummy plugin, and the
//! plugin's debug rendering.

use rtx::external_plugin::ExternalPlugin;
use rtx::ls_remote::{render_lines, LsRemote};
use rtx::toolversion::{ToolArg, ToolVersionRequest};

fn dummy_versions() -> Vec<String> {
    vec!["1.0.0".to_string(), "1.1.0".to_string(), "2.0.0".to_string()]
}

#[test]
fn test_list_remote() {
    let cmd = LsRemote {
        plugin: ToolArg { plugin: "dummy".to_string(), tvr: None },
        prefix: None,
    };
    let out = cmd.run(dummy_versions());
    assert_eq!(render_lines(&out), "1.0.0\n1.1.0\n2.0.0\n");
}

#[test]
fn test_ls_remote_prefix() {
    let cmd = LsRemote {
        plugin: ToolArg { plugin: "dummy".to_string(), tvr: None },
        prefix: Some("1".to_string()),
    };
    let out = cmd.run(dummy_versions());
    assert_eq!(render_lines(&out), "1.0.0\n1.1.0\n");

    let cmd = LsRemote {
        plugin: ToolArg {
            plugin: "dummy".to_string(),
            tvr: Some(ToolVersionRequest::Version("dummy".to_string(), "2".to_string())),
        },
        prefix: None,
    };
    let out = cmd.run(dummy_versions());
    assert_eq!(render_lines(&out), "2.0.0\n");
}

#[test]
fn test_debug() {
    let plugin = ExternalPlugin::new(String::from("dummy"));
    assert!(format!("{:?}", plugin).starts_with("ExternalPlugin { name: \"dummy\""));
}

#[test]
fn test_uninstall_select_all_versions() {
    let cmd = rtx::uninstall::Uninstall { tool: Vec::new(), all: true, dry_run: false };
    let installed = vec!["18.0.0".to_string(), "18.1.0".to_string(), "20.0.0".to_string()];
    let q = "18".to_string();
    assert_eq!(
        cmd.select_installed(Some(&q), &installed),
        vec!["18.0.0".to_string(), "18.1.0".to_string()]
    );
    assert_eq!(cmd.select_installed(None, &installed), installed);
}

#[test]
fn test_uninstall_skips_missing_version() {
    let mut fs = rtx::fsmodel::FsModel::new();
    fs.write("installs/node/18.0.0/bin/node", "", 0);
    let cmd = rtx::uninstall::Uninstall { tool: Vec::new(), all: false, dry_run: false };
    let tv = rtx::toolversion::ToolVersion {
        plugin_name: "node".to_string(),
        request: ToolVersionRequest::Version("node".to_string(), "18.0.0".to_string()),
        version: "18.0.0".to_string(),
        opts: Vec::new(),
    };
    assert!(!cmd.should_skip(&fs, &tv));
    let tv2 = rtx::toolversion::ToolVersion {
        plugin_name: "node".to_string(),
        request: ToolVersionRequest::Version("node".to_string(), "19.0.0".to_string()),
        version: "19.0.0".to_string(),
        opts: Vec::new(),
    };
    assert!(cmd.should_skip(&fs, &tv2));
}
