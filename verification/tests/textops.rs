//! The text utilities, the stable hash and the URL splitter.

use rtx::git::split_url_and_ref;
use rtx::hashstr::hash_to_str;
use rtx::text::{split_ws_str, str_ends_with, str_starts_with, trim_str, upper_str};

#[test]
fn test_split_whitespace_tokens() {
    assert_eq!(split_ws_str("1.0.0 1.1.0\n2.0.0"), vec!["1.0.0", "1.1.0", "2.0.0"]);
    assert_eq!(split_ws_str("  a\t\tb  "), vec!["a", "b"]);
    assert_eq!(split_ws_str(""), Vec::<String>::new());
    assert_eq!(split_ws_str(" \n\t "), Vec::<String>::new());
}

#[test]
fn test_trim() {
    assert_eq!(trim_str("  20.1.0 \n"), "20.1.0");
    assert_eq!(trim_str(""), "");
    assert_eq!(trim_str(" \t "), "");
    assert_eq!(trim_str("a b"), "a b");
}

#[test]
fn test_prefix_suffix() {
    assert!(str_starts_with("1.0.0", "1"));
    assert!(!str_starts_with("2.0.0", "1"));
    assert!(str_starts_with("x", ""));
    assert!(str_ends_with("command-batch.bash", ".bash"));
    assert!(!str_ends_with("command-batch.sh", ".bash"));
}

#[test]
fn test_upper_ascii() {
    assert_eq!(upper_str("jobs"), "JOBS");
    assert_eq!(upper_str("A-b_9"), "A-B_9");
}

#[test]
fn test_hash_to_str_is_stable() {
    assert_eq!(hash_to_str(""), "cbf29ce484222325");
    assert_eq!(hash_to_str("a"), "af63dc4c8601ec8c");
    assert_eq!(hash_to_str(".tool-versions"), "c757ca0cb978ac4f");
}

#[test]
fn test_split_url_and_ref() {
    let (url, rf) = split_url_and_ref("https://github.com/example/plugin.git#v1.2");
    assert_eq!(url, "https://github.com/example/plugin.git");
    assert_eq!(rf, Some("v1.2".to_string()));
    let (url, rf) = split_url_and_ref("https://github.com/example/plugin.git");
    assert_eq!(url, "https://github.com/example/plugin.git");
    assert_eq!(rf, None);
}

#[test]
fn test_error_rendering() {
    let e = rtx::error::Error::ScriptTimeout {
        plugin: "node".to_string(),
        script: "list-all".to_string(),
    };
    assert_eq!(e.render(), "plugin node: script list-all timed out");
    let e = rtx::error::Error::PluginNotInstalled { plugin: "node".to_string() };
    assert_eq!(e.render(), "plugin is not installed: node");
    let e = rtx::error::Error::NoRepoUrl { plugin: "node".to_string() };
    assert_eq!(e.render(), "no repository found for plugin node");
    let e = rtx::error::Error::ScriptFailed {
        plugin: "node".to_string(),
        script: "install".to_string(),
        exit_code: Some(1),
        stderr_tail: "no disk".to_string(),
    };
    assert_eq!(e.render(), "plugin node: script install failed: no disk");
}
