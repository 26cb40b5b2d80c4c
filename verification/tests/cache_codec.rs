//! The cache codec's round trip, the freshness rules, and the cached
//! queries of the plugin façade.

use rtx::cache::CacheManager;
use rtx::codec::{decode, encode, CacheValue};
use rtx::external_plugin::ExternalPlugin;
use rtx::fsmodel::FsModel;
use rtx::script::ScriptOutcome;

fn ok_outcome(stdout: &str) -> ScriptOutcome {
    ScriptOutcome {
        timed_out: false,
        exit_code: Some(0),
        stdout: stdout.to_string(),
        stderr: String::new(),
    }
}

fn roundtrips(v: CacheValue) -> CacheValue {
    decode(encode(&v).as_str()).expect("an encoded value decodes")
}

#[test]
fn test_codec_round_trip_versions() {
    let vs = vec!["1.0.0".to_string(), "1.1.0".to_string(), "2%0".to_string()];
    match roundtrips(CacheValue::RemoteVersions(vs.clone())) {
        CacheValue::RemoteVersions(out) => assert_eq!(out, vs),
        _ => panic!("the tag survives"),
    }
}

#[test]
fn test_codec_round_trip_latest_stable() {
    match roundtrips(CacheValue::LatestStable(None)) {
        CacheValue::LatestStable(None) => {}
        _ => panic!("none survives"),
    }
    match roundtrips(CacheValue::LatestStable(Some("20.1.0".to_string()))) {
        CacheValue::LatestStable(Some(v)) => assert_eq!(v, "20.1.0"),
        _ => panic!("some survives"),
    }
}

#[test]
fn test_codec_round_trip_aliases() {
    let ps = vec![
        ("lts".to_string(), "20".to_string()),
        ("l%ts;.".to_string(), "1%.".to_string()),
    ];
    match roundtrips(CacheValue::Aliases(ps.clone())) {
        CacheValue::Aliases(out) => assert_eq!(out, ps),
        _ => panic!("the tag survives"),
    }
}

#[test]
fn test_codec_round_trip_legacy_filenames() {
    let ns = vec![".nvmrc".to_string(), ".node-version".to_string()];
    match roundtrips(CacheValue::LegacyFilenames(ns.clone())) {
        CacheValue::LegacyFilenames(out) => assert_eq!(out, ns),
        _ => panic!("the tag survives"),
    }
}

#[test]
fn test_codec_rejects_garbage() {
    assert!(decode("").is_none());
    assert!(decode("X%;").is_none());
    assert!(decode("V%").is_none());
    assert!(decode("V%;junk").is_none());
    assert!(decode("Vabc").is_none());
}

#[test]
fn test_cache_freshness_rules() {
    let cm = CacheManager::new("cache/dummy/remote_versions.cache".to_string())
        .with_fresh_duration(100)
        .with_fresh_file("plugins/dummy/bin/list-all".to_string());
    let mut fs = FsModel::new();
    fs.write("plugins/dummy/bin/list-all", "#!/bin/sh", 10);
    // No cache file: not fresh.
    assert!(!cm.is_fresh(&fs, 10));
    // Cache written after the sentinel, within the window: fresh.
    fs.write("cache/dummy/remote_versions.cache", "V%;", 20);
    assert!(cm.is_fresh(&fs, 20));
    assert!(cm.is_fresh(&fs, 120));
    // Too old: stale.
    assert!(!cm.is_fresh(&fs, 121));
    // Sentinel newer than the cache: stale.
    fs.write("plugins/dummy/bin/list-all", "#!/bin/sh", 30);
    assert!(!cm.is_fresh(&fs, 40));
}

#[test]
fn test_cache_decode_failure_is_a_miss() {
    let cm = CacheManager::new("cache/x.cache".to_string());
    let mut fs = FsModel::new();
    fs.write("cache/x.cache", "not an encoding", 0);
    assert!(cm.lookup_value(&fs, 0).is_none());
}

#[test]
fn test_remote_versions_cached_after_store() {
    let p = ExternalPlugin::new("dummy".to_string());
    let mut fs = FsModel::new();
    fs.write("plugins/dummy/bin/list-all", "#!/bin/sh", 0);
    // Nothing cached yet: the script must run.
    assert!(p.list_remote_versions_cached(&fs, 10).is_none());
    // A successful run is stored; within the window the hit returns
    // the same list without another invocation.
    let vs = p
        .list_remote_versions_fetch_store(&mut fs, &ok_outcome("1.0.0 1.1.0 2.0.0"), 10)
        .expect("a zero exit parses");
    assert_eq!(vs, vec!["1.0.0", "1.1.0", "2.0.0"]);
    let hit = p.list_remote_versions_cached(&fs, 20).expect("stored means hit");
    assert_eq!(hit, vs);
    let hit2 = p.list_remote_versions_cached(&fs, 20).expect("a hit repeats");
    assert_eq!(hit2, hit);
    // Beyond the freshness window the hit expires.
    assert!(p.list_remote_versions_cached(&fs, 10 + 86401).is_none());
}

#[test]
fn test_remote_versions_failure_paths() {
    let p = ExternalPlugin::new("dummy".to_string());
    let timeout = ScriptOutcome {
        timed_out: true,
        exit_code: None,
        stdout: String::new(),
        stderr: String::new(),
    };
    match p.fetch_remote_versions(&timeout) {
        Err(rtx::error::Error::ScriptTimeout { plugin, script }) => {
            assert_eq!(plugin, "dummy");
            assert_eq!(script, "list-all");
        }
        _ => panic!("a timeout is its own error"),
    }
    let failed = ScriptOutcome {
        timed_out: false,
        exit_code: Some(3),
        stdout: String::new(),
        stderr: " boom \n".to_string(),
    };
    match p.fetch_remote_versions(&failed) {
        Err(rtx::error::Error::ScriptFailed { plugin, script, exit_code, stderr_tail }) => {
            assert_eq!(plugin, "dummy");
            assert_eq!(script, "list-all");
            assert_eq!(exit_code, Some(3));
            assert_eq!(stderr_tail, "boom");
        }
        _ => panic!("a non-zero exit is a failure"),
    }
    // An empty stdout is a valid, empty version list.
    assert_eq!(p.fetch_remote_versions(&ok_outcome("")).unwrap(), Vec::<String>::new());
}

#[test]
fn test_latest_stable_empty_means_none() {
    let p = ExternalPlugin::new("dummy".to_string());
    assert_eq!(p.fetch_latest_stable(&ok_outcome("  \n")).unwrap(), None);
    assert_eq!(
        p.fetch_latest_stable(&ok_outcome(" 20.1.0\n")).unwrap(),
        Some("20.1.0".to_string())
    );
    // A plugin without the script answers None outright.
    let fs = FsModel::new();
    assert_eq!(p.latest_stable_version_cached(&fs, 0), Some(None));
}

#[test]
fn test_aliases_manifest_takes_precedence() {
    let mut p = ExternalPlugin::new("dummy".to_string());
    let mut fs = FsModel::new();
    fs.write("plugins/dummy/bin/list-aliases", "#!/bin/sh", 0);
    // A fresh cache holds other data.
    let stored = p
        .get_aliases_fetch_store(&mut fs, &ok_outcome("lts 20\n"), 1)
        .unwrap();
    assert_eq!(stored, vec![("lts".to_string(), "20".to_string())]);
    // With manifest data, the manifest wins over cache and script.
    p.toml.list_aliases_data = Some("stable 22\nlatest 23\n".to_string());
    let got = p.get_aliases_cached(&fs, 2).expect("manifest data is final");
    assert_eq!(
        got,
        vec![
            ("stable".to_string(), "22".to_string()),
            ("latest".to_string(), "23".to_string()),
        ]
    );
}

#[test]
fn test_legacy_filenames_manifest_takes_precedence() {
    let mut p = ExternalPlugin::new("dummy".to_string());
    let mut fs = FsModel::new();
    fs.write("plugins/dummy/bin/list-legacy-filenames", "#!/bin/sh", 0);
    assert!(p.legacy_filenames_cached(&fs, 0).is_none());
    p.toml.list_legacy_filenames_data = Some(".nvmrc .node-version".to_string());
    assert_eq!(
        p.legacy_filenames_cached(&fs, 0).expect("manifest data is final"),
        vec![".nvmrc".to_string(), ".node-version".to_string()]
    );
    // Without manifest and without the script: empty.
    let p2 = ExternalPlugin::new("other".to_string());
    assert_eq!(p2.legacy_filenames_cached(&fs, 0), Some(Vec::new()));
}

#[test]
fn test_parse_aliases_skips_malformed_lines() {
    let p = ExternalPlugin::new("dummy".to_string());
    let got = p.parse_aliases("lts 20\n\nbroken\nstable 22 extra\nedge 23\n");
    assert_eq!(
        got,
        vec![
            ("lts".to_string(), "20".to_string()),
            ("edge".to_string(), "23".to_string()),
        ]
    );
}
