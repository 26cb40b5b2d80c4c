//! The identity of a requested or installed tool version, and the paths
//! derived from it. All paths are relative to the manager's data root.

use vstd::prelude::*;
use crate::fsmodel::FsModel;
use crate::text::starts_with;

verus! {

/// A tool named on the command line: the plugin, and the version
/// request when the user wrote `tool@version`.
pub struct ToolArg {
    pub plugin: String,
    pub tvr: Option<ToolVersionRequest>,
}

/// Keeping the versions that start with a fixed prefix.
pub open spec fn prefix_pred(p: Seq<char>) -> spec_fn(String) -> bool {
    |v: String| starts_with(v@, p)
}

/// Exactly the versions that start with `prefix`, in order.
pub fn filter_by_prefix(versions: &Vec<String>, prefix: &str) -> (r: Vec<String>)
    ensures
        r@ == versions@.filter(prefix_pred(prefix@)),
{
    let ghost pred = prefix_pred(prefix@);
    let mut r: Vec<String> = Vec::new();
    let n = versions.len();
    let mut i: usize = 0;
    proof {
        reveal(vstd::seq::Seq::filter);
        assert(versions@.take(0) =~= Seq::<String>::empty());
        assert(r@ =~= versions@.take(0).filter(pred));
    }
    while i < n
        invariant
            n == versions@.len(),
            i <= n,
            pred == prefix_pred(prefix@),
            r@ == versions@.take(i as int).filter(pred),
        decreases n - i,
    {
        let keep = crate::text::str_starts_with(versions[i].as_str(), prefix);
        proof {
            reveal(vstd::seq::Seq::filter);
            assert(versions@.take(i as int + 1).drop_last() =~= versions@.take(i as int));
            assert(versions@.take(i as int + 1).last() == versions@[i as int]);
            assert(keep == pred(versions@[i as int]));
        }
        if keep {
            r.push(versions[i].clone());
            proof {
                assert(r@.drop_last() =~= versions@.take(i as int).filter(pred));
                assert(r@.last() == versions@[i as int]);
                assert(r@ =~= versions@.take(i as int + 1).filter(pred));
            }
        }
        i = i + 1;
    }
    proof {
        assert(versions@.take(n as int) =~= versions@);
    }
    r
}

/// How the user asked for a version. Each variant carries the plugin
/// name first; `Ref` carries the bare git ref, `Sub` a downgrade
/// expression against another version.
pub enum ToolVersionRequest {
    Version(String, String),
    Prefix(String, String),
    Ref(String, String),
    Path(String, String),
    Sub { plugin: String, sub: String, orig_version: String },
    /// The tool the surrounding system provides; nothing to install,
    /// download or source.
    System(String),
}

/// A concrete tool version: the owning plugin, the request it resolved
/// from, the resolved version string and the tool options.
pub struct ToolVersion {
    pub plugin_name: String,
    pub request: ToolVersionRequest,
    pub version: String,
    pub opts: Vec<(String, String)>,
}

impl ToolVersion {
    /// A `System` version has no install path and must never reach
    /// install, uninstall or exec-env operations.
    pub open spec fn is_system(self) -> bool {
        self.request is System
    }

    pub open spec fn spec_install_path(self) -> Seq<char> {
        "installs/"@ + self.plugin_name@ + "/"@ + self.version@
    }

    pub open spec fn spec_download_path(self) -> Seq<char> {
        "downloads/"@ + self.plugin_name@ + "/"@ + self.version@
    }

    /// Where this version is (or would be) installed.
    pub fn install_path(&self) -> (r: String)
        ensures
            r@ == self.spec_install_path(),
    {
        let a = crate::text::concat3_str("installs/", self.plugin_name.as_str(), "/");
        crate::text::concat_str(a.as_str(), self.version.as_str())
    }

    /// Where this version's artifacts are downloaded.
    pub fn download_path(&self) -> (r: String)
        ensures
            r@ == self.spec_download_path(),
    {
        let a = crate::text::concat3_str("downloads/", self.plugin_name.as_str(), "/");
        crate::text::concat_str(a.as_str(), self.version.as_str())
    }

    /// The value of `RTX_INSTALL_TYPE`: how the version was requested.
    /// Never asked of a `System` version.
    pub open spec fn spec_install_type(self) -> Seq<char>
        recommends
            !self.is_system(),
    {
        match self.request {
            ToolVersionRequest::Version(_, _) => "version"@,
            ToolVersionRequest::Prefix(_, _) => "version"@,
            ToolVersionRequest::Ref(_, _) => "ref"@,
            ToolVersionRequest::Path(_, _) => "path"@,
            ToolVersionRequest::Sub { .. } => "sub"@,
            ToolVersionRequest::System(_) => ""@,
        }
    }

    /// The value of `RTX_INSTALL_VERSION`: for a `Ref` request the bare
    /// ref (no `ref:` prefix), otherwise the resolved version.
    pub open spec fn spec_install_version(self) -> Seq<char> {
        match self.request {
            ToolVersionRequest::Ref(_, v) => v@,
            _ => self.version@,
        }
    }

    pub fn install_type(&self) -> (r: String)
        requires
            !self.is_system(),
        ensures
            r@ == self.spec_install_type(),
    {
        match &self.request {
            ToolVersionRequest::Version(_, _) => "version".to_owned(),
            ToolVersionRequest::Prefix(_, _) => "version".to_owned(),
            ToolVersionRequest::Ref(_, _) => "ref".to_owned(),
            ToolVersionRequest::Path(_, _) => "path".to_owned(),
            ToolVersionRequest::Sub { .. } => "sub".to_owned(),
            ToolVersionRequest::System(_) => "".to_owned(),
        }
    }

    pub fn install_version_value(&self) -> (r: String)
        ensures
            r@ == self.spec_install_version(),
    {
        match &self.request {
            ToolVersionRequest::Ref(_, v) => v.clone(),
            _ => self.version.clone(),
        }
    }

    /// The version is installed exactly when its install path exists.
    pub fn is_installed(&self, fs: &FsModel) -> (r: bool)
        ensures
            r == fs.spec_exists(self.spec_install_path()),
    {
        let p = self.install_path();
        fs.path_exists(p.as_str())
    }
}

} // verus!
