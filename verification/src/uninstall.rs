//! Removing installed runtime versions. Resolving a bare tool name
//! through the active toolset is the surrounding command layer's work;
//! what is verified here is the selection of versions under `--all`
//! (every installed version that starts with the query) and the
//! skip-when-not-installed decision.

use vstd::prelude::*;
use crate::fsmodel::FsModel;
use crate::toolversion::{ToolArg, ToolVersion, filter_by_prefix, prefix_pred};

verus! {

/// The `uninstall` command: the tools to remove, whether every
/// installed version of each is meant, and whether to only pretend.
pub struct Uninstall {
    pub tool: Vec<ToolArg>,
    pub all: bool,
    pub dry_run: bool,
}

impl Uninstall {
    /// Under `--all`: the installed versions of one tool that match
    /// the query (the version written after `@`, or everything).
    pub fn select_installed(&self, query: Option<&String>, installed: &Vec<String>) -> (r: Vec<
        String,
    >)
        ensures
            match query {
                Some(q) => r@ == installed@.filter(prefix_pred(q@)),
                None => r@ == installed@.filter(prefix_pred(Seq::<char>::empty())),
            },
    {
        match query {
            Some(q) => filter_by_prefix(installed, q.as_str()),
            None => {
                let r = filter_by_prefix(installed, "");
                proof {
                    reveal_strlit("");
                    assert(""@ =~= Seq::<char>::empty());
                }
                r
            },
        }
    }

    /// A version that is not installed is skipped with a warning, not
    /// an error.
    pub fn should_skip(&self, fs: &FsModel, tv: &ToolVersion) -> (r: bool)
        ensures
            r == !fs.spec_exists(tv.spec_install_path()),
    {
        !tv.is_installed(fs)
    }
}

/// An empty prefix selects every version: the filter keeps all of them.
pub proof fn law_empty_query_selects_all(versions: Seq<String>)
    ensures
        versions.filter(prefix_pred(Seq::<char>::empty())) == versions,
    decreases versions.len(),
{
    reveal(vstd::seq::Seq::filter);
    if versions.len() > 0 {
        law_empty_query_selects_all(versions.drop_last());
        assert(versions.last()@.take(0) =~= Seq::<char>::empty());
        assert(prefix_pred(Seq::<char>::empty())(versions.last()));
        assert(versions.drop_last().push(versions.last()) =~= versions);
    } else {
        assert(versions =~= Seq::<String>::empty());
    }
}

} // verus!
