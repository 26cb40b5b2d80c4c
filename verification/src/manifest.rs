//! The optional per-plugin declarative manifest. It can supply the data
//! that the `list-aliases` and `list-legacy-filenames` scripts would
//! otherwise print; when it does, the manifest wins and the script is
//! not consulted.

use vstd::prelude::*;

verus! {

#[derive(Debug)]
pub struct PluginManifest {
    /// Raw alias data, in the `list-aliases` stdout grammar.
    pub list_aliases_data: Option<String>,
    /// Raw legacy filename data, in the `list-legacy-filenames` grammar.
    pub list_legacy_filenames_data: Option<String>,
}

impl PluginManifest {
    /// The manifest of a plugin that ships none: everything absent.
    pub fn empty() -> (r: PluginManifest)
        ensures
            r.list_aliases_data is None,
            r.list_legacy_filenames_data is None,
    {
        PluginManifest { list_aliases_data: None, list_legacy_filenames_data: None }
    }
}

} // verus!
