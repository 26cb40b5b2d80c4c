//! The in-process memo of per-tool-version results: `list-bin-paths`
//! and `exec-env` are computed once per (plugin, tool-version identity)
//! and then looked up. The table is a value; whoever shares it across
//! threads guards it, and a lookup after an insert under the same key
//! yields what was inserted.

use vstd::prelude::*;
use crate::toolversion::ToolVersion;

verus! {

/// An association table keyed by strings; a later entry for the same
/// key wins.
pub open spec fn assoc_map<V>(s: Seq<(String, V)>) -> Map<Seq<char>, V>
    decreases s.len(),
{
    if s.len() == 0 {
        Map::empty()
    } else {
        assoc_map(s.drop_last()).insert(s.last().0@, s.last().1)
    }
}

impl ToolVersion {
    /// The identity the memo is keyed by: the plugin, the resolved
    /// version, the request kind and the options, so that no two
    /// distinguishable versions share an entry.
    pub open spec fn spec_cache_key(self) -> Seq<char> {
        self.plugin_name@ + "@"@ + self.version@ + "#"@ + self.spec_install_type()
            + opts_key(self.opts@)
    }

    pub fn cache_key(&self) -> (r: String)
        requires
            !self.is_system(),
        ensures
            r@ == self.spec_cache_key(),
    {
        let a = crate::text::concat3_str(self.plugin_name.as_str(), "@", self.version.as_str());
        let t = self.install_type();
        let b = crate::text::concat3_str(a.as_str(), "#", t.as_str());
        let n = self.opts.len();
        let mut r = b;
        let mut i: usize = 0;
        proof {
            assert(self.opts@.take(0) =~= Seq::<(String, String)>::empty());
            assert(r@ + opts_key(self.opts@.take(0)) =~= r@);
        }
        while i < n
            invariant
                n == self.opts@.len(),
                i <= n,
                r@ == self.plugin_name@ + "@"@ + self.version@ + "#"@ + self.spec_install_type()
                    + opts_key(self.opts@.take(i as int)),
            decreases n - i,
        {
            let opt = &self.opts[i];
            let piece = crate::text::concat3_str(";", opt.0.as_str(), "=");
            r.append(piece.as_str());
            r.append(opt.1.as_str());
            proof {
                assert(self.opts@.take(i as int + 1).drop_last() =~= self.opts@.take(i as int));
                assert(self.opts@.take(i as int + 1).last() == self.opts@[i as int]);
                assert(r@ =~= self.plugin_name@ + "@"@ + self.version@ + "#"@
                    + self.spec_install_type() + opts_key(self.opts@.take(i as int + 1)));
            }
            i = i + 1;
        }
        proof {
            assert(self.opts@.take(n as int) =~= self.opts@);
        }
        r
    }
}

/// The options' part of the key, in order.
pub open spec fn opts_key(opts: Seq<(String, String)>) -> Seq<char>
    decreases opts.len(),
{
    if opts.len() == 0 {
        Seq::empty()
    } else {
        opts_key(opts.drop_last()) + ";"@ + opts.last().0@ + "="@ + opts.last().1@
    }
}

/// The memoized per-version results of one process.
pub struct ExternalPluginCache {
    pub bin_paths: Vec<(String, Vec<String>)>,
    pub exec_env: Vec<(String, Vec<(String, String)>)>,
}

impl ExternalPluginCache {
    pub open spec fn bin_paths_map(self) -> Map<Seq<char>, Vec<String>> {
        assoc_map(self.bin_paths@)
    }

    pub open spec fn exec_env_map(self) -> Map<Seq<char>, Vec<(String, String)>> {
        assoc_map(self.exec_env@)
    }

    pub fn new() -> (r: ExternalPluginCache)
        ensures
            r.bin_paths_map() == Map::<Seq<char>, Vec<String>>::empty(),
            r.exec_env_map() == Map::<Seq<char>, Vec<(String, String)>>::empty(),
    {
        ExternalPluginCache { bin_paths: Vec::new(), exec_env: Vec::new() }
    }

    /// The memoized bin paths under `key`, if any.
    pub fn get_bin_paths(&self, key: &str) -> (r: Option<&Vec<String>>)
        ensures
            match r {
                Some(v) => self.bin_paths_map().contains_key(key@) && v == self.bin_paths_map()[key@],
                None => !self.bin_paths_map().contains_key(key@),
            },
    {
        assoc_get(&self.bin_paths, key)
    }

    /// Memoize bin paths under `key`.
    pub fn insert_bin_paths(&mut self, key: String, v: Vec<String>)
        ensures
            final(self).bin_paths_map() == old(self).bin_paths_map().insert(key@, v),
            final(self).exec_env_map() == old(self).exec_env_map(),
    {
        let ghost old_seq = self.bin_paths@;
        self.bin_paths.push((key, v));
        proof {
            assert(self.bin_paths@.drop_last() =~= old_seq);
        }
    }

    /// The memoized exec-env under `key`, if any.
    pub fn get_exec_env(&self, key: &str) -> (r: Option<&Vec<(String, String)>>)
        ensures
            match r {
                Some(v) => self.exec_env_map().contains_key(key@) && v == self.exec_env_map()[key@],
                None => !self.exec_env_map().contains_key(key@),
            },
    {
        assoc_get(&self.exec_env, key)
    }

    /// Memoize an exec-env result under `key`.
    pub fn insert_exec_env(&mut self, key: String, v: Vec<(String, String)>)
        ensures
            final(self).exec_env_map() == old(self).exec_env_map().insert(key@, v),
            final(self).bin_paths_map() == old(self).bin_paths_map(),
    {
        let ghost old_seq = self.exec_env@;
        self.exec_env.push((key, v));
        proof {
            assert(self.exec_env@.drop_last() =~= old_seq);
        }
    }
}

/// Look a key up in an association table; the newest entry wins.
fn assoc_get<'a, V>(s: &'a Vec<(String, V)>, key: &str) -> (r: Option<&'a V>)
    ensures
        match r {
            Some(v) => assoc_map(s@).contains_key(key@) && v == assoc_map(s@)[key@],
            None => !assoc_map(s@).contains_key(key@),
        },
{
    let n = s.len();
    let mut i: usize = n;
    proof {
        assert(s@.take(n as int) =~= s@);
    }
    while i > 0
        invariant
            n == s@.len(),
            i <= n,
            assoc_map(s@).contains_key(key@) ==> assoc_map(s@.take(i as int)).contains_key(key@)
                && assoc_map(s@.take(i as int))[key@] == assoc_map(s@)[key@],
            !assoc_map(s@).contains_key(key@) ==> !assoc_map(s@.take(i as int)).contains_key(
                key@,
            ),
        decreases i,
    {
        i = i - 1;
        proof {
            assert(s@.take(i as int + 1).drop_last() =~= s@.take(i as int));
            assert(s@.take(i as int + 1).last() == s@[i as int]);
        }
        let pair = &s[i];
        if crate::text::str_eq(pair.0.as_str(), key) {
            return Some(&pair.1);
        }
    }
    proof {
        assert(s@.take(0) =~= Seq::<(String, V)>::empty());
    }
    None
}

} // verus!
