//! Listing the runtime versions a plugin can install, optionally
//! narrowed to a version prefix. The remote list itself comes from the
//! plugin's (cached) `list-all`; this command picks the prefix and
//! filters.

use vstd::prelude::*;
use crate::toolversion::{ToolArg, ToolVersionRequest, filter_by_prefix, prefix_pred};

verus! {

/// The `ls-remote` command: a tool, and an optional version prefix
/// (the part after `@` wins over the positional prefix).
pub struct LsRemote {
    pub plugin: ToolArg,
    pub prefix: Option<String>,
}

impl LsRemote {
    /// The prefix the query uses: the version of a `tool@version`
    /// argument, else the positional prefix, else none.
    pub open spec fn spec_prefix(self) -> Option<Seq<char>> {
        match self.plugin.tvr {
            Some(ToolVersionRequest::Version(_, v)) => Some(v@),
            _ => match self.prefix {
                Some(p) => Some(p@),
                None => None,
            },
        }
    }

    /// Exactly the remote versions that start with the prefix, in the
    /// order the plugin listed them; all of them without a prefix.
    pub fn run(&self, versions: Vec<String>) -> (out: Vec<String>)
        ensures
            match self.spec_prefix() {
                Some(p) => out@ == versions@.filter(prefix_pred(p)),
                None => out@ == versions@,
            },
    {
        let prefix: Option<&String> = match &self.plugin.tvr {
            Some(ToolVersionRequest::Version(_, v)) => Some(v),
            _ => match &self.prefix {
                Some(p) => Some(p),
                None => None,
            },
        };
        match prefix {
            Some(p) => filter_by_prefix(&versions, p.as_str()),
            None => versions,
        }
    }
}

/// The listed versions, one per line, each line ended by a newline.
pub open spec fn spec_render_lines(ls: Seq<Seq<char>>) -> Seq<char>
    decreases ls.len(),
{
    if ls.len() == 0 {
        Seq::empty()
    } else {
        spec_render_lines(ls.drop_last()) + ls.last() + "\n"@
    }
}

/// Render the version list as the command prints it.
pub fn render_lines(lines: &Vec<String>) -> (r: String)
    ensures
        r@ == spec_render_lines(crate::codec::seq_views(lines@)),
{
    let mut out = String::new();
    let n = lines.len();
    let mut i: usize = 0;
    proof {
        assert(crate::codec::seq_views(lines@.take(0)) =~= Seq::<Seq<char>>::empty());
        assert(out@ =~= spec_render_lines(crate::codec::seq_views(lines@.take(0))));
    }
    while i < n
        invariant
            n == lines@.len(),
            i <= n,
            out@ == spec_render_lines(crate::codec::seq_views(lines@.take(i as int))),
        decreases n - i,
    {
        out.append(lines[i].as_str());
        out.append("\n");
        proof {
            let vs = crate::codec::seq_views(lines@.take(i as int + 1));
            assert(vs.drop_last() =~= crate::codec::seq_views(lines@.take(i as int)));
            assert(vs.last() == lines@[i as int]@);
        }
        i = i + 1;
    }
    proof {
        assert(lines@.take(n as int) =~= lines@);
    }
    out
}

} // verus!
