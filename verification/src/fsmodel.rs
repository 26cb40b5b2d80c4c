//! A value model of the slice of the filesystem the subsystem reads and
//! writes: files with a path, a modification time and a textual content.
//! Directories are implicit: a path exists when a file lies at it or
//! under it. The real disk stays outside the library; callers mirror the
//! relevant files into this model and apply the model's writes back.

use vstd::prelude::*;
use crate::text::starts_with;

verus! {

pub struct FsEntry {
    pub path: String,
    pub mtime: u64,
    pub content: String,
}

pub struct FsModel {
    pub entries: Vec<FsEntry>,
}

/// A file's observable state: modification time and content.
pub ghost struct FsFile {
    pub mtime: u64,
    pub content: Seq<char>,
}

/// `q` lies at or under the path `p`.
pub open spec fn under(q: Seq<char>, p: Seq<char>) -> bool {
    q == p || starts_with(q, p + seq!['/'])
}

/// The files of the model as a map from path to state; a later entry for
/// the same path wins.
pub open spec fn files_of(s: Seq<FsEntry>) -> Map<Seq<char>, FsFile>
    decreases s.len(),
{
    if s.len() == 0 {
        Map::empty()
    } else {
        files_of(s.drop_last()).insert(
            s.last().path@,
            FsFile { mtime: s.last().mtime, content: s.last().content@ },
        )
    }
}

/// The map with every file at or under `p` removed.
pub open spec fn remove_under(m: Map<Seq<char>, FsFile>, p: Seq<char>) -> Map<Seq<char>, FsFile> {
    Map::new(|q: Seq<char>| m.dom().contains(q) && !under(q, p), |q: Seq<char>| m[q])
}

impl FsModel {
    pub open spec fn files(self) -> Map<Seq<char>, FsFile> {
        files_of(self.entries@)
    }

    /// A path exists when a file lies at it or under it.
    pub open spec fn spec_exists(self, p: Seq<char>) -> bool {
        exists|q: Seq<char>| self.files().dom().contains(q) && under(q, p)
    }

    pub open spec fn has_file(self, p: Seq<char>) -> bool {
        self.files().dom().contains(p)
    }

    pub open spec fn file_mtime(self, p: Seq<char>) -> u64 {
        self.files()[p].mtime
    }

    pub open spec fn file_content(self, p: Seq<char>) -> Seq<char> {
        self.files()[p].content
    }

    pub fn new() -> (r: FsModel)
        ensures
            r.files() == Map::<Seq<char>, FsFile>::empty(),
    {
        FsModel { entries: Vec::new() }
    }

    /// The file at `p`, if one is recorded.
    pub fn lookup(&self, p: &str) -> (r: Option<(u64, String)>)
        ensures
            match r {
                Some((mtime, content)) => self.has_file(p@) && mtime == self.file_mtime(p@)
                    && content@ == self.file_content(p@),
                None => !self.has_file(p@),
            },
    {
        let n = self.entries.len();
        let mut i: usize = n;
        proof {
            assert(self.entries@.take(n as int) =~= self.entries@);
        }
        while i > 0
            invariant
                n == self.entries@.len(),
                i <= n,
                files_of(self.entries@).contains_key(p@) ==> files_of(
                    self.entries@.take(i as int),
                ).contains_key(p@) && files_of(self.entries@.take(i as int))[p@] == files_of(
                    self.entries@,
                )[p@],
                !files_of(self.entries@).contains_key(p@) ==> !files_of(
                    self.entries@.take(i as int),
                ).contains_key(p@),
            decreases i,
        {
            i = i - 1;
            let e = &self.entries[i];
            proof {
                assert(self.entries@.take(i as int + 1).drop_last() =~= self.entries@.take(
                    i as int,
                ));
                assert(self.entries@.take(i as int + 1).last() == self.entries@[i as int]);
            }
            if crate::text::str_eq(e.path.as_str(), p) {
                return Some((e.mtime, e.content.clone()));
            }
        }
        proof {
            assert(self.entries@.take(0) =~= Seq::<FsEntry>::empty());
        }
        None
    }

    /// Whether a file lies at `p`.
    pub fn file_exists(&self, p: &str) -> (r: bool)
        ensures
            r == self.has_file(p@),
    {
        self.lookup(p).is_some()
    }

    /// Whether the path exists as a file or as an implicit directory.
    pub fn path_exists(&self, p: &str) -> (r: bool)
        ensures
            r == self.spec_exists(p@),
    {
        let pslash = crate::text::concat_str(p, "/");
        proof {
            reveal_strlit("/");
            assert(pslash@ =~= p@ + seq!['/']);
        }
        let n = self.entries.len();
        let mut i: usize = 0;
        while i < n
            invariant
                n == self.entries@.len(),
                i <= n,
                pslash@ == p@ + seq!['/'],
                forall|k: int| 0 <= k < i ==> !under(self.entries@[k].path@, p@),
            decreases n - i,
        {
            let e = &self.entries[i];
            if crate::text::str_eq(e.path.as_str(), p) || crate::text::str_starts_with(
                e.path.as_str(),
                pslash.as_str(),
            ) {
                proof {
                    lemma_files_dom(self.entries@);
                    assert(under(self.entries@[i as int].path@, p@));
                    assert(self.files().dom().contains(self.entries@[i as int].path@));
                    assert(self.spec_exists(p@));
                }
                return true;
            }
            i = i + 1;
        }
        proof {
            lemma_files_dom(self.entries@);
            if self.spec_exists(p@) {
                let q = choose|q: Seq<char>| self.files().dom().contains(q) && under(q, p@);
                let k = choose|k: int| 0 <= k < self.entries@.len() && self.entries@[k].path@
                    == q;
                assert(!under(self.entries@[k].path@, p@));
            }
        }
        false
    }

    /// Record a write of `content` to `p` at time `now`.
    pub fn write(&mut self, p: &str, content: &str, now: u64)
        ensures
            final(self).files() == old(self).files().insert(
                p@,
                FsFile { mtime: now, content: content@ },
            ),
    {
        let e = FsEntry { path: p.to_owned(), mtime: now, content: content.to_owned() };
        self.entries.push(e);
        proof {
            assert(self.entries@.drop_last() =~= old(self).entries@);
        }
    }

    /// Remove the file or directory at `p`, with everything under it.
    pub fn remove_all(&mut self, p: &str)
        ensures
            final(self).files() == remove_under(old(self).files(), p@),
            !final(self).spec_exists(p@),
    {
        let pslash = crate::text::concat_str(p, "/");
        proof {
            reveal_strlit("/");
            assert(pslash@ =~= p@ + seq!['/']);
        }
        let n = self.entries.len();
        let mut out: Vec<FsEntry> = Vec::new();
        let mut i: usize = 0;
        proof {
            assert(self.entries@.take(0) =~= Seq::<FsEntry>::empty());
            assert(files_of(out@) =~= remove_under(files_of(self.entries@.take(0)), p@));
        }
        while i < n
            invariant
                n == self.entries@.len(),
                i <= n,
                pslash@ == p@ + seq!['/'],
                files_of(out@) == remove_under(files_of(self.entries@.take(i as int)), p@),
                forall|k: int| 0 <= k < out@.len() ==> !under(#[trigger] out@[k].path@, p@),
            decreases n - i,
        {
            let e = &self.entries[i];
            let keep = !(crate::text::str_eq(e.path.as_str(), p) || crate::text::str_starts_with(
                e.path.as_str(),
                pslash.as_str(),
            ));
            proof {
                assert(self.entries@.take(i as int + 1).drop_last() =~= self.entries@.take(
                    i as int,
                ));
                assert(self.entries@.take(i as int + 1).last() == self.entries@[i as int]);
            }
            if keep {
                let ghost old_out = out@;
                let e2 = FsEntry { path: e.path.clone(), mtime: e.mtime, content: e.content.clone() };
                out.push(e2);
                proof {
                    assert(out@.drop_last() =~= old_out);
                    assert(out@.last() == e2);
                    assert(files_of(out@) == files_of(old_out).insert(
                        e2.path@,
                        FsFile { mtime: e2.mtime, content: e2.content@ },
                    ));
                    assert(files_of(out@) =~= remove_under(
                        files_of(self.entries@.take(i as int + 1)),
                        p@,
                    ));
                }
            } else {
                proof {
                    assert(files_of(out@) =~= remove_under(
                        files_of(self.entries@.take(i as int + 1)),
                        p@,
                    ));
                }
            }
            i = i + 1;
        }
        proof {
            assert(self.entries@.take(n as int) =~= self.entries@);
        }
        self.entries = out;
        proof {
            lemma_files_dom(self.entries@);
            if self.spec_exists(p@) {
                let q = choose|q: Seq<char>| self.files().dom().contains(q) && under(q, p@);
                let k = choose|k: int| 0 <= k < self.entries@.len() && self.entries@[k].path@
                    == q;
                assert(!under(self.entries@[k].path@, p@));
            }
        }
    }
}

/// A path is in the files' domain exactly when some entry carries it.
pub proof fn lemma_files_dom(s: Seq<FsEntry>)
    ensures
        forall|q: Seq<char>|
            files_of(s).dom().contains(q) <==> exists|k: int|
                0 <= k < s.len() && #[trigger] s[k].path@ == q,
    decreases s.len(),
{
    if s.len() > 0 {
        let t = s.drop_last();
        lemma_files_dom(t);
        assert forall|q: Seq<char>| files_of(s).dom().contains(q) implies exists|k: int|
            0 <= k < s.len() && #[trigger] s[k].path@ == q by {
            if q == s.last().path@ {
                assert(s[s.len() - 1].path@ == q);
            } else {
                assert(files_of(t).dom().contains(q));
                let k = choose|k: int| 0 <= k < t.len() && #[trigger] t[k].path@ == q;
                assert(t[k] == s[k]);
                assert(s[k].path@ == q);
            }
        }
        assert forall|q: Seq<char>|
            (exists|k: int| 0 <= k < s.len() && #[trigger] s[k].path@ == q) implies files_of(
            s,
        ).dom().contains(q) by {
            let k = choose|k: int| 0 <= k < s.len() && #[trigger] s[k].path@ == q;
            if k == s.len() - 1 {
                assert(s.last().path@ == q);
            } else {
                assert(t[k] == s[k]);
                assert(t[k].path@ == q);
                assert(files_of(t).dom().contains(q));
            }
        }
    }
}

/// Removing under `p` twice is the same as removing once.
pub proof fn lemma_remove_under_idempotent(m: Map<Seq<char>, FsFile>, p: Seq<char>)
    ensures
        remove_under(remove_under(m, p), p) == remove_under(m, p),
{
    assert(remove_under(remove_under(m, p), p) =~= remove_under(m, p));
}

} // verus!
