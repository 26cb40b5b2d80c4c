//! The on-disk value cache. An instance names its file, an optional
//! maximum age and the sentinel files whose modification times bound
//! freshness: the stored value counts only while every sentinel is no
//! newer than the cache file and the cache file is young enough. A
//! stale, missing or undecodable file is a miss; the caller then
//! recomputes and stores.

use vstd::prelude::*;
use crate::codec::{CacheValue, SpecCacheValue, spec_decode, spec_encode};
use crate::fsmodel::{FsFile, FsModel};

verus! {

#[derive(Debug)]
pub struct CacheManager {
    pub path: String,
    /// Maximum age in seconds, if bounded.
    pub fresh_duration: Option<u64>,
    pub fresh_files: Vec<String>,
}

impl CacheManager {
    pub fn new(path: String) -> (r: CacheManager)
        ensures
            r.path@ == path@,
            r.fresh_duration is None,
            r.fresh_files@.len() == 0,
    {
        CacheManager { path, fresh_duration: None, fresh_files: Vec::new() }
    }

    pub fn with_fresh_duration(self, d: u64) -> (r: CacheManager)
        ensures
            r.path@ == self.path@,
            r.fresh_duration == Some(d),
            r.fresh_files@ == self.fresh_files@,
    {
        CacheManager { fresh_duration: Some(d), ..self }
    }

    pub fn with_fresh_file(self, f: String) -> (r: CacheManager)
        ensures
            r.path@ == self.path@,
            r.fresh_duration == self.fresh_duration,
            r.fresh_files@ == self.fresh_files@.push(f),
    {
        let mut fresh_files = self.fresh_files;
        fresh_files.push(f);
        CacheManager { fresh_files, ..self }
    }

    /// The cache file exists, every sentinel file that exists is no
    /// newer than it, and its age does not exceed the configured bound.
    pub open spec fn spec_fresh(self, fs: FsModel, now: u64) -> bool {
        &&& fs.has_file(self.path@)
        &&& forall|k: int|
            0 <= k < self.fresh_files@.len() ==> (fs.has_file(#[trigger] self.fresh_files@[k]@)
                ==> fs.file_mtime(self.fresh_files@[k]@) <= fs.file_mtime(self.path@))
        &&& match self.fresh_duration {
            Some(d) => now <= fs.file_mtime(self.path@) + d,
            None => true,
        }
    }

    /// The freshness decision: a hit is possible only when this holds.
    pub fn is_fresh(&self, fs: &FsModel, now: u64) -> (r: bool)
        ensures
            r == self.spec_fresh(*fs, now),
    {
        let cache_mtime: u64 = match fs.lookup(self.path.as_str()) {
            Some((m, _)) => m,
            None => {
                return false;
            },
        };
        let n = self.fresh_files.len();
        let mut k: usize = 0;
        while k < n
            invariant
                n == self.fresh_files@.len(),
                k <= n,
                fs.has_file(self.path@),
                cache_mtime == fs.file_mtime(self.path@),
                forall|j: int|
                    0 <= j < k ==> (fs.has_file(#[trigger] self.fresh_files@[j]@)
                        ==> fs.file_mtime(self.fresh_files@[j]@) <= fs.file_mtime(self.path@)),
            decreases n - k,
        {
            match fs.lookup(self.fresh_files[k].as_str()) {
                Some((m, _)) => {
                    if m > cache_mtime {
                        return false;
                    }
                },
                None => {},
            }
            k = k + 1;
        }
        match self.fresh_duration {
            Some(d) => {
                if now > cache_mtime {
                    now - cache_mtime <= d
                } else {
                    true
                }
            },
            None => true,
        }
    }

    /// What the cache yields: the decoded value when fresh, else a miss.
    pub open spec fn spec_lookup(self, fs: FsModel, now: u64) -> Option<SpecCacheValue> {
        if self.spec_fresh(fs, now) {
            spec_decode(fs.file_content(self.path@))
        } else {
            None
        }
    }

    /// Read the cache: the stored value exactly when the file is fresh
    /// and decodes.
    pub fn lookup_value(&self, fs: &FsModel, now: u64) -> (r: Option<CacheValue>)
        ensures
            match r {
                Some(v) => self.spec_lookup(*fs, now) == Some(v.view_spec()),
                None => self.spec_lookup(*fs, now) is None,
            },
    {
        if !self.is_fresh(fs, now) {
            return None;
        }
        match fs.lookup(self.path.as_str()) {
            Some((_, content)) => crate::codec::decode(content.as_str()),
            None => None,
        }
    }

    /// Store a value: the cache file now holds its encoding, written at
    /// `now`; no other file moves.
    pub fn store(&self, fs: &mut FsModel, v: &CacheValue, now: u64)
        ensures
            final(fs).files() == old(fs).files().insert(
                self.path@,
                FsFile { mtime: now, content: spec_encode(v.view_spec()) },
            ),
    {
        let encoded = crate::codec::encode(v);
        fs.write(self.path.as_str(), encoded.as_str(), now);
    }
}

/// Storing a value and reading it back within the freshness bounds is a
/// hit that yields the value — so a second query within the window
/// needs no recomputation: reading leaves the filesystem untouched, and
/// the hit it returns is decided by the file alone.
pub proof fn law_store_then_lookup(
    cm: CacheManager,
    fs0: FsModel,
    fs1: FsModel,
    v: CacheValue,
    now: u64,
    later: u64,
)
    requires
        fs1.files() == fs0.files().insert(
            cm.path@,
            FsFile { mtime: now, content: spec_encode(v.view_spec()) },
        ),
        forall|k: int|
            0 <= k < cm.fresh_files@.len() ==> (fs1.has_file(#[trigger] cm.fresh_files@[k]@)
                ==> fs1.file_mtime(cm.fresh_files@[k]@) <= now),
        match cm.fresh_duration {
            Some(d) => later <= now + d,
            None => true,
        },
    ensures
        cm.spec_lookup(fs1, later) == Some(v.view_spec()),
{
    assert(fs1.has_file(cm.path@));
    assert(fs1.file_mtime(cm.path@) == now);
    assert(fs1.file_content(cm.path@) == spec_encode(v.view_spec()));
    assert(cm.spec_fresh(fs1, later));
    crate::codec::law_codec_round_trip(v.view_spec());
}

} // verus!
