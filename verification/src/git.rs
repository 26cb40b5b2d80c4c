//! The textual part of the git adapter: parsing `URL#REF` into the URL
//! and the optional ref. Running git itself is the caller's part; what
//! it reports (the current short SHA, whether the clone is a repo)
//! enters the library as plain values.

use vstd::prelude::*;
use crate::text::until_len;

verus! {

/// `URL#REF` split at the first `#`; no `#`, no ref.
pub open spec fn spec_split_url_and_ref(s: Seq<char>) -> (Seq<char>, Option<Seq<char>>) {
    let i = until_len(s, '#');
    if i == s.len() {
        (s, None)
    } else {
        (s.take(i as int), Some(s.skip(i as int + 1)))
    }
}

/// Split a repository spec into the URL and the optional ref behind `#`.
pub fn split_url_and_ref(s: &str) -> (r: (String, Option<String>))
    ensures
        r.0@ == spec_split_url_and_ref(s@).0,
        match r.1 {
            Some(rf) => spec_split_url_and_ref(s@).1 == Some(rf@),
            None => spec_split_url_and_ref(s@).1 is None,
        },
{
    let cs = crate::text::to_chars(s);
    let n = cs.len();
    let mut i: usize = 0;
    while i < n && cs[i] != '#'
        invariant
            cs@ == s@,
            n == s@.len(),
            i <= n,
            forall|k: int| 0 <= k < i ==> s@[k] != '#',
        decreases n - i,
    {
        i = i + 1;
    }
    proof {
        crate::text::lemma_until_len_is(s@, '#', i as int);
    }
    if i == n {
        return (s.to_owned(), None);
    }
    let mut url: Vec<char> = Vec::new();
    let mut k: usize = 0;
    while k < i
        invariant
            cs@ == s@,
            i <= n == s@.len(),
            k <= i,
            url@ == s@.subrange(0, k as int),
        decreases i - k,
    {
        url.push(cs[k]);
        k = k + 1;
        assert(url@ =~= s@.subrange(0, k as int));
    }
    let mut rf: Vec<char> = Vec::new();
    let mut j: usize = i + 1;
    while j < n
        invariant
            cs@ == s@,
            i < n == s@.len(),
            i + 1 <= j <= n,
            rf@ == s@.subrange(i as int + 1, j as int),
        decreases n - j,
    {
        rf.push(cs[j]);
        j = j + 1;
        assert(rf@ =~= s@.subrange(i as int + 1, j as int));
    }
    proof {
        assert(url@ =~= s@.take(i as int));
        assert(rf@ =~= s@.skip(i as int + 1));
    }
    (crate::text::chars_to_string(&url), Some(crate::text::chars_to_string(&rf)))
}

} // verus!
