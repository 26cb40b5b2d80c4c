//! Environment diffing for `exec-env`: the caller dumps the environment
//! before and after sourcing the script under a shell; the library
//! keeps the variables the script added or changed. Removed variables
//! are ignored.

use vstd::prelude::*;
use crate::script::env_of;

verus! {

/// The pair belongs to the diff: its key is new, or its value changed.
pub open spec fn added_or_changed(pre: Map<Seq<char>, Seq<char>>, p: (String, String)) -> bool {
    !(pre.contains_key(p.0@) && pre[p.0@] == p.1@)
}

/// The diff predicate against a fixed pre-invocation environment.
pub open spec fn diff_pred(pre: Map<Seq<char>, Seq<char>>) -> spec_fn((String, String)) -> bool {
    |p: (String, String)| added_or_changed(pre, p)
}

/// The added and changed entries of `post` against `pre`.
pub open spec fn spec_env_diff(
    pre: Seq<(String, String)>,
    post: Seq<(String, String)>,
) -> Seq<(String, String)> {
    post.filter(diff_pred(env_of(pre)))
}

/// Look a key up in an environment dump (a later entry wins).
pub fn env_get<'a>(env: &'a Vec<(String, String)>, key: &str) -> (r: Option<&'a String>)
    ensures
        match r {
            Some(v) => env_of(env@).contains_key(key@) && v@ == env_of(env@)[key@],
            None => !env_of(env@).contains_key(key@),
        },
{
    let n = env.len();
    let mut i: usize = n;
    proof {
        assert(env@.take(n as int) =~= env@);
    }
    while i > 0
        invariant
            n == env@.len(),
            i <= n,
            env_of(env@).contains_key(key@) ==> env_of(env@.take(i as int)).contains_key(key@)
                && env_of(env@.take(i as int))[key@] == env_of(env@)[key@],
            !env_of(env@).contains_key(key@) ==> !env_of(env@.take(i as int)).contains_key(
                key@,
            ),
        decreases i,
    {
        i = i - 1;
        proof {
            assert(env@.take(i as int + 1).drop_last() =~= env@.take(i as int));
            assert(env@.take(i as int + 1).last() == env@[i as int]);
        }
        let pair = &env[i];
        if crate::text::str_eq(pair.0.as_str(), key) {
            return Some(&pair.1);
        }
    }
    proof {
        assert(env@.take(0) =~= Seq::<(String, String)>::empty());
    }
    None
}

/// The added and changed variables of `post` against `pre`, in the
/// order `post` lists them.
pub fn env_diff_added_changed(pre: &Vec<(String, String)>, post: &Vec<(String, String)>) -> (r:
    Vec<(String, String)>)
    ensures
        r@ == spec_env_diff(pre@, post@),
{
    let ghost pred = diff_pred(env_of(pre@));
    let mut r: Vec<(String, String)> = Vec::new();
    let n = post.len();
    let mut i: usize = 0;
    proof {
        reveal(Seq::filter);
        assert(post@.take(0) =~= Seq::<(String, String)>::empty());
        assert(r@ =~= post@.take(0).filter(pred));
    }
    while i < n
        invariant
            n == post@.len(),
            i <= n,
            pred == diff_pred(env_of(pre@)),
            r@ == post@.take(i as int).filter(pred),
        decreases n - i,
    {
        let pair = &post[i];
        let keep: bool = match env_get(pre, pair.0.as_str()) {
            Some(v) => !crate::text::str_eq(v.as_str(), pair.1.as_str()),
            None => true,
        };
        proof {
            reveal(Seq::filter);
            assert(post@.take(i as int + 1).drop_last() =~= post@.take(i as int));
            assert(post@.take(i as int + 1).last() == post@[i as int]);
            assert(keep == pred(post@[i as int]));
        }
        if keep {
            r.push((pair.0.clone(), pair.1.clone()));
            proof {
                assert(r@.drop_last() =~= post@.take(i as int).filter(pred));
                assert(r@.last() == (post@[i as int].0, post@[i as int].1));
                assert(r@.last() == post@[i as int]);
                assert(r@ =~= post@.take(i as int + 1).filter(pred));
            }
        }
        i = i + 1;
    }
    proof {
        assert(post@.take(n as int) =~= post@);
    }
    r
}

} // verus!
