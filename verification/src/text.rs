//! Character-level text utilities: whitespace splitting, line splitting,
//! trimming and prefix tests, each with an exact specification. Plugin
//! scripts speak a whitespace- and line-oriented stdout grammar, so these
//! are the grammar of the whole subsystem.

use vstd::prelude::*;

verus! {

/// The whitespace characters of the script stdout grammar (ASCII).
pub open spec fn is_ws(c: char) -> bool {
    c == ' ' || c == '\t' || c == '\n' || c == '\r' || c == '\u{b}' || c == '\u{c}'
}

pub fn is_ws_exec(c: char) -> (r: bool)
    ensures
        r == is_ws(c),
{
    c == ' ' || c == '\t' || c == '\n' || c == '\r' || c == '\u{b}' || c == '\u{c}'
}

/// Length of the longest prefix of `s` made of non-whitespace characters.
pub open spec fn token_len(s: Seq<char>) -> nat
    decreases s.len(),
{
    if s.len() == 0 || is_ws(s[0]) {
        0
    } else {
        1 + token_len(s.skip(1))
    }
}

/// `s` split on runs of whitespace; empty tokens do not occur.
pub open spec fn split_ws(s: Seq<char>) -> Seq<Seq<char>>
    decreases s.len(),
    via split_ws_decreases
{
    if s.len() == 0 {
        Seq::empty()
    } else if is_ws(s[0]) {
        split_ws(s.skip(1))
    } else {
        seq![s.take(token_len(s) as int)] + split_ws(s.skip(token_len(s) as int))
    }
}

proof fn lemma_token_len_bound(s: Seq<char>)
    ensures
        token_len(s) <= s.len(),
    decreases s.len(),
{
    if s.len() != 0 && !is_ws(s[0]) {
        lemma_token_len_bound(s.skip(1));
    }
}

#[via_fn]
proof fn split_ws_decreases(s: Seq<char>) {
    if s.len() != 0 && !is_ws(s[0]) {
        lemma_token_len_bound(s);
        assert(token_len(s) == 1 + token_len(s.skip(1)));
    }
}

/// The token length is exactly the first index at which a whitespace
/// character (or the end of the sequence) stands.
proof fn lemma_token_len_is(s: Seq<char>, m: int)
    requires
        0 <= m <= s.len(),
        forall|k: int| 0 <= k < m ==> !is_ws(s[k]),
        m == s.len() || is_ws(s[m]),
    ensures
        token_len(s) == m,
    decreases m,
{
    if m == 0 {
    } else {
        assert(!is_ws(s[0]));
        lemma_token_len_is(s.skip(1), m - 1);
    }
}

/// One unfolding step of `split_ws` at a whitespace character.
proof fn lemma_split_ws_ws(s: Seq<char>, i: int)
    requires
        0 <= i < s.len(),
        is_ws(s[i]),
    ensures
        split_ws(s.skip(i)) == split_ws(s.skip(i + 1)),
{
    assert(s.skip(i).skip(1) =~= s.skip(i + 1));
    assert(s.skip(i)[0] == s[i]);
}

/// One unfolding step of `split_ws` at the head of a token of length `m`.
proof fn lemma_split_ws_token(s: Seq<char>, i: int, j: int)
    requires
        0 <= i < j <= s.len(),
        forall|k: int| i <= k < j ==> !is_ws(s[k]),
        j == s.len() || is_ws(s[j]),
    ensures
        split_ws(s.skip(i)) == seq![s.subrange(i, j)] + split_ws(s.skip(j)),
{
    let t = s.skip(i);
    assert(forall|k: int| 0 <= k < j - i ==> t[k] == s[k + i] && !is_ws(#[trigger] t[k]));
    if j < s.len() {
        assert(t[j - i] == s[j]);
    }
    lemma_token_len_is(t, j - i);
    assert(!is_ws(t[0]));
    assert(t.take(j - i) =~= s.subrange(i, j));
    assert(t.skip(j - i) =~= s.skip(j));
}

/// The characters of `s`, in order.
pub fn to_chars(s: &str) -> (r: Vec<char>)
    ensures
        r@ == s@,
{
    let n = s.unicode_len();
    let mut r: Vec<char> = Vec::new();
    let mut i: usize = 0;
    while i < n
        invariant
            n == s@.len(),
            i <= n,
            r@ == s@.take(i as int),
        decreases n - i,
    {
        r.push(s.get_char(i));
        i = i + 1;
        assert(r@ =~= s@.take(i as int));
    }
    assert(r@ =~= s@);
    r
}

/// Relies on `core::iter::Iterator::collect` for `String`: collecting
/// chars yields the string of exactly those characters, in order.
#[verifier::external_body]
pub fn chars_to_string(v: &Vec<char>) -> (r: String)
    ensures
        r@ == v@,
{
    v.iter().collect()
}

/// `s` split on runs of whitespace, as owned strings.
pub fn split_ws_exec(cs: &Vec<char>) -> (r: Vec<String>)
    ensures
        r@.map_values(|t: String| t@) == split_ws(cs@),
{
    let n = cs.len();
    let mut r: Vec<String> = Vec::new();
    let mut i: usize = 0;
    proof {
        assert(cs@.skip(0) =~= cs@);
        assert(r@.map_values(|t: String| t@) =~= Seq::<Seq<char>>::empty());
    }
    while i < n
        invariant
            n == cs@.len(),
            i <= n,
            split_ws(cs@) == r@.map_values(|t: String| t@) + split_ws(cs@.skip(i as int)),
        decreases n - i,
    {
        if is_ws_exec(cs[i]) {
            proof {
                lemma_split_ws_ws(cs@, i as int);
            }
            i = i + 1;
        } else {
            let start = i;
            let mut tok: Vec<char> = Vec::new();
            while i < n && !is_ws_exec(cs[i])
                invariant
                    n == cs@.len(),
                    start <= i <= n,
                    tok@ == cs@.subrange(start as int, i as int),
                    forall|k: int| start <= k < i ==> !is_ws(cs@[k]),
                decreases n - i,
            {
                tok.push(cs[i]);
                i = i + 1;
                assert(tok@ =~= cs@.subrange(start as int, i as int));
            }
            let t = chars_to_string(&tok);
            proof {
                lemma_split_ws_token(cs@, start as int, i as int);
                assert(r@.push(t).map_values(|t: String| t@) =~= r@.map_values(
                    |t: String| t@,
                ).push(t@));
            }
            r.push(t);
            assert(split_ws(cs@) == r@.map_values(|t: String| t@) + split_ws(
                cs@.skip(i as int),
            ));
        }
    }
    assert(cs@.skip(n as int) =~= Seq::<char>::empty());
    assert(r@.map_values(|t: String| t@) =~= r@.map_values(|t: String| t@) + split_ws(
        cs@.skip(n as int),
    ));
    r
}

/// `split_ws` of a string, spelled over its view.
pub fn split_ws_str(s: &str) -> (r: Vec<String>)
    ensures
        r@.map_values(|t: String| t@) == split_ws(s@),
{
    let cs = to_chars(s);
    split_ws_exec(&cs)
}

/// Number of leading whitespace characters.
pub open spec fn ws_prefix_len(s: Seq<char>) -> nat
    decreases s.len(),
{
    if s.len() == 0 || !is_ws(s[0]) {
        0
    } else {
        1 + ws_prefix_len(s.skip(1))
    }
}

/// Number of trailing whitespace characters.
pub open spec fn ws_suffix_len(s: Seq<char>) -> nat
    decreases s.len(),
{
    if s.len() == 0 || !is_ws(s[s.len() - 1]) {
        0
    } else {
        1 + ws_suffix_len(s.take(s.len() - 1))
    }
}

/// `s` with leading and trailing whitespace removed.
pub open spec fn spec_trim(s: Seq<char>) -> Seq<char> {
    if ws_prefix_len(s) == s.len() {
        Seq::empty()
    } else {
        s.subrange(ws_prefix_len(s) as int, s.len() - ws_suffix_len(s))
    }
}

proof fn lemma_ws_prefix_len_is(s: Seq<char>, m: int)
    requires
        0 <= m <= s.len(),
        forall|k: int| 0 <= k < m ==> is_ws(s[k]),
        m == s.len() || !is_ws(s[m]),
    ensures
        ws_prefix_len(s) == m,
    decreases m,
{
    if m == 0 {
    } else {
        assert(is_ws(s[0]));
        lemma_ws_prefix_len_is(s.skip(1), m - 1);
    }
}

proof fn lemma_ws_suffix_len_is(s: Seq<char>, m: int)
    requires
        0 <= m <= s.len(),
        forall|k: int| s.len() - m <= k < s.len() ==> is_ws(s[k]),
        m == s.len() || !is_ws(s[s.len() - m - 1]),
    ensures
        ws_suffix_len(s) == m,
    decreases m,
{
    if m == 0 {
    } else {
        assert(is_ws(s[s.len() - 1]));
        lemma_ws_suffix_len_is(s.take(s.len() - 1), m - 1);
    }
}

/// Trim whitespace from both ends of `cs`.
pub fn trim_exec(cs: &Vec<char>) -> (r: Vec<char>)
    ensures
        r@ == spec_trim(cs@),
{
    let n = cs.len();
    let mut a: usize = 0;
    while a < n && is_ws_exec(cs[a])
        invariant
            n == cs@.len(),
            a <= n,
            forall|k: int| 0 <= k < a ==> is_ws(cs@[k]),
        decreases n - a,
    {
        a = a + 1;
    }
    proof {
        lemma_ws_prefix_len_is(cs@, a as int);
    }
    if a == n {
        let r: Vec<char> = Vec::new();
        assert(r@ =~= spec_trim(cs@));
        return r;
    }
    let mut b: usize = n;
    while b > a && is_ws_exec(cs[b - 1])
        invariant
            n == cs@.len(),
            a <= b <= n,
            a < n,
            !is_ws(cs@[a as int]),
            forall|k: int| b <= k < n ==> is_ws(cs@[k]),
        decreases b,
    {
        b = b - 1;
    }
    proof {
        lemma_ws_suffix_len_is(cs@, n - b);
    }
    let mut r: Vec<char> = Vec::new();
    let mut i: usize = a;
    while i < b
        invariant
            a <= i <= b <= n,
            n == cs@.len(),
            r@ == cs@.subrange(a as int, i as int),
        decreases b - i,
    {
        r.push(cs[i]);
        i = i + 1;
        assert(r@ =~= cs@.subrange(a as int, i as int));
    }
    r
}

/// Trim a string, returning an owned string whose view is `spec_trim`.
pub fn trim_str(s: &str) -> (r: String)
    ensures
        r@ == spec_trim(s@),
{
    let cs = to_chars(s);
    let t = trim_exec(&cs);
    chars_to_string(&t)
}

/// `prefix` is a prefix of `s`.
pub open spec fn starts_with(s: Seq<char>, prefix: Seq<char>) -> bool {
    prefix.len() <= s.len() && s.take(prefix.len() as int) == prefix
}

pub fn starts_with_exec(s: &Vec<char>, prefix: &Vec<char>) -> (r: bool)
    ensures
        r == starts_with(s@, prefix@),
{
    let np = prefix.len();
    if np > s.len() {
        return false;
    }
    let mut i: usize = 0;
    while i < np
        invariant
            np == prefix@.len() <= s@.len(),
            i <= np,
            forall|k: int| 0 <= k < i ==> s@[k] == prefix@[k],
        decreases np - i,
    {
        if s[i] != prefix[i] {
            assert(s@.take(np as int)[i as int] != prefix@[i as int]);
            return false;
        }
        i = i + 1;
    }
    assert(s@.take(np as int) =~= prefix@);
    true
}

/// `prefix` is a prefix of `s`, on strings.
pub fn str_starts_with(s: &str, prefix: &str) -> (r: bool)
    ensures
        r == starts_with(s@, prefix@),
{
    let cs = to_chars(s);
    let cp = to_chars(prefix);
    starts_with_exec(&cs, &cp)
}

/// `suffix` is a suffix of `s`.
pub open spec fn ends_with(s: Seq<char>, suffix: Seq<char>) -> bool {
    suffix.len() <= s.len() && s.skip(s.len() - suffix.len()) == suffix
}

pub fn str_ends_with(s: &str, suffix: &str) -> (r: bool)
    ensures
        r == ends_with(s@, suffix@),
{
    let cs = to_chars(s);
    let cf = to_chars(suffix);
    let ns = cs.len();
    let nf = cf.len();
    if nf > ns {
        return false;
    }
    let mut i: usize = 0;
    while i < nf
        invariant
            cs@ == s@,
            cf@ == suffix@,
            nf == suffix@.len() <= ns == s@.len(),
            i <= nf,
            forall|k: int| 0 <= k < i ==> s@[ns - nf + k] == suffix@[k],
        decreases nf - i,
    {
        if cs[ns - nf + i] != cf[i] {
            assert(s@.skip(ns - nf)[i as int] != suffix@[i as int]);
            return false;
        }
        i = i + 1;
    }
    assert(s@.skip(ns - nf) =~= suffix@);
    true
}

/// `s` split at every occurrence of `sep`; empty pieces are kept, so the
/// result always holds one more piece than `s` holds separators.
pub open spec fn split_on(s: Seq<char>, sep: char) -> Seq<Seq<char>>
    decreases s.len(),
    via split_on_decreases
{
    let i = until_len(s, sep);
    if i == s.len() {
        seq![s]
    } else {
        seq![s.take(i as int)] + split_on(s.skip(i as int + 1), sep)
    }
}

proof fn lemma_until_len_bound(s: Seq<char>, sep: char)
    ensures
        until_len(s, sep) <= s.len(),
    decreases s.len(),
{
    if s.len() != 0 && s[0] != sep {
        lemma_until_len_bound(s.skip(1), sep);
    }
}

#[via_fn]
proof fn split_on_decreases(s: Seq<char>, sep: char) {
    lemma_until_len_bound(s, sep);
}

/// Index of the first occurrence of `sep` in `s`, or `s.len()`.
pub open spec fn until_len(s: Seq<char>, sep: char) -> nat
    decreases s.len(),
{
    if s.len() == 0 || s[0] == sep {
        0
    } else {
        1 + until_len(s.skip(1), sep)
    }
}

pub proof fn lemma_until_len_is(s: Seq<char>, sep: char, m: int)
    requires
        0 <= m <= s.len(),
        forall|k: int| 0 <= k < m ==> s[k] != sep,
        m == s.len() || s[m] == sep,
    ensures
        until_len(s, sep) == m,
    decreases m,
{
    if m > 0 {
        assert(s[0] != sep);
        lemma_until_len_is(s.skip(1), sep, m - 1);
    }
}

/// One unfolding step of `split_on` at position `i`, the piece ending at `j`.
proof fn lemma_split_on_step(s: Seq<char>, sep: char, i: int, j: int)
    requires
        0 <= i <= j <= s.len(),
        forall|k: int| i <= k < j ==> s[k] != sep,
        j == s.len() || s[j] == sep,
    ensures
        j == s.len() ==> split_on(s.skip(i), sep) == seq![s.subrange(i, j)],
        j < s.len() ==> split_on(s.skip(i), sep) == seq![s.subrange(i, j)] + split_on(
            s.skip(j + 1),
            sep,
        ),
{
    let t = s.skip(i);
    assert(forall|k: int| 0 <= k < j - i ==> t[k] == s[k + i] && #[trigger] t[k] != sep);
    if j < s.len() {
        assert(t[j - i] == s[j]);
    }
    lemma_until_len_is(t, sep, j - i);
    assert(t.take(j - i) =~= s.subrange(i, j));
    if j == s.len() {
        assert(t =~= s.subrange(i, j));
    } else {
        assert(t.skip(j - i + 1) =~= s.skip(j + 1));
    }
}

/// `s` split at `sep`, as owned strings.
pub fn split_on_exec(cs: &Vec<char>, sep: char) -> (r: Vec<String>)
    ensures
        r@.map_values(|t: String| t@) == split_on(cs@, sep),
{
    let n = cs.len();
    let mut r: Vec<String> = Vec::new();
    let mut i: usize = 0;
    proof {
        assert(cs@.skip(0) =~= cs@);
        assert(r@.map_values(|t: String| t@) =~= Seq::<Seq<char>>::empty());
    }
    loop
        invariant
            n == cs@.len(),
            i <= n,
            split_on(cs@, sep) == r@.map_values(|t: String| t@) + split_on(
                cs@.skip(i as int),
                sep,
            ),
        ensures
            r@.map_values(|t: String| t@) == split_on(cs@, sep),
        decreases n - i + 1,
    {
        let start = i;
        let mut piece: Vec<char> = Vec::new();
        while i < n && cs[i] != sep
            invariant
                n == cs@.len(),
                start <= i <= n,
                piece@ == cs@.subrange(start as int, i as int),
                forall|k: int| start <= k < i ==> cs@[k] != sep,
            decreases n - i,
        {
            piece.push(cs[i]);
            i = i + 1;
            assert(piece@ =~= cs@.subrange(start as int, i as int));
        }
        let p = chars_to_string(&piece);
        proof {
            lemma_split_on_step(cs@, sep, start as int, i as int);
            assert(r@.push(p).map_values(|t: String| t@) =~= r@.map_values(
                |t: String| t@,
            ).push(p@));
        }
        r.push(p);
        if i == n {
            assert(r@.map_values(|t: String| t@) =~= split_on(cs@, sep));
            return r;
        }
        i = i + 1;
        assert(split_on(cs@, sep) == r@.map_values(|t: String| t@) + split_on(
            cs@.skip(i as int),
            sep,
        ));
    }
}

/// Uppercase for the ASCII letters; every other character is unchanged.
/// Tool option keys are short identifiers, so this is the whole alphabet
/// the environment composition needs.
pub open spec fn upper_char(c: char) -> char {
    if 97 <= c as u32 && c as u32 <= 122 {
        (((c as u32) - 32) as u8) as char
    } else {
        c
    }
}

pub open spec fn spec_upper(s: Seq<char>) -> Seq<char> {
    s.map_values(|c: char| upper_char(c))
}

/// ASCII-uppercase a string.
pub fn upper_str(s: &str) -> (r: String)
    ensures
        r@ == spec_upper(s@),
{
    let cs = to_chars(s);
    let mut r: Vec<char> = Vec::new();
    let mut i: usize = 0;
    while i < cs.len()
        invariant
            i <= cs@.len(),
            cs@ == s@,
            r@ == spec_upper(s@.take(i as int)),
        decreases cs@.len() - i,
    {
        let c = cs[i];
        let v = c as u32;
        if 97 <= v && v <= 122 {
            r.push(((v - 32) as u8) as char);
        } else {
            r.push(c);
        }
        i = i + 1;
        assert(r@ =~= spec_upper(s@.take(i as int)));
    }
    assert(s@.take(cs@.len() as int) =~= s@);
    chars_to_string(&r)
}

/// Concatenation of two strings.
pub fn concat_str(a: &str, b: &str) -> (r: String)
    ensures
        r@ == a@ + b@,
{
    let mut r = a.to_owned();
    r.append(b);
    r
}

/// Concatenation of three strings.
pub fn concat3_str(a: &str, b: &str, c: &str) -> (r: String)
    ensures
        r@ == a@ + b@ + c@,
{
    let mut r = a.to_owned();
    r.append(b);
    r.append(c);
    r
}

/// String equality over views.
pub fn str_eq(a: &str, b: &str) -> (r: bool)
    ensures
        r == (a@ == b@),
{
    let ca = to_chars(a);
    let cb = to_chars(b);
    if ca.len() != cb.len() {
        return false;
    }
    let mut i: usize = 0;
    while i < ca.len()
        invariant
            ca@ == a@,
            cb@ == b@,
            a@.len() == b@.len(),
            i <= a@.len(),
            forall|k: int| 0 <= k < i ==> a@[k] == b@[k],
        decreases ca@.len() - i,
    {
        if ca[i] != cb[i] {
            return false;
        }
        i = i + 1;
    }
    proof {
        assert(a@ =~= b@);
    }
    true
}

} // verus!
