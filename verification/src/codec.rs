//! The self-describing textual encoding of cache values. A value is a
//! tag character followed by its payload; strings are escaped (`%` is
//! doubled) and terminated by `%.`, lists by `%;`. Decoding any encoded
//! value yields the value back; decoding anything else fails, and a
//! failed decode is a cache miss, never an error.

use vstd::prelude::*;

verus! {

/// A value the on-disk caches hold.
pub enum CacheValue {
    RemoteVersions(Vec<String>),
    LatestStable(Option<String>),
    Aliases(Vec<(String, String)>),
    LegacyFilenames(Vec<String>),
}

/// The mathematical shape of a cache value.
pub ghost enum SpecCacheValue {
    RemoteVersions(Seq<Seq<char>>),
    LatestStable(Option<Seq<char>>),
    Aliases(Seq<(Seq<char>, Seq<char>)>),
    LegacyFilenames(Seq<Seq<char>>),
}

pub open spec fn seq_views(s: Seq<String>) -> Seq<Seq<char>> {
    s.map_values(|x: String| x@)
}

pub open spec fn pair_views(s: Seq<(String, String)>) -> Seq<(Seq<char>, Seq<char>)> {
    s.map_values(|p: (String, String)| (p.0@, p.1@))
}

impl CacheValue {
    pub open spec fn view_spec(self) -> SpecCacheValue {
        match self {
            CacheValue::RemoteVersions(vs) => SpecCacheValue::RemoteVersions(seq_views(vs@)),
            CacheValue::LatestStable(o) => SpecCacheValue::LatestStable(
                match o {
                    Some(s) => Some(s@),
                    None => None,
                },
            ),
            CacheValue::Aliases(ps) => SpecCacheValue::Aliases(pair_views(ps@)),
            CacheValue::LegacyFilenames(fs) => SpecCacheValue::LegacyFilenames(seq_views(fs@)),
        }
    }
}

/// The escaped form of one character.
pub open spec fn esc1(c: char) -> Seq<char> {
    if c == '%' {
        seq!['%', '%']
    } else {
        seq![c]
    }
}

/// The escaped form of a string.
pub open spec fn esc(s: Seq<char>) -> Seq<char>
    decreases s.len(),
{
    if s.len() == 0 {
        Seq::empty()
    } else {
        esc1(s[0]) + esc(s.skip(1))
    }
}

/// A string's encoding: escaped, then the `%.` terminator.
pub open spec fn enc_str(s: Seq<char>) -> Seq<char> {
    esc(s) + seq!['%', '.']
}

/// The encodings of the items of a list, concatenated.
pub open spec fn enc_items(items: Seq<Seq<char>>) -> Seq<char>
    decreases items.len(),
{
    if items.len() == 0 {
        Seq::empty()
    } else {
        enc_str(items[0]) + enc_items(items.skip(1))
    }
}

/// A list's encoding: its items, then the `%;` terminator.
pub open spec fn enc_list(items: Seq<Seq<char>>) -> Seq<char> {
    enc_items(items) + seq!['%', ';']
}

/// The encodings of the pairs of an alias list, concatenated.
pub open spec fn enc_pair_items(ps: Seq<(Seq<char>, Seq<char>)>) -> Seq<char>
    decreases ps.len(),
{
    if ps.len() == 0 {
        Seq::empty()
    } else {
        enc_str(ps[0].0) + enc_str(ps[0].1) + enc_pair_items(ps.skip(1))
    }
}

pub open spec fn enc_pairs(ps: Seq<(Seq<char>, Seq<char>)>) -> Seq<char> {
    enc_pair_items(ps) + seq!['%', ';']
}

/// The encoding of a cache value: a tag, then the payload.
pub open spec fn spec_encode(v: SpecCacheValue) -> Seq<char> {
    match v {
        SpecCacheValue::RemoteVersions(vs) => seq!['V'] + enc_list(vs),
        SpecCacheValue::LatestStable(None) => seq!['N'],
        SpecCacheValue::LatestStable(Some(s)) => seq!['S'] + enc_str(s),
        SpecCacheValue::Aliases(ps) => seq!['A'] + enc_pairs(ps),
        SpecCacheValue::LegacyFilenames(fs) => seq!['F'] + enc_list(fs),
    }
}

/// Decode one string: the decoded characters and the rest of the input.
pub open spec fn dec_str(s: Seq<char>) -> Option<(Seq<char>, Seq<char>)>
    decreases s.len(),
{
    if s.len() == 0 {
        None
    } else if s[0] != '%' {
        match dec_str(s.skip(1)) {
            Some((d, r)) => Some((seq![s[0]] + d, r)),
            None => None,
        }
    } else if s.len() < 2 {
        None
    } else if s[1] == '%' {
        match dec_str(s.skip(2)) {
            Some((d, r)) => Some((seq!['%'] + d, r)),
            None => None,
        }
    } else if s[1] == '.' {
        Some((Seq::empty(), s.skip(2)))
    } else {
        None
    }
}

/// Decode a list of strings up to its terminator.
pub open spec fn dec_list(s: Seq<char>) -> Option<(Seq<Seq<char>>, Seq<char>)>
    decreases s.len(),
{
    if s.len() >= 2 && s[0] == '%' && s[1] == ';' {
        Some((Seq::empty(), s.skip(2)))
    } else {
        match dec_str(s) {
            Some((d, r)) => if r.len() < s.len() {
                match dec_list(r) {
                    Some((ds, r2)) => Some((seq![d] + ds, r2)),
                    None => None,
                }
            } else {
                None
            },
            None => None,
        }
    }
}

/// Decode an alias list up to its terminator.
pub open spec fn dec_pairs(s: Seq<char>) -> Option<(Seq<(Seq<char>, Seq<char>)>, Seq<char>)>
    decreases s.len(),
{
    if s.len() >= 2 && s[0] == '%' && s[1] == ';' {
        Some((Seq::empty(), s.skip(2)))
    } else {
        match dec_str(s) {
            Some((k, r)) => if r.len() < s.len() {
                match dec_str(r) {
                    Some((v, r2)) => if r2.len() < s.len() {
                        match dec_pairs(r2) {
                            Some((ps, r3)) => Some((seq![(k, v)] + ps, r3)),
                            None => None,
                        }
                    } else {
                        None
                    },
                    None => None,
                }
            } else {
                None
            },
            None => None,
        }
    }
}

/// Decode a cache value; anything but a complete encoding fails.
pub open spec fn spec_decode(s: Seq<char>) -> Option<SpecCacheValue> {
    if s.len() == 0 {
        None
    } else if s[0] == 'V' {
        match dec_list(s.skip(1)) {
            Some((ds, r)) => if r.len() == 0 {
                Some(SpecCacheValue::RemoteVersions(ds))
            } else {
                None
            },
            None => None,
        }
    } else if s[0] == 'F' {
        match dec_list(s.skip(1)) {
            Some((ds, r)) => if r.len() == 0 {
                Some(SpecCacheValue::LegacyFilenames(ds))
            } else {
                None
            },
            None => None,
        }
    } else if s[0] == 'N' {
        if s.len() == 1 {
            Some(SpecCacheValue::LatestStable(None))
        } else {
            None
        }
    } else if s[0] == 'S' {
        match dec_str(s.skip(1)) {
            Some((d, r)) => if r.len() == 0 {
                Some(SpecCacheValue::LatestStable(Some(d)))
            } else {
                None
            },
            None => None,
        }
    } else if s[0] == 'A' {
        match dec_pairs(s.skip(1)) {
            Some((ps, r)) => if r.len() == 0 {
                Some(SpecCacheValue::Aliases(ps))
            } else {
                None
            },
            None => None,
        }
    } else {
        None
    }
}

// ------------------------------------------------------------------
// Round-trip proofs
// ------------------------------------------------------------------

/// Appending a character extends the escaped form at the end.
proof fn lemma_esc_push(s: Seq<char>, c: char)
    ensures
        esc(s.push(c)) == esc(s) + esc1(c),
    decreases s.len(),
{
    if s.len() == 0 {
        assert(s =~= Seq::<char>::empty());
        assert(s.push(c)[0] == c);
        assert(s.push(c).skip(1) =~= Seq::<char>::empty());
        assert(esc(Seq::<char>::empty()) == Seq::<char>::empty());
        assert(esc(s.push(c)) =~= esc(s) + esc1(c));
    } else {
        assert(s.push(c)[0] == s[0]);
        assert(s.push(c).skip(1) =~= s.skip(1).push(c));
        lemma_esc_push(s.skip(1), c);
        assert(esc(s.push(c)) =~= esc(s) + esc1(c));
    }
}

/// Appending an item extends the item encoding at the end.
proof fn lemma_enc_items_push(items: Seq<Seq<char>>, x: Seq<char>)
    ensures
        enc_items(items.push(x)) == enc_items(items) + enc_str(x),
    decreases items.len(),
{
    if items.len() == 0 {
        assert(items =~= Seq::<Seq<char>>::empty());
        assert(items.push(x)[0] == x);
        assert(items.push(x).skip(1) =~= Seq::<Seq<char>>::empty());
        assert(enc_items(Seq::<Seq<char>>::empty()) == Seq::<char>::empty());
        assert(enc_items(items.push(x)) =~= enc_items(items) + enc_str(x));
    } else {
        assert(items.push(x).skip(1) =~= items.skip(1).push(x));
        lemma_enc_items_push(items.skip(1), x);
        assert(items.push(x)[0] == items[0]);
        assert(enc_items(items.push(x)) =~= enc_items(items) + enc_str(x));
    }
}

proof fn lemma_enc_pair_items_push(ps: Seq<(Seq<char>, Seq<char>)>, x: (Seq<char>, Seq<char>))
    ensures
        enc_pair_items(ps.push(x)) == enc_pair_items(ps) + enc_str(x.0) + enc_str(x.1),
    decreases ps.len(),
{
    if ps.len() == 0 {
        assert(ps =~= Seq::<(Seq<char>, Seq<char>)>::empty());
        assert(ps.push(x)[0] == x);
        assert(ps.push(x).skip(1) =~= Seq::<(Seq<char>, Seq<char>)>::empty());
        assert(enc_pair_items(Seq::<(Seq<char>, Seq<char>)>::empty()) == Seq::<char>::empty());
        assert(enc_pair_items(ps.push(x)) =~= enc_pair_items(ps) + enc_str(x.0) + enc_str(x.1));
    } else {
        assert(ps.push(x).skip(1) =~= ps.skip(1).push(x));
        lemma_enc_pair_items_push(ps.skip(1), x);
        assert(ps.push(x)[0] == ps[0]);
        assert(enc_pair_items(ps.push(x)) =~= enc_pair_items(ps) + enc_str(x.0) + enc_str(x.1));
    }
}

/// Decoding an encoded string yields the string and the untouched rest.
proof fn lemma_dec_str_enc(s: Seq<char>, rest: Seq<char>)
    ensures
        dec_str(enc_str(s) + rest) == Some((s, rest)),
    decreases s.len(),
{
    let w = enc_str(s) + rest;
    if s.len() == 0 {
        assert(w =~= seq!['%', '.'] + rest);
        assert(w[0] == '%' && w[1] == '.');
        assert(w.skip(2) =~= rest);
    } else if s[0] != '%' {
        assert(w[0] == s[0]);
        lemma_dec_str_enc(s.skip(1), rest);
        assert(w.skip(1) =~= enc_str(s.skip(1)) + rest);
        assert(seq![s[0]] + s.skip(1) =~= s);
    } else {
        assert(w[0] == '%' && w[1] == '%');
        lemma_dec_str_enc(s.skip(1), rest);
        assert(w.skip(2) =~= enc_str(s.skip(1)) + rest);
        assert(seq!['%'] + s.skip(1) =~= s);
    }
}

/// An encoded string never begins with the list terminator `%;`.
proof fn lemma_enc_str_not_list_end(s: Seq<char>, rest: Seq<char>)
    ensures
        !((enc_str(s) + rest).len() >= 2 && (enc_str(s) + rest)[0] == '%' && (enc_str(s)
            + rest)[1] == ';'),
{
    let w = enc_str(s) + rest;
    if s.len() == 0 {
        assert(w =~= seq!['%', '.'] + rest);
        assert(w[1] == '.');
    } else if s[0] == '%' {
        assert(w[0] == '%' && w[1] == '%');
    } else {
        assert(w[0] == s[0]);
    }
}

/// Decoding an encoded list yields the items and the untouched rest.
proof fn lemma_dec_list_enc(items: Seq<Seq<char>>, rest: Seq<char>)
    ensures
        dec_list(enc_list(items) + rest) == Some((items, rest)),
    decreases items.len(),
{
    let w = enc_list(items) + rest;
    if items.len() == 0 {
        assert(w =~= seq!['%', ';'] + rest);
        assert(w[0] == '%' && w[1] == ';');
        assert(w.skip(2) =~= rest);
        assert(dec_list(w) == Some((Seq::<Seq<char>>::empty(), rest)));
        assert(items =~= Seq::<Seq<char>>::empty());
    } else {
        let tail = enc_list(items.skip(1)) + rest;
        assert(w =~= enc_str(items[0]) + tail);
        lemma_enc_str_not_list_end(items[0], tail);
        lemma_dec_str_enc(items[0], tail);
        assert(dec_str(w) == Some((items[0], tail)));
        assert(enc_str(items[0]).len() >= 2);
        assert(tail.len() < w.len());
        lemma_dec_list_enc(items.skip(1), rest);
        assert(seq![items[0]] + items.skip(1) =~= items);
    }
}

/// Decoding an encoded alias list yields the pairs and the rest.
proof fn lemma_dec_pairs_enc(ps: Seq<(Seq<char>, Seq<char>)>, rest: Seq<char>)
    ensures
        dec_pairs(enc_pairs(ps) + rest) == Some((ps, rest)),
    decreases ps.len(),
{
    let w = enc_pairs(ps) + rest;
    if ps.len() == 0 {
        assert(w =~= seq!['%', ';'] + rest);
        assert(w[0] == '%' && w[1] == ';');
        assert(w.skip(2) =~= rest);
        assert(ps =~= Seq::<(Seq<char>, Seq<char>)>::empty());
    } else {
        let mid = enc_str(ps[0].1) + enc_pairs(ps.skip(1)) + rest;
        let tail = enc_pairs(ps.skip(1)) + rest;
        assert(w =~= enc_str(ps[0].0) + mid);
        lemma_enc_str_not_list_end(ps[0].0, mid);
        lemma_dec_str_enc(ps[0].0, mid);
        assert(mid =~= enc_str(ps[0].1) + tail);
        lemma_dec_str_enc(ps[0].1, tail);
        assert(enc_str(ps[0].0).len() >= 2);
        assert(enc_str(ps[0].1).len() >= 2);
        assert(mid.len() < w.len());
        assert(tail.len() < w.len());
        lemma_dec_pairs_enc(ps.skip(1), rest);
        assert(seq![(ps[0].0, ps[0].1)] + ps.skip(1) =~= ps);
    }
}

/// Encoding then decoding yields the value back, for every supported
/// cache value.
pub proof fn law_codec_round_trip(v: SpecCacheValue)
    ensures
        spec_decode(spec_encode(v)) == Some(v),
{
    let w = spec_encode(v);
    match v {
        SpecCacheValue::RemoteVersions(vs) => {
            assert(w[0] == 'V');
            lemma_dec_list_enc(vs, Seq::empty());
            assert(w.skip(1) =~= enc_list(vs) + Seq::<char>::empty());
        },
        SpecCacheValue::LegacyFilenames(fs) => {
            assert(w[0] == 'F');
            lemma_dec_list_enc(fs, Seq::empty());
            assert(w.skip(1) =~= enc_list(fs) + Seq::<char>::empty());
        },
        SpecCacheValue::LatestStable(None) => {
            assert(w =~= seq!['N']);
        },
        SpecCacheValue::LatestStable(Some(s)) => {
            assert(w[0] == 'S');
            lemma_dec_str_enc(s, Seq::empty());
            assert(w.skip(1) =~= enc_str(s) + Seq::<char>::empty());
        },
        SpecCacheValue::Aliases(ps) => {
            assert(w[0] == 'A');
            lemma_dec_pairs_enc(ps, Seq::empty());
            assert(w.skip(1) =~= enc_pairs(ps) + Seq::<char>::empty());
        },
    }
}

// ------------------------------------------------------------------
// Executable encode / decode
// ------------------------------------------------------------------

/// Append the escaped form of `s` to `out`.
fn push_escaped(out: &mut Vec<char>, s: &str)
    ensures
        final(out)@ == old(out)@ + enc_str(s@),
{
    let cs = crate::text::to_chars(s);
    let mut j: usize = 0;
    proof {
        assert(s@.take(0) =~= Seq::<char>::empty());
        assert(out@ + esc(s@.take(0)) =~= out@);
    }
    while j < cs.len()
        invariant
            cs@ == s@,
            j <= s@.len(),
            out@ == old(out)@ + esc(s@.take(j as int)),
        decreases cs@.len() - j,
    {
        let c = cs[j];
        if c == '%' {
            out.push('%');
            out.push('%');
        } else {
            out.push(c);
        }
        proof {
            lemma_esc_push(s@.take(j as int), c);
            assert(s@.take(j as int).push(c) =~= s@.take(j as int + 1));
            assert(out@ =~= old(out)@ + esc(s@.take(j as int + 1)));
        }
        j = j + 1;
    }
    out.push('%');
    out.push('.');
    proof {
        assert(s@.take(s@.len() as int) =~= s@);
        assert(out@ =~= old(out)@ + enc_str(s@));
    }
}

/// Append the encoding of a string list (with its terminator) to `out`.
fn push_list(out: &mut Vec<char>, items: &Vec<String>)
    ensures
        final(out)@ == old(out)@ + enc_list(seq_views(items@)),
{
    let mut i: usize = 0;
    proof {
        assert(seq_views(items@.take(0)) =~= Seq::<Seq<char>>::empty());
        assert(out@ + enc_items(seq_views(items@.take(0))) =~= out@);
    }
    while i < items.len()
        invariant
            i <= items@.len(),
            out@ == old(out)@ + enc_items(seq_views(items@.take(i as int))),
        decreases items@.len() - i,
    {
        push_escaped(out, items[i].as_str());
        proof {
            lemma_enc_items_push(seq_views(items@.take(i as int)), items@[i as int]@);
            assert(seq_views(items@.take(i as int)).push(items@[i as int]@) =~= seq_views(
                items@.take(i as int + 1),
            ));
            assert(out@ =~= old(out)@ + enc_items(seq_views(items@.take(i as int + 1))));
        }
        i = i + 1;
    }
    out.push('%');
    out.push(';');
    proof {
        assert(items@.take(items@.len() as int) =~= items@);
        assert(out@ =~= old(out)@ + enc_list(seq_views(items@)));
    }
}

/// Append the encoding of an alias list (with its terminator) to `out`.
fn push_pairs(out: &mut Vec<char>, ps: &Vec<(String, String)>)
    ensures
        final(out)@ == old(out)@ + enc_pairs(pair_views(ps@)),
{
    let mut i: usize = 0;
    proof {
        assert(pair_views(ps@.take(0)) =~= Seq::<(Seq<char>, Seq<char>)>::empty());
        assert(out@ + enc_pair_items(pair_views(ps@.take(0))) =~= out@);
    }
    while i < ps.len()
        invariant
            i <= ps@.len(),
            out@ == old(out)@ + enc_pair_items(pair_views(ps@.take(i as int))),
        decreases ps@.len() - i,
    {
        push_escaped(out, ps[i].0.as_str());
        push_escaped(out, ps[i].1.as_str());
        proof {
            lemma_enc_pair_items_push(
                pair_views(ps@.take(i as int)),
                (ps@[i as int].0@, ps@[i as int].1@),
            );
            assert(pair_views(ps@.take(i as int)).push((ps@[i as int].0@, ps@[i as int].1@))
                =~= pair_views(ps@.take(i as int + 1)));
            assert(out@ =~= old(out)@ + enc_pair_items(pair_views(ps@.take(i as int + 1))));
        }
        i = i + 1;
    }
    out.push('%');
    out.push(';');
    proof {
        assert(ps@.take(ps@.len() as int) =~= ps@);
        assert(out@ =~= old(out)@ + enc_pairs(pair_views(ps@)));
    }
}

/// Encode a cache value for storage.
pub fn encode(v: &CacheValue) -> (r: String)
    ensures
        r@ == spec_encode(v.view_spec()),
{
    let mut out: Vec<char> = Vec::new();
    match v {
        CacheValue::RemoteVersions(vs) => {
            out.push('V');
            proof {
                assert(out@ =~= seq!['V']);
            }
            push_list(&mut out, vs);
        },
        CacheValue::LegacyFilenames(fs) => {
            out.push('F');
            proof {
                assert(out@ =~= seq!['F']);
            }
            push_list(&mut out, fs);
        },
        CacheValue::LatestStable(o) => {
            match o {
                None => {
                    out.push('N');
                    proof {
                        assert(out@ =~= seq!['N']);
                    }
                },
                Some(s) => {
                    out.push('S');
                    proof {
                        assert(out@ =~= seq!['S']);
                    }
                    push_escaped(&mut out, s.as_str());
                },
            }
        },
        CacheValue::Aliases(ps) => {
            out.push('A');
            proof {
                assert(out@ =~= seq!['A']);
            }
            push_pairs(&mut out, ps);
        },
    }
    crate::text::chars_to_string(&out)
}

/// Prefix the decoded part of `o` with `pre`.
pub open spec fn prepend_dec(pre: Seq<char>, o: Option<(Seq<char>, Seq<char>)>) -> Option<
    (Seq<char>, Seq<char>),
> {
    match o {
        Some((d, r)) => Some((pre + d, r)),
        None => None,
    }
}

/// Decode one string starting at `i`; returns the string and the index
/// after its terminator.
fn dec_str_exec(cs: &Vec<char>, i: usize) -> (r: Option<(String, usize)>)
    requires
        i <= cs@.len(),
    ensures
        match r {
            Some((d, j)) => i + 2 <= j <= cs@.len() && dec_str(cs@.skip(i as int)) == Some(
                (d@, cs@.skip(j as int)),
            ),
            None => dec_str(cs@.skip(i as int)) is None,
        },
{
    let n = cs.len();
    let mut out: Vec<char> = Vec::new();
    let mut k: usize = i;
    proof {
        assert(out@ + Seq::<char>::empty() =~= out@);
    }
    loop
        invariant
            n == cs@.len(),
            i <= k <= n,
            dec_str(cs@.skip(i as int)) == prepend_dec(out@, dec_str(cs@.skip(k as int))),
        decreases n - k,
    {
        if k >= n {
            proof {
                assert(cs@.skip(k as int).len() == 0);
            }
            return None;
        }
        let c = cs[k];
        proof {
            assert(cs@.skip(k as int)[0] == cs@[k as int]);
        }
        if c != '%' {
            proof {
                assert(cs@.skip(k as int).skip(1) =~= cs@.skip(k as int + 1));
                let o = dec_str(cs@.skip(k as int + 1));
                match o {
                    Some((d, r)) => {
                        assert(out@ + (seq![c] + d) =~= out@.push(c) + d);
                    },
                    None => {},
                }
            }
            out.push(c);
            k = k + 1;
        } else {
            if k + 1 >= n {
                proof {
                    assert(cs@.skip(k as int).len() < 2);
                }
                return None;
            }
            let c2 = cs[k + 1];
            proof {
                assert(cs@.skip(k as int)[1] == cs@[k as int + 1]);
            }
            if c2 == '%' {
                proof {
                    assert(cs@.skip(k as int).skip(2) =~= cs@.skip(k as int + 2));
                    let o = dec_str(cs@.skip(k as int + 2));
                    match o {
                        Some((d, r)) => {
                            assert(out@ + (seq!['%'] + d) =~= out@.push('%') + d);
                        },
                        None => {},
                    }
                }
                out.push('%');
                k = k + 2;
            } else if c2 == '.' {
                proof {
                    assert(cs@.skip(k as int).skip(2) =~= cs@.skip(k as int + 2));
                    assert(out@ + Seq::<char>::empty() =~= out@);
                }
                let d = crate::text::chars_to_string(&out);
                return Some((d, k + 2));
            } else {
                return None;
            }
        }
    }
}

/// Decode a string list starting at `i`, up to its terminator.
fn dec_list_exec(cs: &Vec<char>, i: usize) -> (r: Option<(Vec<String>, usize)>)
    requires
        i <= cs@.len(),
    ensures
        match r {
            Some((ds, j)) => i <= j <= cs@.len() && dec_list(cs@.skip(i as int)) == Some(
                (seq_views(ds@), cs@.skip(j as int)),
            ),
            None => dec_list(cs@.skip(i as int)) is None,
        },
{
    let n = cs.len();
    let mut items: Vec<String> = Vec::new();
    let mut k: usize = i;
    loop
        invariant
            n == cs@.len(),
            i <= k <= n,
            forall|ds: Seq<Seq<char>>, r2: Seq<char>|
                dec_list(cs@.skip(k as int)) == Some((ds, r2)) ==> dec_list(cs@.skip(i as int))
                    == Some((seq_views(items@) + ds, r2)),
            dec_list(cs@.skip(k as int)) is None ==> dec_list(cs@.skip(i as int)) is None,
        decreases n - k,
    {
        if n - k >= 2 && cs[k] == '%' && cs[k + 1] == ';' {
            proof {
                assert(cs@.skip(k as int)[0] == cs@[k as int]);
                assert(cs@.skip(k as int)[1] == cs@[k as int + 1]);
                assert(cs@.skip(k as int).skip(2) =~= cs@.skip(k as int + 2));
                assert(seq_views(items@) + Seq::<Seq<char>>::empty() =~= seq_views(items@));
            }
            return Some((items, k + 2));
        }
        proof {
            if cs@.skip(k as int).len() >= 2 && cs@.skip(k as int)[0] == '%' && cs@.skip(
                k as int,
            )[1] == ';' {
                assert(cs@[k as int] == '%' && cs@[k as int + 1] == ';');
            }
        }
        let d = dec_str_exec(cs, k);
        match d {
            None => {
                return None;
            },
            Some((s, k2)) => {
                proof {
                    let o = dec_list(cs@.skip(k2 as int));
                    match o {
                        Some((ds, r2)) => {
                            assert(seq_views(items@.push(s)) =~= seq_views(items@).push(s@));
                            assert(seq_views(items@) + (seq![s@] + ds) =~= seq_views(
                                items@,
                            ).push(s@) + ds);
                        },
                        None => {},
                    }
                }
                items.push(s);
                k = k2;
            },
        }
    }
}

/// Decode an alias list starting at `i`, up to its terminator.
fn dec_pairs_exec(cs: &Vec<char>, i: usize) -> (r: Option<(Vec<(String, String)>, usize)>)
    requires
        i <= cs@.len(),
    ensures
        match r {
            Some((ps, j)) => i <= j <= cs@.len() && dec_pairs(cs@.skip(i as int)) == Some(
                (pair_views(ps@), cs@.skip(j as int)),
            ),
            None => dec_pairs(cs@.skip(i as int)) is None,
        },
{
    let n = cs.len();
    let mut items: Vec<(String, String)> = Vec::new();
    let mut k: usize = i;
    loop
        invariant
            n == cs@.len(),
            i <= k <= n,
            forall|ps: Seq<(Seq<char>, Seq<char>)>, r2: Seq<char>|
                dec_pairs(cs@.skip(k as int)) == Some((ps, r2)) ==> dec_pairs(
                    cs@.skip(i as int),
                ) == Some((pair_views(items@) + ps, r2)),
            dec_pairs(cs@.skip(k as int)) is None ==> dec_pairs(cs@.skip(i as int)) is None,
        decreases n - k,
    {
        if n - k >= 2 && cs[k] == '%' && cs[k + 1] == ';' {
            proof {
                assert(cs@.skip(k as int)[0] == cs@[k as int]);
                assert(cs@.skip(k as int)[1] == cs@[k as int + 1]);
                assert(cs@.skip(k as int).skip(2) =~= cs@.skip(k as int + 2));
                assert(pair_views(items@) + Seq::<(Seq<char>, Seq<char>)>::empty() =~= pair_views(
                    items@,
                ));
            }
            return Some((items, k + 2));
        }
        proof {
            if cs@.skip(k as int).len() >= 2 && cs@.skip(k as int)[0] == '%' && cs@.skip(
                k as int,
            )[1] == ';' {
                assert(cs@[k as int] == '%' && cs@[k as int + 1] == ';');
            }
        }
        let dk = dec_str_exec(cs, k);
        match dk {
            None => {
                return None;
            },
            Some((key, k2)) => {
                let dv = dec_str_exec(cs, k2);
                match dv {
                    None => {
                        return None;
                    },
                    Some((val, k3)) => {
                        proof {
                            let o = dec_pairs(cs@.skip(k3 as int));
                            match o {
                                Some((ps, r2)) => {
                                    assert(pair_views(items@.push((key, val))) =~= pair_views(
                                        items@,
                                    ).push((key@, val@)));
                                    assert(pair_views(items@) + (seq![(key@, val@)] + ps)
                                        =~= pair_views(items@).push((key@, val@)) + ps);
                                },
                                None => {},
                            }
                        }
                        items.push((key, val));
                        k = k3;
                    },
                }
            },
        }
    }
}

/// Decode a stored cache value; `None` when the text is not a complete
/// encoding.
pub fn decode(s: &str) -> (r: Option<CacheValue>)
    ensures
        match r {
            Some(v) => spec_decode(s@) == Some(v.view_spec()),
            None => spec_decode(s@) is None,
        },
{
    let cs = crate::text::to_chars(s);
    if cs.len() == 0 {
        return None;
    }
    let tag = cs[0];
    proof {
        assert(cs@[0] == s@[0]);
    }
    if tag == 'V' {
        match dec_list_exec(&cs, 1) {
            Some((ds, j)) => if j == cs.len() {
                Some(CacheValue::RemoteVersions(ds))
            } else {
                None
            },
            None => None,
        }
    } else if tag == 'F' {
        match dec_list_exec(&cs, 1) {
            Some((ds, j)) => if j == cs.len() {
                Some(CacheValue::LegacyFilenames(ds))
            } else {
                None
            },
            None => None,
        }
    } else if tag == 'N' {
        if cs.len() == 1 {
            Some(CacheValue::LatestStable(None))
        } else {
            None
        }
    } else if tag == 'S' {
        match dec_str_exec(&cs, 1) {
            Some((d, j)) => if j == cs.len() {
                Some(CacheValue::LatestStable(Some(d)))
            } else {
                None
            },
            None => None,
        }
    } else if tag == 'A' {
        match dec_pairs_exec(&cs, 1) {
            Some((ps, j)) => if j == cs.len() {
                Some(CacheValue::Aliases(ps))
            } else {
                None
            },
            None => None,
        }
    } else {
        None
    }
}

} // verus!
