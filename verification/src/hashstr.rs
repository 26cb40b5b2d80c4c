//! A stable textual hash for cache file names: a 64-bit FNV-1a digest of
//! the characters of a path, rendered as 16 lowercase hex digits. The
//! same path hashes the same way in every process, which is what keys
//! the per-file legacy cache.

use vstd::prelude::*;

verus! {

pub open spec fn fnv_offset() -> u64 {
    0xcbf29ce484222325
}

pub open spec fn fnv_prime() -> u64 {
    0x100000001b3
}

/// One FNV-1a step: xor the character in, multiply by the prime (mod 2^64).
pub open spec fn fnv_step(h: u64, c: char) -> u64 {
    (((h ^ (c as u64)) as u128 * fnv_prime() as u128) % 0x10000000000000000) as u64
}

/// FNV-1a over the first `n` characters of `s`.
pub open spec fn fnv_hash_prefix(s: Seq<char>, n: int) -> u64
    decreases n,
{
    if n <= 0 {
        fnv_offset()
    } else {
        fnv_step(fnv_hash_prefix(s, n - 1), s[n - 1])
    }
}

pub open spec fn fnv_hash(s: Seq<char>) -> u64 {
    fnv_hash_prefix(s, s.len() as int)
}

/// The hex digit for a value below 16: `0`-`9` then `a`-`f`.
pub open spec fn hex_digit(n: u64) -> char {
    if n < 10 {
        ((48 + n) as u8) as char
    } else {
        ((87 + n) as u8) as char
    }
}

/// The 16 hex digits of `h`, most significant first.
pub open spec fn hex_of(h: u64) -> Seq<char> {
    Seq::new(16, |i: int| hex_digit((h >> ((15 - i) * 4)) & 0xf))
}

/// The textual hash of a path: hex of its FNV-1a digest.
pub open spec fn spec_hash_to_str(s: Seq<char>) -> Seq<char> {
    hex_of(fnv_hash(s))
}

/// Hash a string to its stable 16-digit hex form.
pub fn hash_to_str(s: &str) -> (r: String)
    ensures
        r@ == spec_hash_to_str(s@),
{
    let cs = crate::text::to_chars(s);
    let mut h: u64 = 0xcbf29ce484222325;
    let mut i: usize = 0;
    while i < cs.len()
        invariant
            cs@ == s@,
            i <= cs@.len(),
            h == fnv_hash_prefix(s@, i as int),
        decreases cs@.len() - i,
    {
        let c = cs[i];
        let x: u128 = (h ^ (c as u64)) as u128 * 0x100000001b3u128;
        h = (x % 0x10000000000000000u128) as u64;
        i = i + 1;
    }
    let mut out: Vec<char> = Vec::new();
    let mut k: usize = 0;
    while k < 16
        invariant
            k <= 16,
            out@ == hex_of(h).take(k as int),
        decreases 16 - k,
    {
        let shift: u64 = ((15 - k) * 4) as u64;
        let nib: u64 = (h >> shift) & 0xf;
        assert(nib <= 0xf) by (bit_vector)
            requires
                nib == (h >> shift) & 0xf,
        ;
        let d: char = if nib < 10 {
            ((48 + nib) as u8) as char
        } else {
            ((87 + nib) as u8) as char
        };
        out.push(d);
        k = k + 1;
        assert(out@ =~= hex_of(h).take(k as int));
    }
    assert(out@ =~= hex_of(h));
    crate::text::chars_to_string(&out)
}

} // verus!
