//! The bounded least-recently-used cache that holds glyph metrics.
//!
//! The cache itself is `lru::LruCache`. Nothing in this file is proved: each
//! function states what the `lru` crate does, and the text renderer is
//! verified against these statements.

use lru::LruCache;
use std::num::NonZeroUsize;
use vstd::prelude::*;

verus! {

/// One character of the system font: which glyph draws it and how far the pen
/// moves after it, in font units.
#[derive(Clone, Copy, Debug, PartialEq, Eq, Structural)]
pub struct Glyph {
    /// The glyph's index in the font, from which its sheet and cell follow.
    pub index: u32,
    /// The horizontal advance, in font units.
    pub x_advance: u16,
}

/// `lru::LruCache`: the cache, of which the functions below say what it
/// holds.
#[verifier::external_type_specification]
#[verifier::external_body]
#[verifier::reject_recursive_types(K)]
#[verifier::reject_recursive_types(V)]
#[verifier::reject_recursive_types(S)]
pub struct ExLruCache<K, V, S>(LruCache<K, V, S>);

/// What a cache holds: its entries from the most recently used to the least
/// recently used.
pub uninterp spec fn cache_entries(cache: LruCache<char, Glyph>) -> Seq<(char, Glyph)>;

/// The number of entries that a cache was made to hold.
pub uninterp spec fn cache_cap(cache: LruCache<char, Glyph>) -> nat;

/// The index of the first entry for `c`, or the length of `entries` if there
/// is none.
pub open spec fn position(entries: Seq<(char, Glyph)>, c: char) -> int
    decreases entries.len(),
{
    if entries.len() == 0 {
        0
    } else if entries[0].0 == c {
        0
    } else {
        1 + position(entries.drop_first(), c)
    }
}

/// The entries after `c`, found at index `i`, has been used: it moves to the
/// front, with `glyph` as its value.
pub open spec fn promoted(entries: Seq<(char, Glyph)>, i: int, c: char, glyph: Glyph) -> Seq<
    (char, Glyph),
> {
    seq![(c, glyph)] + entries.remove(i)
}

/// The entries after a new key has been put into a cache of capacity `cap`:
/// the least recently used entry leaves if the cache was full.
pub open spec fn inserted(entries: Seq<(char, Glyph)>, cap: nat, c: char, glyph: Glyph) -> Seq<
    (char, Glyph),
> {
    if entries.len() > 0 && entries.len() >= cap {
        seq![(c, glyph)] + entries.drop_last()
    } else {
        seq![(c, glyph)] + entries
    }
}

/// `LruCache::new`: an empty cache that holds up to `cap` entries.
#[verifier::external_body]
pub(crate) fn cache_new(cap: usize) -> (cache: LruCache<char, Glyph>)
    requires
        cap > 0,
    ensures
        cache_entries(cache) == Seq::<(char, Glyph)>::empty(),
        cache_cap(cache) == cap,
{
    LruCache::new(NonZeroUsize::new(cap).unwrap())
}

/// `LruCache::get`: the value stored for `c`, if any. A key that is found
/// becomes the most recently used; the capacity never changes.
#[verifier::external_body]
pub(crate) fn cache_get(cache: &mut LruCache<char, Glyph>, c: char) -> (found: Option<Glyph>)
    ensures
        cache_cap(*final(cache)) == cache_cap(*old(cache)),
        ({
            let entries = cache_entries(*old(cache));
            let i = position(entries, c);
            if i < entries.len() {
                &&& found == Some(entries[i].1)
                &&& cache_entries(*final(cache)) == promoted(entries, i, c, entries[i].1)
            } else {
                &&& found is None
                &&& cache_entries(*final(cache)) == entries
            }
        }),
{
    cache.get(&c).copied()
}

/// `LruCache::put`: stores `glyph` for `c` as the most recently used entry.
/// A value already stored for `c` is replaced and returned. Otherwise, if
/// the cache is full, the least recently used entry is dropped.
#[verifier::external_body]
pub(crate) fn cache_put(cache: &mut LruCache<char, Glyph>, c: char, glyph: Glyph) -> (before:
    Option<Glyph>)
    ensures
        cache_cap(*final(cache)) == cache_cap(*old(cache)),
        ({
            let entries = cache_entries(*old(cache));
            let i = position(entries, c);
            if i < entries.len() {
                &&& before == Some(entries[i].1)
                &&& cache_entries(*final(cache)) == promoted(entries, i, c, glyph)
            } else {
                &&& before is None
                &&& cache_entries(*final(cache)) == inserted(
                    entries,
                    cache_cap(*old(cache)),
                    c,
                    glyph,
                )
            }
        }),
{
    cache.put(c, glyph)
}

} // verus!
