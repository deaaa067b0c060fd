//! The text renderer: cached glyph metrics and width-aware line wrapping.

use crate::ui::glyph_cache::{
    cache_cap, cache_entries, cache_get, cache_new, cache_put, inserted, position, promoted,
    Glyph,
};
use crate::ui::layout::{lay_out, line_texts, wrapped, Scale};
use crate::ui::line_break::{find_breaks, line_breaks};
use lru::LruCache;
use vstd::prelude::*;

verus! {

/// How many glyphs the renderer keeps.
pub const GLYPH_CACHE_SIZE: usize = 2;

/// The glyph stored for `c`, if any.
pub open spec fn lookup(entries: Seq<(char, Glyph)>, c: char) -> Option<Glyph> {
    let i = position(entries, c);
    if i < entries.len() {
        Some(entries[i].1)
    } else {
        None
    }
}

/// The entries after `c` has been looked up: a cached character becomes the
/// most recently used one, and a miss changes nothing.
pub open spec fn touched(entries: Seq<(char, Glyph)>, c: char) -> Seq<(char, Glyph)> {
    let i = position(entries, c);
    if i < entries.len() {
        promoted(entries, i, c, entries[i].1)
    } else {
        entries
    }
}

/// The entries after `glyph` has been stored for `c` in a cache of
/// `GLYPH_CACHE_SIZE` entries.
pub open spec fn stored(entries: Seq<(char, Glyph)>, c: char, glyph: Glyph) -> Seq<(char, Glyph)> {
    let i = position(entries, c);
    if i < entries.len() {
        promoted(entries, i, c, glyph)
    } else {
        inserted(entries, GLYPH_CACHE_SIZE as nat, c, glyph)
    }
}

/// No character has two entries.
pub open spec fn distinct_keys(entries: Seq<(char, Glyph)>) -> bool {
    forall|i: int, j: int| 0 <= i < j < entries.len() ==> entries[i].0 != entries[j].0
}

/// The position of a character is that of its first entry.
pub proof fn lemma_position(entries: Seq<(char, Glyph)>, c: char)
    ensures
        0 <= position(entries, c) <= entries.len(),
        position(entries, c) < entries.len() ==> entries[position(entries, c)].0 == c,
        forall|i: int| 0 <= i < position(entries, c) ==> entries[i].0 != c,
    decreases entries.len(),
{
    if entries.len() > 0 && entries[0].0 != c {
        let rest = entries.drop_first();
        lemma_position(rest, c);
        assert forall|i: int| 0 <= i < position(entries, c) implies entries[i].0 != c by {
            if i > 0 {
                assert(entries[i] == rest[i - 1]);
            }
        }
    }
}

/// Storing a glyph keeps the keys distinct and the cache within its
/// capacity, and makes the glyph the one found for its character.
pub proof fn lemma_stored(entries: Seq<(char, Glyph)>, c: char, glyph: Glyph)
    requires
        distinct_keys(entries),
        entries.len() <= GLYPH_CACHE_SIZE,
    ensures
        distinct_keys(stored(entries, c, glyph)),
        stored(entries, c, glyph).len() <= GLYPH_CACHE_SIZE,
        lookup(stored(entries, c, glyph), c) == Some(glyph),
{
    lemma_position(entries, c);
    let after = stored(entries, c, glyph);
    assert(after[0] == (c, glyph));
    assert(position(after, c) == 0);
}

/// Looking a character up keeps the keys distinct, the number of entries,
/// and what is found for every character.
pub proof fn lemma_touched(entries: Seq<(char, Glyph)>, c: char)
    requires
        distinct_keys(entries),
    ensures
        distinct_keys(touched(entries, c)),
        touched(entries, c).len() == entries.len(),
        forall|d: char| lookup(touched(entries, c), d) == lookup(entries, d),
{
    lemma_position(entries, c);
    let after = touched(entries, c);
    let i = position(entries, c);
    assert forall|d: char| lookup(after, d) == lookup(entries, d) by {
        lemma_position(entries, d);
        lemma_position(after, d);
        if i < entries.len() {
            let p = position(entries, d);
            let q = position(after, d);
            if d == c {
                assert(after[0].0 == c);
            } else if p < entries.len() {
                let at = if p < i { p + 1 } else { p };
                assert(after[at] == entries[p]);
                if q < at {
                    if q > 0 {
                        let back = if q - 1 < i { q - 1 } else { q };
                        assert(after[q] == entries[back]);
                    }
                }
            } else {
                if q < after.len() {
                    if q > 0 {
                        let back = if q - 1 < i { q - 1 } else { q };
                        assert(after[q] == entries[back]);
                    }
                }
            }
        }
    }
}

/// The cache order after the characters of `text` from index `from` up to
/// `to` have been looked up one after the other. Line feeds have no glyph and
/// are not looked up.
pub open spec fn touched_all(entries: Seq<(char, Glyph)>, text: Seq<char>, from: int, to: int) -> Seq<
    (char, Glyph),
>
    decreases to - from,
{
    if to <= from {
        entries
    } else {
        let before = touched_all(entries, text, from, to - 1);
        if text[to - 1] == '\n' {
            before
        } else {
            touched(before, text[to - 1])
        }
    }
}

/// The advance that a cache gives for `c`: that of its glyph, and nothing
/// for a line feed or a character that is not cached.
pub open spec fn advance_of(entries: Seq<(char, Glyph)>, c: char) -> u16 {
    if c == '\n' {
        0
    } else {
        match lookup(entries, c) {
            Some(glyph) => glyph.x_advance,
            None => 0,
        }
    }
}

/// Whether `c` can be measured with what the cache holds.
pub open spec fn measurable(entries: Seq<(char, Glyph)>, c: char) -> bool {
    c == '\n' || lookup(entries, c) is Some
}

/// The glyph metrics of the system font, behind a small cache, and the line
/// height that the font was made for.
pub struct TextRenderer {
    /// The height of a font cell, in pixels at scale one.
    height: u8,
    /// The recently used glyphs.
    cache: LruCache<char, Glyph>,
}

impl TextRenderer {
    /// The cached glyphs, from the most recently used to the least.
    pub closed spec fn entries(&self) -> Seq<(char, Glyph)> {
        cache_entries(self.cache)
    }

    /// The height of a font cell.
    pub closed spec fn cell_height(&self) -> u8 {
        self.height
    }

    /// The cache holds each character once and never more than
    /// `GLYPH_CACHE_SIZE` entries.
    pub closed spec fn wf(&self) -> bool {
        &&& cache_cap(self.cache) == GLYPH_CACHE_SIZE
        &&& self.entries().len() <= GLYPH_CACHE_SIZE
        &&& distinct_keys(self.entries())
    }

    /// A renderer for a font whose cells are `height` pixels high, with an
    /// empty cache.
    pub fn new(height: u8) -> (renderer: Self)
        ensures
            renderer.wf(),
            renderer.cell_height() == height,
            renderer.entries() == Seq::<(char, Glyph)>::empty(),
    {
        TextRenderer { height, cache: cache_new(GLYPH_CACHE_SIZE) }
    }

    /// The height of a font cell.
    pub fn height(&self) -> (height: u8)
        ensures
            height == self.cell_height(),
    {
        self.height
    }

    /// Looks `c` up in the cache. A glyph that is found becomes the most
    /// recently used one. On a miss the caller reads the glyph from the font
    /// and hands it to `put_glyph`.
    pub fn get_glyph(&mut self, c: char) -> (found: Option<Glyph>)
        requires
            old(self).wf(),
        ensures
            final(self).wf(),
            final(self).cell_height() == old(self).cell_height(),
            found == lookup(old(self).entries(), c),
            final(self).entries() == touched(old(self).entries(), c),
    {
        proof {
            lemma_touched(self.entries(), c);
        }
        cache_get(&mut self.cache, c)
    }

    /// Stores the glyph of `c` as the most recently used one. If `c` is new
    /// and the cache is full, the least recently used glyph leaves.
    pub fn put_glyph(&mut self, c: char, glyph: Glyph)
        requires
            old(self).wf(),
        ensures
            final(self).wf(),
            final(self).cell_height() == old(self).cell_height(),
            final(self).entries() == stored(old(self).entries(), c, glyph),
            lookup(final(self).entries(), c) == Some(glyph),
    {
        proof {
            lemma_stored(self.entries(), c, glyph);
        }
        let _ = cache_put(&mut self.cache, c, glyph);
    }

    /// Continues to measure `text`, one advance for each character, from the
    /// character after the last one measured. It stops at the first character
    /// whose glyph is not cached and returns that character: once the caller
    /// has stored its glyph with `put_glyph`, the next call goes on from
    /// there. It returns `None` when every character has its advance.
    pub fn measure(&mut self, text: &str, advances: &mut Vec<u16>) -> (missing: Option<char>)
        requires
            old(self).wf(),
            old(advances)@.len() <= text@.len(),
        ensures
            final(self).wf(),
            final(self).cell_height() == old(self).cell_height(),
            old(advances)@.len() <= final(advances)@.len() <= text@.len(),
            final(advances)@.take(old(advances)@.len() as int) == old(advances)@,
            forall|i: int|
                old(advances)@.len() <= i < final(advances)@.len() ==> measurable(
                    old(self).entries(),
                    #[trigger] text@[i],
                ),
            forall|i: int|
                old(advances)@.len() <= i < final(advances)@.len() ==> #[trigger] final(advances)@[i]
                    == advance_of(old(self).entries(), text@[i]),
            final(self).entries() == touched_all(
                old(self).entries(),
                text@,
                old(advances)@.len() as int,
                final(advances)@.len() as int,
            ),
            match missing {
                Some(c) => {
                    &&& final(advances)@.len() < text@.len()
                    &&& c == text@[final(advances)@.len() as int]
                    &&& !measurable(old(self).entries(), c)
                },
                None => final(advances)@.len() == text@.len(),
            },
    {
        let start = advances.len();
        let ghost before = self.entries();
        let ghost given = advances@;
        let mut i: usize = 0;
        for c in it: text.chars()
            invariant
                it.seq() == text@,
                i == it.index(),
                self.wf(),
                self.cell_height() == old(self).cell_height(),
                start == given.len(),
                given == old(advances)@,
                start <= text@.len(),
                before == old(self).entries(),
                distinct_keys(before),
                i < start ==> advances@ == given,
                i >= start ==> advances@.len() == i,
                advances@.len() >= start,
                advances@.take(start as int) == given,
                forall|d: char| lookup(self.entries(), d) == lookup(before, d),
                forall|k: int| start <= k < advances@.len() ==> measurable(before, #[trigger] text@[k]),
                forall|k: int|
                    start <= k < advances@.len() ==> #[trigger] advances@[k] == advance_of(
                        before,
                        text@[k],
                    ),
                self.entries() == touched_all(before, text@, start as int, advances@.len() as int),
        {
            if i >= start {
                if c == '\n' {
                    advances.push(0);
                } else {
                    proof {
                        lemma_touched(self.entries(), c);
                    }
                    match self.get_glyph(c) {
                        Some(glyph) => {
                            advances.push(glyph.x_advance);
                        },
                        None => {
                            return Some(c);
                        },
                    }
                }
                i = advances.len();
            } else {
                i = i + 1;
            }
        }
        None
    }

    /// Wraps `text` at `width` pixels for drawing at `scale`. `advances`
    /// holds the advance of each character of `text`, as `measure` leaves
    /// them.
    pub fn create_lines(&self, text: &str, advances: &Vec<u16>, width: u32, scale: Scale) -> (lines:
        Vec<String>)
        requires
            advances@.len() == text@.len(),
        ensures
            line_texts(lines@) == wrapped(
                text@,
                line_breaks(text@),
                advances@,
                width,
                self.cell_height(),
                scale,
            ),
    {
        let breaks = find_breaks(text);
        lay_out(text, &breaks, advances, width, self.height, scale)
    }
}

/// A paragraph that has been wrapped: its lines, and the height and scale at
/// which they are drawn.
pub struct TextLines {
    lines: Vec<String>,
    /// The height of all lines, in pixels times the scale's denominator.
    height: u128,
    scale: Scale,
}

impl TextLines {
    /// The text of each line.
    pub closed spec fn texts(&self) -> Seq<Seq<char>> {
        line_texts(self.lines@)
    }

    /// The height of all lines together, in pixels times the denominator of
    /// the scale.
    pub closed spec fn total_height(&self) -> int {
        self.height as int
    }

    /// The scale at which the lines are drawn.
    pub closed spec fn drawn_at(&self) -> Scale {
        self.scale
    }

    /// Wraps `text` at `width` pixels. The lines are as high as the font's
    /// cells, enlarged by `scale`.
    pub fn new(
        text: &str,
        advances: &Vec<u16>,
        renderer: &TextRenderer,
        width: u32,
        scale: Scale,
    ) -> (result: Self)
        requires
            advances@.len() == text@.len(),
        ensures
            result.texts() == wrapped(
                text@,
                line_breaks(text@),
                advances@,
                width,
                renderer.cell_height(),
                scale,
            ),
            result.total_height() == result.texts().len() * renderer.cell_height() * scale.num,
            result.drawn_at() == scale,
    {
        let lines = renderer.create_lines(text, advances, width, scale);
        let count = lines.len() as u128;
        let cell = renderer.height() as u128;
        let num = scale.num as u128;
        assert(count * cell <= 0xffff_ffff_ffff_ffff * 0xff) by (nonlinear_arith)
            requires
                count <= 0xffff_ffff_ffff_ffff,
                cell <= 0xff,
        ;
        assert(count * cell * num <= 0xffff_ffff_ffff_ffff * 0xff * 0xffff_ffff) by (nonlinear_arith)
            requires
                count <= 0xffff_ffff_ffff_ffff,
                cell <= 0xff,
                num <= 0xffff_ffff,
        ;
        let height = count * cell * num;
        TextLines { lines, height, scale }
    }

    /// The lines, from the top down.
    pub fn lines(&self) -> (lines: &Vec<String>)
        ensures
            line_texts(lines@) == self.texts(),
    {
        &self.lines
    }

    /// The height of all lines together, in pixels times the denominator of
    /// the scale.
    pub fn height(&self) -> (height: u128)
        ensures
            height == self.total_height(),
    {
        self.height
    }

    /// The scale at which the lines are drawn.
    pub fn scale(&self) -> (scale: Scale)
        ensures
            scale == self.drawn_at(),
    {
        self.scale
    }
}

} // verus!
