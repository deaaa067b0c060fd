//! Line wrapping: which words go on which line.
//!
//! A text is cut into words at its break opportunities. Words are put on a
//! line for as long as they fit; a word that does not fit starts a new line,
//! and a mandatory break ends the line that it follows. Widths are counted in
//! font units, without rounding.

use crate::ui::line_break::push_char;
use vstd::prelude::*;

verus! {

/// A factor by which text is enlarged: `num / den`.
#[derive(Clone, Copy, Debug, PartialEq, Eq, Structural)]
pub struct Scale {
    pub num: u32,
    pub den: u32,
}

/// The size at which the font's cells are drawn at scale one, in pixels: a
/// font with cells of another height is scaled to it.
pub const LINE_SIZE: u32 = 30;

/// Whether glyphs with a total advance of `units` font units are at most
/// `width` pixels wide when drawn at `scale`, for a font whose cells are
/// `height` pixels high. A font unit is `LINE_SIZE / height` pixels at scale
/// one.
pub open spec fn fits(units: int, width: u32, height: u8, scale: Scale) -> bool {
    units * LINE_SIZE * scale.num <= width * height * scale.den
}

/// The number of bytes that `c` takes in UTF-8.
pub open spec fn utf8_len(c: char) -> int {
    let v = c as u32;
    if v < 0x80 {
        1
    } else if v < 0x800 {
        2
    } else if v < 0x1_0000 {
        3
    } else {
        4
    }
}

/// The offset at which character `k` of `text` starts in UTF-8.
pub open spec fn byte_offset(text: Seq<char>, k: int) -> int
    decreases k,
{
    if k <= 0 {
        0
    } else {
        byte_offset(text, k - 1) + utf8_len(text[k - 1])
    }
}

/// The index of the first character, from index `from` on, that starts at or
/// after the byte `offset`; the length of `text` if there is none.
pub open spec fn char_at_offset(text: Seq<char>, offset: int, from: int) -> int
    decreases text.len() - from,
{
    if from >= text.len() || byte_offset(text, from) >= offset {
        from
    } else {
        char_at_offset(text, offset, from + 1)
    }
}

/// The index of the character at which word `j` ends and word `j + 1`
/// starts. A break that lies before the one in front of it ends an empty
/// word.
pub open spec fn cut(text: Seq<char>, breaks: Seq<(usize, bool)>, j: int) -> int
    decreases j + 1,
{
    if j < 0 || j >= breaks.len() {
        0
    } else {
        char_at_offset(text, breaks[j].0 as int, cut(text, breaks, j - 1))
    }
}

/// The characters of `text` from `from` up to `to`, without line feeds.
pub open spec fn word_chars(text: Seq<char>, from: int, to: int) -> Seq<char> {
    text.subrange(from, to).filter(|c: char| c != '\n')
}

/// The summed advance of the characters of `text` from `from` up to `to`.
/// Line feeds are not drawn and add nothing.
pub open spec fn glyph_width(text: Seq<char>, advances: Seq<u16>, from: int, to: int) -> int
    decreases to - from,
{
    if to <= from {
        0
    } else {
        glyph_width(text, advances, from, to - 1) + if text[to - 1] == '\n' {
            0int
        } else {
            advances[to - 1] as int
        }
    }
}

/// `line` without the spaces at its end.
pub open spec fn trim_end(line: Seq<char>) -> Seq<char>
    decreases line.len(),
{
    if line.len() > 0 && line.last() == ' ' {
        trim_end(line.drop_last())
    } else {
        line
    }
}

/// A text that is partly laid out: the lines that are finished, the words of
/// the line that is still open, and their summed advance.
pub struct Layout {
    pub lines: Seq<Seq<char>>,
    pub pending: Seq<char>,
    pub pos: int,
}

/// The layout before the first word.
pub open spec fn empty_layout() -> Layout {
    Layout { lines: Seq::empty(), pending: Seq::empty(), pos: 0 }
}

/// The open line is finished, without the spaces at its end, and a new one
/// is opened.
pub open spec fn flushed(s: Layout) -> Layout {
    Layout { lines: s.lines.push(trim_end(s.pending)), pending: Seq::empty(), pos: 0 }
}

/// One word is laid out. If it does not fit on the open line, that line is
/// finished first, whatever it holds. A mandatory break after the word
/// finishes the line that the word is on.
pub open spec fn placed(
    s: Layout,
    word: Seq<char>,
    units: int,
    mandatory: bool,
    width: u32,
    height: u8,
    scale: Scale,
) -> Layout {
    let opened = if fits(s.pos + units, width, height, scale) {
        s
    } else {
        flushed(s)
    };
    let with_word = Layout {
        lines: opened.lines,
        pending: opened.pending + word,
        pos: opened.pos + units,
    };
    if mandatory {
        flushed(with_word)
    } else {
        with_word
    }
}

/// The layout after the first `j` words of `text`.
pub open spec fn laid_out(
    text: Seq<char>,
    breaks: Seq<(usize, bool)>,
    advances: Seq<u16>,
    width: u32,
    height: u8,
    scale: Scale,
    j: int,
) -> Layout
    decreases j,
{
    if j <= 0 {
        empty_layout()
    } else {
        let from = cut(text, breaks, j - 2);
        let to = cut(text, breaks, j - 1);
        placed(
            laid_out(text, breaks, advances, width, height, scale, j - 1),
            word_chars(text, from, to),
            glyph_width(text, advances, from, to),
            breaks[j - 1].1,
            width,
            height,
            scale,
        )
    }
}

/// Whether the breaks end the text: the last one is mandatory and no
/// character follows it.
pub open spec fn closes(text: Seq<char>, breaks: Seq<(usize, bool)>) -> bool {
    breaks.len() > 0 && breaks.last().1 && cut(text, breaks, breaks.len() - 1) >= text.len()
}

/// The lines of `text`, wrapped at `width` pixels. Unless the breaks end
/// the text, what follows the last break is a last word with a mandatory
/// break after it.
pub open spec fn wrapped(
    text: Seq<char>,
    breaks: Seq<(usize, bool)>,
    advances: Seq<u16>,
    width: u32,
    height: u8,
    scale: Scale,
) -> Seq<Seq<char>> {
    let done = laid_out(text, breaks, advances, width, height, scale, breaks.len() as int);
    if closes(text, breaks) {
        done.lines
    } else {
        let from = cut(text, breaks, breaks.len() - 1);
        let to = text.len() as int;
        placed(
            done,
            word_chars(text, from, to),
            glyph_width(text, advances, from, to),
            true,
            width,
            height,
            scale,
        ).lines
    }
}

/// The texts of `lines`.
pub open spec fn line_texts(lines: Seq<String>) -> Seq<Seq<char>> {
    lines.map_values(|line: String| line@)
}

/// The largest summed advance that `count` characters can have.
pub open spec fn max_units(count: int) -> int {
    0xffff * count
}

/// The characters of `text`.
pub fn text_chars(text: &str) -> (chars: Vec<char>)
    ensures
        chars@ == text@,
{
    let mut chars: Vec<char> = Vec::new();
    for c in it: text.chars()
        invariant
            it.seq() == text@,
            chars@.len() == it.index(),
            forall|k: int| 0 <= k < chars@.len() ==> chars@[k] == text@[k],
    {
        chars.push(c);
    }
    assert(chars@ =~= text@);
    chars
}

/// The number of bytes that `c` takes in UTF-8.
fn char_len(c: char) -> (len: u128)
    ensures
        len == utf8_len(c),
{
    let v = c as u32;
    if v < 0x80 {
        1
    } else if v < 0x800 {
        2
    } else if v < 0x1_0000 {
        3
    } else {
        4
    }
}

/// Whether `units` font units fit in `width` pixels at `scale`.
fn fits_in(units: u128, width: u32, height: u8, scale: Scale) -> (ok: bool)
    requires
        units <= max_units(usize::MAX as int),
    ensures
        ok == fits(units as int, width, height, scale),
{
    let num = scale.num as u128;
    let den = scale.den as u128;
    assert(units * 30 * num <= 0xffff * 0xffff_ffff_ffff_ffff * 30 * 0xffff_ffff) by (nonlinear_arith)
        requires
            units <= 0xffff * 0xffff_ffff_ffff_ffff,
            num <= 0xffff_ffff,
    ;
    assert(units * 30 <= 0xffff * 0xffff_ffff_ffff_ffff * 30) by (nonlinear_arith)
        requires
            units <= 0xffff * 0xffff_ffff_ffff_ffff,
    ;
    assert((width as u128) * (height as u128) * den <= 0xffff_ffff * 0xff * 0xffff_ffff)
        by (nonlinear_arith)
        requires
            width <= 0xffff_ffff,
            height <= 0xff,
            den <= 0xffff_ffff,
    ;
    assert((width as u128) * (height as u128) <= 0xffff_ffff * 0xff) by (nonlinear_arith)
        requires
            width <= 0xffff_ffff,
            height <= 0xff,
    ;
    units * 30 * num <= (width as u128) * (height as u128) * den
}

/// Takes the next word: the characters from index `from` up to the first one
/// that starts at or after the byte `offset`, or up to the end of the text
/// if `rest` is set.
fn take_word(
    chars: &Vec<char>,
    advances: &Vec<u16>,
    from: usize,
    at: u128,
    offset: usize,
    rest: bool,
) -> (word: (Vec<char>, u128, usize, u128))
    requires
        advances@.len() == chars@.len(),
        from <= chars@.len(),
        at == byte_offset(chars@, from as int),
        at <= 4 * from,
    ensures
        word.2 == if rest {
            chars@.len() as int
        } else {
            char_at_offset(chars@, offset as int, from as int)
        },
        from <= word.2 <= chars@.len(),
        word.0@ == word_chars(chars@, from as int, word.2 as int),
        word.1 == glyph_width(chars@, advances@, from as int, word.2 as int),
        word.1 <= max_units(word.2 - from),
        word.3 == byte_offset(chars@, word.2 as int),
        word.3 <= 4 * word.2,
{
    let n = chars.len();
    let mut word: Vec<char> = Vec::new();
    let mut units: u128 = 0;
    let mut i = from;
    let mut at = at;
    proof {
        reveal(Seq::filter);
        assert(chars@.subrange(from as int, from as int) =~= Seq::<char>::empty());
    }
    while i < n && (rest || at < offset as u128)
        invariant
            n == chars@.len(),
            advances@.len() == chars@.len(),
            from <= i <= n,
            at == byte_offset(chars@, i as int),
            at <= 4 * i,
            !rest ==> char_at_offset(chars@, offset as int, from as int) == char_at_offset(
                chars@,
                offset as int,
                i as int,
            ),
            word@ == word_chars(chars@, from as int, i as int),
            units == glyph_width(chars@, advances@, from as int, i as int),
            units <= max_units(i - from),
        decreases n - i,
    {
        let c = chars[i];
        proof {
            let upto = chars@.subrange(from as int, i as int);
            let next = chars@.subrange(from as int, i + 1);
            reveal(Seq::filter);
            assert(next.drop_last() =~= upto);
            assert(next.last() == c);
        }
        if c != '\n' {
            word.push(c);
            units = units + advances[i] as u128;
        }
        at = at + char_len(c);
        i = i + 1;
    }
    (word, units, i, at)
}

/// The line that is shown for the characters of an open line: the same
/// characters without the spaces at the end.
fn line_string(pending: &Vec<char>) -> (line: String)
    ensures
        line@ == trim_end(pending@),
{
    let mut end = pending.len();
    assert(pending@.take(end as int) =~= pending@);
    while end > 0 && pending[end - 1] == ' '
        invariant
            end <= pending@.len(),
            trim_end(pending@) == trim_end(pending@.take(end as int)),
        decreases end,
    {
        proof {
            assert(pending@.take(end as int).drop_last() =~= pending@.take(end - 1));
        }
        end = end - 1;
    }
    let mut line = String::new();
    let mut k: usize = 0;
    while k < end
        invariant
            k <= end <= pending@.len(),
            line@ == pending@.take(k as int),
        decreases end - k,
    {
        push_char(&mut line, pending[k]);
        proof {
            assert(pending@.take(k as int).push(pending@[k as int]) =~= pending@.take(k + 1));
        }
        k = k + 1;
    }
    line
}

/// Finishes the open line.
fn flush(lines: &mut Vec<String>, pending: &mut Vec<char>)
    ensures
        line_texts(final(lines)@) == line_texts(old(lines)@).push(trim_end(old(pending)@)),
        final(pending)@ == Seq::<char>::empty(),
{
    let line = line_string(pending);
    lines.push(line);
    pending.clear();
    assert(line_texts(lines@) =~= line_texts(old(lines)@).push(trim_end(old(pending)@)));
}

/// What the three variables of `lay_out` stand for.
pub open spec fn layout_of(lines: Seq<String>, pending: Seq<char>, pos: int) -> Layout {
    Layout { lines: line_texts(lines), pending, pos }
}

/// Lays out one word.
fn place(
    lines: &mut Vec<String>,
    pending: &mut Vec<char>,
    pos: &mut u128,
    word: Vec<char>,
    units: u128,
    mandatory: bool,
    width: u32,
    height: u8,
    scale: Scale,
)
    requires
        *old(pos) + units <= max_units(usize::MAX as int),
    ensures
        layout_of(final(lines)@, final(pending)@, *final(pos) as int) == placed(
            layout_of(old(lines)@, old(pending)@, *old(pos) as int),
            word@,
            units as int,
            mandatory,
            width,
            height,
            scale,
        ),
        *final(pos) <= *old(pos) + units,
{
    let mut word = word;
    if !fits_in(*pos + units, width, height, scale) {
        flush(lines, pending);
        *pos = 0;
    }
    pending.append(&mut word);
    *pos = *pos + units;
    if mandatory {
        flush(lines, pending);
        *pos = 0;
    }
}

/// Wraps `text` at `width` pixels, given its break opportunities and the
/// advance of each of its characters. `height` is the height of a font cell,
/// and `scale` the factor at which the text will be drawn.
pub fn lay_out(
    text: &str,
    breaks: &Vec<(usize, bool)>,
    advances: &Vec<u16>,
    width: u32,
    height: u8,
    scale: Scale,
) -> (lines: Vec<String>)
    requires
        advances@.len() == text@.len(),
    ensures
        line_texts(lines@) == wrapped(text@, breaks@, advances@, width, height, scale),
{
    let chars = text_chars(text);
    let n = chars.len();
    let mut lines: Vec<String> = Vec::new();
    let mut pending: Vec<char> = Vec::new();
    let mut pos: u128 = 0;
    let mut from: usize = 0;
    let mut at: u128 = 0;
    let mut j: usize = 0;
    let mut closed = false;
    assert(line_texts(lines@) =~= Seq::<Seq<char>>::empty());
    while j < breaks.len()
        invariant
            chars@ == text@,
            n == chars@.len(),
            advances@.len() == chars@.len(),
            j <= breaks@.len(),
            from == cut(text@, breaks@, j - 1),
            from <= n,
            at == byte_offset(text@, from as int),
            at <= 4 * from,
            pos <= max_units(from as int),
            layout_of(lines@, pending@, pos as int) == laid_out(
                text@,
                breaks@,
                advances@,
                width,
                height,
                scale,
                j as int,
            ),
            closed == (j > 0 && breaks@[j - 1].1 && from >= n),
        decreases breaks@.len() - j,
    {
        let (offset, mandatory) = breaks[j];
        let (word, units, to, next) = take_word(&chars, advances, from, at, offset, false);
        assert(max_units(from as int) + max_units(to - from) == max_units(to as int));
        place(&mut lines, &mut pending, &mut pos, word, units, mandatory, width, height, scale);
        from = to;
        at = next;
        closed = mandatory && from >= n;
        j = j + 1;
    }
    if !closed {
        let (word, units, to, next) = take_word(&chars, advances, from, at, 0, true);
        assert(max_units(from as int) + max_units(to - from) == max_units(to as int));
        place(&mut lines, &mut pending, &mut pos, word, units, true, width, height, scale);
    }
    lines
}

} // verus!

verus! {

/// The characters from `from` up to `to` are one word of `text`: they lie
/// between two breaks that follow each other, or after the last break.
pub open spec fn one_word(text: Seq<char>, breaks: Seq<(usize, bool)>, from: int, to: int) -> bool {
    ||| exists|j: int|
        0 <= j < breaks.len() && from == cut(text, breaks, j - 1) && to == #[trigger] cut(
            text,
            breaks,
            j,
        )
    ||| (from == cut(text, breaks, breaks.len() - 1) && to == text.len())
}

/// `line` shows the characters of `text` from `from` up to `to`.
pub open spec fn line_from(line: Seq<char>, text: Seq<char>, from: int, to: int) -> bool {
    0 <= from <= to <= text.len() && line == trim_end(word_chars(text, from, to))
}

/// `line` shows a part of `text` whose glyphs fit in `width` pixels, or one
/// single word.
pub open spec fn within_width(
    line: Seq<char>,
    text: Seq<char>,
    breaks: Seq<(usize, bool)>,
    advances: Seq<u16>,
    width: u32,
    height: u8,
    scale: Scale,
) -> bool {
    exists|from: int, to: int|
        #[trigger] line_from(line, text, from, to) && (fits(
            glyph_width(text, advances, from, to),
            width,
            height,
            scale,
        ) || one_word(text, breaks, from, to))
}

/// Every finished line of `s` is within the width or one single word.
pub open spec fn lines_within_width(
    lines: Seq<Seq<char>>,
    text: Seq<char>,
    breaks: Seq<(usize, bool)>,
    advances: Seq<u16>,
    width: u32,
    height: u8,
    scale: Scale,
) -> bool {
    forall|k: int|
        0 <= k < lines.len() ==> within_width(
            #[trigger] lines[k],
            text,
            breaks,
            advances,
            width,
            height,
            scale,
        )
}

/// The open line of `s` holds the characters from `from` up to `to`, and is
/// within the width or one single word.
pub open spec fn open_line_from(
    s: Layout,
    text: Seq<char>,
    breaks: Seq<(usize, bool)>,
    advances: Seq<u16>,
    width: u32,
    height: u8,
    scale: Scale,
    from: int,
    to: int,
) -> bool {
    &&& 0 <= from <= to <= text.len()
    &&& s.pending == word_chars(text, from, to)
    &&& s.pos == glyph_width(text, advances, from, to)
    &&& (fits(s.pos, width, height, scale) || one_word(text, breaks, from, to))
}

proof fn lemma_char_at_offset(text: Seq<char>, offset: int, from: int)
    requires
        0 <= from <= text.len(),
    ensures
        from <= char_at_offset(text, offset, from) <= text.len(),
    decreases text.len() - from,
{
    if !(from >= text.len() || byte_offset(text, from) >= offset) {
        lemma_char_at_offset(text, offset, from + 1);
    }
}

/// The cuts go up and stay inside the text.
pub proof fn lemma_cut(text: Seq<char>, breaks: Seq<(usize, bool)>, j: int)
    requires
        -1 <= j < breaks.len(),
    ensures
        0 <= cut(text, breaks, j) <= text.len(),
        j >= 0 ==> cut(text, breaks, j - 1) <= cut(text, breaks, j),
    decreases j + 1,
{
    if j >= 0 {
        lemma_cut(text, breaks, j - 1);
        lemma_char_at_offset(text, breaks[j].0 as int, cut(text, breaks, j - 1));
    }
}

proof fn lemma_word_chars_add(text: Seq<char>, a: int, b: int, c: int)
    requires
        0 <= a <= b <= c <= text.len(),
    ensures
        word_chars(text, a, b) + word_chars(text, b, c) == word_chars(text, a, c),
{
    let pred = |ch: char| ch != '\n';
    assert(text.subrange(a, b) + text.subrange(b, c) =~= text.subrange(a, c));
    Seq::filter_distributes_over_add(text.subrange(a, b), text.subrange(b, c), pred);
}

proof fn lemma_glyph_width_add(text: Seq<char>, advances: Seq<u16>, a: int, b: int, c: int)
    requires
        a <= b <= c,
    ensures
        glyph_width(text, advances, a, b) + glyph_width(text, advances, b, c) == glyph_width(
            text,
            advances,
            a,
            c,
        ),
        glyph_width(text, advances, a, b) >= 0,
    decreases c - b,
{
    if c > b {
        lemma_glyph_width_add(text, advances, a, b, c - 1);
    } else {
        lemma_glyph_width_nonneg(text, advances, a, b);
    }
}

proof fn lemma_glyph_width_nonneg(text: Seq<char>, advances: Seq<u16>, a: int, b: int)
    ensures
        glyph_width(text, advances, a, b) >= 0,
    decreases b - a,
{
    if b > a {
        lemma_glyph_width_nonneg(text, advances, a, b - 1);
    }
}

proof fn lemma_nothing_fits(width: u32, height: u8, scale: Scale)
    ensures
        fits(0, width, height, scale),
{
    let w = width as int;
    let h = height as int;
    let num = scale.num as int;
    let den = scale.den as int;
    assert(0 * 30 * num <= w * h * den) by (nonlinear_arith)
        requires
            w >= 0,
            h >= 0,
            den >= 0,
    ;
}

/// Laying out one more word keeps every finished line, and the open line,
/// within the width or one single word.
proof fn lemma_placed(
    s: Layout,
    text: Seq<char>,
    breaks: Seq<(usize, bool)>,
    advances: Seq<u16>,
    width: u32,
    height: u8,
    scale: Scale,
    a: int,
    from: int,
    to: int,
    mandatory: bool,
) -> (b: int)
    requires
        lines_within_width(s.lines, text, breaks, advances, width, height, scale),
        open_line_from(s, text, breaks, advances, width, height, scale, a, from),
        from <= to <= text.len(),
        one_word(text, breaks, from, to),
    ensures
        ({
            let t = placed(
                s,
                word_chars(text, from, to),
                glyph_width(text, advances, from, to),
                mandatory,
                width,
                height,
                scale,
            );
            &&& lines_within_width(t.lines, text, breaks, advances, width, height, scale)
            &&& open_line_from(t, text, breaks, advances, width, height, scale, b, to)
        }),
{
    let word = word_chars(text, from, to);
    let units = glyph_width(text, advances, from, to);
    lemma_word_chars_add(text, a, from, to);
    lemma_glyph_width_add(text, advances, a, from, to);
    lemma_nothing_fits(width, height, scale);
    reveal(Seq::filter);
    assert(text.subrange(from, from) =~= Seq::<char>::empty());
    assert(text.subrange(to, to) =~= Seq::<char>::empty());
    let stays = fits(s.pos + units, width, height, scale);
    let opened = if stays {
        s
    } else {
        flushed(s)
    };
    let start = if stays {
        a
    } else {
        from
    };
    if !stays {
        assert(line_from(trim_end(s.pending), text, a, from));
        assert(Seq::<char>::empty() + word =~= word);
    }
    assert(lines_within_width(opened.lines, text, breaks, advances, width, height, scale));
    let with_word = Layout {
        lines: opened.lines,
        pending: opened.pending + word,
        pos: opened.pos + units,
    };
    assert(open_line_from(with_word, text, breaks, advances, width, height, scale, start, to));
    if mandatory {
        assert(line_from(trim_end(with_word.pending), text, start, to));
        to
    } else {
        start
    }
}

/// After any number of words, every finished line and the open line are
/// within the width or one single word.
proof fn lemma_laid_out(
    text: Seq<char>,
    breaks: Seq<(usize, bool)>,
    advances: Seq<u16>,
    width: u32,
    height: u8,
    scale: Scale,
    j: int,
) -> (a: int)
    requires
        0 <= j <= breaks.len(),
    ensures
        ({
            let s = laid_out(text, breaks, advances, width, height, scale, j);
            &&& lines_within_width(s.lines, text, breaks, advances, width, height, scale)
            &&& open_line_from(
                s,
                text,
                breaks,
                advances,
                width,
                height,
                scale,
                a,
                cut(text, breaks, j - 1),
            )
        }),
    decreases j,
{
    if j == 0 {
        lemma_nothing_fits(width, height, scale);
        reveal(Seq::filter);
        assert(text.subrange(0, 0) =~= Seq::<char>::empty());
        0
    } else {
        let before = lemma_laid_out(text, breaks, advances, width, height, scale, j - 1);
        lemma_cut(text, breaks, j - 1);
        let from = cut(text, breaks, j - 2);
        let to = cut(text, breaks, j - 1);
        assert(one_word(text, breaks, from, to));
        lemma_placed(
            laid_out(text, breaks, advances, width, height, scale, j - 1),
            text,
            breaks,
            advances,
            width,
            height,
            scale,
            before,
            from,
            to,
            breaks[j - 1].1,
        )
    }
}

/// No line of a wrapped text is wider than the width, but for a line that
/// holds one single word: each line shows a part of the text whose summed
/// advance fits in the width, or exactly one word.
pub proof fn lemma_wrapped_within_width(
    text: Seq<char>,
    breaks: Seq<(usize, bool)>,
    advances: Seq<u16>,
    width: u32,
    height: u8,
    scale: Scale,
)
    ensures
        lines_within_width(
            wrapped(text, breaks, advances, width, height, scale),
            text,
            breaks,
            advances,
            width,
            height,
            scale,
        ),
{
    let m = breaks.len() as int;
    let a = lemma_laid_out(text, breaks, advances, width, height, scale, m);
    if !closes(text, breaks) {
        lemma_cut(text, breaks, m - 1);
        let from = cut(text, breaks, m - 1);
        let to = text.len() as int;
        let _ = lemma_placed(
            laid_out(text, breaks, advances, width, height, scale, m),
            text,
            breaks,
            advances,
            width,
            height,
            scale,
            a,
            from,
            to,
            true,
        );
    }
}

} // verus!

verus! {

/// `lines` show the parts of `text` that `cuts` mark, one after the other
/// and in the order of the text: line `k` shows the characters from
/// `cuts[k]` up to `cuts[k + 1]`, without line feeds and without the spaces
/// at its end.
pub open spec fn parts_of(lines: Seq<Seq<char>>, text: Seq<char>, cuts: Seq<int>) -> bool {
    &&& cuts.len() == lines.len() + 1
    &&& cuts[0] == 0
    &&& forall|k: int| 0 <= k < lines.len() ==> #[trigger] part_of(lines, text, cuts, k)
}

/// Line `k` shows the characters from `cuts[k]` up to `cuts[k + 1]`.
pub open spec fn part_of(lines: Seq<Seq<char>>, text: Seq<char>, cuts: Seq<int>, k: int) -> bool {
    &&& 0 <= cuts[k] <= cuts[k + 1] <= text.len()
    &&& lines[k] == trim_end(word_chars(text, cuts[k], cuts[k + 1]))
}

/// A mandatory break ends a line at character `to`: a break that is
/// mandatory lies there, or the text ends there without a break that
/// closes it.
pub open spec fn mandatory_at(text: Seq<char>, breaks: Seq<(usize, bool)>, to: int) -> bool {
    ||| exists|j: int| 0 <= j < breaks.len() && breaks[j].1 && to == #[trigger] cut(text, breaks, j)
    ||| (to == text.len() && !closes(text, breaks))
}

/// The line that shows the characters from `from` up to `to` ends where it
/// has to: at a mandatory break, or in front of a word that does not fit
/// behind it.
pub open spec fn ends_where_due(
    text: Seq<char>,
    breaks: Seq<(usize, bool)>,
    advances: Seq<u16>,
    width: u32,
    height: u8,
    scale: Scale,
    from: int,
    to: int,
) -> bool {
    ||| mandatory_at(text, breaks, to)
    ||| exists|next: int|
        to <= next && #[trigger] one_word(text, breaks, to, next) && !fits(
            glyph_width(text, advances, from, to) + glyph_width(text, advances, to, next),
            width,
            height,
            scale,
        )
}

/// The finished lines of `s` show the parts of the text up to the last of
/// `cuts`, each ends where it has to, and the open line holds what follows
/// up to `to`.
pub open spec fn laid_out_in_parts(
    s: Layout,
    text: Seq<char>,
    breaks: Seq<(usize, bool)>,
    advances: Seq<u16>,
    width: u32,
    height: u8,
    scale: Scale,
    cuts: Seq<int>,
    to: int,
) -> bool {
    &&& parts_of(s.lines, text, cuts)
    &&& 0 <= cuts.last() <= to <= text.len()
    &&& s.pending == word_chars(text, cuts.last(), to)
    &&& s.pos == glyph_width(text, advances, cuts.last(), to)
    &&& forall|k: int|
        0 <= k < s.lines.len() ==> #[trigger] due_at(
            text,
            breaks,
            advances,
            width,
            height,
            scale,
            cuts,
            k,
        )
}

/// The line that shows part `k` of the text ends where it has to.
pub open spec fn due_at(
    text: Seq<char>,
    breaks: Seq<(usize, bool)>,
    advances: Seq<u16>,
    width: u32,
    height: u8,
    scale: Scale,
    cuts: Seq<int>,
    k: int,
) -> bool {
    ends_where_due(text, breaks, advances, width, height, scale, cuts[k], cuts[k + 1])
}

/// One more line is finished at `to`.
proof fn lemma_part_flushed(
    s: Layout,
    text: Seq<char>,
    breaks: Seq<(usize, bool)>,
    advances: Seq<u16>,
    width: u32,
    height: u8,
    scale: Scale,
    cuts: Seq<int>,
    to: int,
)
    requires
        laid_out_in_parts(s, text, breaks, advances, width, height, scale, cuts, to),
        ends_where_due(text, breaks, advances, width, height, scale, cuts.last(), to),
    ensures
        laid_out_in_parts(flushed(s), text, breaks, advances, width, height, scale, cuts.push(to), to),
{
    let t = flushed(s);
    let more = cuts.push(to);
    let n = s.lines.len() as int;
    reveal(Seq::filter);
    assert(text.subrange(to, to) =~= Seq::<char>::empty());
    assert(more.last() == to && more[0] == cuts[0] && more[n] == cuts.last());
    assert forall|k: int| 0 <= k < t.lines.len() implies #[trigger] part_of(
        t.lines,
        text,
        more,
        k,
    ) by {
        if k < n {
            assert(part_of(s.lines, text, cuts, k));
            assert(t.lines[k] == s.lines[k]);
            assert(more[k] == cuts[k] && more[k + 1] == cuts[k + 1]);
        } else {
            assert(t.lines[k] == trim_end(s.pending));
        }
    }
    assert forall|k: int| 0 <= k < t.lines.len() implies #[trigger] due_at(
        text,
        breaks,
        advances,
        width,
        height,
        scale,
        more,
        k,
    ) by {
        if k < n {
            assert(due_at(text, breaks, advances, width, height, scale, cuts, k));
            assert(more[k] == cuts[k] && more[k + 1] == cuts[k + 1]);
        }
    }
}

/// Laying out one more word keeps the lines in parts.
proof fn lemma_placed_in_parts(
    s: Layout,
    text: Seq<char>,
    breaks: Seq<(usize, bool)>,
    advances: Seq<u16>,
    width: u32,
    height: u8,
    scale: Scale,
    cuts: Seq<int>,
    from: int,
    to: int,
    mandatory: bool,
) -> (more: Seq<int>)
    requires
        laid_out_in_parts(s, text, breaks, advances, width, height, scale, cuts, from),
        from <= to <= text.len(),
        one_word(text, breaks, from, to),
        mandatory ==> mandatory_at(text, breaks, to),
    ensures
        laid_out_in_parts(
            placed(
                s,
                word_chars(text, from, to),
                glyph_width(text, advances, from, to),
                mandatory,
                width,
                height,
                scale,
            ),
            text,
            breaks,
            advances,
            width,
            height,
            scale,
            more,
            to,
        ),
        mandatory ==> more.last() == to,
{
    let word = word_chars(text, from, to);
    let units = glyph_width(text, advances, from, to);
    let a = cuts.last();
    lemma_word_chars_add(text, a, from, to);
    lemma_glyph_width_add(text, advances, a, from, to);
    let stays = fits(s.pos + units, width, height, scale);
    let opened = if stays {
        s
    } else {
        flushed(s)
    };
    let first = if stays {
        cuts
    } else {
        cuts.push(from)
    };
    if !stays {
        assert(ends_where_due(text, breaks, advances, width, height, scale, a, from));
        lemma_part_flushed(s, text, breaks, advances, width, height, scale, cuts, from);
        assert(Seq::<char>::empty() + word =~= word);
        lemma_glyph_width_add(text, advances, from, from, to);
    }
    let with_word = Layout {
        lines: opened.lines,
        pending: opened.pending + word,
        pos: opened.pos + units,
    };
    assert(laid_out_in_parts(with_word, text, breaks, advances, width, height, scale, first, to));
    if mandatory {
        lemma_part_flushed(with_word, text, breaks, advances, width, height, scale, first, to);
        first.push(to)
    } else {
        first
    }
}

/// After any number of words the lines are in parts.
proof fn lemma_laid_out_in_parts(
    text: Seq<char>,
    breaks: Seq<(usize, bool)>,
    advances: Seq<u16>,
    width: u32,
    height: u8,
    scale: Scale,
    j: int,
) -> (cuts: Seq<int>)
    requires
        0 <= j <= breaks.len(),
    ensures
        laid_out_in_parts(
            laid_out(text, breaks, advances, width, height, scale, j),
            text,
            breaks,
            advances,
            width,
            height,
            scale,
            cuts,
            cut(text, breaks, j - 1),
        ),
        j > 0 && breaks[j - 1].1 ==> cuts.last() == cut(text, breaks, j - 1),
    decreases j,
{
    if j == 0 {
        reveal(Seq::filter);
        assert(text.subrange(0, 0) =~= Seq::<char>::empty());
        seq![0int]
    } else {
        let before = lemma_laid_out_in_parts(text, breaks, advances, width, height, scale, j - 1);
        lemma_cut(text, breaks, j - 1);
        let from = cut(text, breaks, j - 2);
        let to = cut(text, breaks, j - 1);
        assert(one_word(text, breaks, from, to));
        lemma_placed_in_parts(
            laid_out(text, breaks, advances, width, height, scale, j - 1),
            text,
            breaks,
            advances,
            width,
            height,
            scale,
            before,
            from,
            to,
            breaks[j - 1].1,
        )
    }
}

/// Wrapping loses nothing and changes no order: the lines show the parts
/// of the text, one after the other, from its first character to its
/// last, each without its line feeds and without the spaces at its end.
/// And no line ends early: each ends at a mandatory break, or in front of
/// a word that does not fit behind it. The result is where the parts
/// begin and end.
pub proof fn lemma_wrapped_in_parts(
    text: Seq<char>,
    breaks: Seq<(usize, bool)>,
    advances: Seq<u16>,
    width: u32,
    height: u8,
    scale: Scale,
) -> (cuts: Seq<int>)
    ensures
        parts_of(wrapped(text, breaks, advances, width, height, scale), text, cuts),
        cuts.last() == text.len(),
        forall|k: int|
            0 <= k < wrapped(text, breaks, advances, width, height, scale).len() ==> #[trigger] due_at(
                text,
                breaks,
                advances,
                width,
                height,
                scale,
                cuts,
                k,
            ),
{
    let m = breaks.len() as int;
    let before = lemma_laid_out_in_parts(text, breaks, advances, width, height, scale, m);
    if closes(text, breaks) {
        lemma_cut(text, breaks, m - 1);
        before
    } else {
        lemma_cut(text, breaks, m - 1);
        let from = cut(text, breaks, m - 1);
        let to = text.len() as int;
        lemma_placed_in_parts(
            laid_out(text, breaks, advances, width, height, scale, m),
            text,
            breaks,
            advances,
            width,
            height,
            scale,
            before,
            from,
            to,
            true,
        )
    }
}

} // verus!
