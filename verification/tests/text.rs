use toot_3d::ui::glyph_cache::Glyph;
use toot_3d::ui::layout::{lay_out, text_chars, Scale};
use toot_3d::ui::text::{TextLines, TextRenderer};

fn measure_all(renderer: &mut TextRenderer, text: &str, advance: u16) -> (Vec<u16>, Vec<char>) {
    let mut advances = Vec::new();
    let mut fetched = Vec::new();
    loop {
        match renderer.measure(text, &mut advances) {
            Some(c) => {
                fetched.push(c);
                renderer.put_glyph(c, Glyph { index: c as u32, x_advance: advance });
            }
            None => break,
        }
    }
    (advances, fetched)
}

fn wrap(text: &str, width: u32, scale: Scale) -> Vec<String> {
    let mut renderer = TextRenderer::new(30);
    let (advances, _) = measure_all(&mut renderer, text, 10);
    TextLines::new(text, &advances, &renderer, width, scale).lines().clone()
}

const ONE: Scale = Scale { num: 1, den: 1 };

#[test]
fn wrap_breaks_where_the_next_word_does_not_fit() {
    let lines = wrap("from Alice\nHello world", 100, ONE);
    assert_eq!(lines, vec!["from Alice", "Hello", "world"]);
}

#[test]
fn wrap_keeps_words_together_that_fit() {
    let lines = wrap("from Alice\nHello world", 110, ONE);
    assert_eq!(lines, vec!["from Alice", "Hello world"]);
}

#[test]
fn wrap_puts_an_overlong_word_on_its_own_line() {
    let lines = wrap("a Supercalifragilistic b", 100, ONE);
    assert_eq!(lines, vec!["a", "Supercalifragilistic", "b"]);
}

#[test]
fn wrap_leaves_an_empty_line_before_an_overlong_first_word() {
    let lines = wrap("Supercalifragilistic", 100, ONE);
    assert_eq!(lines, vec!["", "Supercalifragilistic"]);
}

#[test]
fn wrap_of_an_empty_text_is_one_empty_line() {
    assert_eq!(wrap("", 100, ONE), vec![""]);
}

#[test]
fn wrap_breaks_at_every_line_feed() {
    assert_eq!(wrap("a\n\nb\n", 100, ONE), vec!["a", "", "b"]);
}

#[test]
fn wrap_flushes_after_a_word_that_overflowed_before_a_line_feed() {
    // "bbbb" does not fit behind "aaaa " and goes to a new line; the line
    // feed after it ends that line, so "cc" starts another one.
    assert_eq!(wrap("aaaa bbbb\ncc", 60, ONE), vec!["aaaa", "bbbb", "cc"]);
}

#[test]
fn wrap_scales_the_glyphs() {
    // at half the size twice as many glyphs fit
    let half = Scale { num: 1, den: 2 };
    assert_eq!(wrap("from Alice Hello", 80, half), vec!["from Alice Hello"]);
    assert_eq!(wrap("from Alice Hello", 80, ONE), vec!["from", "Alice", "Hello"]);
}

#[test]
fn wrap_counts_in_units_of_the_font_cell() {
    // a font with cells of 15 pixels is drawn at twice its size
    let mut renderer = TextRenderer::new(15);
    let text = "ab cd";
    let (advances, _) = measure_all(&mut renderer, text, 10);
    let lines = TextLines::new(text, &advances, &renderer, 100, ONE);
    assert_eq!(lines.lines(), &vec!["ab cd".to_string()]);
    let lines = TextLines::new(text, &advances, &renderer, 99, ONE);
    assert_eq!(lines.lines(), &vec!["ab".to_string(), "cd".to_string()]);
}

#[test]
fn wrap_handles_characters_of_several_bytes() {
    let lines = wrap("héllo wörld ünïcode", 60, ONE);
    assert_eq!(lines, vec!["héllo", "wörld", "ünïcode"]);
}

#[test]
fn no_line_is_wider_than_the_width_but_a_single_word() {
    let text = "The quick brown fox jumps over the lazy dog and extraordinarily far";
    for width in [30u32, 50, 70, 100, 150, 400] {
        for line in wrap(text, width, ONE) {
            let units = 10 * line.chars().count() as u32;
            assert!(units <= width || !line.contains(' '), "{:?} at {}", line, width);
        }
    }
}

#[test]
fn text_height_is_lines_times_cell_height_times_scale() {
    let mut renderer = TextRenderer::new(30);
    let text = "from Alice\nHello world";
    let (advances, _) = measure_all(&mut renderer, text, 10);
    let scale = Scale { num: 1, den: 2 };
    let lines = TextLines::new(text, &advances, &renderer, 50, scale);
    assert_eq!(lines.lines().len(), 3);
    // three lines of 30 pixels at one half: 45 pixels, counted in halves
    assert_eq!(lines.height(), 90);
    assert_eq!(lines.scale(), scale);
}

#[test]
fn lay_out_takes_breaks_as_they_are_given() {
    let text = "abcdef";
    let advances = vec![10u16; 6];
    let lines = lay_out(text, &vec![(2, false), (4, true), (6, true)], &advances, 100, 30, ONE);
    assert_eq!(lines, vec!["abcd", "ef"]);
    // without a closing break the rest of the text is a last word
    let lines = lay_out(text, &vec![(2, true)], &advances, 100, 30, ONE);
    assert_eq!(lines, vec!["ab", "cdef"]);
    let lines = lay_out(text, &vec![], &advances, 100, 30, ONE);
    assert_eq!(lines, vec!["abcdef"]);
}

#[test]
fn text_chars_gives_the_characters() {
    assert_eq!(text_chars("aé\n"), vec!['a', 'é', '\n']);
}

#[test]
fn glyph_cache_holds_two_glyphs_and_drops_the_least_recent() {
    let mut renderer = TextRenderer::new(30);
    let a = Glyph { index: 1, x_advance: 5 };
    let b = Glyph { index: 2, x_advance: 6 };
    let c = Glyph { index: 3, x_advance: 7 };
    assert_eq!(renderer.get_glyph('a'), None);
    renderer.put_glyph('a', a);
    renderer.put_glyph('b', b);
    // 'a' is used again, so 'b' is the least recently used
    assert_eq!(renderer.get_glyph('a'), Some(a));
    renderer.put_glyph('c', c);
    assert_eq!(renderer.get_glyph('b'), None);
    assert_eq!(renderer.get_glyph('a'), Some(a));
    assert_eq!(renderer.get_glyph('c'), Some(c));
    assert_eq!(renderer.height(), 30);
}

#[test]
fn measure_stops_at_each_glyph_that_is_missing() {
    let mut renderer = TextRenderer::new(30);
    let (advances, fetched) = measure_all(&mut renderer, "abab\nc", 10);
    // two glyphs fit, so "abab" needs each glyph once; '\n' needs none
    assert_eq!(fetched, vec!['a', 'b', 'c']);
    assert_eq!(advances, vec![10, 10, 10, 10, 0, 10]);
    let (_, fetched) = measure_all(&mut renderer, "abc", 10);
    // 'b' and 'c' were the last two used: 'a' evicts 'b', and so on
    assert_eq!(fetched, vec!['a', 'b', 'c']);
}

#[test]
fn wrapping_loses_no_character_but_line_feeds_and_spaces_at_line_ends() {
    let text = "The quick  brown fox\njumps over the lazy dog, extraordinarily far\n\nand back";
    let kept: String = text.chars().filter(|c| *c != '\n' && *c != ' ').collect();
    for width in [10u32, 40, 70, 100, 150, 1000] {
        let lines = wrap(text, width, ONE);
        let shown: String = lines.concat().chars().filter(|c| *c != ' ').collect();
        assert_eq!(shown, kept, "at {}", width);
        assert!(lines.iter().all(|line| !line.ends_with(' ') && !line.contains('\n')));
    }
}

#[test]
fn a_line_ends_only_where_the_next_word_does_not_fit_or_at_a_line_feed() {
    // a word is measured with the space behind it: "cc " would end at 90
    let lines = wrap("aa bb cc dd ee ff", 80, ONE);
    assert_eq!(lines, vec!["aa bb", "cc dd", "ee ff"]);
    let lines = wrap("aa bb cc dd ee ff", 90, ONE);
    assert_eq!(lines, vec!["aa bb cc", "dd ee ff"]);
    let lines = wrap("aa bb cc dd ee ff", 110, ONE);
    assert_eq!(lines, vec!["aa bb cc", "dd ee ff"]);
    let lines = wrap("aa bb cc dd ee ff", 120, ONE);
    assert_eq!(lines, vec!["aa bb cc dd", "ee ff"]);
    let lines = wrap("aa bb\ncc dd ee ff", 120, ONE);
    assert_eq!(lines, vec!["aa bb", "cc dd ee ff"]);
}
