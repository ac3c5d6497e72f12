use ui_core::textlayout::layout_text_lines;
use ui_core::textlayout::text_size;
use ui_core::textlayout::TextFont;
use ui_core::textlayout::TextHorizontalAlignment;
use ui_core::textlayout::TextOverflow;
use ui_core::textlayout::TextVerticalAlignment;
use ui_core::textlayout::TextWrap;

/// A font whose characters all advance by `adv` and whose lines are
/// `height` tall.
fn mono_font(height: i64, adv: i64) -> TextFont {
    TextFont { height, default_advance: adv, advances: Vec::new(), letter_spacing: 0 }
}

fn chars_of(s: &str) -> Vec<char> {
    s.chars().collect()
}

fn string_of(cs: &[char]) -> String {
    cs.iter().collect()
}

#[test]
fn ascii_layout_left_top_no_wrap() {
    let font = mono_font(10, 6);
    let text = chars_of("Hi\nYo");
    let (lines, final_y) = layout_text_lines(
        &text,
        &font,
        100,
        100,
        TextHorizontalAlignment::Left,
        TextVerticalAlignment::Top,
        TextWrap::NoWrap,
        TextOverflow::Clip,
        false,
    );
    assert_eq!(lines.len(), 2);
    assert_eq!(string_of(&lines[0].chars), "Hi");
    assert_eq!((lines[0].x, lines[0].y), (0, 0));
    assert_eq!(string_of(&lines[1].chars), "Yo");
    assert_eq!((lines[1].x, lines[1].y), (0, 10));
    assert_eq!(final_y, 20);
}

#[test]
fn word_wrap_two_lines() {
    // Each character is 10 wide; only "Hello" (plus its trailing space)
    // fits into 60.
    let font = mono_font(10, 10);
    let text = chars_of("Hello world");
    let (lines, _) = layout_text_lines(
        &text,
        &font,
        60,
        100,
        TextHorizontalAlignment::Left,
        TextVerticalAlignment::Top,
        TextWrap::WordWrap,
        TextOverflow::Clip,
        false,
    );
    assert_eq!(lines.len(), 2);
    assert_eq!(lines[1].y, 10);
    assert_eq!(string_of(&lines[1].chars), "world");
}

#[test]
fn elision_appends_ellipsis() {
    // "abc" is 30 wide, the ellipsis 10: a maximum width of 45 keeps
    // "abc…" and cuts the rest.
    let font = mono_font(10, 10);
    let text = chars_of("abcdefgh");
    let (lines, _) = layout_text_lines(
        &text,
        &font,
        45,
        100,
        TextHorizontalAlignment::Left,
        TextVerticalAlignment::Top,
        TextWrap::NoWrap,
        TextOverflow::Elide,
        false,
    );
    assert_eq!(lines.len(), 1);
    assert_eq!(string_of(&lines[0].chars), "abc…");
    assert!(lines[0].elided);
    assert!(lines[0].width <= 45);
}

#[test]
fn center_vertical_single_line() {
    let font = mono_font(10, 5);
    let text = chars_of("x");
    let (lines, _) = layout_text_lines(
        &text,
        &font,
        100,
        30,
        TextHorizontalAlignment::Left,
        TextVerticalAlignment::Center,
        TextWrap::NoWrap,
        TextOverflow::Clip,
        true,
    );
    assert_eq!(lines.len(), 1);
    assert_eq!(lines[0].y, 10);
}

#[test]
fn empty_text_keeps_initial_baseline() {
    let font = mono_font(10, 5);
    let text: Vec<char> = Vec::new();
    let (lines, final_y) = layout_text_lines(
        &text,
        &font,
        100,
        100,
        TextHorizontalAlignment::Left,
        TextVerticalAlignment::Top,
        TextWrap::NoWrap,
        TextOverflow::Clip,
        false,
    );
    assert_eq!(lines.len(), 0);
    assert_eq!(final_y, 0);
}

#[test]
fn newline_only_advances_one_line() {
    let font = mono_font(10, 5);
    let text = chars_of("\na");
    let (lines, final_y) = layout_text_lines(
        &text,
        &font,
        100,
        100,
        TextHorizontalAlignment::Left,
        TextVerticalAlignment::Top,
        TextWrap::NoWrap,
        TextOverflow::Clip,
        false,
    );
    assert_eq!(lines.len(), 2);
    assert_eq!(string_of(&lines[0].chars), "");
    assert_eq!(lines[1].y, 10);
    assert_eq!(final_y, 20);
}

#[test]
fn tiny_width_elides_to_bare_ellipsis() {
    // A maximum width smaller than the ellipsis yields a line holding
    // just the ellipsis.
    let font = mono_font(10, 10);
    let text = chars_of("abc");
    let (lines, _) = layout_text_lines(
        &text,
        &font,
        5,
        100,
        TextHorizontalAlignment::Left,
        TextVerticalAlignment::Top,
        TextWrap::NoWrap,
        TextOverflow::Elide,
        false,
    );
    assert_eq!(lines.len(), 1);
    assert_eq!(string_of(&lines[0].chars), "…");
}

#[test]
fn alignment_center_and_right() {
    let font = mono_font(10, 10);
    let text = chars_of("ab");
    let (lines, _) = layout_text_lines(
        &text,
        &font,
        100,
        100,
        TextHorizontalAlignment::Center,
        TextVerticalAlignment::Top,
        TextWrap::NoWrap,
        TextOverflow::Clip,
        false,
    );
    // Width 20 under a maximum of 100: centered at (100 - 20) / 2.
    assert_eq!(lines[0].x, 40);
    let (lines_r, _) = layout_text_lines(
        &text,
        &font,
        100,
        100,
        TextHorizontalAlignment::Right,
        TextVerticalAlignment::Top,
        TextWrap::NoWrap,
        TextOverflow::Clip,
        false,
    );
    assert_eq!(lines_r[0].x, 80);
}

#[test]
fn layout_fit_respects_max_height() {
    // Five source lines, but only three baselines fit 30 pixels.
    let font = mono_font(10, 5);
    let text = chars_of("a\nb\nc\nd\ne");
    let (lines, _) = layout_text_lines(
        &text,
        &font,
        100,
        30,
        TextHorizontalAlignment::Left,
        TextVerticalAlignment::Top,
        TextWrap::NoWrap,
        TextOverflow::Clip,
        false,
    );
    assert_eq!(lines.len(), 3);
    for line in &lines {
        assert!(line.y + 10 <= 30);
    }
}

#[test]
fn clip_cuts_without_ellipsis() {
    let font = mono_font(10, 10);
    let text = chars_of("abcdefgh");
    let (lines, _) = layout_text_lines(
        &text,
        &font,
        35,
        100,
        TextHorizontalAlignment::Left,
        TextVerticalAlignment::Top,
        TextWrap::NoWrap,
        TextOverflow::Clip,
        false,
    );
    assert_eq!(lines.len(), 1);
    assert!(!lines[0].elided);
    // The cut falls before the glyph that reaches the limit.
    assert_eq!(string_of(&lines[0].chars), "abc");
}

#[test]
fn text_size_counts_lines_and_width() {
    let font = mono_font(10, 10);
    let text = chars_of("ab\nabcd");
    let (w, h) = text_size(&font, &text, None);
    assert_eq!(w, 40);
    assert_eq!(h, 20);
    // Under wrapping, "aaa bbb" at width 40 breaks after "aaa ".
    let text2 = chars_of("aaa bbb");
    let (w2, h2) = text_size(&font, &text2, Some(40));
    assert_eq!(h2, 20);
    assert!(w2 <= 40);
}

#[test]
fn word_too_wide_stops_wrapping() {
    let font = mono_font(10, 10);
    let text = chars_of("abcdefgh");
    let (lines, final_y) = layout_text_lines(
        &text,
        &font,
        30,
        100,
        TextHorizontalAlignment::Left,
        TextVerticalAlignment::Top,
        TextWrap::WordWrap,
        TextOverflow::Clip,
        false,
    );
    // A single unbreakable word wider than the line: wrapping stops
    // without emitting anything.
    assert_eq!(lines.len(), 0);
    assert_eq!(final_y, 0);
}
