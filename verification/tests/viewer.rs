use abbs::lines::{find_line, line_offsets};
use abbs::pattern::{char_is_meta, escape, literal};
use abbs::text::same_text;
use abbs::viewer::{ReaderAction, ReaderEvent, ReaderView, Span};

/// A text of `lines` lines, each of ten bytes with its line feed.
fn numbered(lines: usize) -> String {
    (0..lines).map(|i| format!("line {:04}\n", i)).collect()
}

fn reader_with(text: &str, height: usize) -> ReaderView {
    let mut reader = ReaderView::new("");
    reader.set_text(text.to_string());
    reader.layout(1, height);
    reader
}

#[test]
fn table_of_line_starts() {
    assert_eq!(line_offsets(""), vec![0, 1]);
    assert_eq!(line_offsets("abc"), vec![0, 4]);
    assert_eq!(line_offsets("ab\ncd\n"), vec![0, 3, 6, 7]);
    assert_eq!(line_offsets("\n\n"), vec![0, 1, 2, 3]);
    assert_eq!(line_offsets("é\nü"), vec![0, 3, 6]);
}

#[test]
fn table_agrees_with_summing_the_lines() {
    for text in ["", "a", "a\n", "one\ntwo\n\nfour", "\n", "日本\n語\n"] {
        let mut expected = vec![0usize];
        for line in text.split('\n') {
            expected.push(expected.last().unwrap() + line.len() + 1);
        }
        assert_eq!(line_offsets(text), expected, "{:?}", text);
    }
}

#[test]
fn line_of_an_offset() {
    let offsets = line_offsets("ab\ncd\nef");
    assert_eq!(offsets, vec![0, 3, 6, 9]);
    assert_eq!(find_line(&offsets, 0), 0);
    assert_eq!(find_line(&offsets, 2), 0);
    assert_eq!(find_line(&offsets, 3), 1);
    assert_eq!(find_line(&offsets, 5), 1);
    assert_eq!(find_line(&offsets, 6), 2);
    assert_eq!(find_line(&offsets, 8), 2);
    assert_eq!(find_line(&offsets, 9), 3);
    assert_eq!(find_line(&offsets, 1000), 3);
}

#[test]
fn new_reader_is_empty() {
    let reader = ReaderView::new("<p>x</p>");
    assert_eq!(reader.text(), "");
    assert_eq!(reader.line_offsets(), &vec![0, 1]);
    assert_eq!(reader.char_offset(), 0);
    assert_eq!(reader.current_match(), None);
    assert!(!reader.is_searching());
    assert_eq!(reader.visible_text(), "");
}

#[test]
fn layout_renders_the_article_as_text() {
    let mut reader = ReaderView::new("<h1>Title</h1><p>Hello <b>bold</b> world</p>");
    reader.layout(40, 10);
    assert_eq!(reader.text(), "# Title\n\nHello **bold** world\n");
    assert_eq!(reader.line_offsets(), &vec![0, 8, 9, 30, 31]);
}

#[test]
fn layout_wraps_three_columns_short_of_the_width() {
    let mut reader = ReaderView::new("<p>aaaa bbbb cccc dddd</p>");
    reader.layout(12, 10);
    assert_eq!(reader.text(), "aaaa bbbb\ncccc dddd\n");
    reader.layout(13, 10);
    assert_eq!(reader.text(), "aaaa bbbb\ncccc dddd\n");
    reader.layout(17, 10);
    assert_eq!(reader.text(), "aaaa bbbb cccc\ndddd\n");
}

#[test]
fn layout_at_the_same_width_keeps_the_text() {
    let mut reader = ReaderView::new("<p>Hello</p>");
    reader.layout(1, 10);
    assert_eq!(reader.text(), "");
    reader.layout(30, 10);
    assert_eq!(reader.text(), "Hello\n");
    reader.set_text("changed".to_string());
    reader.layout(30, 5);
    assert_eq!(reader.text(), "changed");
}

#[test]
fn layout_too_narrow_shows_no_text() {
    let mut reader = ReaderView::new("<p>Hello</p>");
    reader.layout(30, 10);
    assert_eq!(reader.text(), "Hello\n");
    for width in [0usize, 2, 3] {
        reader.layout(30, 10);
        reader.layout(width, 10);
        assert_eq!(reader.text(), "", "width {}", width);
        assert_eq!(reader.line_offsets(), &vec![0, 1]);
    }
}

#[test]
fn layout_of_nested_markup_at_small_widths_returns() {
    let html = "<h1>Title</h1><blockquote><blockquote>deep quote</blockquote></blockquote>\
                <table><tr><td>alpha</td><td>beta</td></tr></table><ul><li>x<ol><li>nested\
                </li></ol></li></ul><pre>pre   text</pre><p>日本語のテキスト</p><hr>";
    let mut reader = ReaderView::new(html);
    let mut width = 0;
    while width < 24 {
        reader.layout(width, 5);
        let offsets = line_offsets(reader.text());
        assert_eq!(reader.line_offsets(), &offsets);
        width += 1;
    }
}

#[test]
fn new_text_keeps_the_viewport_at_a_line_start() {
    let mut reader = reader_with(&numbered(20), 5);
    reader.scroll_to_line(3);
    assert_eq!(reader.char_offset(), 30);
    reader.set_text("abcdefgh\nijklmnopqrstuvwxyz0123456789\nlast\n".to_string());
    assert_eq!(reader.char_offset(), 9);
    assert_eq!(reader.current_match(), None);
    assert_eq!(reader.visible_text(), "ijklmnopqrstuvwxyz0123456789\nlast\n");
}

#[test]
fn scrolling_moves_by_lines() {
    let mut reader = reader_with(&numbered(20), 5);
    reader.scroll_by_lines(1);
    assert_eq!(reader.char_offset(), 10);
    reader.scroll_by_lines(3);
    assert_eq!(reader.char_offset(), 40);
    reader.scroll_by_lines(-2);
    assert_eq!(reader.char_offset(), 20);
    reader.scroll_by_lines(0);
    assert_eq!(reader.char_offset(), 20);
}

#[test]
fn scrolling_stops_at_both_ends() {
    let mut reader = reader_with(&numbered(20), 5);
    reader.scroll_by_lines(-1);
    assert_eq!(reader.char_offset(), 0);
    reader.scroll_by_lines(i32::MIN);
    assert_eq!(reader.char_offset(), 0);
    // 20 lines and the closing entry make 22 entries; the top stops at line 17.
    reader.scroll_by_lines(1000);
    assert_eq!(reader.char_offset(), 170);
    reader.scroll_by_lines(i32::MAX);
    assert_eq!(reader.char_offset(), 170);
    reader.scroll_by_lines(-1);
    assert_eq!(reader.char_offset(), 160);
}

#[test]
fn scrolling_a_short_text_stays_at_the_top() {
    let mut reader = reader_with("one\ntwo\n", 10);
    reader.scroll_by_lines(5);
    assert_eq!(reader.char_offset(), 0);
}

#[test]
fn scroll_to_line_takes_the_last_entry_beyond_the_table() {
    let mut reader = reader_with("ab\ncd\n", 5);
    reader.scroll_to_line(1);
    assert_eq!(reader.char_offset(), 3);
    reader.scroll_to_line(99);
    assert_eq!(reader.char_offset(), 7);
    assert_eq!(reader.visible_text(), "");
    assert_eq!(reader.visible_range(), (6, 6));
}

#[test]
fn window_shows_as_many_lines_as_the_view_is_high() {
    let mut reader = reader_with(&numbered(20), 3);
    assert_eq!(reader.visible_range(), (0, 30));
    assert_eq!(reader.visible_text(), "line 0000\nline 0001\nline 0002\n");
    reader.scroll_by_lines(2);
    assert_eq!(reader.visible_range(), (20, 50));
    assert_eq!(reader.visible_text(), "line 0002\nline 0003\nline 0004\n");
    reader.scroll_by_lines(100);
    assert_eq!(reader.visible_range(), (190, 200));
    assert_eq!(reader.visible_text(), "line 0019\n");
}

#[test]
fn window_of_a_view_without_height_is_empty() {
    let reader = reader_with(&numbered(4), 0);
    assert_eq!(reader.visible_range(), (0, 0));
    assert_eq!(reader.visible_text(), "");
}

#[test]
fn window_cuts_no_character() {
    let mut reader = reader_with("äöü\nßéè\n日本語\nend", 2);
    assert_eq!(reader.visible_text(), "äöü\nßéè\n");
    reader.scroll_to_line(2);
    assert_eq!(reader.visible_text(), "日本語\nend");
}

#[test]
fn next_match_wraps_around_to_the_first() {
    let mut reader = reader_with(&numbered(20), 5);
    let matches = vec![(5, 9), (40, 44), (90, 94)];
    reader.set_match(90, 94);
    reader.apply_matches(&matches, true);
    assert_eq!(reader.current_match(), Some((5, 9)));
}

#[test]
fn next_match_is_the_first_after_the_marked_one() {
    let mut reader = reader_with(&numbered(20), 5);
    let matches = vec![(5, 9), (40, 44), (90, 94)];
    reader.set_match(5, 9);
    reader.apply_matches(&matches, true);
    assert_eq!(reader.current_match(), Some((40, 44)));
    reader.apply_matches(&matches, true);
    assert_eq!(reader.current_match(), Some((90, 94)));
    reader.apply_matches(&matches, true);
    assert_eq!(reader.current_match(), Some((5, 9)));
}

#[test]
fn live_edit_keeps_a_match_at_the_marked_offset() {
    let mut reader = reader_with(&numbered(20), 5);
    reader.set_match(40, 42);
    reader.apply_matches(&vec![(5, 8), (40, 43), (90, 93)], false);
    assert_eq!(reader.current_match(), Some((40, 43)));
    reader.apply_matches(&vec![(5, 8), (60, 63)], false);
    assert_eq!(reader.current_match(), Some((60, 63)));
    reader.apply_matches(&vec![(5, 8), (30, 33)], false);
    assert_eq!(reader.current_match(), Some((5, 8)));
}

#[test]
fn without_a_mark_the_search_starts_at_the_top() {
    let mut reader = reader_with(&numbered(20), 5);
    reader.apply_matches(&vec![(0, 4), (10, 14)], false);
    assert_eq!(reader.current_match(), Some((0, 4)));
    let mut reader = reader_with(&numbered(20), 5);
    reader.apply_matches(&vec![(0, 4), (10, 14)], true);
    assert_eq!(reader.current_match(), Some((10, 14)));
    let mut reader = reader_with(&numbered(20), 5);
    reader.apply_matches(&vec![(0, 4)], true);
    assert_eq!(reader.current_match(), Some((0, 4)));
}

#[test]
fn no_match_leaves_the_mark() {
    let mut reader = reader_with(&numbered(20), 5);
    reader.set_match(10, 14);
    reader.apply_matches(&vec![], true);
    assert_eq!(reader.current_match(), Some((10, 14)));
    reader.update_search("not in the text", false);
    assert_eq!(reader.current_match(), Some((10, 14)));
}

#[test]
fn match_outside_the_viewport_is_brought_to_its_middle() {
    let mut reader = reader_with(&numbered(40), 10);
    reader.set_match(205, 209);
    // line 20 comes to the middle: the top is five lines above it.
    assert_eq!(reader.char_offset(), 150);
    reader.set_match(185, 189);
    assert_eq!(reader.char_offset(), 150);
    reader.set_match(5, 9);
    assert_eq!(reader.char_offset(), 0);
    reader.set_match(395, 399);
    // the last lines fill the viewport: 42 entries less ten.
    assert_eq!(reader.char_offset(), 320);
}

#[test]
fn search_ignores_case() {
    let mut reader = reader_with("Hello hello\nHELLO hullo\n", 5);
    reader.update_search("hello", false);
    assert_eq!(reader.current_match(), Some((0, 5)));
    reader.update_search("hello", true);
    assert_eq!(reader.current_match(), Some((6, 11)));
    reader.update_search("hello", true);
    assert_eq!(reader.current_match(), Some((12, 17)));
    reader.update_search("hello", true);
    assert_eq!(reader.current_match(), Some((0, 5)));
}

#[test]
fn search_takes_the_term_as_it_stands() {
    let mut reader = reader_with("axb a.b (a.b)* [x]\n", 5);
    reader.update_search("a.b", false);
    assert_eq!(reader.current_match(), Some((4, 7)));
    reader.update_search("(a.b)*", false);
    assert_eq!(reader.current_match(), Some((8, 14)));
    reader.update_search("[x]", false);
    assert_eq!(reader.current_match(), Some((15, 18)));
}

#[test]
fn search_counts_bytes() {
    let mut reader = reader_with("äöü straße\nSTRASSE Straße\n", 5);
    reader.update_search("straße", false);
    assert_eq!(reader.current_match(), Some((7, 14)));
    reader.update_search("straße", true);
    assert_eq!(reader.current_match(), Some((23, 30)));
}

#[test]
fn pattern_escapes_meta_characters() {
    assert_eq!(literal("cat"), "(?i:cat)");
    assert_eq!(literal(""), "(?i:)");
    assert_eq!(literal("a.b"), "(?i:a\\.b)");
    let meta = "\\.+*?()|[]{}^$#&-~";
    assert_eq!(literal(meta), "(?i:\\\\\\.\\+\\*\\?\\(\\)\\|\\[\\]\\{\\}\\^\\$\\#\\&\\-\\~)");
    assert_eq!(literal("%/!\"e é"), "(?i:%/!\"e é)");
}

#[test]
fn spans_mark_the_match_inverted() {
    let mut reader = reader_with("0123456789", 5);
    assert_eq!(reader.spans(), vec![Span { start: 0, end: 10, width: 10, inverted: false }]);
    reader.set_match(3, 7);
    assert_eq!(
        reader.spans(),
        vec![
            Span { start: 0, end: 3, width: 3, inverted: false },
            Span { start: 3, end: 7, width: 4, inverted: true },
            Span { start: 7, end: 10, width: 3, inverted: false },
        ]
    );
    reader.clear_match();
    assert_eq!(reader.spans(), vec![Span { start: 0, end: 10, width: 10, inverted: false }]);
}

#[test]
fn keys_scroll_the_text() {
    let mut reader = reader_with(&numbered(100), 15);
    assert_eq!(reader.on_event(ReaderEvent::PageDown, ""), ReaderAction::Redraw);
    assert_eq!(reader.char_offset(), 100);
    assert_eq!(reader.on_event(ReaderEvent::Char(' '), ""), ReaderAction::Redraw);
    assert_eq!(reader.char_offset(), 200);
    assert_eq!(reader.on_event(ReaderEvent::PageUp, ""), ReaderAction::Redraw);
    assert_eq!(reader.char_offset(), 100);
    assert_eq!(reader.on_event(ReaderEvent::Down, ""), ReaderAction::Redraw);
    assert_eq!(reader.char_offset(), 110);
    assert_eq!(reader.on_event(ReaderEvent::Up, ""), ReaderAction::Redraw);
    assert_eq!(reader.char_offset(), 100);
}

#[test]
fn page_of_a_low_view_does_not_move() {
    let mut reader = reader_with(&numbered(100), 5);
    reader.on_event(ReaderEvent::PageDown, "");
    assert_eq!(reader.char_offset(), 0);
    let mut reader = reader_with(&numbered(100), 6);
    reader.on_event(ReaderEvent::PageDown, "");
    assert_eq!(reader.char_offset(), 10);
}

#[test]
fn keys_open_and_close_the_search() {
    let mut reader = reader_with("one two one\n", 5);
    assert_eq!(reader.on_event(ReaderEvent::Enter, "one"), ReaderAction::Forward);
    assert_eq!(reader.on_event(ReaderEvent::Esc, ""), ReaderAction::Forward);
    assert_eq!(reader.on_event(ReaderEvent::Char('x'), ""), ReaderAction::Forward);
    assert_eq!(reader.on_event(ReaderEvent::Other, ""), ReaderAction::Forward);
    assert_eq!(reader.on_event(ReaderEvent::Char('q'), ""), ReaderAction::Close);

    assert_eq!(reader.on_event(ReaderEvent::Char('/'), ""), ReaderAction::OpenSearch);
    assert!(reader.is_searching());
    assert_eq!(reader.on_event(ReaderEvent::Char('q'), ""), ReaderAction::Forward);
    assert_eq!(reader.on_event(ReaderEvent::Down, ""), ReaderAction::Forward);
    assert_eq!(reader.char_offset(), 0);

    reader.search_edited("", "o");
    assert_eq!(reader.current_match(), Some((0, 1)));
    reader.search_edited("o", "on");
    assert_eq!(reader.current_match(), Some((0, 2)));
    reader.search_edited("on", "on");
    assert_eq!(reader.current_match(), Some((0, 2)));
    assert_eq!(reader.on_event(ReaderEvent::Enter, "one"), ReaderAction::Redraw);
    assert_eq!(reader.current_match(), Some((8, 11)));
    assert_eq!(reader.on_event(ReaderEvent::Enter, "one"), ReaderAction::Redraw);
    assert_eq!(reader.current_match(), Some((0, 3)));

    assert_eq!(reader.on_event(ReaderEvent::Esc, "one"), ReaderAction::CloseSearch);
    assert!(!reader.is_searching());
    assert_eq!(reader.current_match(), None);
}

#[test]
fn texts_are_compared_by_their_characters() {
    assert!(same_text("", ""));
    assert!(same_text("abc", "abc"));
    assert!(same_text("日本", "日本"));
    assert!(!same_text("abc", "abd"));
    assert!(!same_text("abc", "ab"));
    assert!(!same_text("", "a"));
    assert!(!same_text("e\u{301}", "é"));
}

fn plain(total: usize) -> Vec<Span> {
    vec![Span { start: 0, end: total, width: total, inverted: false }]
}

fn marked(total: usize, start: usize, end: usize) -> Vec<Span> {
    vec![
        Span { start: 0, end: start, width: start, inverted: false },
        Span { start, end, width: end - start, inverted: true },
        Span { start: end, end: total, width: total - end, inverted: false },
    ]
}

#[test]
fn window_shows_the_part_of_the_match_that_lies_in_it() {
    let text: String = (0..20).map(|i| format!("line {:04}\n", i)).collect();
    let mut reader = ReaderView::new("");
    reader.set_text(text);
    reader.layout(1, 3);
    assert_eq!(reader.visible_spans(), plain(30));

    reader.set_match(12, 16);
    assert_eq!(reader.visible_range(), (0, 30));
    assert_eq!(reader.visible_spans(), marked(30, 12, 16));

    reader.scroll_to_line(1);
    assert_eq!(reader.visible_range(), (10, 40));
    assert_eq!(reader.visible_spans(), marked(30, 2, 6));

    reader.scroll_to_line(5);
    assert_eq!(reader.visible_spans(), plain(30));

    reader.scroll_to_line(0);
    reader.set_match(25, 45);
    assert_eq!(reader.visible_range(), (0, 30));
    assert_eq!(reader.visible_spans(), marked(30, 25, 30));
    reader.scroll_to_line(3);
    assert_eq!(reader.visible_spans(), marked(30, 0, 15));
    reader.scroll_to_line(2);
    reader.set_match(0, 200);
    assert_eq!(reader.visible_spans(), marked(30, 0, 30));
}

#[test]
fn escaping_agrees_with_the_regex_crate() {
    for text in ["", "plain", "a.b", "\\.+*?()|[]{}^$#&-~", "%/!\"e é", "日本語 (x)", "--", "a\\b"] {
        assert_eq!(escape(text), regex::escape(text), "{:?}", text);
    }
    let mut c = 0u32;
    while c <= 0x10ffff {
        if let Some(ch) = char::from_u32(c) {
            let escaped = regex::escape(&ch.to_string());
            assert_eq!(char_is_meta(ch), escaped.len() > ch.len_utf8(), "U+{:04X}", c);
        }
        c += 1;
    }
}
