use roomchat::text::editable_text::{EditableText, TextCursor};
use roomchat::text::line::{char_width, CharPosition, Line};
use roomchat::widget::scroll::{Cursor, Scroll};
use roomchat::widget::text::{Text, ViewPosition};

fn lines_of(t: &EditableText) -> Vec<String> {
    t.lines.iter().map(|l| l.line.clone()).collect()
}

#[test]
fn line_basics() {
    let mut l = Line::new("é");
    assert_eq!(l.len(), 2);
    assert_eq!(l.char_count(), 1);
    assert!(!l.is_empty());
    l.push('x');
    assert_eq!(l.as_str(), "éx");
    assert!(Line::new("").is_empty());
    assert_eq!(Line::new("ab").width(), 2);
    assert_eq!(Line::new("日本").width(), 4);
    assert_eq!(char_width('a'), 1);
    assert_eq!(char_width('\u{7}'), 0);
}

#[test]
fn wrapping_into_blocks() {
    assert_eq!(Line::str_to_block("abcdef", 4), vec!["abcd", "ef"]);
    assert_eq!(Line::str_to_block("abcd", 4), vec!["abcd"]);
    assert_eq!(Line::str_to_block("", 4), vec![""]);
    assert_eq!(Line::new("日本語").to_block(4), vec!["日本", "語"]);
}

#[test]
fn wrapping_with_a_cursor() {
    let (block, pos) = Line::str_to_cursor_block("abcdef", 4, 5);
    assert_eq!(block, vec!["abcd", "ef"]);
    assert_eq!(pos, Some(CharPosition { c: 'f', line: 1, char: 1 }));
    let (block, pos) = Line::new("ab").to_cursor_block(4, 2);
    assert_eq!(block, vec!["ab"]);
    assert_eq!(pos, Some(CharPosition { c: ' ', line: 0, char: 2 }));
    let (block, pos) = Line::str_to_cursor_block("abcd", 4, 4);
    assert_eq!(block, vec!["abcd", ""]);
    assert_eq!(pos, Some(CharPosition { c: ' ', line: 1, char: 0 }));
    let (block, pos) = Line::str_to_cursor_block("abcdefgh", 4, 8);
    assert_eq!(block, vec!["abcd", "efgh", ""]);
    assert_eq!(pos, Some(CharPosition { c: ' ', line: 2, char: 0 }));
}

#[test]
fn editable_text_round_trip_and_reset() {
    let mut t = EditableText::new("hello\nworld");
    assert_eq!(lines_of(&t), vec!["hello", "world"]);
    assert_eq!(t.lines_widths, vec![5, 5]);
    assert_eq!(t.consume(), "hello\nworld");
    assert!(t.is_empty());
    assert_eq!(t.cursor, TextCursor { line: 0, char: 0 });
    let mut e = EditableText::new("");
    assert!(e.is_empty());
    assert_eq!(e.consume(), "");
}

#[test]
fn editable_text_typing() {
    let mut t = EditableText::new("");
    for c in "abc".chars() {
        t.insert(c);
    }
    t.left();
    t.insert('X');
    assert_eq!(lines_of(&t), vec!["abXc"]);
    assert_eq!(t.lines_widths, vec![4]);
    t.insert('\n');
    assert_eq!(lines_of(&t), vec!["abX", "c"]);
    assert_eq!(t.cursor, TextCursor { line: 1, char: 0 });
    assert_eq!(t.lines_widths, vec![3, 1]);
    t.backspace();
    assert_eq!(lines_of(&t), vec!["abXc"]);
    assert_eq!(t.cursor, TextCursor { line: 0, char: 3 });
    assert_eq!(t.lines_widths, vec![4]);
    t.backspace();
    assert_eq!(lines_of(&t), vec!["abc"]);
    t.home();
    t.replace('Z');
    assert_eq!(lines_of(&t), vec!["Zbc"]);
    t.end();
    assert_eq!(t.cursor.char, 2);
    t.allow_cursor_over_limit = true;
    t.end();
    assert_eq!(t.cursor.char, 3);
    t.replace('!');
    assert_eq!(lines_of(&t), vec!["Zbc!"]);
    assert_eq!(t.lines_widths, vec![4]);
    t.delete();
    assert_eq!(lines_of(&t), vec!["Zbc!"]);
}

#[test]
fn editable_text_moves_and_heights() {
    let mut t = EditableText::new("abcdefgh\nxy");
    t.right();
    t.right();
    t.right();
    assert_eq!(t.cursor_graphic_line(2), 2);
    t.down();
    assert_eq!(t.cursor, TextCursor { line: 1, char: 1 });
    t.down();
    assert_eq!(t.cursor.line, 1);
    t.up();
    assert_eq!(t.cursor, TextCursor { line: 0, char: 1 });
    t.up();
    assert_eq!(t.cursor.line, 0);
    assert_eq!(t.height(4), 3);
    assert_eq!(t.height(100), 2);
    assert_eq!(t.remove_line(1), "xy");
    assert_eq!(lines_of(&t), vec!["abcdefgh"]);
    t.set_text("one\ntwo\nthree");
    assert_eq!(lines_of(&t), vec!["one", "two", "three"]);
    t.update_line_width(2);
    assert_eq!(t.lines_widths, vec![3, 3, 5]);
}

#[test]
fn text_widget_follows_the_cursor() {
    let mut w = Text::new("abcdefghij");
    assert_eq!(w.view_pos, ViewPosition { line: 0, gline: 0, char: 0 });
    w.text.allow_cursor_over_limit = true;
    w.text.end();
    w.fix_view_pos(4, 1, true);
    assert_eq!(w.view_pos.char, 6);
    w.text.home();
    w.fix_view_pos(4, 1, true);
    assert_eq!(w.view_pos.char, 0);
    w.text.end();
    w.fix_view_pos(2, 1, false);
    assert_eq!(w.view_pos.gline, 4);
    assert_eq!(w.height(4), 3);
    w.set_text("x");
    assert_eq!(w.text.lines[0].line, "x");
}

#[test]
fn scroll_moves_by_rows() {
    let mut s: Scroll<&str> = Scroll::new(vec!["a", "b"]);
    s.push("c");
    assert_eq!(s.len(), 3);
    assert_eq!(*s.widget(2), "c");
    let heights = vec![2, 1, 3];
    s.down();
    s.down();
    s.down();
    s.apply_moves(&heights);
    assert_eq!(s.view(), Cursor { widget: 2, y: 0 });
    s.up();
    s.apply_moves(&heights);
    assert_eq!(s.view(), Cursor { widget: 1, y: 0 });
    s.up();
    s.up();
    s.up();
    s.up();
    s.apply_moves(&heights);
    assert_eq!(s.view(), Cursor { widget: 0, y: 0 });
}

#[test]
fn line_chars_in_order() {
    let l = Line::new("héllo");
    assert_eq!(l.chars().collect::<String>(), "héllo");
}

use roomchat::text::block::{Area, BlockStyle, StringBlockItem};

fn shown(items: &[StringBlockItem]) -> Vec<(u16, u16, String, BlockStyle)> {
    items.iter().map(|i| (i.x, i.y, i.s.clone(), i.style)).collect()
}

#[test]
fn one_line_layout_with_cursor() {
    let mut t = EditableText::new("hello");
    t.allow_cursor_over_limit = true;
    t.right();
    let area = Area { x: 2, y: 3, width: 10, height: 1 };
    let items = t.to_line_block(area, 0, 0, 10, true);
    assert_eq!(
        shown(&items),
        vec![(2, 3, "hello".to_string(), BlockStyle::Simple), (3, 3, "e".to_string(), BlockStyle::Cursor)]
    );
    t.end();
    let at_end = t.to_line_block(area, 0, 0, 10, false);
    assert_eq!(
        shown(&at_end),
        vec![(2, 3, "hello".to_string(), BlockStyle::Simple), (7, 3, " ".to_string(), BlockStyle::Cursor)]
    );
    let narrow = t.to_line_block(area, 0, 1, 3, false);
    assert_eq!(shown(&narrow), vec![(2, 3, "ell".to_string(), BlockStyle::Simple)]);
}

#[test]
fn block_layout_wraps_lines_and_places_cursor() {
    let mut t = EditableText::new("abcdef\nxy");
    t.right();
    let area = Area { x: 0, y: 0, width: 4, height: 5 };
    let items = t.to_block(area, 0, 0, true);
    assert_eq!(
        shown(&items),
        vec![
            (0, 0, "abcd".to_string(), BlockStyle::Simple),
            (0, 1, "ef".to_string(), BlockStyle::Simple),
            (0, 2, "xy".to_string(), BlockStyle::Simple),
            (1, 0, "b".to_string(), BlockStyle::Cursor),
        ]
    );
    let skipped = t.to_block(area, 0, 1, false);
    assert_eq!(
        shown(&skipped),
        vec![(0, 0, "ef".to_string(), BlockStyle::Simple), (0, 1, "xy".to_string(), BlockStyle::Simple)]
    );
    let short = t.to_block(Area { x: 0, y: 0, width: 4, height: 1 }, 0, 0, false);
    assert_eq!(shown(&short), vec![(0, 0, "abcd".to_string(), BlockStyle::Simple)]);
    let empty = EditableText::new("");
    assert_eq!(shown(&empty.to_block(area, 0, 0, true)), vec![(0, 0, " ".to_string(), BlockStyle::Cursor)]);
    assert!(empty.to_block(area, 0, 0, false).is_empty());
}
