use chat_input::input::{Cursor, Input};
use chat_input::text::{
    byte_count, is_white_space, locate, same_text, starts_with, trim, trim_end, width,
};

fn at_end(text: &str) -> Input {
    let mut input = Input::new();
    for c in text.chars() {
        input.put_char(c);
    }
    input
}

#[test]
fn widths_are_those_of_utf8() {
    for c in ['a', '\u{7f}', '\u{80}', '\u{7ff}', '\u{800}', '\u{ffff}', '\u{10000}'] {
        assert_eq!(width(c), c.len_utf8());
    }
    assert_eq!(byte_count("a\u{e9}\u{20ac}"), 6);
}

#[test]
fn bytes_are_found_where_characters_start() {
    let s = "a\u{e9}b";
    assert_eq!(locate(s, 0), Some(0));
    assert_eq!(locate(s, 1), Some(1));
    assert_eq!(locate(s, 2), None);
    assert_eq!(locate(s, 3), Some(2));
    assert_eq!(locate(s, 4), Some(3));
    assert_eq!(locate(s, 5), None);
}

#[test]
fn white_space_is_trimmed_as_std_trims_it() {
    for s in ["", "  ", "a", " a ", "\u{2003}x y\u{a0}\n", "\t\u{200b} z"] {
        assert_eq!(trim_end(s), s.trim_end());
        assert_eq!(trim(s), s.trim());
    }
}

#[test]
fn white_space_is_what_std_takes_for_it() {
    for c in '\0'..=char::MAX {
        assert_eq!(is_white_space(c), c.is_whitespace());
    }
}

#[test]
fn texts_are_told_apart() {
    assert!(same_text("a\u{e9}", "a\u{e9}"));
    assert!(!same_text("a", "ab"));
    assert!(!same_text("ab", "a"));
    assert!(!same_text("ab", "ac"));
}

#[test]
fn prefixes_are_found() {
    assert!(starts_with("file://x", "file://"));
    assert!(starts_with("x", ""));
    assert!(!starts_with("fil", "file"));
    assert!(!starts_with("xfile", "file"));
}

#[test]
fn typing_and_deleting_follow_the_cursor() {
    let mut input = at_end("h\u{e9}");
    assert_eq!(input.data, "h\u{e9}");
    assert_eq!(input.cursor, Cursor { idx: 3, col: 2 });
    input.on_backspace();
    assert_eq!(input.data, "h");
    assert_eq!(input.cursor, Cursor { idx: 1, col: 1 });
    input.on_backspace();
    input.on_backspace();
    assert_eq!(input.data, "");
    assert_eq!(input.cursor, Cursor { idx: 0, col: 0 });
}

#[test]
fn backspace_takes_back_what_was_typed_in_the_middle() {
    let mut input = Input { data: "ab".to_string(), cursor: Cursor { idx: 1, col: 1 } };
    input.put_char('\u{1f600}');
    assert_eq!(input.data, "a\u{1f600}b");
    assert_eq!(input.cursor, Cursor { idx: 5, col: 2 });
    input.on_backspace();
    assert_eq!(input.data, "ab");
    assert_eq!(input.cursor, Cursor { idx: 1, col: 1 });
}

#[test]
fn the_cursor_stops_at_the_end() {
    let mut input = Input { data: "\u{e9}b".to_string(), cursor: Cursor { idx: 0, col: 0 } };
    input.on_right();
    assert_eq!(input.cursor, Cursor { idx: 2, col: 1 });
    input.move_right(7);
    assert_eq!(input.cursor, Cursor { idx: 3, col: 2 });
    input.on_right();
    assert_eq!(input.cursor, Cursor { idx: 3, col: 2 });
}

#[test]
fn taking_the_text_empties_the_box() {
    let mut input = at_end("abc");
    assert_eq!(input.take(), "abc");
    assert!(input.is_empty());
    assert_eq!(input.cursor, Cursor { idx: 0, col: 0 });
}

#[test]
fn positions_that_disagree_are_noticed() {
    assert!(at_end("a\u{e9}").is_wf());
    assert!(!Input { data: "\u{e9}".to_string(), cursor: Cursor { idx: 1, col: 1 } }.is_wf());
    assert!(!Input { data: "a".to_string(), cursor: Cursor { idx: 2, col: 2 } }.is_wf());
}

#[test]
fn text_is_put_in_behind_the_cursor() {
    let mut input = Input { data: "ad".to_string(), cursor: Cursor { idx: 1, col: 1 } };
    input.insert_str("bc");
    assert_eq!(input.data, "abcd");
    assert_eq!(input.cursor, Cursor { idx: 1, col: 1 });
    input.move_right(2);
    input.replace_from(1, "\u{e9}");
    assert_eq!(input.data, "a\u{e9}d");
    assert_eq!(input.cursor, Cursor { idx: 3, col: 2 });
}
