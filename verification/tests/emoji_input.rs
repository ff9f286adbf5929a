use koala_desktop::emoji_input::{visual_boundaries, EmojiInput, TextSegment};

fn per_char(n: usize) -> Vec<(usize, usize)> {
    (0..n).map(|i| (i, i + 1)).collect()
}

#[test]
fn typing_and_moving() {
    let mut e = EmojiInput::new();
    e.append("hello");
    assert_eq!(e.text(), "hello");
    assert_eq!(e.cursor_char_offset(), 5);
    e.move_cursor_left(&per_char(5));
    e.move_cursor_left(&per_char(5));
    assert_eq!(e.cursor_char_offset(), 3);
    e.append("XY");
    assert_eq!(e.text(), "helXYlo");
    assert_eq!(e.cursor_char_offset(), 5);
    e.move_cursor_right(&per_char(7));
    assert_eq!(e.cursor_char_offset(), 6);
    e.move_cursor_home();
    e.move_cursor_left(&per_char(7));
    assert_eq!(e.cursor_char_offset(), 0);
    e.move_cursor_end();
    assert_eq!(e.cursor_char_offset(), 7);
}

#[test]
fn deleting_by_segment() {
    let mut e = EmojiInput::new();
    e.set_text("ab👍🏽c");
    // Segments: a, b, the emoji sequence (two chars), c.
    let segs = vec![(0, 1), (1, 2), (2, 4), (4, 5)];
    e.move_cursor_left(&segs);
    assert_eq!(e.cursor_char_offset(), 4);
    e.delete_backward(&segs);
    assert_eq!(e.text(), "abc");
    assert_eq!(e.cursor_char_offset(), 2);
    e.move_cursor_home();
    e.delete_forward(&vec![(0, 1), (1, 2), (2, 3)]);
    assert_eq!(e.text(), "bc");
    assert_eq!(e.cursor_char_offset(), 0);
    e.delete_backward(&vec![(0, 1), (1, 2)]);
    assert_eq!(e.text(), "bc");
}

#[test]
fn keys_and_submit() {
    let mut e = EmojiInput::new();
    e.set_text("  bonjour  ");
    assert!(e.handle_key("home", &per_char(11)).is_none());
    assert_eq!(e.cursor_char_offset(), 0);
    assert!(e.handle_key("f5", &per_char(11)).is_none());
    assert_eq!(e.handle_key("enter", &per_char(11)).map(|s| s.0), Some("bonjour".to_string()));
    assert_eq!(e.text(), "");
    e.set_text("   ");
    assert!(e.submit().is_none());
    assert_eq!(e.text(), "   ");
    e.clear();
    assert_eq!(e.char_count(), 0);
}

#[test]
fn utf16_positions() {
    let mut e = EmojiInput::new();
    e.set_text("a😀b");
    assert_eq!(e.utf16_len(), 4);
    assert_eq!(e.utf16_to_char(0), 0);
    assert_eq!(e.utf16_to_char(1), 1);
    assert_eq!(e.utf16_to_char(2), 2);
    assert_eq!(e.utf16_to_char(3), 2);
    assert_eq!(e.utf16_to_char(9), 3);
    assert_eq!(e.selected_utf16(), 4);
    let (t, r) = e.text_for_range(1, 3);
    assert_eq!(t, "😀");
    assert_eq!(r, (1, 3));
    e.replace_text_in_range(Some((1, 3)), "xy");
    assert_eq!(e.text(), "axyb");
    assert_eq!(e.cursor_char_offset(), 3);
    e.replace_text_in_range(None, "!");
    assert_eq!(e.text(), "axy!b");
    e.toggle_blink();
    assert!(!e.is_blink_visible());
}

#[test]
fn boundaries_of_text_and_emoji() {
    let segs = vec![
        TextSegment::Text("a".to_string()),
        TextSegment::Emoji("\u{1F44D}\u{1F3FD}".to_string()),
        TextSegment::Text("bc".to_string()),
    ];
    let b = visual_boundaries(&segs);
    assert_eq!(b, vec![(0, 1), (1, 3), (3, 4), (4, 5)]);
    let mut e = EmojiInput::new();
    e.append("a\u{1F44D}\u{1F3FD}bc");
    e.move_cursor_left(&b);
    e.move_cursor_left(&b);
    assert_eq!(e.cursor_char_offset(), 3);
    e.delete_backward(&b);
    assert_eq!(e.text(), "abc");
    assert!(visual_boundaries(&vec![]).is_empty());
}

#[test]
fn utf16_offset_of_a_character_index_leads_back_to_it() {
    let mut e = EmojiInput::new();
    e.append("a\u{1F600}b\u{1F600}");
    for k in 0..=e.char_count() {
        assert_eq!(e.utf16_to_char(e.utf16_upto(k)), k);
    }
}

#[test]
fn backspace_key_deletes_the_segment_before_the_cursor() {
    let mut e = EmojiInput::new();
    e.append("abc");
    assert!(e.handle_key("backspace", &per_char(3)).is_none());
    assert_eq!(e.text(), "ab");
    assert_eq!(e.cursor_char_offset(), 2);
    e.handle_key("left", &per_char(2));
    e.handle_key("delete", &per_char(2));
    assert_eq!(e.text(), "a");
    assert_eq!(e.cursor_char_offset(), 1);
    e.handle_key("right", &per_char(1));
    assert_eq!(e.cursor_char_offset(), 1);
}
