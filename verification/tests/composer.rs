use loom_cli::composer::{Composer, ComposerAction};
use loom_cli::key::{KeyCode, KeyEvent, KeyModifiers, Rect};

/// A key press with no modifier.
fn key(code: KeyCode) -> KeyEvent {
    KeyEvent::plain(code)
}

/// A key press with a modifier.
fn key_with(code: KeyCode, modifiers: KeyModifiers) -> KeyEvent {
    KeyEvent::new(code, modifiers)
}

#[test]
fn test_new_composer_is_empty() {
    let c = Composer::new();
    assert_eq!(c.content(), "");
    assert_eq!(c.cursor(), 0);
    assert!(!c.is_slash_command());
    assert!(c.history().is_empty());
}

#[test]
fn test_default_equals_new() {
    assert_eq!(Composer::default().content(), Composer::new().content());
}

#[test]
fn test_with_placeholder() {
    let c = Composer::with_placeholder("测试");
    // placeholder is only visual, not exposed via content()
    assert_eq!(c.content(), "");
}

#[test]
fn test_insert_text_appends_at_cursor() {
    let mut c = Composer::new();
    c.insert_text("hello");
    assert_eq!(c.content(), "hello");
    assert_eq!(c.cursor(), 5);
}

#[test]
fn test_insert_text_mid_string() {
    let mut c = Composer::new();
    c.insert_text("helo");
    c.set_cursor(3);
    c.insert_text("l");
    assert_eq!(c.content(), "hello");
    assert_eq!(c.cursor(), 4);
}

#[test]
fn test_insert_text_unicode() {
    let mut c = Composer::new();
    c.insert_text("héllo");
    assert_eq!(c.content(), "héllo");
    // 'é' is 2 bytes in UTF-8
    assert_eq!(c.cursor(), 6);
}

#[test]
fn test_backspace_empty() {
    let mut c = Composer::new();
    c.backspace(); // no crash
    assert_eq!(c.content(), "");
}

#[test]
fn test_backspace_removes_before_cursor() {
    let mut c = Composer::new();
    c.insert_text("hello");
    c.backspace();
    assert_eq!(c.content(), "hell");
    assert_eq!(c.cursor(), 4);
}

#[test]
fn test_backspace_mid_string() {
    let mut c = Composer::new();
    c.insert_text("hllo");
    c.set_cursor(1);
    c.insert_text("e");
    // "hello" cursor=2
    c.set_cursor(2);
    c.backspace();
    assert_eq!(c.content(), "hllo");
    assert_eq!(c.cursor(), 1);
}

#[test]
fn test_backspace_unicode() {
    let mut c = Composer::new();
    c.insert_text("héllo");
    c.backspace(); // removes 'o'
    assert_eq!(c.content(), "héll");
    c.backspace(); // removes 'l'
    assert_eq!(c.content(), "hél");
    // Move back through 'é' (2 bytes)
    c.backspace(); // removes 'l'
    assert_eq!(c.content(), "hé");
    c.backspace(); // removes 'é' (2 bytes)
    assert_eq!(c.content(), "h");
    c.backspace();
    assert_eq!(c.content(), "");
}

#[test]
fn test_delete_at_end_does_nothing() {
    let mut c = Composer::new();
    c.insert_text("hello");
    c.delete(); // cursor at end, no-op
    assert_eq!(c.content(), "hello");
}

#[test]
fn test_delete_mid_string() {
    let mut c = Composer::new();
    c.insert_text("hllo");
    c.set_cursor(1);
    c.delete(); // removes 'l' at cursor
    assert_eq!(c.content(), "hlo");
    assert_eq!(c.cursor(), 1);
}

#[test]
fn test_submit_returns_content_and_clears() {
    let mut c = Composer::new();
    c.insert_text("hello");
    let result = c.submit();
    assert_eq!(result, "hello");
    assert_eq!(c.content(), "");
    assert_eq!(c.history().len(), 1);
    assert_eq!(c.history()[0], "hello");
}

#[test]
fn test_submit_empty_does_not_add_to_history() {
    let mut c = Composer::new();
    let result = c.submit();
    assert_eq!(result, "");
    assert!(c.history().is_empty());
}

#[test]
fn test_handle_key_enter_submits_non_empty() {
    let mut c = Composer::new();
    c.insert_text("test");
    let action = c.handle_key(key(KeyCode::Enter));
    assert_eq!(action, ComposerAction::Submit("test".into()));
    assert!(c.content().is_empty());
}

#[test]
fn test_handle_key_enter_skips_empty() {
    let mut c = Composer::new();
    let action = c.handle_key(key(KeyCode::Enter));
    assert_eq!(action, ComposerAction::Continue);
}

#[test]
fn test_handle_key_shift_enter_inserts_newline() {
    let mut c = Composer::new();
    c.insert_text("a");
    let action = c.handle_key(key_with(KeyCode::Enter, KeyModifiers::shift()));
    assert_eq!(action, ComposerAction::Continue);
    assert_eq!(c.content(), "a\n");
}

#[test]
fn test_handle_key_char_inserts() {
    let mut c = Composer::new();
    let action = c.handle_key(key(KeyCode::Char('x')));
    assert_eq!(action, ComposerAction::Continue);
    assert_eq!(c.content(), "x");
}

#[test]
fn test_handle_key_backspace() {
    let mut c = Composer::new();
    c.insert_text("ab");
    let action = c.handle_key(key(KeyCode::Backspace));
    assert_eq!(action, ComposerAction::Continue);
    assert_eq!(c.content(), "a");
}

#[test]
fn test_handle_key_left_right() {
    let mut c = Composer::new();
    c.insert_text("ab");
    c.handle_key(key(KeyCode::Left));
    assert_eq!(c.cursor(), 1);
    c.handle_key(key(KeyCode::Right));
    assert_eq!(c.cursor(), 2);
    c.handle_key(key(KeyCode::Left));
    c.handle_key(key(KeyCode::Left));
    assert_eq!(c.cursor(), 0);
    // Left at start does nothing
    c.handle_key(key(KeyCode::Left));
    assert_eq!(c.cursor(), 0);
}

#[test]
fn test_handle_key_home_end() {
    let mut c = Composer::new();
    c.insert_text("hello");
    c.set_cursor(3);
    c.handle_key(key(KeyCode::Home));
    assert_eq!(c.cursor(), 0);
    c.handle_key(key(KeyCode::End));
    assert_eq!(c.cursor(), 5);
}

#[test]
fn test_handle_key_delete() {
    let mut c = Composer::new();
    c.insert_text("abc");
    c.set_cursor(1);
    c.handle_key(key(KeyCode::Delete));
    assert_eq!(c.content(), "ac");
    assert_eq!(c.cursor(), 1);
}

#[test]
fn test_handle_key_tab_is_noop() {
    let mut c = Composer::new();
    let action = c.handle_key(key(KeyCode::Tab));
    assert_eq!(action, ComposerAction::Continue);
}

#[test]
fn test_handle_ctrl_u_clears() {
    let mut c = Composer::new();
    c.insert_text("hello world");
    let action = c.handle_key(key_with(KeyCode::Char('u'), KeyModifiers::control()));
    assert_eq!(action, ComposerAction::Continue);
    assert!(c.content().is_empty());
}

#[test]
fn test_handle_ctrl_w_deletes_word() {
    let mut c = Composer::new();
    c.insert_text("hello world");
    c.set_cursor(11); // end
    let action = c.handle_key(key_with(KeyCode::Char('w'), KeyModifiers::control()));
    assert_eq!(action, ComposerAction::Continue);
    assert_eq!(c.content(), "hello ");
}

#[test]
fn test_history_up_down() {
    let mut c = Composer::new();
    c.insert_text("first");
    c.submit();
    c.insert_text("second");
    c.submit();

    // Up from new input → most recent
    c.handle_key(key(KeyCode::Up));
    assert_eq!(c.content(), "second");
    assert_eq!(c.history_index(), Some(1));

    // Up again → older
    c.handle_key(key(KeyCode::Up));
    assert_eq!(c.content(), "first");
    assert_eq!(c.history_index(), Some(0));

    // Up at oldest → stays
    c.handle_key(key(KeyCode::Up));
    assert_eq!(c.content(), "first");

    // Down → newer
    c.handle_key(key(KeyCode::Down));
    assert_eq!(c.content(), "second");
    assert_eq!(c.history_index(), Some(1));

    // Down at newest → stays
    c.handle_key(key(KeyCode::Down));
    assert_eq!(c.content(), "second");
}

#[test]
fn test_history_empty_up_down_does_nothing() {
    let mut c = Composer::new();
    c.handle_key(key(KeyCode::Up));
    assert!(c.content().is_empty());
    c.handle_key(key(KeyCode::Down));
    assert!(c.content().is_empty());
}

#[test]
fn test_slash_command_detected() {
    let mut c = Composer::new();
    c.insert_text("/help");
    assert!(c.is_slash_command());
}

#[test]
fn test_slash_command_with_space() {
    let mut c = Composer::new();
    c.insert_text("/help me");
    assert!(!c.is_slash_command());
}

#[test]
fn test_slash_command_clears_on_backspace() {
    let mut c = Composer::new();
    c.insert_text("/");
    assert!(c.is_slash_command());
    c.backspace();
    assert!(!c.is_slash_command());
}

#[test]
fn composer_test_desired_height_empty() {
    let c = Composer::new();
    assert_eq!(c.desired_height(80), 3); // 1 + 2 borders
}

#[test]
fn composer_test_desired_height_single_line() {
    let mut c = Composer::new();
    c.insert_text("hello");
    assert_eq!(c.desired_height(80), 3); // 1 + 2 borders
}

#[test]
fn composer_test_desired_height_multi_line() {
    let mut c = Composer::new();
    c.insert_text("hello\nworld");
    assert_eq!(c.desired_height(80), 4); // 2 lines + 2 borders
}

#[test]
fn test_cursor_pos_empty() {
    let c = Composer::new();
    let pos = c.cursor_pos(Rect::new(0, 0, 80, 3));
    // (x=0+1, y=0+1) = (1, 1)
    assert_eq!(pos, Some((1, 1)));
}

#[test]
fn test_cursor_pos_after_text() {
    let mut c = Composer::new();
    c.insert_text("hi");
    let pos = c.cursor_pos(Rect::new(0, 0, 80, 3));
    // col = 2, row = 0 → (0+1+2, 0+1+0) = (3, 1)
    assert_eq!(pos, Some((3, 1)));
}

#[test]
fn test_cursor_pos_multi_line() {
    let mut c = Composer::new();
    c.insert_text("a\nbc");
    // cursor at end = byte 5
    let pos = c.cursor_pos(Rect::new(0, 0, 80, 5));
    // col = width("bc") = 2, row = 1 → (0+1+2, 0+1+1) = (3, 2)
    assert_eq!(pos, Some((3, 2)));
}

#[test]
fn test_word_left() {
    let mut c = Composer::new();
    c.insert_text("hello world foo");
    c.set_cursor(15); // end
    c.handle_key(key_with(KeyCode::Left, KeyModifiers::control()));
    assert_eq!(c.cursor(), 12); // " foo" → start of "foo"
}

#[test]
fn test_word_right() {
    let mut c = Composer::new();
    c.insert_text("hello world foo");
    c.set_cursor(0);
    c.handle_key(key_with(KeyCode::Right, KeyModifiers::control()));
    assert_eq!(c.cursor(), 6); // "hello " → start of "world"
}

#[test]
fn test_clear() {
    let mut c = Composer::new();
    c.insert_text("hello");
    c.clear();
    assert_eq!(c.content(), "");
    assert_eq!(c.cursor(), 0);
    assert!(!c.is_slash_command());
}

#[test]
fn test_delete_word_backward_empty() {
    let mut c = Composer::new();
    c.delete_word_backward(); // no crash
}

#[test]
fn test_delete_word_backward_single_word() {
    let mut c = Composer::new();
    c.insert_text("hello");
    c.set_cursor(5);
    c.delete_word_backward();
    assert_eq!(c.content(), "");
}

#[test]
fn test_handle_key_enter_whitespace_only() {
    let mut c = Composer::new();
    c.insert_text("   ");
    let action = c.handle_key(key(KeyCode::Enter));
    assert_eq!(action, ComposerAction::Continue);
    // Content should NOT be cleared — whitespace-only input is not submitted
    assert_eq!(c.content(), "   ");
}

#[test]
fn test_insert_text_empty() {
    let mut c = Composer::new();
    c.insert_text("hello");
    let cursor = c.cursor();
    c.insert_text(""); // no-op
    assert_eq!(c.content(), "hello");
    assert_eq!(c.cursor(), cursor);
}

#[test]
fn test_cursor_pos_zero_area() {
    let c = Composer::new();
    let pos = c.cursor_pos(Rect::new(0, 0, 0, 0));
    // x = 0+1+0 = 1, clamped to max_x = 0+0-1 = 0
    // y = 0+1+0 = 1, clamped to max_y = 0+0-1 = 0
    assert_eq!(pos, Some((0, 0)));
}

#[test]
fn test_cursor_pos_clamped_to_area() {
    let mut c = Composer::new();
    c.insert_text("hello world this is a very long line of text");
    let pos = c.cursor_pos(Rect::new(0, 0, 5, 3));
    // x = 0+1+width("...") = 1+38 = 39, clamped to max_x = 0+5-1 = 4
    // y = 0+1+0 = 1, clamped to max_y = 0+3-1 = 2
    assert_eq!(pos, Some((4, 1)));
}

#[test]
fn test_cursor_pos_unicode_multi_byte() {
    let mut c = Composer::new();
    c.insert_text("aébc");
    // cursor at end = byte 6 (é is 2 bytes)
    let pos = c.cursor_pos(Rect::new(0, 0, 80, 3));
    // col = UnicodeWidthStr::width("aébc") = 4
    // x = 0+1+4 = 5
    assert_eq!(pos, Some((5, 1)));
}

#[test]
fn test_cursor_pos_mid_string_unicode() {
    let mut c = Composer::new();
    c.insert_text("aébc");
    c.set_cursor(1); // cursor after 'a', before 'é' (byte 1)
    let pos = c.cursor_pos(Rect::new(0, 0, 80, 3));
    // col = UnicodeWidthStr::width("a") = 1
    assert_eq!(pos, Some((2, 1)));
}

#[test]
fn test_desired_height_empty_lines() {
    let mut c = Composer::new();
    c.insert_text("\n\n"); // 2 lines (Rust's .lines() skips trailing empty from final \n)
    assert_eq!(c.desired_height(80), 4); // 2 lines + 2 borders
}

#[test]
fn test_desired_height_zero_width() {
    let mut c = Composer::new();
    c.insert_text("hello\nworld");
    // desired_height does not depend on width for logical line count
    assert_eq!(c.desired_height(0), 4);
    let c_empty = Composer::new();
    assert_eq!(c_empty.desired_height(0), 3);
}

#[test]
fn test_slash_command_after_submit() {
    let mut c = Composer::new();
    c.insert_text("/help");
    assert!(c.is_slash_command());
    c.submit();
    assert!(!c.is_slash_command());
}

#[test]
fn test_slash_command_after_clear() {
    let mut c = Composer::new();
    c.insert_text("/help");
    assert!(c.is_slash_command());
    c.clear();
    assert!(!c.is_slash_command());
}

#[test]
fn test_slash_command_via_delete() {
    let mut c = Composer::new();
    c.insert_text("/help");
    c.set_cursor(5); // end
    c.delete(); // no-op at end
    assert!(c.is_slash_command());
}

#[test]
fn test_slash_command_clears_when_space_inserted() {
    let mut c = Composer::new();
    c.insert_text("/he");
    assert!(c.is_slash_command());
    c.insert_text("llo world");
    assert!(!c.is_slash_command());
}

#[test]
fn test_history_index_after_submit() {
    let mut c = Composer::new();
    c.insert_text("hello");
    c.submit();
    // After submit, history_index should be None (observable via Up behavior)
    c.handle_key(key(KeyCode::Up));
    assert_eq!(c.content(), "hello");
}

#[test]
fn test_cursor_after_submit_is_zero() {
    let mut c = Composer::new();
    c.insert_text("hello");
    c.set_cursor(3);
    c.submit();
    assert_eq!(c.cursor(), 0);
}

#[test]
fn test_cursor_after_clear_is_zero() {
    let mut c = Composer::new();
    c.insert_text("hello");
    c.set_cursor(3);
    c.clear();
    assert_eq!(c.cursor(), 0);
}

#[test]
fn test_handle_key_unknown_code() {
    let mut c = Composer::new();
    let action = c.handle_key(key(KeyCode::F(1)));
    assert_eq!(action, ComposerAction::Continue);
    assert!(c.content().is_empty());
}

#[test]
fn test_handle_key_ctrl_other() {
    let mut c = Composer::new();
    // Ctrl+A, Ctrl+B, etc. (not u or w) should be ignored
    let action = c.handle_key(key_with(KeyCode::Char('a'), KeyModifiers::control()));
    assert_eq!(action, ComposerAction::Continue);
    assert!(c.content().is_empty());
}

#[test]
fn test_handle_key_multiple_chars() {
    let mut c = Composer::new();
    for ch in "hello".chars() {
        c.handle_key(key(KeyCode::Char(ch)));
    }
    assert_eq!(c.content(), "hello");
    assert_eq!(c.cursor(), 5);
}

#[test]
fn test_move_word_left_at_start() {
    let mut c = Composer::new();
    c.insert_text("hello world");
    c.set_cursor(0);
    c.handle_key(key_with(KeyCode::Left, KeyModifiers::control()));
    assert_eq!(c.cursor(), 0);
}

#[test]
fn test_move_word_right_at_end() {
    let mut c = Composer::new();
    c.insert_text("hello world");
    c.set_cursor(11);
    c.handle_key(key_with(KeyCode::Right, KeyModifiers::control()));
    assert_eq!(c.cursor(), 11);
}

#[test]
fn test_move_word_left_from_spaces() {
    let mut c = Composer::new();
    c.insert_text("hello   world");
    c.set_cursor(10); // in the middle of spaces
    c.handle_key(key_with(KeyCode::Left, KeyModifiers::control()));
    // Jumps to start of "world" (index 8) — the last space before cursor
    assert_eq!(c.cursor(), 8);
}

#[test]
fn test_move_word_right_from_spaces() {
    let mut c = Composer::new();
    c.insert_text("hello   world");
    c.set_cursor(5); // at the start of spaces
    c.handle_key(key_with(KeyCode::Right, KeyModifiers::control()));
    // Should jump to "world" (index 8)
    assert_eq!(c.cursor(), 8);
}

#[test]
fn test_move_word_left_single_word() {
    let mut c = Composer::new();
    c.insert_text("hello");
    c.set_cursor(5);
    c.handle_key(key_with(KeyCode::Left, KeyModifiers::control()));
    // Only one word, should jump to start
    assert_eq!(c.cursor(), 0);
}

#[test]
fn test_delete_word_backward_multiple_words() {
    let mut c = Composer::new();
    c.insert_text("hello world foo");
    c.set_cursor(15); // end
    c.delete_word_backward();
    // Removes " foo" → "hello world " (trailing space preserved)
    assert_eq!(c.content(), "hello world ");
    assert_eq!(c.cursor(), 12);
}

#[test]
fn test_delete_word_backward_with_trailing_spaces() {
    let mut c = Composer::new();
    c.insert_text("hello world   ");
    c.set_cursor(14); // after trailing spaces (5+1+5+3 = 14)
    c.delete_word_backward();
    // trim_end removes trailing spaces, finds "world" → "hello "
    assert_eq!(c.content(), "hello ");
    assert_eq!(c.cursor(), 6);
}

#[test]
fn test_delete_word_backward_cursor_mid_word() {
    let mut c = Composer::new();
    c.insert_text("hello world");
    c.set_cursor(8); // at 'o' in 'world'
    c.delete_word_backward();
    // before = "hello wo", trim_end = "hello wo", rfind(' ') = 5
    // word_start = 6, after = "rld" → "hello rld"
    assert_eq!(c.content(), "hello rld");
    assert_eq!(c.cursor(), 6);
}

#[test]
fn test_delete_word_backward_cursor_at_word_boundary() {
    let mut c = Composer::new();
    c.insert_text("hello world");
    c.set_cursor(6); // at the space
    c.delete_word_backward();
    // before = "hello ", trim_end = "hello", rfind(' ') = None
    // word_start = 0, after = "world" → "world"
    assert_eq!(c.content(), "world");
    assert_eq!(c.cursor(), 0);
}

#[test]
fn test_history_down_from_new_input_does_nothing() {
    let mut c = Composer::new();
    c.insert_text("first");
    c.submit();
    // Currently on new input (history_index = None)
    c.handle_key(key(KeyCode::Down));
    // Down from new input should do nothing (only up triggers history)
    assert!(c.content().is_empty());
}

#[test]
fn test_history_single_entry_up_down() {
    let mut c = Composer::new();
    c.insert_text("only");
    c.submit();

    // Up → retrieve "only"
    c.handle_key(key(KeyCode::Up));
    assert_eq!(c.content(), "only");

    // Down → stays (it's the only entry, so down at newest stays)
    c.handle_key(key(KeyCode::Down));
    assert_eq!(c.content(), "only");
}

#[test]
fn test_history_up_then_down_then_up_cycle() {
    let mut c = Composer::new();
    c.insert_text("first");
    c.submit();
    c.insert_text("second");
    c.submit();
    c.insert_text("third");
    c.submit();

    // Up → "third"
    c.handle_key(key(KeyCode::Up));
    assert_eq!(c.content(), "third");
    // Up → "second"
    c.handle_key(key(KeyCode::Up));
    assert_eq!(c.content(), "second");
    // Down → "third"
    c.handle_key(key(KeyCode::Down));
    assert_eq!(c.content(), "third");
    // Down → stays (newest)
    c.handle_key(key(KeyCode::Down));
    assert_eq!(c.content(), "third");
}

#[test]
fn test_cursor_pos_multi_line_unicode() {
    let mut c = Composer::new();
    c.insert_text("中文\n测试");
    // cursor at end = byte 13 (Chinese chars are 3 bytes each)
    // text_before = "中文\n测试"
    // lines = ["中文", "测试"]
    // row = 1, col = UnicodeWidthStr::width("测试") = 4
    let pos = c.cursor_pos(Rect::new(0, 0, 80, 5));
    // x = 0+1+4 = 5, y = 0+1+1 = 2
    assert_eq!(pos, Some((5, 2)));
}

#[test]
fn test_cursor_pos_first_line_of_multi_line() {
    let mut c = Composer::new();
    c.insert_text("ab\ncd");
    c.set_cursor(1); // after 'a' on first line
    let pos = c.cursor_pos(Rect::new(0, 0, 80, 5));
    // text_before = "a"
    // lines = ["a"]
    // row = 0, col = 1
    // x = 0+1+1 = 2, y = 0+1+0 = 1
    assert_eq!(pos, Some((2, 1)));
}

#[test]
fn test_composer_action_debug_and_partial_eq() {
    assert_eq!(ComposerAction::Continue, ComposerAction::Continue);
    assert_ne!(ComposerAction::Continue, ComposerAction::Submit("x".into()));
    assert_eq!(
        ComposerAction::Submit("hello".into()),
        ComposerAction::Submit("hello".into())
    );
    assert_ne!(
        ComposerAction::Submit("hello".into()),
        ComposerAction::Submit("world".into())
    );

    // Debug formatting
    let debug = format!("{:?}", ComposerAction::Continue);
    assert_eq!(debug, "Continue");
    let debug = format!("{:?}", ComposerAction::Submit("test".into()));
    assert_eq!(debug, "Submit(\"test\")");
}

#[test]
fn law_backspace_undoes_insert_example() {
    let mut c = Composer::new();
    c.insert_text("héllo wörld");
    c.set_cursor(3);
    let before = c.content().to_string();
    let cursor = c.cursor();
    c.handle_key(key(KeyCode::Char('x')));
    c.handle_key(key(KeyCode::Backspace));
    assert_eq!(c.content(), before);
    assert_eq!(c.cursor(), cursor);
}

#[test]
fn law_history_up_then_down_example() {
    let mut c = Composer::new();
    for s in ["one", "two", "three"] {
        c.insert_text(s);
        c.submit();
    }
    c.handle_key(key(KeyCode::Up));
    c.handle_key(key(KeyCode::Up));
    assert_eq!(c.content(), "two");
    c.handle_key(key(KeyCode::Up));
    c.handle_key(key(KeyCode::Down));
    assert_eq!(c.content(), "two");
    assert_eq!(c.history_index(), Some(1));
    assert_eq!(c.cursor(), 3);
}

#[test]
fn law_blank_enter_keeps_input_example() {
    let mut c = Composer::new();
    c.insert_text("  \n ");
    let action = c.handle_key(key(KeyCode::Enter));
    assert_eq!(action, ComposerAction::Continue);
    assert_eq!(c.content(), "  \n ");
    assert!(c.history().is_empty());
}

#[test]
fn law_enter_submits_and_records_example() {
    let mut c = Composer::new();
    c.insert_text(" hi ");
    let action = c.handle_key(key(KeyCode::Enter));
    assert_eq!(action, ComposerAction::Submit(" hi ".into()));
    assert_eq!(c.history(), &[" hi ".to_string()]);
    assert_eq!(c.content(), "");
    assert_eq!(c.history_index(), None);
}

#[test]
fn cursor_pos_counts_display_width() {
    let mut c = Composer::new();
    c.insert_text("你好");
    assert_eq!(c.cursor_pos(Rect::new(0, 0, 80, 3)), Some((5, 1)));
}

#[test]
fn recalled_slash_command_is_flagged() {
    let mut c = Composer::new();
    c.insert_text("/help");
    c.handle_key(key(KeyCode::Enter));
    c.insert_text("hello there");
    c.handle_key(key(KeyCode::Enter));
    assert!(!c.is_slash_command());
    c.handle_key(key(KeyCode::Up));
    assert_eq!(c.content(), "hello there");
    assert!(!c.is_slash_command());
    c.handle_key(key(KeyCode::Up));
    assert_eq!(c.content(), "/help");
    assert!(c.is_slash_command());
    c.handle_key(key(KeyCode::Down));
    assert!(!c.is_slash_command());
}

#[test]
fn backspacing_each_inserted_char_restores_input() {
    let mut c = Composer::new();
    c.insert_text("héllo");
    c.set_cursor(1);
    let (s, k) = (c.content().to_string(), c.cursor());
    c.insert_text("→ab");
    assert_eq!(c.content(), "h→abéllo");
    assert_eq!(c.cursor(), k + "→ab".len());
    for _ in 0.."→ab".chars().count() {
        c.backspace();
    }
    assert_eq!(c.content(), s);
    assert_eq!(c.cursor(), k);
}
