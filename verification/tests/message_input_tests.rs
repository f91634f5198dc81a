use oxicord_ui::commands::CommandRegistry;
use oxicord_ui::keys::{KeyCode, KeyEvent, KeyModifiers, MOD_ALT, MOD_CONTROL, MOD_SHIFT};
use oxicord_ui::message_input::{CursorMove, MessageInputAction, MessageInputMode, MessageInputState};

fn plain(code: KeyCode) -> KeyEvent {
    KeyEvent::new(code, KeyModifiers::none())
}

fn with(code: KeyCode, bits: u8) -> KeyEvent {
    KeyEvent::new(code, KeyModifiers::from_bits(bits))
}

fn rows_text(rows: &[Vec<char>]) -> Vec<String> {
    rows.iter().map(|r| r.iter().collect()).collect()
}

#[test]
fn test_message_input_state_creation() {
    let state = MessageInputState::new();
    assert!(state.is_empty());
    assert!(!state.is_focused());
    assert!(!state.is_replying());
    assert!(!state.is_editing());
}

#[test]
fn test_input_via_key_handling() {
    let mut state = MessageInputState::new();
    let registry = CommandRegistry::default();
    state.set_has_channel(true);
    state.set_focused(true);

    state.handle_key(plain(KeyCode::Char('h')), &registry);
    state.handle_key(plain(KeyCode::Char('i')), &registry);

    assert_eq!(state.value(), "hi");
}

#[test]
fn test_clear() {
    let mut state = MessageInputState::new();
    let registry = CommandRegistry::default();
    state.set_has_channel(true);
    for c in ['t', 'e', 's', 't'] {
        state.handle_key(plain(KeyCode::Char(c)), &registry);
    }

    state.clear();
    assert!(state.is_empty());
}

#[test]
fn test_reply_mode() {
    let mut state = MessageInputState::new();
    state.start_reply(123, "testuser".to_string(), true);
    assert!(state.is_replying());
    state.reset_mode();
    assert!(!state.is_replying());
}

#[test]
fn test_edit_mode() {
    let mut state = MessageInputState::new();
    state.start_edit(123, "old content");
    assert!(state.is_editing());
    assert_eq!(state.value(), "old content");
    state.reset_mode();
    assert!(!state.is_editing());
    assert_eq!(state.value(), "old content");
}

#[test]
fn test_send_message_clears_state() {
    let mut state = MessageInputState::new();
    let registry = CommandRegistry::default();
    state.set_has_channel(true);
    for c in ['t', 'e', 's', 't'] {
        state.handle_key(plain(KeyCode::Char(c)), &registry);
    }
    state.start_reply(123, "user".to_string(), true);

    let action = state.handle_key(plain(KeyCode::Enter), &registry);

    assert!(matches!(
        action,
        Some(MessageInputAction::SendMessage { content, reply_to: Some(_), attachments: _ }) if content == "test"
    ));
    assert!(state.is_empty());
    assert!(!state.is_replying());
}

#[test]
fn test_enter_and_shift_enter() {
    let mut state = MessageInputState::new();
    let registry = CommandRegistry::default();
    state.set_has_channel(true);
    state.set_content("hello");

    let action = state.handle_key(with(KeyCode::Enter, MOD_SHIFT), &registry);
    assert!(matches!(action, Some(MessageInputAction::StartTyping)));
    assert_eq!(state.value(), "hello\n");

    let action = state.handle_key(plain(KeyCode::Enter), &registry);
    assert!(matches!(action, Some(MessageInputAction::SendMessage { .. })));
    assert!(state.is_empty());
}

#[test]
fn test_ctrl_delete_deletes_word() {
    let mut state = MessageInputState::new();
    let registry = CommandRegistry::default();
    state.set_has_channel(true);
    state.set_content("hello world");
    state.move_cursor(CursorMove::Head);

    state.handle_key(with(KeyCode::Delete, MOD_CONTROL), &registry);

    assert_eq!(state.value(), " world");
}

#[test]
fn test_multiline_wrapping() {
    let mut state = MessageInputState::new();
    state.set_content("1234567890");

    let (rows, row, col) = state.get_visual_info(5);
    assert_eq!(rows_text(&rows), vec!["12345", "67890", ""]);
    assert_eq!((row, col), (2, 0));
}

#[test]
fn test_ctrl_backspace_deletes_word() {
    let mut state = MessageInputState::new();
    let registry = CommandRegistry::default();
    state.set_has_channel(true);
    state.set_content("hello world");
    state.move_cursor(CursorMove::End);

    state.handle_key(with(KeyCode::Backspace, MOD_CONTROL), &registry);

    assert_eq!(state.value(), "hello ");
}

#[test]
fn test_ctrl_w_deletes_word() {
    let mut state = MessageInputState::new();
    let registry = CommandRegistry::default();
    state.set_has_channel(true);
    state.set_content("hello world");
    state.move_cursor(CursorMove::End);

    state.handle_key(with(KeyCode::Char('w'), MOD_CONTROL), &registry);

    assert_eq!(state.value(), "hello ");
}

#[test]
fn test_ctrl_left_right_move_word() {
    let mut state = MessageInputState::new();
    let registry = CommandRegistry::default();
    state.set_has_channel(true);
    state.set_content("hello world test");
    state.move_cursor(CursorMove::Head);

    let key = with(KeyCode::Right, MOD_CONTROL);
    state.handle_key(key, &registry);
    assert_eq!(state.cursor().1, 6);

    state.handle_key(key, &registry);
    assert_eq!(state.cursor().1, 12);

    let key = with(KeyCode::Left, MOD_CONTROL);
    state.handle_key(key, &registry);
    assert_eq!(state.cursor().1, 6);
}

#[test]
fn test_delete_mention_at_once() {
    let mut state = MessageInputState::new();
    let registry = CommandRegistry::default();
    state.set_has_channel(true);
    state.set_content("Hello @Ant");
    state.move_cursor(CursorMove::End);

    state.insert_mention(6, "Antonio", "12345");

    state.move_cursor(CursorMove::End);
    state.delete_char();

    assert_eq!(state.value(), "Hello @Antonio", "Pre-condition failed");

    state.handle_key(plain(KeyCode::Backspace), &registry);

    assert_eq!(state.value(), "Hello ");
    assert_eq!(state.message_content(), "Hello ");
}

#[test]
fn test_backspace_with_multibyte_chars() {
    let mut state = MessageInputState::new();
    let registry = CommandRegistry::default();

    state.set_content("Despup\u{e9}");
    state.move_cursor(CursorMove::End);

    state.handle_key(plain(KeyCode::Backspace), &registry);

    assert_eq!(state.value(), "Despup");
}

#[test]
fn mentions_become_user_tags_longest_first() {
    let mut state = MessageInputState::new();
    state.set_content("hi @Al and @Alice ");
    state.move_cursor(CursorMove::End);
    state.insert_mention(1000, "Al", "1");
    state.insert_mention(1000, "Alice", "2");
    assert_eq!(state.message_content(), "hi <@1> and <@2> ");
}

#[test]
fn cancel_leaves_modes_then_clears_then_exits() {
    let mut state = MessageInputState::new();
    let registry = CommandRegistry::default();
    state.start_edit(9, "draft");
    assert_eq!(state.handle_key(plain(KeyCode::Esc), &registry), Some(MessageInputAction::CancelReply));
    assert!(state.is_empty());
    assert_eq!(state.mode(), &MessageInputMode::Normal);
    state.set_content("x");
    state.start_reply(1, "a".to_string(), false);
    assert_eq!(state.handle_key(plain(KeyCode::Esc), &registry), Some(MessageInputAction::CancelReply));
    assert_eq!(state.value(), "x");
    assert_eq!(state.handle_key(plain(KeyCode::Esc), &registry), None);
    assert!(state.is_empty());
    assert_eq!(state.handle_key(plain(KeyCode::Esc), &registry), Some(MessageInputAction::ExitInput));
}

#[test]
fn editing_sends_an_edit_and_blank_text_sends_nothing() {
    let mut state = MessageInputState::new();
    let registry = CommandRegistry::default();
    state.set_content("   ");
    assert_eq!(state.handle_key(plain(KeyCode::Enter), &registry), None);
    state.start_edit(7, "fixed");
    assert_eq!(
        state.handle_key(plain(KeyCode::Enter), &registry),
        Some(MessageInputAction::EditMessage { message_id: 7, content: "fixed".to_string() })
    );
    state.add_attachment("/tmp/a.png".to_string());
    match state.handle_key(plain(KeyCode::Enter), &registry) {
        Some(MessageInputAction::SendMessage { content, reply_to, attachments }) => {
            assert_eq!(content, "");
            assert_eq!(reply_to, None);
            assert_eq!(attachments, vec!["/tmp/a.png".to_string()]);
        },
        other => panic!("unexpected {other:?}"),
    }
    assert!(state.attachments().is_empty());
}

#[test]
fn long_text_is_cut_to_the_limit() {
    let mut state = MessageInputState::new();
    let registry = CommandRegistry::default();
    state.set_content(&"a".repeat(2000));
    state.handle_key(plain(KeyCode::Char('b')), &registry);
    assert_eq!(state.value().len(), 2000);
    assert!(state.value().chars().all(|c| c == 'a'));
}

#[test]
fn rows_move_up_and_down_in_wrapped_text() {
    let mut state = MessageInputState::new();
    let registry = CommandRegistry::default();
    state.set_content("abcdefghij\nxy");
    state.update_scroll(4, 2);
    assert_eq!(state.last_width(), 4);
    let (rows, row, col) = state.get_visual_info(4);
    assert_eq!(rows_text(&rows), vec!["abcd", "efgh", "ij", "xy"]);
    assert_eq!((row, col), (3, 2));
    assert_eq!(state.scroll_offset(), 2);
    state.handle_key(plain(KeyCode::Up), &registry);
    assert_eq!(state.cursor(), (0, 10));
    state.handle_key(plain(KeyCode::Up), &registry);
    assert_eq!(state.cursor(), (0, 6));
    state.handle_key(plain(KeyCode::Home), &registry);
    assert_eq!(state.cursor(), (0, 4));
    state.handle_key(plain(KeyCode::End), &registry);
    assert_eq!(state.cursor(), (0, 8));
    state.handle_key(plain(KeyCode::Down), &registry);
    assert_eq!(state.cursor(), (1, 0));
    assert_eq!(state.get_logical_pos(3, 1, 4), (1, 1));
}

#[test]
fn alt_d_deletes_next_word_and_cursor_index_counts_lines() {
    let mut state = MessageInputState::new();
    let registry = CommandRegistry::default();
    state.set_content("ab\ncd ef");
    state.move_cursor(CursorMove::Head);
    assert_eq!(state.get_cursor_index(), 3);
    state.handle_key(with(KeyCode::Char('d'), MOD_ALT), &registry);
    assert_eq!(state.value(), "ab\n ef");
    state.move_cursor(CursorMove::Jump(0, 1));
    assert_eq!(state.get_cursor_index(), 1);
}

#[test]
fn set_content_reads_back() {
    let mut s = MessageInputState::new();
    s.set_content("first");
    s.set_content("hello\nworld\n");
    assert_eq!(s.value(), "hello\nworld\n");
    s.clear();
    assert!(s.is_empty());
    assert_eq!(s.value(), "");
    s.set_content("line\r\nnext");
    assert_eq!(s.value(), "line\nnext");
}
