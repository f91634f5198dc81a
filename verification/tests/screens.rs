use oxicord_ui::chat_screen::{add_recent_item, calculate_visible_range, is_valid_recent_item, ChatFocus, ChatKeyResult, ChatScreenState, DmChannelInfo};
use oxicord_ui::commands::CommandRegistry;
use oxicord_ui::quick_switcher::QuickSwitcherSortMode;
use oxicord_ui::entities::{ConnectionStatus, User};
use oxicord_ui::footer_bar::{format_key, FocusContext};
use oxicord_ui::header_bar::HeaderBar;
use oxicord_ui::input::TextInput;
use oxicord_ui::keys::{Action, KeyCode, KeyEvent, KeyModifiers, MOD_ALT, MOD_CONTROL, MOD_SHIFT};
use oxicord_ui::login_screen::{LoginScreen, LoginState};
use oxicord_ui::main_screen::MainScreen;
use oxicord_ui::quick_switcher::{RecentItem, SearchKind};
use oxicord_ui::status_bar::{StatusBar, StatusLevel};

fn key(code: KeyCode) -> KeyEvent {
    KeyEvent::new(code, KeyModifiers::none())
}

#[test]
fn test_initial_state() {
    let screen = LoginScreen::new();
    assert_eq!(screen.state(), LoginState::Input);
    assert!(screen.token().is_none());
    assert!(screen.should_persist());
}

#[test]
fn test_typing() {
    let mut screen = LoginScreen::new();
    screen.handle_key(key(KeyCode::Char('t')));
    screen.handle_key(key(KeyCode::Char('e')));
    screen.handle_key(key(KeyCode::Char('s')));
    screen.handle_key(key(KeyCode::Char('t')));

    assert_eq!(screen.token().as_deref(), Some("test"));
}

#[test]
fn test_toggle_persist() {
    let mut screen = LoginScreen::new();
    assert!(screen.should_persist());

    screen.handle_key(key(KeyCode::Tab));
    assert!(!screen.should_persist());

    screen.handle_key(key(KeyCode::Tab));
    assert!(screen.should_persist());
}

#[test]
fn test_submit_empty_returns_false() {
    let mut screen = LoginScreen::new();
    assert!(!screen.handle_key(key(KeyCode::Enter)));
}

#[test]
fn test_submit_with_token_returns_true() {
    let mut screen = LoginScreen::new();
    screen.handle_key(key(KeyCode::Char('x')));
    assert!(screen.handle_key(key(KeyCode::Enter)));
}

#[test]
fn login_error_returns_to_input_on_any_key() {
    let mut screen = LoginScreen::new();
    screen.set_error("bad token");
    assert_eq!(screen.state(), LoginState::Error);
    assert!(!screen.handle_key(key(KeyCode::Char('a'))));
    assert_eq!(screen.state(), LoginState::Input);
    screen.set_validating();
    assert!(!screen.handle_key(key(KeyCode::Enter)));
    assert_eq!(screen.state(), LoginState::Validating);
}

#[test]
fn test_main_screen_creation() {
    let user = User::new("123", "testuser", "0", None, false);
    let screen = MainScreen::new(user);

    assert_eq!(screen.user().username(), "testuser");
}

#[test]
fn main_screen_status_greets_user() {
    let screen = MainScreen::new(User::new("1", "alice", "0", None, false));
    assert_eq!(screen.status().left_str(), "Logged in as: alice");
    assert_eq!(screen.status().right_str(), "Press 'q' to quit");
    assert_eq!(screen.status().get_level(), StatusLevel::Success);
}

#[test]
fn test_connection_status_display() {
    assert_eq!(ConnectionStatus::Connected.display_text(), "CONNECTED");
    assert_eq!(ConnectionStatus::Disconnected.display_text(), "DISCONNECTED");
    assert_eq!(ConnectionStatus::Connecting.display_text(), "CONNECTING");
}

#[test]
fn test_connection_status_indicator() {
    assert_eq!(ConnectionStatus::Connected.indicator(), "\u{25cf}");
    assert_eq!(ConnectionStatus::Disconnected.indicator(), "\u{25cb}");
}

#[test]
fn test_header_bar_creation() {
    let header = HeaderBar::new("oxicord", "0.0.1").connection_status(ConnectionStatus::Connected);

    assert_eq!(header.app_name(), "oxicord");
    assert_eq!(header.version(), "0.0.1");
    assert_eq!(header.status(), ConnectionStatus::Connected);
}

#[test]
fn test_text_input_basic() {
    let mut input = TextInput::new("Test");
    assert!(input.value().is_empty());

    input.input_char('a');
    input.input_char('b');
    assert_eq!(input.value(), "ab");

    input.backspace();
    assert_eq!(input.value(), "a");
}

#[test]
fn test_masked_display() {
    let mut input = TextInput::new("Password").password();
    input.set_value("secret");

    assert_eq!(input.display_text(), "\u{2022}\u{2022}\u{2022}\u{2022}\u{2022}\u{2022}");
}

#[test]
fn text_input_backspace_undoes_typing() {
    let mut input = TextInput::new("x");
    input.set_value("h\u{e9}llo");
    input.move_left();
    input.input_char('\u{f6}');
    assert_eq!(input.value(), "h\u{e9}ll\u{f6}o");
    input.backspace();
    assert_eq!(input.value(), "h\u{e9}llo");
    input.move_start();
    input.delete();
    assert_eq!(input.value(), "\u{e9}llo");
    input.move_end();
    input.backspace();
    assert_eq!(input.value(), "\u{e9}ll");
}

#[test]
fn status_bar_builders_and_layout() {
    let bar = StatusBar::new().left("ab").center("cd").right("ef").level(StatusLevel::Warning);
    assert_eq!(bar.left_str(), "ab");
    assert_eq!(bar.center_str(), "cd");
    assert_eq!(bar.right_str(), "ef");
    assert_eq!(bar.get_level(), StatusLevel::Warning);
    let layout = bar.layout(10);
    assert_eq!(layout.left_padding, 2);
    assert_eq!(layout.right_padding, 2);
    assert_eq!(StatusBar::error("boom").get_level(), StatusLevel::Error);
    assert_eq!(StatusBar::info("i").left_str(), "i");
}

#[test]
fn footer_key_labels() {
    assert_eq!(format_key(&KeyEvent::new(KeyCode::Char('x'), KeyModifiers::from_bits(MOD_CONTROL))), "C-x");
    assert_eq!(format_key(&KeyEvent::new(KeyCode::Up, KeyModifiers::from_bits(MOD_SHIFT | MOD_ALT))), "A-S-\u{2191}");
    assert_eq!(format_key(&KeyEvent::new(KeyCode::F(5), KeyModifiers::none())), "F5");
    assert_eq!(FocusContext::MessagesList.display_name(), "MESSAGES");
}

#[test]
fn chat_focus_cycle() {
    assert_eq!(ChatFocus::MessagesList.next(true), ChatFocus::MessageInput);
    assert_eq!(ChatFocus::MessageInput.next(true), ChatFocus::GuildsTree);
    assert_eq!(ChatFocus::GuildsTree.next(true), ChatFocus::MessagesList);
    assert_eq!(ChatFocus::MessageInput.next(false), ChatFocus::MessagesList);
    for f in [ChatFocus::MessagesList, ChatFocus::MessageInput, ChatFocus::GuildsTree] {
        assert_eq!(f.next(true).previous(true), f);
    }
    assert_eq!(ChatFocus::MessageInput.to_focus_context(), FocusContext::MessageInput);
}

#[test]
fn dm_channel_info_accessors() {
    let info = DmChannelInfo::new(42, "bob".to_string());
    assert_eq!(info.channel_id(), 42);
    assert_eq!(info.recipient_name(), "bob");
}

fn recent(id: &str, name: &str, kind: SearchKind) -> RecentItem {
    RecentItem { id: id.to_string(), name: name.to_string(), kind, guild_id: None, timestamp: 0 }
}

#[test]
fn test_initial_recents_filtering() {
    let invalid_item = recent("0", "Text Channels", SearchKind::Channel);
    let valid_item = recent("123", "General", SearchKind::Channel);
    let state = ChatScreenState::new(true, true, CommandRegistry::default(), QuickSwitcherSortMode::default(), vec![invalid_item, valid_item]);
    assert_eq!(state.recents.len(), 1, "Recents should be filtered on initialization");
    assert_eq!(state.recents[0].id, "123");
    assert_eq!(state.quick_switcher().recents.len(), 1);
    assert_eq!(state.quick_switcher().recents[0].id, "123");
    assert_eq!(state.quick_switcher().recents[0].name, "General");
    assert_eq!(state.focus(), ChatFocus::GuildsTree);
    assert!(state.is_guilds_tree_visible());
    assert_eq!(state.connection_status(), ConnectionStatus::Disconnected);
    assert!(!state.has_entered());
}

#[test]
fn chat_connection_status_and_entrance() {
    let mut state = ChatScreenState::new(true, false, CommandRegistry::default(), QuickSwitcherSortMode::default(), vec![]);
    assert!(state.has_entered());
    assert_eq!(state.connection_status(), ConnectionStatus::Disconnected);
    state.set_connection_status(ConnectionStatus::Connected);
    assert_eq!(state.connection_status(), ConnectionStatus::Connected);
    state.tick(std::time::Duration::from_millis(16));
    assert!(state.has_entered());
    assert_eq!(state.focus(), ChatFocus::GuildsTree);
    let mut animated = ChatScreenState::new(true, true, CommandRegistry::default(), QuickSwitcherSortMode::default(), vec![]);
    animated.tick(std::time::Duration::from_millis(16));
    assert!(!animated.has_entered());
    assert_eq!(animated.connection_status(), ConnectionStatus::Disconnected);
}

#[test]
fn recent_items_are_filtered_and_deduplicated() {
    assert!(!is_valid_recent_item(&recent("1", "x (Null) y", SearchKind::Channel)));
    assert!(!is_valid_recent_item(&recent("1", "", SearchKind::Channel)));
    assert!(!is_valid_recent_item(&recent("1", "Voice Channels", SearchKind::Channel)));
    let mut recents = Vec::new();
    add_recent_item(&mut recents, recent("1", "a", SearchKind::Channel));
    add_recent_item(&mut recents, recent("2", "b", SearchKind::Channel));
    add_recent_item(&mut recents, recent("1", "a2", SearchKind::Channel));
    add_recent_item(&mut recents, recent("1", "a3", SearchKind::Guild));
    add_recent_item(&mut recents, recent("0", "bad", SearchKind::Channel));
    let ids: Vec<(&str, SearchKind)> = recents.iter().map(|r| (r.id.as_str(), r.kind)).collect();
    assert_eq!(ids, vec![("1", SearchKind::Guild), ("1", SearchKind::Channel), ("2", SearchKind::Channel)]);
    assert_eq!(recents[1].name, "a2");
}

#[test]
fn recent_items_keep_fifty() {
    let mut recents = Vec::new();
    for i in 1..=60 {
        add_recent_item(&mut recents, recent(&i.to_string(), "n", SearchKind::Channel));
    }
    assert_eq!(recents.len(), 50);
    assert_eq!(recents[0].id, "60");
    assert_eq!(recents[49].id, "11");
}

#[test]
fn visible_range_of_messages() {
    let heights = vec![3u16, 3, 3, 3, 3];
    assert_eq!(calculate_visible_range(&heights, 0, 6), (0, 2));
    assert_eq!(calculate_visible_range(&heights, 4, 4), (1, 3));
    assert_eq!(calculate_visible_range(&heights, 100, 4), (0, 5));
    assert_eq!(calculate_visible_range(&Vec::new(), 0, 10), (0, 0));
}

fn chat_state() -> ChatScreenState {
    ChatScreenState::new(true, false, CommandRegistry::new(), QuickSwitcherSortMode::default(), vec![])
}

#[test]
fn test_focus_cycling() {
    let mut state = chat_state();
    assert_eq!(state.focus(), ChatFocus::GuildsTree);
    state.focus_next();
    assert_eq!(state.focus(), ChatFocus::MessagesList);
    state.focus_next();
    assert_eq!(state.focus(), ChatFocus::MessageInput);
    state.focus_next();
    assert_eq!(state.focus(), ChatFocus::GuildsTree);
}

#[test]
fn test_toggle_guilds_tree() {
    let mut state = chat_state();
    assert!(state.is_guilds_tree_visible());
    state.toggle_guilds_tree();
    assert!(!state.is_guilds_tree_visible());
    assert_ne!(state.focus(), ChatFocus::GuildsTree);
}

#[test]
fn test_focus_skip_when_guilds_hidden() {
    let mut state = chat_state();
    state.toggle_guilds_tree();
    state.set_focus(ChatFocus::MessagesList);
    state.focus_next();
    assert_eq!(state.focus(), ChatFocus::MessageInput);
    state.focus_next();
    assert_eq!(state.focus(), ChatFocus::MessagesList);
}

#[test]
fn toggling_tree_twice_restores_it() {
    let mut state = chat_state();
    state.toggle_guilds_tree();
    state.toggle_guilds_tree();
    assert!(state.is_guilds_tree_visible());
    assert_eq!(state.focus(), ChatFocus::MessagesList);
    state.focus_guilds_tree();
    assert_eq!(state.focus(), ChatFocus::GuildsTree);
}

#[test]
fn global_keys_move_focus_and_toggle_help() {
    let mut state = chat_state();
    let help = KeyEvent::new(KeyCode::Char('?'), KeyModifiers::none());
    assert_eq!(state.handle_global_key(help), Some(ChatKeyResult::ToggleHelp));
    assert!(state.is_help_shown());
    let quit = KeyEvent::new(KeyCode::Char('c'), KeyModifiers::from_bits(MOD_CONTROL));
    assert_eq!(state.handle_global_key(quit), Some(ChatKeyResult::Quit));
    let tab = KeyEvent::new(KeyCode::Tab, KeyModifiers::none());
    assert_eq!(state.handle_global_key(tab), Some(ChatKeyResult::Consumed));
    assert_eq!(state.focus(), ChatFocus::MessagesList);
    let plain = KeyEvent::new(KeyCode::Char('z'), KeyModifiers::none());
    assert_eq!(state.handle_global_key(plain), None);
}

#[test]
fn help_key_typed_in_input_is_left_to_it() {
    let mut state = chat_state();
    state.focus_message_input();
    let help = KeyEvent::new(KeyCode::Char('?'), KeyModifiers::none());
    assert_eq!(state.handle_global_key(help), None);
    assert!(!state.is_help_shown());
}

#[test]
fn help_takes_every_key() {
    let mut state = chat_state();
    state.toggle_help();
    let other = KeyEvent::new(KeyCode::Char('j'), KeyModifiers::none());
    assert_eq!(state.handle_modal_key(other), Some(ChatKeyResult::Consumed));
    assert!(state.is_help_shown());
    let quit = KeyEvent::new(KeyCode::Char('c'), KeyModifiers::from_bits(MOD_CONTROL));
    assert_eq!(state.handle_modal_key(quit), Some(ChatKeyResult::Consumed));
    assert!(!state.is_help_shown());
    assert_eq!(state.handle_modal_key(other), None);
}

#[test]
fn confirmation_deletes_on_enter() {
    let mut state = chat_state();
    state.request_deletion(42);
    assert_eq!(state.focus(), ChatFocus::ConfirmationModal);
    let other = KeyEvent::new(KeyCode::Char('y'), KeyModifiers::none());
    assert_eq!(state.handle_modal_key(other), Some(ChatKeyResult::Consumed));
    assert_eq!(state.pending_deletion(), Some(42));
    let enter = KeyEvent::new(KeyCode::Enter, KeyModifiers::none());
    assert_eq!(state.handle_modal_key(enter), Some(ChatKeyResult::DeleteMessage(42)));
    assert_eq!(state.focus(), ChatFocus::MessagesList);
    assert_eq!(state.pending_deletion(), None);
}

#[test]
fn confirmation_gives_up_on_n() {
    let mut state = chat_state();
    state.request_deletion(7);
    let n = KeyEvent::new(KeyCode::Char('n'), KeyModifiers::none());
    assert_eq!(state.handle_modal_key(n), Some(ChatKeyResult::Consumed));
    assert_eq!(state.pending_deletion(), None);
    assert_eq!(state.focus(), ChatFocus::MessagesList);
}

#[test]
fn quick_switcher_opens_empty() {
    let mut state = chat_state();
    state.toggle_quick_switcher();
    assert!(state.is_quick_switcher_shown());
    assert!(state.quick_switcher().results.is_empty());
    state.toggle_quick_switcher();
    assert!(!state.is_quick_switcher_shown());
}

#[test]
fn reply_and_input_through_chat_screen() {
    let mut state = chat_state();
    state.start_reply(9, "alice".to_string(), true);
    assert_eq!(state.focus(), ChatFocus::MessageInput);
    assert_eq!(state.message_input_reply_info(), Some((9, "alice".to_string(), true)));
    state.insert_text("hi");
    assert_eq!(state.message_input_value(), "hi");
    state.cancel_reply();
    assert_eq!(state.message_input_reply_info(), None);
    state.set_message_input_content("replaced");
    assert_eq!(state.message_input_value(), "replaced");
    state.focus_messages_list();
    state.add_attachment("/tmp/a.png".to_string());
    assert_eq!(state.focus(), ChatFocus::MessageInput);
    assert_eq!(state.message_input_state().attachments().len(), 1);
    state.clear_input();
    assert_eq!(state.message_input_value(), "");
}

fn labels(binds: &[oxicord_ui::footer_bar::Keybind]) -> Vec<(Action, String)> {
    binds.iter().map(|b| (b.action, b.label.clone())).collect()
}

#[test]
fn test_message_input_shows_focus_messages_command() {
    let state = chat_state();
    let commands = state.get_message_input_commands(state.registry());
    assert!(
        commands.iter().any(|k| k.action == Action::FocusMessages),
        "Message input commands should include FocusMessages (Ctrl+T)"
    );
    assert_eq!(commands.last().map(|k| (k.key.code, k.label.as_str())), Some((KeyCode::F(1), "Help")));
}

#[test]
fn footer_commands_follow_focus_and_overlays() {
    let mut state = chat_state();
    let registry = CommandRegistry::new();
    let tree = state.get_commands(&registry, false, None, "Recents");
    assert_eq!(tree[0].action, Action::NavigateDown);
    assert_eq!(tree[0].key_display.as_deref(), Some("j/k"));
    assert_eq!((tree[1].action, tree[1].label.as_str()), (Action::NavigateRight, "Expand"));
    state.focus_messages_list();
    let list = labels(&state.get_commands(&registry, true, Some("Open Link"), "Recents"));
    assert!(list.contains(&(Action::EditMessage, "Edit".to_string())));
    assert!(list.contains(&(Action::OpenAttachments, "Open Link".to_string())));
    let list = labels(&state.get_commands(&registry, false, None, "Recents"));
    assert!(!list.iter().any(|(a, _)| *a == Action::DeleteMessage));
    assert!(list.contains(&(Action::OpenAttachments, "Open".to_string())));
    state.toggle_quick_switcher();
    let switcher = labels(&state.get_commands(&registry, false, None, "Mixed"));
    assert_eq!(switcher[2], (Action::NoAction, "Sort (Mixed)".to_string()));
    state.toggle_quick_switcher();
    state.toggle_help();
    assert_eq!(labels(&state.get_commands(&registry, false, None, "Mixed")), vec![(Action::ToggleHelp, "Close".to_string())]);
}

#[test]
fn chat_screen_holds_tree_and_pane_data() {
    let mut state = chat_state();
    state.set_guilds(vec![oxicord_ui::entities::Guild::new(1, "Guild A")]);
    state.set_group_guilds(true);
    assert_eq!(state.guilds_tree_data().guilds().len(), 1);
    state.set_message_error("boom".to_string());
    assert_eq!(state.message_pane_data().loading_state(), oxicord_ui::message_pane::LoadingState::Error);
    state.set_typing_indicator(Some("ann is typing".to_string()));
    assert_eq!(state.message_pane_data().typing_indicator(), Some("ann is typing"));
    state.mark_messages_dirty();
    state.remove_message(3);
    assert_eq!(state.message_pane_data().message_count(), 0);
}

#[test]
fn jump_to_missing_message_changes_nothing() {
    let mut state = chat_state();
    state.jump_to_message(42);
    assert_eq!(state.focus(), ChatFocus::GuildsTree);
    assert!(state.message_pane_data().is_empty());
}
