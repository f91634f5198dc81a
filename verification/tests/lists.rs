use oxicord_ui::keys::{KeyCode, KeyEvent, KeyModifiers, MOD_CONTROL};
use oxicord_ui::message_pane::{LoadingState, MessageGroup, MessagePaneState};
use oxicord_ui::pane_data::{MessagePaneData, PaneMessage};
use oxicord_ui::quick_switcher::{QuickSwitcher, QuickSwitcherAction, QuickSwitcherSortMode, RecentItem, SearchKind, SearchResult};

fn key(code: KeyCode) -> KeyEvent {
    KeyEvent::new(code, KeyModifiers::none())
}

fn recent(id: &str, timestamp: i64) -> RecentItem {
    RecentItem { id: id.to_string(), name: id.to_string(), kind: SearchKind::Channel, guild_id: None, timestamp }
}

#[test]
fn test_quick_switcher_initialization() {
    let switcher = QuickSwitcher::new(QuickSwitcherSortMode::default());
    assert!(switcher.input.is_empty());
    assert!(switcher.results.is_empty());
    assert!(switcher.selected.is_none());
    assert_eq!(switcher.sort_mode, QuickSwitcherSortMode::Recents);
}

#[test]
fn test_quick_switcher_set_results() {
    let mut switcher = QuickSwitcher::new(QuickSwitcherSortMode::default());
    let results = vec![
        SearchResult::new("1", "Channel 1", SearchKind::Channel),
        SearchResult::new("2", "Channel 2", SearchKind::Channel),
    ];

    switcher.set_results(results);
    assert_eq!(switcher.results.len(), 2);
    assert_eq!(switcher.selected, Some(0));

    switcher.set_results(vec![]);
    assert!(switcher.results.is_empty());
    assert!(switcher.selected.is_none());
}

#[test]
fn quick_switcher_editing_keys() {
    let cases = [
        (KeyCode::Char('a'), "", "a", QuickSwitcherAction::UpdateSearch("a".to_string())),
        (KeyCode::Backspace, "a", "", QuickSwitcherAction::UpdateSearch("".to_string())),
        (KeyCode::Backspace, "", "", QuickSwitcherAction::UpdateSearch("".to_string())),
        (KeyCode::Esc, "abc", "abc", QuickSwitcherAction::Close),
        (KeyCode::Tab, "abc", "abc", QuickSwitcherAction::ToggleSortMode),
    ];
    for (code, initial, expected_input, expected_action) in cases {
        let mut switcher = QuickSwitcher::new(QuickSwitcherSortMode::default());
        switcher.input = initial.to_string();
        let action = switcher.handle_key(key(code));
        assert_eq!(switcher.input, expected_input);
        assert_eq!(action, expected_action);
    }
}

#[test]
fn quick_switcher_ctrl_w_deletes_a_word() {
    let mut switcher = QuickSwitcher::new(QuickSwitcherSortMode::default());
    switcher.input = "foo bar".to_string();
    let action = switcher.handle_key(KeyEvent::new(KeyCode::Char('w'), KeyModifiers::from_bits(MOD_CONTROL)));
    assert_eq!(switcher.input, "foo ");
    assert_eq!(action, QuickSwitcherAction::UpdateSearch("foo ".to_string()));
}

#[test]
fn quick_switcher_navigation_wraps() {
    let cases = [
        (KeyCode::Down, Some(0), Some(1)),
        (KeyCode::Down, Some(1), Some(2)),
        (KeyCode::Down, Some(2), Some(0)),
        (KeyCode::Up, Some(0), Some(2)),
        (KeyCode::Up, Some(2), Some(1)),
        (KeyCode::Up, Some(1), Some(0)),
    ];
    for (code, start, expected) in cases {
        let mut switcher = QuickSwitcher::new(QuickSwitcherSortMode::default());
        switcher.set_results(vec![
            SearchResult::new("1", "1", SearchKind::Channel),
            SearchResult::new("2", "2", SearchKind::Channel),
            SearchResult::new("3", "3", SearchKind::Channel),
        ]);
        switcher.selected = start;
        switcher.handle_key(key(code));
        assert_eq!(switcher.selected, expected);
    }
}

#[test]
fn test_select_action() {
    let mut switcher = QuickSwitcher::new(QuickSwitcherSortMode::default());
    switcher.set_results(vec![SearchResult::new("1", "1", SearchKind::Channel)]);
    switcher.selected = Some(0);

    let action = switcher.handle_key(key(KeyCode::Enter));

    if let QuickSwitcherAction::Select(res) = action {
        assert_eq!(res.id, "1");
    } else {
        panic!("Expected Select action");
    }
}

#[test]
fn test_select_none() {
    let mut switcher = QuickSwitcher::new(QuickSwitcherSortMode::default());
    switcher.set_results(vec![SearchResult::new("1", "1", SearchKind::Channel)]);
    switcher.selected = None;

    let action = switcher.handle_key(key(KeyCode::Enter));

    assert_eq!(action, QuickSwitcherAction::NoAction);
}

#[test]
fn test_quick_switcher_sorting_recents() {
    let mut switcher = QuickSwitcher::new(QuickSwitcherSortMode::Recents);
    let r1 = SearchResult::new("1", "1", SearchKind::Channel).with_score(10);
    let r2 = SearchResult::new("2", "2", SearchKind::Channel).with_score(20);

    switcher.set_recents(vec![recent("1", 100), recent("2", 50)]);
    switcher.set_results(vec![r1, r2]);

    assert_eq!(switcher.results[0].id, "1");
    assert_eq!(switcher.results[1].id, "2");
}

#[test]
fn test_quick_switcher_sorting_mixed() {
    let mut switcher = QuickSwitcher::new(QuickSwitcherSortMode::Mixed);
    let items: Vec<SearchResult> = (1..=5)
        .map(|i: i64| SearchResult::new(&i.to_string(), &i.to_string(), SearchKind::Channel).with_score(i * 10))
        .collect();

    switcher.set_recents(vec![recent("1", 300), recent("2", 200), recent("3", 100)]);
    switcher.set_results(items);

    assert_eq!(switcher.results[0].id, "1");
    assert_eq!(switcher.results[1].id, "2");
    assert_eq!(switcher.results[2].id, "3");
    assert_eq!(switcher.results[3].id, "5");
    assert_eq!(switcher.results[4].id, "4");
}

#[test]
fn toggling_sort_mode_twice_restores_it() {
    let mut switcher = QuickSwitcher::new(QuickSwitcherSortMode::Recents);
    switcher.toggle_sort_mode();
    assert_eq!(switcher.sort_mode, QuickSwitcherSortMode::Mixed);
    switcher.toggle_sort_mode();
    assert_eq!(switcher.sort_mode, QuickSwitcherSortMode::Recents);
}

#[test]
fn test_message_pane_state_navigation() {
    let mut state = MessagePaneState::new();

    state.select_next(5);
    assert_eq!(state.selected_index(), Some(4));

    state.select_previous(5);
    assert_eq!(state.selected_index(), Some(3));

    state.select_first();
    assert_eq!(state.selected_index(), Some(0));

    state.select_last(5);
    assert_eq!(state.selected_index(), Some(4));
}

#[test]
fn message_pane_scrolling_stays_in_content() {
    let mut state = MessagePaneState::new();
    state.update_dimensions(100, 20);
    state.scroll_to_top();
    state.scroll_up();
    state.update_dimensions(10, 20);
    assert!(state.viewport_height() == 20);
    assert_eq!(state.content_height(), 10);
}

fn msg(id: u64, author: &str, timestamp: i64, is_reply: bool) -> PaneMessage {
    PaneMessage {
        id,
        channel_id: 100,
        author_id: author.to_string(),
        timestamp,
        is_reply,
        group: MessageGroup::Start,
        content: String::new(),
    }
}

#[test]
fn test_message_pane_data_set_messages() {
    let mut data = MessagePaneData::new(true);
    data.set_channel(100, "general".to_string());
    data.set_messages(vec![msg(1, "u", 0, false), msg(2, "u", 10, false)]);

    assert_eq!(data.message_count(), 2);
    assert_eq!(data.loading_state(), LoadingState::Loaded);
}

#[test]
fn test_formatted_channel_title() {
    let mut data = MessagePaneData::new(true);
    data.set_channel(100, "general".to_string());
    assert_eq!(data.formatted_channel_title(), Some("[ GENERAL ]".to_string()));

    let mut dm_data = MessagePaneData::new(true);
    dm_data.set_channel(200, "@username".to_string());
    assert_eq!(dm_data.formatted_channel_title(), Some("[ USERNAME ]".to_string()));
    assert!(dm_data.is_dm());
}

#[test]
fn test_message_grouping_logic() {
    let now = 1_700_000_000i64;
    let mut data = MessagePaneData::new(true);
    data.set_messages(vec![
        msg(1, "1", now, false),
        msg(2, "1", now + 60, false),
        msg(3, "1", now + 9 * 60, false),
        msg(4, "2", now + 10 * 60, false),
        msg(5, "2", now + 11 * 60, true),
    ]);

    let messages = data.messages();
    assert_eq!(messages[0].group, MessageGroup::Start);
    assert_eq!(messages[1].group, MessageGroup::Compact);
    assert_eq!(messages[2].group, MessageGroup::Start);
    assert_eq!(messages[3].group, MessageGroup::Start);
    assert_eq!(messages[4].group, MessageGroup::Start);
}

#[test]
fn adding_and_prepending_keep_groups_and_ids() {
    let mut data = MessagePaneData::new(false);
    data.set_channel(100, "general".to_string());
    data.set_messages(vec![msg(3, "a", 100, false)]);
    data.add_message(msg(4, "a", 150, false));
    data.add_message(msg(4, "a", 160, false));
    let mut other = msg(5, "a", 170, false);
    other.channel_id = 7;
    data.add_message(other);
    assert_eq!(data.message_count(), 2);
    assert_eq!(data.messages()[1].group, MessageGroup::Compact);

    let added = data.prepend_messages(vec![msg(1, "b", 10, false), msg(3, "a", 100, false), msg(2, "a", 90, false)]);
    assert_eq!(added, 2);
    let ids: Vec<u64> = data.messages().iter().map(|m| m.id).collect();
    assert_eq!(ids, vec![1, 2, 3, 4]);
    let groups: Vec<MessageGroup> = data.messages().iter().map(|m| m.group).collect();
    assert_eq!(groups, vec![MessageGroup::Start, MessageGroup::Start, MessageGroup::Compact, MessageGroup::Compact]);

    data.remove_message(3);
    let ids: Vec<u64> = data.messages().iter().map(|m| m.id).collect();
    assert_eq!(ids, vec![1, 2, 4]);
    assert_eq!(data.messages()[2].group, MessageGroup::Compact);

    data.update_message(msg(2, "z", 90, false));
    assert_eq!(data.messages()[2].group, MessageGroup::Start);

    data.set_error("offline".to_string());
    assert_eq!(data.loading_state(), LoadingState::Error);
    data.clear();
    assert!(data.is_empty());
    assert_eq!(data.channel_id(), None);
    assert_eq!(data.loading_state(), LoadingState::Idle);
}

#[test]
fn test_scrollbar_position_at_bottom() {
    let mut state = MessagePaneState::new();
    assert!(state.is_following());
    let content_height: usize = 51;
    state.update_dimensions(content_height, 50);
    assert_eq!(state.vertical_scroll, 1);
}

#[test]
fn select_previous_undoes_next_in_pane() {
    let mut s = MessagePaneState::new();
    s.jump_to_index(2);
    s.select_next(5);
    assert_eq!(s.selected_index(), Some(3));
    s.select_previous(5);
    assert_eq!(s.selected_index(), Some(2));
    s.jump_to_index(4);
    s.select_next(5);
    assert_eq!(s.selected_index(), Some(4));
}

#[test]
fn pane_keeps_header_details() {
    let mut data = MessagePaneData::new(true);
    data.set_channel_icon(Some("#".to_string()));
    data.set_online_count(Some(12));
    data.set_typing_indicator(Some("bob is typing".to_string()));
    assert_eq!(data.channel_icon(), Some("#"));
    assert_eq!(data.online_count(), Some(12));
    assert!(data.has_typing_indicator());
    data.set_channel(5, "general".to_string());
    assert_eq!(data.online_count(), Some(12));
    assert_eq!(data.typing_indicator(), Some("bob is typing"));
    assert!(data.get_message(0).is_none());
    data.clear();
    assert_eq!(data.channel_icon(), None);
    assert_eq!(data.online_count(), None);
    assert!(!data.has_typing_indicator());
}
