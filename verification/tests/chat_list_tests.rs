use oxicord_ui::chat_screen::{ChatFocus, ChatKeyResult, ChatScreenState};
use oxicord_ui::commands::CommandRegistry;
use oxicord_ui::entities::{Channel, ChannelKind, ForumThread, Guild, ReadState};
use oxicord_ui::message_pane::{ForumState, LoadingState, ViewMode};
use std::collections::HashMap;
use oxicord_ui::backend_events::{apply_backend_action, merge_pending_read_states, BackendAction, BackendRequest};
use oxicord_ui::keys::{KeyCode, KeyEvent, KeyModifiers, MOD_CONTROL, MOD_SHIFT};
use oxicord_ui::message_pane::{ContentAction, MessageGroup, MessagePaneAction, MessageSummary};
use oxicord_ui::pane_data::PaneMessage;
use oxicord_ui::quick_switcher::{QuickSwitcherSortMode, SearchKind, SearchResult};

fn state() -> ChatScreenState {
    ChatScreenState::new(true, false, CommandRegistry::default(), QuickSwitcherSortMode::default(), vec![])
}

fn summary(id: u64, author: &str, content: &str, action: ContentAction) -> MessageSummary {
    MessageSummary {
        id,
        author_id: author.to_string(),
        content: content.to_string(),
        content_action: action,
        author_blocked: false,
        first_image_id: None,
        reply_to: None,
        first_channel_mention: None,
    }
}

fn pane_message(id: u64, author: &str) -> PaneMessage {
    PaneMessage { id, channel_id: 1, author_id: author.to_string(), timestamp: 0, is_reply: false, group: MessageGroup::Start, content: String::new() }
}

fn with_channels() -> ChatScreenState {
    let mut s = state();
    s.set_guilds(vec![Guild::new(1, "Guild")]);
    let mut general = Channel::new(10, "general", ChannelKind::Text);
    general.topic = Some("hello".to_string());
    let category = Channel::new(11, "Info", ChannelKind::Category);
    let forum = Channel::new(12, "help", ChannelKind::Forum);
    s.set_channels(1, vec![general, category, forum], Some(vec![true, true, true]));
    s
}

#[test]
fn selecting_a_channel_opens_it() {
    let mut s = with_channels();
    let r = s.on_channel_selected(10);
    assert_eq!(r, Some(ChatKeyResult::LoadChannelMessages { channel_id: 10, guild_id: Some(1) }));
    assert_eq!(s.focus(), ChatFocus::MessagesList);
    assert_eq!(s.selected_guild(), Some(1));
    assert_eq!(s.selected_channel().map(|c| c.id), Some(10));
    assert_eq!(s.guilds_tree_data().active_guild_id(), Some(1));
    assert_eq!(s.guilds_tree_data().active_channel_id(), Some(10));
    assert_eq!(s.message_pane_data().channel_id(), Some(10));
    assert_eq!(s.message_pane_data().channel_name(), Some("general"));
    assert_eq!(s.message_pane_data().channel_topic(), Some("hello"));
    assert_eq!(s.recents.len(), 1);
    assert_eq!(s.recents[0].id, "10");
    assert_eq!(s.recents[0].guild_id.as_deref(), Some("1"));
    assert_eq!(s.quick_switcher().recents.len(), 1);
}

#[test]
fn selecting_a_category_goes_no_further() {
    let mut s = with_channels();
    assert_eq!(s.on_channel_selected(11), None);
    assert_eq!(s.selected_guild(), Some(1));
    assert_eq!(s.focus(), ChatFocus::GuildsTree);
    assert!(s.recents.is_empty());
}

#[test]
fn selecting_a_forum_asks_for_threads() {
    let mut s = with_channels();
    let r = s.on_channel_selected(12);
    assert_eq!(r, Some(ChatKeyResult::LoadForumThreads { channel_id: 12, guild_id: Some(1), offset: 0 }));
}

#[test]
fn selecting_an_unknown_channel_does_nothing() {
    let mut s = with_channels();
    assert_eq!(s.on_channel_selected(99), None);
    assert_eq!(s.selected_guild(), None);
    assert_eq!(s.focus(), ChatFocus::GuildsTree);
}

#[test]
fn test_external_edit_restriction() {
    let mut state = state();
    state.set_messages(vec![pane_message(2, "456")]);
    state.focus_messages_list();
    state.jump_to_message(2);
    let messages = vec![summary(2, "456", "Other message", ContentAction::NoAction)];
    let edit_key = KeyEvent::new(KeyCode::Char('e'), KeyModifiers::from_bits(MOD_CONTROL));
    let result = state.handle_messages_list_key(edit_key, &messages, "123", false);
    match result {
        ChatKeyResult::ShowNotification(msg) => assert_eq!(msg, "You can only edit your own messages"),
        other => panic!("Expected ShowNotification, got {other:?}"),
    }
}

#[test]
fn own_messages_can_be_edited_and_deleted() {
    let mut s = state();
    let messages = vec![summary(5, "123", "mine", ContentAction::NoAction), summary(6, "9", "theirs", ContentAction::NoAction)];
    s.focus_messages_list();
    let r = s.apply_list_action(Some(MessagePaneAction::Edit(5)), &messages, "123");
    assert_eq!(r, ChatKeyResult::Ignored);
    assert_eq!(s.focus(), ChatFocus::MessageInput);
    assert_eq!(s.message_input_value(), "mine");
    s.focus_messages_list();
    assert_eq!(s.apply_list_action(Some(MessagePaneAction::Delete(5)), &messages, "123"), ChatKeyResult::Consumed);
    assert_eq!(s.focus(), ChatFocus::ConfirmationModal);
    assert_eq!(s.pending_deletion(), Some(5));
    let mut s = state();
    let r = s.apply_list_action(Some(MessagePaneAction::Delete(6)), &messages, "123");
    assert_eq!(r, ChatKeyResult::ShowNotification("You can only delete your own messages".to_string()));
    let r = s.apply_list_action(Some(MessagePaneAction::EditExternal(5)), &messages, "123");
    assert_eq!(r, ChatKeyResult::OpenEditor { initial_content: "mine".to_string(), message_id: Some(5) });
    assert_eq!(s.apply_list_action(Some(MessagePaneAction::Edit(77)), &messages, "123"), ChatKeyResult::Ignored);
}

#[test]
fn list_actions_become_requests() {
    let mut s = state();
    let messages = vec![
        summary(1, "a", "x", ContentAction::OpenImages),
        summary(2, "a", "y", ContentAction::OpenLink("https://example.org".to_string())),
    ];
    assert_eq!(
        s.apply_list_action(Some(MessagePaneAction::Reply { message_id: 1, mention: false }), &messages, "u"),
        ChatKeyResult::ReplyToMessage { message_id: 1, mention: false }
    );
    assert_eq!(s.apply_list_action(Some(MessagePaneAction::JumpToReply(4)), &messages, "u"), ChatKeyResult::JumpToMessage(4));
    assert_eq!(
        s.apply_list_action(Some(MessagePaneAction::YankId("1".to_string())), &messages, "u"),
        ChatKeyResult::CopyToClipboard("1".to_string())
    );
    assert_eq!(s.apply_list_action(Some(MessagePaneAction::OpenAttachments(1)), &messages, "u"), ChatKeyResult::OpenAttachments(1));
    assert_eq!(
        s.apply_list_action(Some(MessagePaneAction::OpenAttachments(2)), &messages, "u"),
        ChatKeyResult::OpenLink("https://example.org".to_string())
    );
    assert_eq!(s.apply_list_action(Some(MessagePaneAction::LoadHistory), &messages, "u"), ChatKeyResult::Ignored);
    assert_eq!(s.apply_list_action(None, &messages, "u"), ChatKeyResult::Ignored);
}

#[test]
fn loading_history_asks_for_older_messages() {
    let mut s = with_channels();
    s.on_channel_selected(10);
    s.set_messages(vec![pane_message(40, "a"), pane_message(41, "a")]);
    assert_eq!(s.load_history_request(), ChatKeyResult::LoadHistory { channel_id: 10, before_message_id: 40 });
}

#[test]
fn closing_a_thread_without_parent_goes_back_to_the_tree() {
    let mut s = state();
    s.focus_messages_list();
    assert_eq!(s.close_thread(), ChatKeyResult::Ignored);
    assert_eq!(s.focus(), ChatFocus::GuildsTree);
}

#[test]
fn opening_an_unknown_thread_jumps_to_it() {
    let mut s = state();
    assert_eq!(s.open_thread(500), ChatKeyResult::JumpToChannel(500));
}

fn channel_a_state() -> ChatScreenState {
    let mut state = state();
    state.set_guilds(vec![Guild::new(1, "Guild A")]);
    state.set_channels(1, vec![Channel::new(10, "Channel A", ChannelKind::Text)], Some(vec![true]));
    state
}

#[test]
fn test_increment_mention_count_on_active_channel_should_not_increment() {
    let mut state = channel_a_state();
    state.on_channel_selected(10);
    assert_eq!(state.selected_channel().map(|c| c.id), Some(10));
    state.increment_mention_count(10);
    let count = state.read_states().get(&10).map_or(0, |rs| rs.mention_count);
    assert_eq!(count, 0, "Mention count should be 0 for active channel");
}

#[test]
fn mentions_elsewhere_are_counted() {
    let mut state = channel_a_state();
    state.increment_mention_count(10);
    state.increment_mention_count(10);
    assert_eq!(state.read_states()[&10].mention_count, 2);
    state.on_channel_selected(10);
    assert_eq!(state.read_states()[&10].mention_count, 0);
}

#[test]
fn test_escape_from_empty_message_list_focuses_tree() {
    let mut state = state();
    state.focus_messages_list();
    assert_eq!(state.focus(), ChatFocus::MessagesList);
    let esc_event = KeyEvent::new(KeyCode::Esc, KeyModifiers::none());
    let result = state.handle_key(esc_event, &Vec::new(), "123", false);
    assert_eq!(result, ChatKeyResult::Consumed);
    assert_eq!(state.focus(), ChatFocus::GuildsTree, "Should return focus to Guilds Tree on Cancel from empty selection");
}

#[test]
fn test_ctrl_t_focuses_messages_from_input() {
    let mut state = channel_a_state();
    state.on_channel_selected(10);
    state.focus_message_input();
    let ctrl_t = KeyEvent::new(KeyCode::Char('t'), KeyModifiers::from_bits(MOD_CONTROL));
    let result = state.handle_key(ctrl_t, &Vec::new(), "123", false);
    assert_eq!(result, ChatKeyResult::Consumed, "Ctrl+t should be consumed");
    assert_eq!(state.focus(), ChatFocus::MessagesList, "Ctrl+t should focus the messages list");
}

#[test]
fn test_esc_navigation_void_state() {
    let mut state = channel_a_state();
    state.on_channel_selected(10);
    assert!(state.selected_channel().is_some());
    let key_esc = KeyEvent::new(KeyCode::Esc, KeyModifiers::none());
    state.handle_key(key_esc, &Vec::new(), "123", false);
    let null_recent = state.recents.iter().find(|r| r.name.contains("Text Channel") && r.id == "0");
    assert!(null_recent.is_none(), "Should not add null channel to recents. Found: {:?}", null_recent);
    if state.selected_channel().is_none() {
        assert_eq!(state.focus(), ChatFocus::GuildsTree);
    }
}

#[test]
fn typing_in_the_input_and_sending() {
    let mut state = channel_a_state();
    state.on_channel_selected(10);
    state.focus_message_input();
    for c in ['h', 'i'] {
        let r = state.handle_key(KeyEvent::new(KeyCode::Char(c), KeyModifiers::none()), &Vec::new(), "123", false);
        assert_eq!(r, ChatKeyResult::StartTyping);
    }
    assert_eq!(state.message_input_value(), "hi");
    let r = state.handle_key(KeyEvent::new(KeyCode::Enter, KeyModifiers::none()), &Vec::new(), "123", false);
    assert_eq!(r, ChatKeyResult::SendMessage { content: "hi".to_string(), reply_to: None, attachments: vec![] });
    assert_eq!(state.message_input_value(), "");
}

#[test]
fn selecting_a_guild_and_a_direct_message() {
    let mut state = state();
    state.set_guilds(vec![Guild::new(7, "Seven")]);
    assert_eq!(state.on_guild_selected(7), Some(ChatKeyResult::LoadGuildChannels(7)));
    assert_eq!(state.selected_guild(), Some(7));
    assert_eq!(state.on_guild_selected(7), None);
    assert_eq!(state.recents[0].id, "7");
    state.set_dm_users(vec![("55".to_string(), "amy".to_string())]);
    let r = state.on_dm_selected("55");
    assert_eq!(r, Some(ChatKeyResult::LoadDmMessages { channel_id: 55, recipient_name: "amy".to_string() }));
    assert_eq!(state.selected_guild(), None);
    assert_eq!(state.message_pane_data().channel_name(), Some("@amy"));
    assert_eq!(state.guilds_tree_data().active_dm_user_id().map(|s| s.as_str()), Some("55"));
    assert_eq!(state.focus(), ChatFocus::MessagesList);
    assert_eq!(state.on_dm_selected("nope"), None);
}

#[test]
fn overlays_take_keys_first() {
    let mut state = state();
    state.toggle_file_explorer();
    let r = state.handle_key(KeyEvent::new(KeyCode::Char('x'), KeyModifiers::none()), &Vec::new(), "u", false);
    assert_eq!(r, ChatKeyResult::Ignored);
    let r = state.handle_key(KeyEvent::new(KeyCode::Esc, KeyModifiers::none()), &Vec::new(), "u", false);
    assert_eq!(r, ChatKeyResult::Consumed);
    assert!(!state.is_file_explorer_shown());
}

fn thread(id: u64, last: Option<u64>) -> ForumThread {
    ForumThread {
        id,
        guild_id: Some(1),
        name: format!("thread {id}"),
        author_id: "7".to_string(),
        message_count: 1,
        reaction_count: 0,
        last_message_id: last,
        new: false,
    }
}

fn forum(s: &ChatScreenState) -> &ForumState {
    match s.message_pane_state().view_mode() {
        ViewMode::Forum(f) => f,
        ViewMode::Messages => panic!("the pane shows messages"),
    }
}

#[test]
fn forum_threads_are_flagged_by_read_states() {
    let mut s = state();
    let mut rs = HashMap::new();
    rs.insert(1, ReadState::new(1, Some(5)));
    rs.insert(2, ReadState::new(2, Some(5)));
    rs.insert(3, ReadState::new(3, None));
    s.set_read_states(rs);
    s.set_forum_threads(vec![thread(1, Some(5)), thread(2, Some(9)), thread(3, None), thread(4, Some(1))], 0);
    let f = forum(&s);
    let flags: Vec<bool> = f.threads.iter().map(|t| t.new).collect();
    assert_eq!(flags, vec![false, true, false, true]);
    assert_eq!(f.selected_idx, 3);
    assert!(f.needs_scroll_to_selection);
    assert_eq!(f.scroll_offset, 0);
}

#[test]
fn forum_threads_empty_page_over_messages() {
    let mut s = state();
    s.set_forum_threads(vec![], 0);
    let f = forum(&s);
    assert!(f.threads.is_empty());
    assert_eq!(f.selected_idx, 0);
    assert!(!f.needs_scroll_to_selection);
}

#[test]
fn forum_threads_next_page_keeps_selection() {
    let mut s = state();
    s.set_forum_threads(vec![thread(10, None), thread(11, None)], 0);
    assert_eq!(forum(&s).selected_idx, 1);
    s.set_forum_threads(vec![thread(20, None), thread(21, None), thread(22, None)], 2);
    let f = forum(&s);
    let ids: Vec<u64> = f.threads.iter().map(|t| t.id).collect();
    assert_eq!(ids, vec![20, 21, 22, 10, 11]);
    assert_eq!(f.selected_idx, 4);
    assert_eq!(f.threads[f.selected_idx].id, 11);
    assert_eq!(f.scroll_offset, 3);
}

#[test]
fn forum_threads_first_page_replaces_and_keeps_a_middle_selection() {
    let mut s = state();
    s.set_forum_threads(vec![thread(10, None), thread(11, None), thread(12, None)], 0);
    s.set_forum_threads(vec![thread(30, None), thread(31, None), thread(32, None)], 5);
    // The selection followed thread 12, now at the end.
    assert_eq!(forum(&s).selected_idx, 5);
    s.set_forum_threads(vec![thread(40, None), thread(41, None)], 0);
    let f = forum(&s);
    let ids: Vec<u64> = f.threads.iter().map(|t| t.id).collect();
    assert_eq!(ids, vec![40, 41]);
    assert_eq!(f.selected_idx, 1);
}

#[test]
fn message_in_another_channel_marks_it_unread() {
    let mut s = with_channels();
    let mut rs = HashMap::new();
    rs.insert(10, ReadState::new(10, Some(100)));
    s.set_read_states(rs);
    s.on_message_received(10, 200, "99", "1");
    let c = s.get_channel(10).unwrap();
    assert_eq!(c.last_message_id, Some(200));
    assert!(c.unread);
    assert_eq!(s.read_states().get(&10).unwrap().last_read_message_id, Some(100));
}

#[test]
fn own_message_marks_the_channel_read() {
    let mut s = with_channels();
    let mut rs = HashMap::new();
    rs.insert(10, ReadState::new(10, Some(100)));
    s.set_read_states(rs);
    s.on_message_received(10, 300, "1", "1");
    let c = s.get_channel(10).unwrap();
    assert_eq!(c.last_message_id, Some(300));
    assert!(!c.unread);
    assert_eq!(s.read_states().get(&10).unwrap().last_read_message_id, Some(300));
}

#[test]
fn message_in_the_open_channel_marks_it_read() {
    let mut s = with_channels();
    s.on_channel_selected(10);
    s.on_message_received(10, 400, "99", "1");
    assert_eq!(s.read_states().get(&10).unwrap().last_read_message_id, Some(400));
    assert!(!s.get_channel(10).unwrap().unread);
}

#[test]
fn message_in_an_unknown_channel_changes_nothing() {
    let mut s = with_channels();
    s.on_message_received(77, 400, "1", "1");
    assert!(s.read_states().get(&77).is_none());
    assert!(s.get_channel(77).is_none());
}

#[test]
fn message_in_a_direct_message_marks_it_read_when_own() {
    let mut s = with_channels();
    s.set_dm_users(vec![("55".to_string(), "bob".to_string())]);
    s.on_message_received(55, 500, "1", "1");
    assert_eq!(s.read_states().get(&55).unwrap().last_read_message_id, Some(500));
    s.on_message_received(55, 600, "2", "1");
    assert_eq!(s.read_states().get(&55).unwrap().last_read_message_id, Some(500));
}

#[test]
fn loaded_messages_of_the_shown_channel_are_shown_and_read() {
    let mut s = with_channels();
    s.on_channel_selected(10);
    s.set_typing_indicator(Some("bob".to_string()));
    let ack = s.on_channel_messages_loaded(10, vec![pane_message(1, "7"), pane_message(2, "7")]);
    assert_eq!(ack, Some(2));
    assert!(!s.message_pane_data().has_typing_indicator());
    assert_eq!(s.message_pane_data().loading_state(), LoadingState::Loaded);
    assert_eq!(s.message_pane_data().message_count(), 2);
    assert_eq!(s.read_states().get(&10).unwrap().last_read_message_id, Some(2));
    assert_eq!(s.focus(), ChatFocus::MessagesList);
}

#[test]
fn loaded_messages_of_another_channel_are_dropped() {
    let mut s = with_channels();
    s.on_channel_selected(10);
    let ack = s.on_channel_messages_loaded(12, vec![pane_message(1, "7")]);
    assert_eq!(ack, None);
    assert_eq!(s.message_pane_data().message_count(), 0);
    assert!(s.read_states().get(&12).is_none());
}

#[test]
fn empty_page_of_messages_acknowledges_nothing() {
    let mut s = with_channels();
    s.on_channel_selected(10);
    assert_eq!(s.on_channel_messages_loaded(10, vec![]), None);
    assert!(s.read_states().get(&10).map_or(true, |r| r.last_read_message_id.is_none()));
}

#[test]
fn failed_messages_show_the_error_and_focus_the_tree() {
    let mut s = with_channels();
    s.on_channel_selected(10);
    s.on_channel_messages_failed(12, "nope".to_string());
    assert_eq!(s.focus(), ChatFocus::MessagesList);
    s.on_channel_messages_failed(10, "boom".to_string());
    assert_eq!(s.focus(), ChatFocus::GuildsTree);
    assert_eq!(s.message_pane_data().loading_state(), LoadingState::Error);
}

#[test]
fn forum_pages_apply_only_to_the_shown_forum() {
    let mut s = with_channels();
    s.on_channel_selected(12);
    s.on_forum_threads_loaded(10, vec![thread(1, None)], 0);
    assert!(forum(&s).threads.is_empty());
    s.on_forum_threads_loaded(12, vec![thread(1, None), thread(2, None)], 0);
    assert_eq!(forum(&s).threads.len(), 2);
    s.on_forum_threads_failed(12, "later".to_string());
    assert_eq!(s.message_pane_data().loading_state(), LoadingState::Error);
}

fn said(id: u64, content: &str) -> PaneMessage {
    PaneMessage {
        id,
        channel_id: 10,
        author_id: "7".to_string(),
        timestamp: id as i64 * 1000,
        is_reply: false,
        group: MessageGroup::Start,
        content: content.to_string(),
    }
}

#[test]
fn new_message_registers_mentioned_channels() {
    let mut s = with_channels();
    s.on_channel_selected(10);
    let r = s.add_message(said(1, "see <#12> and <#999> and <#10>"));
    assert_eq!(r, Some(ChatKeyResult::RequestChannelFetch(vec![999])));
    assert_eq!(s.message_pane_data().message_count(), 1);
    assert_eq!(s.message_pane_data().resolve_channel(10), Some("#general".to_string()));
    assert_eq!(s.message_pane_data().resolve_channel(12), Some("\u{f0804} help".to_string()));
    assert_eq!(s.message_pane_data().resolve_channel(999), None);
}

#[test]
fn channel_links_count_as_mentions() {
    let mut s = with_channels();
    s.on_channel_selected(10);
    let r = s.add_message(said(1, "https://discord.com/channels/1/11 and https://ptb.discordapp.com/channels/1/555"));
    assert_eq!(r, Some(ChatKeyResult::RequestChannelFetch(vec![555])));
    assert_eq!(s.message_pane_data().resolve_channel(11), Some("#Info".to_string()));
}

#[test]
fn message_of_another_channel_is_not_added() {
    let mut s = with_channels();
    s.on_channel_selected(12);
    assert_eq!(s.add_message(said(1, "plain")), None);
    assert_eq!(s.message_pane_data().message_count(), 0);
}

#[test]
fn edited_message_replaces_the_shown_one() {
    let mut s = with_channels();
    s.on_channel_selected(10);
    s.add_message(said(1, "first"));
    let r = s.update_message(said(1, "now with <#10>"));
    assert_eq!(r, None);
    assert_eq!(s.message_pane_data().messages()[0].content, "now with <#10>");
    assert_eq!(s.message_pane_data().resolve_channel(10), Some("#general".to_string()));
    assert_eq!(s.update_message(said(5, "<#4242>")), Some(ChatKeyResult::RequestChannelFetch(vec![4242])));
    assert_eq!(s.message_pane_data().message_count(), 1);
}

#[test]
fn older_messages_go_first_and_report_unknown_mentions() {
    let mut s = with_channels();
    s.on_channel_selected(10);
    s.add_message(said(5, "newest"));
    assert_eq!(s.prepend_messages(vec![], 3), None);
    let r = s.prepend_messages(vec![said(1, "<#77>"), said(2, "<#77> <#12>"), said(5, "dup")], 4);
    assert_eq!(r, Some(ChatKeyResult::RequestChannelFetch(vec![77, 77])));
    let ids: Vec<u64> = s.message_pane_data().messages().iter().map(|m| m.id).collect();
    assert_eq!(ids, vec![1, 2, 5]);
    assert_eq!(s.message_pane_data().resolve_channel(12), Some("\u{f0804} help".to_string()));
}

fn found(id: &str, kind: SearchKind) -> SearchResult {
    SearchResult { id: id.to_string(), name: "x".to_string(), kind, score: 0, guild_id: None, guild_name: None, parent_name: None }
}

#[test]
fn jumping_to_a_channel_opens_it() {
    let mut s = with_channels();
    let r = s.jump_to_result(&found("10", SearchKind::Channel));
    assert_eq!(r, ChatKeyResult::LoadChannelMessages { channel_id: 10, guild_id: Some(1) });
    assert_eq!(s.focus(), ChatFocus::MessagesList);
    assert_eq!(s.jump_to_result(&found("11", SearchKind::Channel)), ChatKeyResult::Consumed);
    assert_eq!(s.jump_to_result(&found("abc", SearchKind::Voice)), ChatKeyResult::Consumed);
    assert_eq!(s.jump_to_result(&found("12", SearchKind::Forum)), ChatKeyResult::LoadForumThreads { channel_id: 12, guild_id: Some(1), offset: 0 });
}

#[test]
fn jumping_to_a_guild_or_dm() {
    let mut s = with_channels();
    assert_eq!(s.jump_to_result(&found("1", SearchKind::Guild)), ChatKeyResult::Consumed);
    assert_eq!(s.selected_guild(), Some(1));
    assert_eq!(s.jump_to_result(&found("1", SearchKind::Guild)), ChatKeyResult::Consumed);
    assert_eq!(s.jump_to_result(&found("2", SearchKind::Guild)), ChatKeyResult::LoadGuildChannels(2));
    s.set_dm_users(vec![("55".to_string(), "bob".to_string())]);
    let r = s.jump_to_result(&found("55", SearchKind::DM));
    assert_eq!(r, ChatKeyResult::LoadDmMessages { channel_id: 55, recipient_name: "bob".to_string() });
    assert_eq!(s.jump_to_result(&found("56", SearchKind::DM)), ChatKeyResult::Consumed);
}

#[test]
fn jumping_to_a_kept_thread_opens_it_under_its_forum() {
    let mut s = with_channels();
    s.on_channel_selected(12);
    s.set_forum_threads(vec![thread(300, None)], 0);
    s.on_channel_selected(10);
    let r = s.jump_to_result(&found("300", SearchKind::Thread));
    assert_eq!(r, ChatKeyResult::LoadChannelMessages { channel_id: 300, guild_id: Some(1) });
    let c = s.selected_channel().unwrap();
    assert_eq!(c.id, 300);
    assert_eq!(c.parent_id, Some(12));
    assert_eq!(c.kind, ChannelKind::Thread);
    assert_eq!(s.message_pane_data().channel_id(), Some(300));
    assert_eq!(s.message_pane_data().channel_name(), Some("thread 300"));
    assert_eq!(s.focus(), ChatFocus::MessagesList);
    assert_eq!(s.jump_to_result(&found("301", SearchKind::Thread)), ChatKeyResult::Consumed);
}

#[test]
fn test_global_focus_shortcuts_preserve_input() {
    for (c, target) in [('t', ChatFocus::MessagesList), ('g', ChatFocus::GuildsTree)] {
        let mut state = channel_a_state();
        state.on_channel_selected(10);
        state.focus_message_input();
        state.insert_text("Important draft");
        let result = state.handle_key(KeyEvent::new(KeyCode::Char(c), KeyModifiers::from_bits(MOD_CONTROL)), &Vec::new(), "123", false);
        assert_eq!(result, ChatKeyResult::Consumed);
        assert_eq!(state.focus(), target);
        assert_eq!(state.message_input_value(), "Important draft");
    }
}

fn shown(id: u64, author: &str, content: &str) -> MessageSummary {
    summary(id, author, content, ContentAction::NoAction)
}

#[test]
fn copy_keys_on_the_list_copy_from_the_selected_message() {
    let mut s = with_channels();
    s.on_channel_selected(10);
    let msgs = vec![shown(1, "7", "hello"), shown(2, "1", "world")];
    let none = s.handle_messages_list_key(KeyEvent::new(KeyCode::Char('y'), KeyModifiers::none()), &msgs, "1", false);
    assert_eq!(none, ChatKeyResult::Ignored);
    s.handle_messages_list_key(KeyEvent::new(KeyCode::Char('k'), KeyModifiers::none()), &msgs, "1", false);
    let r = s.handle_messages_list_key(KeyEvent::new(KeyCode::Char('y'), KeyModifiers::none()), &msgs, "1", false);
    assert_eq!(r, ChatKeyResult::CopyToClipboard("world".to_string()));
    let r = s.handle_messages_list_key(KeyEvent::new(KeyCode::Char('I'), KeyModifiers::from_bits(MOD_CONTROL | MOD_SHIFT)), &msgs, "1", false);
    assert_eq!(r, ChatKeyResult::CopyToClipboard("2".to_string()));
}

#[test]
fn scrolling_up_at_the_top_asks_for_history() {
    let mut s = with_channels();
    s.on_channel_selected(10);
    s.on_channel_messages_loaded(10, vec![pane_message(5, "7"), pane_message(6, "7")]);
    let msgs = vec![shown(5, "7", "a"), shown(6, "7", "b")];
    let r = s.handle_messages_list_key(KeyEvent::new(KeyCode::Char('g'), KeyModifiers::none()), &msgs, "1", false);
    assert_eq!(r, ChatKeyResult::LoadHistory { channel_id: 10, before_message_id: 5 });
}

#[test]
fn backend_messages_of_the_shown_channel_are_acknowledged() {
    let mut s = with_channels();
    s.on_channel_selected(10);
    let cmds = apply_backend_action(&mut s, BackendAction::ChannelMessagesLoaded { channel_id: 10, messages: vec![pane_message(3, "7"), pane_message(4, "7")] }, true);
    assert_eq!(cmds, vec![BackendRequest::AcknowledgeMessage { channel_id: 10, message_id: 4 }]);
    assert_eq!(s.read_states().get(&10).unwrap().last_read_message_id, Some(4));
    let cmds = apply_backend_action(&mut s, BackendAction::ChannelMessagesLoaded { channel_id: 12, messages: vec![pane_message(9, "7")] }, true);
    assert!(cmds.is_empty());
    assert_eq!(s.message_pane_data().message_count(), 2);
    let cmds = apply_backend_action(&mut s, BackendAction::ChannelMessagesLoaded { channel_id: 10, messages: vec![pane_message(8, "7")] }, false);
    assert!(cmds.is_empty());
    assert_eq!(s.read_states().get(&10).unwrap().last_read_message_id, Some(8));
}

#[test]
fn backend_failures_show_their_error() {
    let mut s = with_channels();
    s.on_channel_selected(10);
    apply_backend_action(&mut s, BackendAction::ChannelMessagesLoadError { channel_id: 10, error: "boom".to_string() }, true);
    assert_eq!(s.focus(), ChatFocus::GuildsTree);
    assert_eq!(s.message_pane_data().loading_state(), LoadingState::Error);
    let mut s = with_channels();
    s.on_channel_selected(10);
    apply_backend_action(&mut s, BackendAction::MessageSendError("offline".to_string()), true);
    assert_eq!(s.message_pane_data().loading_state(), LoadingState::Error);
    assert_eq!(s.message_pane_data().error_message(), Some("Failed to send: offline"));
}

#[test]
fn backend_sent_edited_and_deleted_messages() {
    let mut s = with_channels();
    s.on_channel_selected(10);
    apply_backend_action(&mut s, BackendAction::MessageSent(said(1, "first")), true);
    apply_backend_action(&mut s, BackendAction::MessageSent(said(2, "second")), true);
    apply_backend_action(&mut s, BackendAction::MessageEdited(said(1, "edited")), true);
    assert_eq!(s.message_pane_data().messages()[0].content, "edited");
    apply_backend_action(&mut s, BackendAction::MessageDeleted(1), true);
    let ids: Vec<u64> = s.message_pane_data().messages().iter().map(|m| m.id).collect();
    assert_eq!(ids, vec![2]);
    apply_backend_action(&mut s, BackendAction::HistoryLoaded { messages: vec![said(0, "old")], added_height: 2 }, true);
    assert_eq!(s.message_pane_data().message_count(), 2);
}

#[test]
fn pending_read_states_override_loaded_ones() {
    let mut loaded = HashMap::new();
    loaded.insert(1, ReadState::new(1, Some(10)));
    loaded.insert(2, ReadState::new(2, Some(20)));
    let merged = merge_pending_read_states(loaded.clone(), Some(vec![ReadState::new(2, Some(25)), ReadState::new(3, None), ReadState::new(2, Some(30))]));
    assert_eq!(merged.get(&1).unwrap().last_read_message_id, Some(10));
    assert_eq!(merged.get(&2).unwrap().last_read_message_id, Some(30));
    assert!(merged.contains_key(&3));
    assert_eq!(merge_pending_read_states(loaded, None).len(), 2);
}

#[test]
fn restoring_a_channel_shows_its_messages_and_reads_them() {
    let mut s = state();
    s.set_guilds(vec![Guild::new(1, "Guild"), Guild::new(2, "Other")]);
    let r = s.restore_state(
        Some(1),
        Some(10),
        Some(vec![Channel::new(10, "general", ChannelKind::Text)]),
        Some(vec![true]),
        Some(vec![pane_message(3, "7"), pane_message(4, "7")]),
    );
    assert_eq!(r, None);
    assert_eq!(s.selected_channel().map(|c| c.id), Some(10));
    assert_eq!(s.focus(), ChatFocus::MessagesList);
    assert_eq!(s.message_pane_data().message_count(), 2);
    assert_eq!(s.read_states().get(&10).unwrap().last_read_message_id, Some(4));
    assert!(s.recents.is_empty());
}

#[test]
fn restoring_an_unknown_channel_opens_the_first_guild() {
    let mut s = state();
    s.set_guilds(vec![Guild::new(5, "First"), Guild::new(6, "Second")]);
    let r = s.restore_state(None, Some(99), None, None, None);
    assert_eq!(r, None);
    assert_eq!(s.selected_guild(), Some(5));
    assert!(s.selected_channel().is_none());
    assert!(s.recents.is_empty());
    assert!(s.quick_switcher().recents.is_empty());
}
