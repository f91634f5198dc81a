use oxicord_ui::channel_access::visible_channels;
use oxicord_ui::chat_screen::ChatScreenState;
use oxicord_ui::commands::CommandRegistry;
use oxicord_ui::entities::{Channel, ChannelKind, Guild, ReadState};
use oxicord_ui::quick_switcher::QuickSwitcherSortMode;

fn child(id: u64, name: &str, kind: ChannelKind, parent: u64) -> Channel {
    let mut c = Channel::new(id, name, kind);
    c.parent_id = Some(parent);
    c
}

fn ids(v: &[Channel]) -> Vec<u64> {
    v.iter().map(|c| c.id).collect()
}

#[test]
fn hidden_category_hides_its_children() {
    let chans = vec![
        Channel::new(1, "Staff", ChannelKind::Category),
        child(2, "mods", ChannelKind::Text, 1),
        Channel::new(3, "Public", ChannelKind::Category),
        child(4, "general", ChannelKind::Text, 3),
        child(5, "secret", ChannelKind::Text, 3),
    ];
    let shown = visible_channels(chans, Some(vec![false, true, true, true, false]));
    assert_eq!(ids(&shown), vec![3, 4]);
}

#[test]
fn threads_follow_their_parent() {
    let chans = vec![
        Channel::new(1, "general", ChannelKind::Text),
        child(2, "thread", ChannelKind::Thread, 1),
        child(3, "orphan thread", ChannelKind::Thread, 99),
    ];
    let shown = visible_channels(chans, Some(vec![true, false, true]));
    assert_eq!(ids(&shown), vec![1, 2, 3]);
    let chans = vec![Channel::new(1, "general", ChannelKind::Text), child(2, "thread", ChannelKind::Thread, 1)];
    let shown = visible_channels(chans, Some(vec![false, true]));
    assert!(shown.is_empty());
}

#[test]
fn without_permissions_nothing_is_shown() {
    let chans = vec![Channel::new(1, "general", ChannelKind::Text)];
    assert!(visible_channels(chans, None).is_empty());
}

#[test]
fn chat_screen_stores_the_visible_channels() {
    let mut state = ChatScreenState::new(true, false, CommandRegistry::new(), QuickSwitcherSortMode::Mixed, vec![]);
    state.set_guilds(vec![Guild::new(10, "Rust")]);
    let chans = vec![Channel::new(1, "general", ChannelKind::Text), Channel::new(2, "admins", ChannelKind::Text)];
    state.set_channels(10, chans, Some(vec![true, false]));
    let stored = state.guilds_tree_data().channels(10).unwrap();
    assert_eq!(ids(stored), vec![1]);
    state.set_dm_users(vec![("7".to_string(), "amy".to_string())]);
    state.toggle_quick_switcher();
    let got: Vec<&str> = state.quick_switcher().results.iter().map(|r| r.id.as_str()).collect();
    assert!(got.contains(&"7"));
    assert!(got.contains(&"10"));
    assert!(got.contains(&"1"));
    assert!(!got.contains(&"2"));
}

fn guild_state() -> ChatScreenState {
    let mut state = ChatScreenState::new(true, false, CommandRegistry::new(), QuickSwitcherSortMode::default(), vec![]);
    state.set_guilds(vec![Guild::new(1, "Guild")]);
    state
}

#[test]
fn test_permission_filtering_public_channel() {
    let mut state = guild_state();
    let channel = Channel::new(10, "public", ChannelKind::Text);
    state.set_channels(1, vec![channel], Some(vec![true]));
    assert!(state.guilds_tree_data().get_channel(10).is_some());
}

#[test]
fn test_permission_filtering_private_channel_denied() {
    let mut state = guild_state();
    let channel = Channel::new(10, "private", ChannelKind::Text);
    state.set_channels(1, vec![channel], Some(vec![false]));
    assert!(state.guilds_tree_data().get_channel(10).is_none());
}

#[test]
fn test_permission_filtering_strict_category_pruning() {
    let mut state = guild_state();
    let category = Channel::new(100, "Hidden Category", ChannelKind::Category);
    let child = child(101, "Visible Child", ChannelKind::Text, 100);
    state.set_channels(1, vec![category, child], Some(vec![false, true]));
    assert!(state.guilds_tree_data().get_channel(100).is_none(), "Category should be hidden");
    assert!(state.guilds_tree_data().get_channel(101).is_none(), "Child should be hidden because parent is hidden");
}

#[test]
fn marking_a_channel_read_clears_its_unread_mark() {
    let mut state = guild_state();
    let mut news = Channel::new(10, "news", ChannelKind::Text);
    news.last_message_id = Some(5);
    state.set_channels(1, vec![news], Some(vec![true]));
    let mut states = std::collections::HashMap::new();
    states.insert(10_u64, ReadState { channel_id: 10, last_read_message_id: Some(3), mention_count: 0 });
    state.set_read_states(states);
    assert!(state.guilds_tree_data().get_channel(10).unwrap().unread);
    state.mark_channel_read(10, 5);
    assert!(!state.guilds_tree_data().get_channel(10).unwrap().unread);
    assert_eq!(state.read_states()[&10].last_read_message_id, Some(5));
    state.mark_channel_read(11, 7);
    assert_eq!(state.read_states()[&11], ReadState { channel_id: 11, last_read_message_id: Some(7), mention_count: 0 });
    assert_eq!(state.read_states().len(), 2);
}
