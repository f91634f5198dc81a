use oxicord_ui::commands::CommandRegistry;
use oxicord_ui::entities::{Channel, ChannelKind, Guild, GuildFolder, ReadState};
use oxicord_ui::guilds_tree::{FlattenedNode, GuildsTreeAction, GuildsTreeData, GuildsTreeState, SpanRole, TreeNodeId};
use oxicord_ui::keys::{KeyCode, KeyEvent, KeyModifiers, MOD_CONTROL, MOD_SHIFT};

fn key(c: char) -> KeyEvent {
    KeyEvent::new(KeyCode::Char(c), KeyModifiers::none())
}

fn yank_key() -> KeyEvent {
    KeyEvent::new(KeyCode::Char('I'), KeyModifiers::from_bits(MOD_SHIFT | MOD_CONTROL))
}

fn label_text(n: &FlattenedNode) -> String {
    n.label.iter().map(|s| s.text.as_str()).collect()
}

#[test]
fn test_guilds_tree_state_creation() {
    let state = GuildsTreeState::new();
    assert!(!state.is_focused());
    assert!(state.selected().is_none());
}

#[test]
fn test_guilds_tree_state_focus() {
    let mut state = GuildsTreeState::new();
    state.set_focused(true);
    assert!(state.is_focused());
}

#[test]
fn test_tree_node_id_display() {
    assert_eq!(TreeNodeId::DirectMessages.to_string(), "dm");
    assert_eq!(TreeNodeId::Guild(123).to_string(), "guild:123");
    assert_eq!(TreeNodeId::Channel(456).to_string(), "ch:456");
}

#[test]
fn tree_node_ids_display_every_kind() {
    assert_eq!(TreeNodeId::DirectMessageUser("77".to_string()).to_string(), "dm:77");
    assert_eq!(TreeNodeId::Folder(Some(5)).to_string(), "folder:Some(5)");
    assert_eq!(TreeNodeId::Folder(None).to_string(), "folder:None");
    assert_eq!(TreeNodeId::Category(9).to_string(), "cat:9");
    assert_eq!(TreeNodeId::Placeholder(3).to_string(), "placeholder:3");
}

#[test]
fn test_guilds_tree_data() {
    let mut data = GuildsTreeData::new();
    data.set_guilds(vec![Guild::new(1_u64, "Test Guild")]);
    assert_eq!(data.guilds().len(), 1);
}

#[test]
fn test_handle_navigation_keys() {
    let mut state = GuildsTreeState::new();
    let registry = CommandRegistry::default();
    let mut data = GuildsTreeData::new();
    data.set_guilds(vec![Guild::new(1_u64, "Test Guild")]);

    state.handle_key(key('g'), &data, &registry);
    let flattened = data.flatten(&state, 100);
    state.select(flattened[0].id.clone());

    assert!(state.handle_key(key('j'), &data, &registry).is_none());
}

#[test]
fn test_flatten_includes_all_guilds() {
    let mut data = GuildsTreeData::new();
    let names = [
        "Nix/NixOS (unofficial)",
        "r/Unixporn",
        "RespriteApp",
        "Oxicord",
        "Noctalia",
        "L I N U X's TEST SERVER",
        "OpenCode",
        "OpenCode Antigravity Auth",
    ];
    let guilds: Vec<Guild> = names.iter().enumerate().map(|(i, n)| Guild::new(i as u64 + 1, n)).collect();
    let ids: Vec<u64> = guilds.iter().map(|g| g.id).collect();

    data.set_guilds(guilds);
    let state = GuildsTreeState::new();
    let nodes = data.flatten(&state, 100);

    assert_eq!(nodes.len(), ids.len() + 1);

    for (i, id) in ids.iter().enumerate() {
        let node = &nodes[i + 1];
        assert_eq!(node.id, TreeNodeId::Guild(*id));
    }
}

#[test]
fn test_large_guild_list() {
    let mut data = GuildsTreeData::new();
    let guilds: Vec<Guild> = (0u64..100).map(|i| Guild::new(i, &format!("Guild {i}"))).collect();

    data.set_guilds(guilds);
    let state = GuildsTreeState::new();
    let nodes = data.flatten(&state, 100);

    assert_eq!(nodes.len(), 101, "Should have DM node + 100 guilds");
}

fn sample_data() -> GuildsTreeData {
    let mut data = GuildsTreeData::new();
    data.set_guilds(vec![Guild::new(1, "Alpha"), Guild::new(2, "Beta")]);
    let mut cat = Channel::new(10, "general stuff", ChannelKind::Category);
    cat.position = 1;
    let mut a = Channel::new(11, "chat", ChannelKind::Text);
    a.parent_id = Some(10);
    a.position = 2;
    let mut b = Channel::new(12, "talk", ChannelKind::Voice);
    b.parent_id = Some(10);
    b.position = 1;
    let mut lone = Channel::new(13, "rules", ChannelKind::Announcement);
    lone.position = 0;
    data.set_channels(1, vec![cat, a, b, lone]);
    data
}

#[test]
fn expanded_guild_lists_orphans_then_categories_by_position() {
    let data = sample_data();
    let mut state = GuildsTreeState::new();
    state.expand(TreeNodeId::Guild(1));
    state.expand(TreeNodeId::Category(10));
    let rows = data.flatten(&state, 100);
    let ids: Vec<TreeNodeId> = rows.iter().map(|r| r.id.clone()).collect();
    assert_eq!(
        ids,
        vec![
            TreeNodeId::DirectMessages,
            TreeNodeId::Guild(1),
            TreeNodeId::Channel(13),
            TreeNodeId::Category(10),
            TreeNodeId::Channel(12),
            TreeNodeId::Channel(11),
            TreeNodeId::Guild(2),
        ]
    );
    assert_eq!(label_text(&rows[3]), "\u{2514}\u{2500}\u{2500} \u{25be} GENERAL STUFF");
    assert_eq!(label_text(&rows[2]), "\u{251c}\u{2500}\u{2500} ! rules");
    assert_eq!(label_text(&rows[5]), "    \u{2514}\u{2500}\u{2500} # chat");
    assert_eq!(rows[5].depth, 2);
    assert_eq!(rows[1].label[1].role, SpanRole::Guild);
}

#[test]
fn unloaded_guild_shows_placeholder() {
    let data = sample_data();
    let mut state = GuildsTreeState::new();
    state.expand(TreeNodeId::Guild(2));
    let rows = data.flatten(&state, 100);
    assert_eq!(rows.len(), 4);
    assert_eq!(rows[3].id, TreeNodeId::Placeholder(2));
    assert_eq!(label_text(&rows[3]), "\u{2514}\u{2500}\u{2500} Loading...");
}

#[test]
fn narrow_tree_truncates_channel_names() {
    let data = sample_data();
    let mut state = GuildsTreeState::new();
    state.expand(TreeNodeId::Guild(1));
    let rows = data.flatten(&state, 9);
    assert_eq!(label_text(&rows[2]), "\u{251c}\u{2500}\u{2500} ! r");
}

#[test]
fn unread_channel_gets_a_dot() {
    let mut data = sample_data();
    let mut chans = vec![Channel::new(20, "news", ChannelKind::Text)];
    chans[0].last_message_id = Some(5);
    data.set_channels(2, chans);
    let mut read_states = std::collections::HashMap::new();
    read_states.insert(20_u64, ReadState { channel_id: 20, last_read_message_id: Some(3), mention_count: 0 });
    data.update_unread_status(&read_states);
    let mut state = GuildsTreeState::new();
    state.expand(TreeNodeId::Guild(2));
    let rows = data.flatten(&state, 20);
    let last = rows.last().unwrap();
    assert_eq!(last.id, TreeNodeId::Channel(20));
    assert_eq!(last.label.last().unwrap().text, "\u{2981}");
    assert_eq!(last.label[4].role, SpanRole::ChannelUnread);
}

#[test]
fn folders_group_their_guilds() {
    let mut data = sample_data();
    data.set_group_guilds(true);
    data.set_folders(vec![GuildFolder { id: Some(7), name: Some("Work".to_string()), color: None, guild_ids: vec![2] }]);
    let mut state = GuildsTreeState::new();
    state.expand(TreeNodeId::Folder(Some(7)));
    let rows = data.flatten(&state, 100);
    let ids: Vec<TreeNodeId> = rows.iter().map(|r| r.id.clone()).collect();
    assert_eq!(
        ids,
        vec![TreeNodeId::DirectMessages, TreeNodeId::Folder(Some(7)), TreeNodeId::Guild(2), TreeNodeId::Guild(1)]
    );
    assert_eq!(label_text(&rows[2]), "\u{2514}\u{2500}\u{2500} \u{25b8} Beta");
}

#[test]
fn direct_messages_expand_to_users() {
    let mut data = GuildsTreeData::new();
    data.set_dm_users(vec![("u1".to_string(), "Ann".to_string()), ("u2".to_string(), "Ben".to_string())]);
    data.set_active_dm_user(Some("u2".to_string()));
    let mut state = GuildsTreeState::new();
    state.expand(TreeNodeId::DirectMessages);
    let rows = data.flatten(&state, 100);
    assert_eq!(rows.len(), 3);
    assert_eq!(label_text(&rows[1]), "\u{251c}\u{2500}\u{2500} @ Ann");
    assert_eq!(rows[2].label[3].role, SpanRole::DirectMessageActive);
}

#[test]
fn navigation_wraps_and_expands() {
    let data = sample_data();
    let registry = CommandRegistry::default();
    let mut state = GuildsTreeState::new();
    assert!(state.handle_key(key('j'), &data, &registry).is_none());
    assert_eq!(state.selected(), Some(&TreeNodeId::DirectMessages));
    state.handle_key(key('j'), &data, &registry);
    assert_eq!(state.selected(), Some(&TreeNodeId::Guild(1)));
    state.handle_key(key('k'), &data, &registry);
    state.handle_key(key('k'), &data, &registry);
    assert_eq!(state.selected(), Some(&TreeNodeId::Guild(2)));
    assert_eq!(state.list_selected(), Some(2));
    let r = state.handle_key(KeyEvent::new(KeyCode::Enter, KeyModifiers::none()), &data, &registry);
    assert!(matches!(r, Some(GuildsTreeAction::LoadGuildChannels(2))));
    assert!(state.is_expanded(&TreeNodeId::Guild(2)));
    state.handle_key(key('j'), &data, &registry);
    assert_eq!(state.selected(), Some(&TreeNodeId::Placeholder(2)));
    state.handle_key(key('h'), &data, &registry);
    assert_eq!(state.selected(), Some(&TreeNodeId::Guild(2)));
}

#[test]
fn selecting_a_channel_and_yanking_ids() {
    let data = sample_data();
    let registry = CommandRegistry::default();
    let mut state = GuildsTreeState::new();
    state.select(TreeNodeId::Channel(13));
    let r = state.handle_key(KeyEvent::new(KeyCode::Enter, KeyModifiers::none()), &data, &registry);
    assert!(matches!(r, Some(GuildsTreeAction::SelectChannel(13))));
    let y = state.handle_key(yank_key(), &data, &registry);
    match y {
        Some(GuildsTreeAction::YankId(s)) => assert_eq!(s, "13"),
        other => panic!("unexpected {other:?}"),
    }
    state.select(TreeNodeId::DirectMessages);
    match state.handle_key(yank_key(), &data, &registry) {
        Some(GuildsTreeAction::YankId(s)) => assert_eq!(s, "direct_messages"),
        other => panic!("unexpected {other:?}"),
    }
}

#[test]
fn channel_lookup_and_in_place_change() {
    let mut data = sample_data();
    assert_eq!(data.find_guild_for_channel(12), Some(1));
    assert_eq!(data.find_guild_for_channel(99), None);
    if let Some(ch) = data.get_channel_mut(12) {
        ch.name = "renamed".to_string();
    }
    assert_eq!(data.channels(1).unwrap()[2].name, "renamed");
    assert!(data.get_channel_mut(99).is_none());
}

#[test]
fn up_undoes_down_in_tree() {
    let data = sample_data();
    let registry = CommandRegistry::default();
    let mut state = GuildsTreeState::new();
    state.handle_key(key('j'), &data, &registry);
    state.handle_key(key('j'), &data, &registry);
    assert_eq!(state.selected(), Some(&TreeNodeId::Guild(1)));
    state.handle_key(key('j'), &data, &registry);
    state.handle_key(key('k'), &data, &registry);
    assert_eq!(state.selected(), Some(&TreeNodeId::Guild(1)));
    state.handle_key(key('k'), &data, &registry);
    state.handle_key(key('k'), &data, &registry);
    assert_eq!(state.selected(), Some(&TreeNodeId::Guild(2)));
    state.handle_key(key('j'), &data, &registry);
    assert_eq!(state.selected(), Some(&TreeNodeId::DirectMessages));
    state.handle_key(key('k'), &data, &registry);
    assert_eq!(state.selected(), Some(&TreeNodeId::Guild(2)));
}

#[test]
fn collapsed_folders_come_before_loose_guilds() {
    let mut data = sample_data();
    data.set_group_guilds(true);
    data.set_folders(vec![
        GuildFolder { id: Some(7), name: Some("Work".to_string()), color: None, guild_ids: vec![2] },
        GuildFolder { id: None, name: None, color: None, guild_ids: vec![] },
    ]);
    let rows = data.flatten(&GuildsTreeState::new(), 100);
    let ids: Vec<TreeNodeId> = rows.iter().map(|r| r.id.clone()).collect();
    assert_eq!(
        ids,
        vec![TreeNodeId::DirectMessages, TreeNodeId::Folder(Some(7)), TreeNodeId::Folder(None), TreeNodeId::Guild(1)]
    );
}
