use oxicord_ui::chat_screen::ChatScreenState;
use oxicord_ui::commands::CommandRegistry;
use oxicord_ui::entities::{Channel, ChannelKind, Guild};
use oxicord_ui::guilds_tree::GuildsTreeData;
use oxicord_ui::quick_switcher::{QuickSwitcherSortMode, RecentItem, SearchKind, SearchResult};
use oxicord_ui::search::{channel_search_results, empty_query_results};

fn recent(id: &str, name: &str, kind: SearchKind, guild_id: Option<&str>) -> RecentItem {
    RecentItem { id: id.to_string(), name: name.to_string(), kind, guild_id: guild_id.map(String::from), timestamp: 0 }
}

#[test]
fn recents_mode_offers_the_remembered_places() {
    let recents = vec![
        recent("1", "general", SearchKind::Channel, Some("10")),
        recent("2", "random", SearchKind::Channel, Some("not a number")),
        recent("3", "other", SearchKind::Channel, Some("99")),
    ];
    let guilds = vec![Guild::new(10, "Rust")];
    let dms = vec![("5".to_string(), "bob".to_string())];
    let r = empty_query_results(QuickSwitcherSortMode::Recents, &recents, &guilds, &dms, Vec::new());
    assert_eq!(r.len(), 3);
    assert_eq!(r[0].id, "1");
    assert_eq!(r[0].score, 100);
    assert_eq!(r[0].guild_id.as_deref(), Some("10"));
    assert_eq!(r[0].guild_name.as_deref(), Some("Rust"));
    assert_eq!(r[1].guild_name, None);
    assert_eq!(r[2].guild_name, None);
}

#[test]
fn mixed_mode_adds_what_is_not_remembered() {
    let recents = vec![recent("5", "bob", SearchKind::DM, None)];
    let guilds = vec![Guild::new(10, "Rust")];
    let dms = vec![("5".to_string(), "bob".to_string()), ("6".to_string(), "amy".to_string())];
    let channels = vec![
        SearchResult::new("20", "chan", SearchKind::Channel),
        SearchResult::new("10", "same id as the guild", SearchKind::Channel),
        SearchResult::new("20", "again", SearchKind::Channel),
    ];
    let r = empty_query_results(QuickSwitcherSortMode::Mixed, &recents, &guilds, &dms, channels);
    let got: Vec<(&str, SearchKind, i64)> = r.iter().map(|x| (x.id.as_str(), x.kind, x.score)).collect();
    assert_eq!(
        got,
        vec![
            ("5", SearchKind::DM, 0),
            ("6", SearchKind::DM, 0),
            ("10", SearchKind::Guild, 0),
            ("20", SearchKind::Channel, 0),
            ("10", SearchKind::Channel, 0),
        ]
    );
    assert_eq!(r[4].name, "same id as the guild");
}

fn tree_data() -> GuildsTreeData {
    let mut d = GuildsTreeData::new();
    d.set_guilds(vec![Guild::new(10, "Rust")]);
    let cat = Channel::new(1, "Info", ChannelKind::Category);
    let mut text = Channel::new(2, "general", ChannelKind::Text);
    text.parent_id = Some(1);
    let voice = Channel::new(3, "Lounge", ChannelKind::Voice);
    let forum = Channel::new(4, "help", ChannelKind::Forum);
    d.set_channels(10, vec![cat, text, voice, forum]);
    d
}

#[test]
fn channel_results_leave_out_categories() {
    let r = channel_search_results(&tree_data());
    let got: Vec<(&str, SearchKind)> = r.iter().map(|x| (x.id.as_str(), x.kind)).collect();
    assert_eq!(got, vec![("2", SearchKind::Channel), ("3", SearchKind::Voice), ("4", SearchKind::Forum)]);
    assert_eq!(r[0].parent_name.as_deref(), Some("Info"));
    assert_eq!(r[0].guild_id.as_deref(), Some("10"));
    assert_eq!(r[0].guild_name.as_deref(), Some("Rust"));
    assert_eq!(r[1].parent_name, None);
}

#[test]
fn opening_the_quick_switcher_fills_it() {
    let recents = vec![recent("123", "General", SearchKind::Channel, None)];
    let mut state = ChatScreenState::new(true, false, CommandRegistry::new(), QuickSwitcherSortMode::Recents, recents);
    state.toggle_quick_switcher();
    assert!(state.is_quick_switcher_shown());
    let q = state.quick_switcher();
    assert_eq!(q.input, "");
    assert_eq!(q.results.len(), 1);
    assert_eq!(q.results[0].id, "123");
    assert_eq!(q.selected, Some(0));
    state.toggle_quick_switcher();
    assert!(!state.is_quick_switcher_shown());
}
