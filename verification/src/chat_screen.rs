//! The chat screen's focus cycle, its direct-message channel info, and what a
//! key press on it asks the application to do.

use vstd::prelude::*;
use crate::chars::{append_str, from_chars, to_chars};
use crate::entities::{copy_str, ConnectionStatus};
use crate::keys::{duration_from_millis, duration_saturating_add, max_duration_nanos, nanos_of};
use std::time::Duration;
use crate::quick_switcher::{recent_view, recents_view, results_view, spec_apply_sort, RecentItem, ResultView, SearchKind, SearchResult};
use crate::search::{channel_search_kind, channel_search_results, empty_query_results, spec_channel_results, spec_empty_query_results};
use crate::utils::{decimal, parse_u64, parse_u64_str, u64_to_decimal};
use crate::text::{chars_eq, chars_eq_str};
use crate::footer_bar::{FocusContext, Keybind};
use crate::commands::{first_action, CommandRegistry};
use crate::entities::{channel_view, copy_channel, copy_thread, thread_view, Channel, ChannelKind, ForumThread, Guild, GuildFolder, ReadState};
use crate::guilds_tree::{channel_position, channels_of, has_channel, spec_is_unread, unread_marked};
use std::collections::HashMap;
use vstd::std_specs::hash::spec_hash_map_iter;
use vstd::std_specs::iter::IteratorSpec;
use crate::channel_access::{spec_visible_channels, visible_channels};
use crate::guilds_tree::{expandable, node_key, tree_key_result, GuildsTreeAction, GuildsTreeData, GuildsTreeState, NodeKey, TreeNodeId, TreeRequest};
use crate::message_pane::{copy_forum_state, forum_view, ContentAction, ForumState, LoadingState, MessagePaneAction, MessageSummary, ViewMode};
use crate::pane_data::{first_with_id, has_id, has_id_exec, not_in, regrouped, MessagePaneData, PaneMessage};
use crate::message_pane::{forum_key_post, is_copy_act, pane_key_post, messages_pane_moved, selected_message, spec_forum_action, spec_messages_action};
use crate::keys::{Action, KeyCode, KeyEvent, KeyEventKind, KeyModifiers, MOD_ALT, MOD_CONTROL};
use crate::message_input::{input_step, spec_clear, spec_set_content, strings_view, with_text, InputRequest, InputView, MessageInputAction, MessageInputMode, MessageInputState};
use crate::text_area::{join_lines, ta_insert_str};
use crate::message_pane::MessagePaneState;
use crate::quick_switcher::{QuickSwitcher, QuickSwitcherSortMode};

verus! {

/// The pane of the chat screen that has focus.
#[derive(Clone, Copy, Debug, PartialEq, Eq, Structural)]
pub enum ChatFocus {
    GuildsTree,
    MessagesList,
    MessageInput,
    ConfirmationModal,
}

/// The next pane: messages, input, then the guilds tree when it is shown.
pub open spec fn spec_next(f: ChatFocus, guilds_visible: bool) -> ChatFocus {
    if guilds_visible {
        match f {
            ChatFocus::MessagesList => ChatFocus::MessageInput,
            ChatFocus::MessageInput => ChatFocus::GuildsTree,
            _ => ChatFocus::MessagesList,
        }
    } else {
        match f {
            ChatFocus::MessagesList => ChatFocus::MessageInput,
            _ => ChatFocus::MessagesList,
        }
    }
}

/// The previous pane.
pub open spec fn spec_previous(f: ChatFocus, guilds_visible: bool) -> ChatFocus {
    if guilds_visible {
        match f {
            ChatFocus::GuildsTree => ChatFocus::MessageInput,
            ChatFocus::MessagesList => ChatFocus::GuildsTree,
            _ => ChatFocus::MessagesList,
        }
    } else {
        match f {
            ChatFocus::MessagesList => ChatFocus::MessageInput,
            _ => ChatFocus::MessagesList,
        }
    }
}

/// The footer's name for a pane.
pub open spec fn spec_to_focus_context(f: ChatFocus) -> FocusContext {
    match f {
        ChatFocus::GuildsTree => FocusContext::GuildsTree,
        ChatFocus::MessagesList => FocusContext::MessagesList,
        ChatFocus::MessageInput => FocusContext::MessageInput,
        ChatFocus::ConfirmationModal => FocusContext::ConfirmationModal,
    }
}

impl ChatFocus {
    /// The next pane in the focus cycle.
    pub fn next(self, guilds_visible: bool) -> (f: ChatFocus)
        ensures
            f == spec_next(self, guilds_visible),
    {
        if guilds_visible {
            match self {
                ChatFocus::MessagesList => ChatFocus::MessageInput,
                ChatFocus::MessageInput => ChatFocus::GuildsTree,
                _ => ChatFocus::MessagesList,
            }
        } else {
            match self {
                ChatFocus::MessagesList => ChatFocus::MessageInput,
                _ => ChatFocus::MessagesList,
            }
        }
    }

    /// The previous pane in the focus cycle.
    pub fn previous(self, guilds_visible: bool) -> (f: ChatFocus)
        ensures
            f == spec_previous(self, guilds_visible),
    {
        if guilds_visible {
            match self {
                ChatFocus::GuildsTree => ChatFocus::MessageInput,
                ChatFocus::MessagesList => ChatFocus::GuildsTree,
                _ => ChatFocus::MessagesList,
            }
        } else {
            match self {
                ChatFocus::MessagesList => ChatFocus::MessageInput,
                _ => ChatFocus::MessagesList,
            }
        }
    }

    /// The footer's name for the pane.
    pub fn to_focus_context(self) -> (c: FocusContext)
        ensures
            c == spec_to_focus_context(self),
    {
        match self {
            ChatFocus::GuildsTree => FocusContext::GuildsTree,
            ChatFocus::MessagesList => FocusContext::MessagesList,
            ChatFocus::MessageInput => FocusContext::MessageInput,
            ChatFocus::ConfirmationModal => FocusContext::ConfirmationModal,
        }
    }
}

/// Moving focus back undoes moving it forward, for every pane the cycle
/// passes through: all three when the guilds tree is shown, the messages and
/// the input otherwise.
pub proof fn lemma_previous_undoes_next(f: ChatFocus, guilds_visible: bool)
    requires
        f != ChatFocus::ConfirmationModal,
        guilds_visible || f != ChatFocus::GuildsTree,
    ensures
        spec_previous(spec_next(f, guilds_visible), guilds_visible) == f,
{
}

/// The focus cycle never enters the confirmation dialog, and never enters the
/// guilds tree while it is hidden.
pub proof fn lemma_cycle_stays_in_panes(f: ChatFocus, guilds_visible: bool)
    ensures
        spec_next(f, guilds_visible) != ChatFocus::ConfirmationModal,
        spec_previous(f, guilds_visible) != ChatFocus::ConfirmationModal,
        !guilds_visible ==> spec_next(f, guilds_visible) != ChatFocus::GuildsTree,
        !guilds_visible ==> spec_previous(f, guilds_visible) != ChatFocus::GuildsTree,
{
}

/// The chat screen widget.
pub struct ChatScreen;

impl ChatScreen {
    /// The chat screen widget.
    pub fn new() -> (s: ChatScreen) {
        ChatScreen
    }
}

impl Default for ChatScreen {
    fn default() -> (s: ChatScreen) {
        ChatScreen
    }
}

/// A direct-message channel and the name of the person at the other end.
#[derive(Debug, Clone)]
pub struct DmChannelInfo {
    channel_id: u64,
    recipient_name: String,
}

impl DmChannelInfo {
    /// The channel id.
    pub closed spec fn spec_channel_id(&self) -> u64 {
        self.channel_id
    }

    /// The recipient's name.
    pub closed spec fn spec_recipient_name(&self) -> Seq<char> {
        self.recipient_name@
    }

    /// The info of a channel and recipient.
    pub fn new(channel_id: u64, recipient_name: String) -> (d: DmChannelInfo)
        ensures
            d.spec_channel_id() == channel_id,
            d.spec_recipient_name() == recipient_name@,
    {
        DmChannelInfo { channel_id, recipient_name }
    }

    /// The channel id.
    pub fn channel_id(&self) -> (c: u64)
        ensures
            c == self.spec_channel_id(),
    {
        self.channel_id
    }

    /// The recipient's name.
    pub fn recipient_name(&self) -> (s: &str)
        ensures
            s@ == self.spec_recipient_name(),
    {
        self.recipient_name.as_str()
    }
}

/// What a key press on the chat screen asks the application to do.
#[derive(Debug, Clone, PartialEq, Eq)]
pub enum ChatKeyResult {
    Consumed,
    Ignored,
    Quit,
    Logout,
    SecureLogout,
    CopyToClipboard(String),
    CopyImageToClipboard(String),
    LoadGuildChannels(u64),
    LoadChannelMessages { channel_id: u64, guild_id: Option<u64> },
    LoadForumThreads { channel_id: u64, guild_id: Option<u64>, offset: u32 },
    LoadDmMessages { channel_id: u64, recipient_name: String },
    ReplyToMessage { message_id: u64, mention: bool },
    SubmitEdit { message_id: u64, content: String },
    LoadHistory { channel_id: u64, before_message_id: u64 },
    EditMessage(u64),
    DeleteMessage(u64),
    OpenAttachments(u64),
    OpenLink(String),
    JumpToMessage(u64),
    SendMessage { content: String, reply_to: Option<u64>, attachments: Vec<String> },
    StartTyping,
    OpenEditor { initial_content: String, message_id: Option<u64> },
    Paste,
    ToggleHelp,
    ToggleDisplayName,
    JumpToChannel(u64),
    RequestChannelFetch(Vec<u64>),
    ShowNotification(String),
}


/// Whether `t` occurs in `s`.
pub open spec fn has_infix(s: Seq<char>, t: Seq<char>) -> bool {
    exists|i: int| 0 <= i && i + t.len() <= s.len() && #[trigger] s.subrange(i, i + t.len()) == t
}

/// Whether a visited item is worth remembering: not the id `0`, not an
/// empty name, no `(Null)` in the name, and not one of the generic names of
/// channel lists.
pub open spec fn spec_is_valid_recent_item(id: Seq<char>, name: Seq<char>) -> bool {
    !(id == "0"@ || name.len() == 0 || has_infix(name, "(Null)"@) || name == "Text Channel"@ || name
        == "Text Channels"@ || name == "Voice Channels"@)
}

fn has_infix_exec(s: &Vec<char>, t: &Vec<char>) -> (b: bool)
    ensures
        b == has_infix(s@, t@),
{
    if t.len() > s.len() {
        assert forall|i: int| 0 <= i && i + t@.len() <= s@.len() implies #[trigger] s@.subrange(i, i + t@.len()) != t@ by {}
        return false;
    }
    let slen = s.len();
    let last = s.len() - t.len();
    let mut i: usize = 0;
    while i <= last
        invariant
            t@.len() <= s@.len(),
            slen == s@.len(),
            last == s@.len() - t@.len(),
            i <= last + 1,
            forall|k: int| 0 <= k < i ==> #[trigger] s@.subrange(k, k + t@.len()) != t@,
        decreases last + 1 - i,
    {
        let mut j: usize = 0;
        let mut same = true;
        while j < t.len()
            invariant
                j <= t@.len(),
                slen == s@.len(),
                i + t@.len() <= s@.len(),
                same == (forall|m: int| 0 <= m < j ==> s@[i + m] == t@[m]),
            decreases t@.len() - j,
        {
            let k = i + j;
            if s[k] != t[j] {
                same = false;
            }
            j = j + 1;
        }
        if same {
            assert(s@.subrange(i as int, i + t@.len()) =~= t@);
            return true;
        }
        assert(s@.subrange(i as int, i + t@.len()) != t@) by {
            let m = choose|m: int| 0 <= m < t@.len() && s@[i + m] != t@[m];
            assert(s@.subrange(i as int, i + t@.len())[m] == s@[i + m]);
        }
        i = i + 1;
    }
    assert forall|k: int| 0 <= k && k + t@.len() <= s@.len() implies #[trigger] s@.subrange(k, k + t@.len()) != t@ by {
        assert(k < i);
    }
    false
}

/// Whether a visited item is worth remembering.
pub fn is_valid_recent_item(item: &RecentItem) -> (b: bool)
    ensures
        b == spec_is_valid_recent_item(item.id@, item.name@),
{
    let id = to_chars(item.id.as_str());
    let name = to_chars(item.name.as_str());
    let null = to_chars("(Null)");
    !(chars_eq_str(&id, "0") || name.len() == 0 || has_infix_exec(&name, &null) || chars_eq_str(&name, "Text Channel")
        || chars_eq_str(&name, "Text Channels") || chars_eq_str(&name, "Voice Channels"))
}

/// The most recent items remembered.
pub const MAX_RECENTS: usize = 50;

/// Whether an item is not the same place as `item`.
pub open spec fn other_place(item: RecentItem) -> spec_fn(RecentItem) -> bool {
    |r: RecentItem| !(r.id@ == item.id@ && r.kind == item.kind)
}

/// The recent items after visiting `item`: it goes first, an earlier visit
/// of the same place is dropped, and at most fifty are kept. An item that is
/// not worth remembering leaves the list as it was.
pub open spec fn spec_add_recent(recents: Seq<RecentItem>, item: RecentItem) -> Seq<RecentItem> {
    if !spec_is_valid_recent_item(item.id@, item.name@) {
        recents
    } else {
        let kept = seq![item] + recents.filter(other_place(item));
        if kept.len() <= MAX_RECENTS {
            kept
        } else {
            kept.take(MAX_RECENTS as int)
        }
    }
}

/// Records a visit in the recent items.
pub fn add_recent_item(recents: &mut Vec<RecentItem>, item: RecentItem)
    ensures
        final(recents)@ == spec_add_recent(old(recents)@, item),
        spec_is_valid_recent_item(item.id@, item.name@) ==> {
            &&& final(recents)@.len() <= MAX_RECENTS
            &&& final(recents)@[0] == item
            &&& forall|i: int| 1 <= i < final(recents)@.len() ==> other_place(item)(#[trigger] final(recents)@[i])
        },
{
    if !is_valid_recent_item(&item) {
        return;
    }
    let ghost old_r = recents@;
    let total = recents.len();
    let ghost pred = other_place(item);
    let item_id = to_chars(item.id.as_str());
    let item_kind = item.kind;
    let mut rest: Vec<RecentItem> = Vec::new();
    std::mem::swap(&mut rest, recents);
    let mut kept: Vec<RecentItem> = Vec::new();
    kept.push(item);
    let mut n: usize = 0;
    proof {
        reveal(Seq::filter);
        assert(old_r.take(0) =~= Seq::<RecentItem>::empty());
        assert(kept@ =~= seq![item] + old_r.take(0).filter(pred));
    }
    while rest.len() > 0
        invariant
            n + rest@.len() == old_r.len(),
            total == old_r.len(),
            rest@ == old_r.skip(n as int),
            item_id@ == item.id@,
            item_kind == item.kind,
            pred == other_place(item),
            kept@ == seq![item] + old_r.take(n as int).filter(pred),
        decreases rest@.len(),
    {
        let r = rest.remove(0);
        assert(r == old_r[n as int]);
        proof {
            reveal(Seq::filter);
            assert(old_r.take(n + 1).drop_last() =~= old_r.take(n as int));
            assert(old_r.take(n + 1).last() == r);
            assert(rest@ =~= old_r.skip(n + 1));
        }
        let same = chars_eq(&to_chars(r.id.as_str()), &item_id) && r.kind == item_kind;
        if !same {
            let ghost before = kept@;
            kept.push(r);
            assert(kept@ =~= seq![item] + old_r.take(n + 1).filter(pred));
        } else {
            assert(kept@ =~= seq![item] + old_r.take(n + 1).filter(pred));
        }
        n = n + 1;
    }
    assert(old_r.take(n as int) =~= old_r);
    let ghost full = kept@;
    kept.truncate(MAX_RECENTS);
    *recents = kept;
    proof {
        old_r.filter_lemma(pred);
        assert forall|i: int| 1 <= i < recents@.len() implies pred(#[trigger] recents@[i]) by {
            assert(recents@[i] == full[i]);
            assert(full[i] == old_r.filter(pred)[i - 1]);
        }
    }
}

/// The sum of the first `i` heights: where the `i`-th message starts.
pub open spec fn top_of(h: Seq<u16>, i: int) -> int
    decreases i,
{
    if i <= 0 || i > h.len() {
        0
    } else {
        top_of(h, i - 1) + h[i - 1]
    }
}

/// The first message from `i` on that starts at or below `limit`; the
/// number of messages if none does.
pub open spec fn first_reaching(h: Seq<u16>, limit: int, i: int) -> int
    decreases h.len() - i,
{
    if i < 0 || i >= h.len() {
        h.len() as int
    } else if top_of(h, i) >= limit {
        i
    } else {
        first_reaching(h, limit, i + 1)
    }
}

/// The first message from `i` on that ends below `offset`; the number of
/// messages if none does.
pub open spec fn first_ending_after(h: Seq<u16>, offset: int, i: int) -> int
    decreases h.len() - i,
{
    if i < 0 || i >= h.len() {
        h.len() as int
    } else if top_of(h, i) + h[i] > offset {
        i
    } else {
        first_ending_after(h, offset, i + 1)
    }
}

/// The messages in view, as a start index and an end index (exclusive),
/// for messages of the given heights scrolled down by `offset` rows in a
/// viewport of `viewport` rows: the range ends at the first message that
/// starts at or below the viewport's bottom, and starts at the first message
/// before it, or that one, that reaches below the offset (else at zero).
pub open spec fn spec_visible_range(h: Seq<u16>, offset: int, viewport: int) -> (int, int) {
    let e = first_reaching(h, offset + viewport, 0);
    let s = first_ending_after(h, offset, 0);
    (if s <= e && s < h.len() { s } else { 0 }, e)
}

proof fn lemma_top_monotone(h: Seq<u16>, i: int, j: int)
    requires
        0 <= i <= j <= h.len(),
    ensures
        top_of(h, i) <= top_of(h, j),
    decreases j - i,
{
    if i < j {
        lemma_top_monotone(h, i, j - 1);
    }
}

proof fn lemma_first_ending_ge(h: Seq<u16>, offset: int, i: int)
    requires
        0 <= i <= h.len(),
    ensures
        first_ending_after(h, offset, i) >= i,
    decreases h.len() - i,
{
    if i < h.len() && !(top_of(h, i) + h[i] > offset) {
        lemma_first_ending_ge(h, offset, i + 1);
    }
}

/// The range of messages in view.
pub fn calculate_visible_range(heights: &Vec<u16>, offset: usize, viewport_height: u16) -> (r: (usize, usize))
    requires
        top_of(heights@, heights@.len() as int) + offset + viewport_height <= usize::MAX,
    ensures
        (r.0 as int, r.1 as int) == spec_visible_range(heights@, offset as int, viewport_height as int),
{
    let ghost h = heights@;
    proof {
        lemma_top_monotone(h, 0, h.len() as int);
    }
    let bottom = offset + viewport_height as usize;
    let mut y: usize = 0;
    let mut start: usize = 0;
    let mut end: usize = 0;
    let mut found = false;
    let mut idx: usize = 0;
    while idx < heights.len()
        invariant_except_break
            idx <= h.len(),
            h == heights@,
            bottom == offset + viewport_height,
            top_of(h, h.len() as int) + offset + viewport_height <= usize::MAX,
            y == top_of(h, idx as int),
            end == idx,
            first_reaching(h, bottom as int, 0) == first_reaching(h, bottom as int, idx as int),
            found ==> start < idx && first_ending_after(h, offset as int, 0) == start,
            !found ==> start == 0 && first_ending_after(h, offset as int, 0) == first_ending_after(h, offset as int, idx as int),
        ensures
            (start as int, end as int) == spec_visible_range(heights@, offset as int, viewport_height as int),
        decreases h.len() - idx,
    {
        proof {
            lemma_top_monotone(h, idx + 1, h.len() as int);
        }
        let hh = heights[idx] as usize;
        if !found && y + hh > offset {
            start = idx;
            found = true;
        }
        if y >= bottom {
            proof {
                assert(first_reaching(h, bottom as int, idx as int) == idx);
                if !found {
                    lemma_first_ending_ge(h, offset as int, idx + 1);
                }
            }
            end = idx;
            break;
        }
        y = y + hh;
        end = idx + 1;
        idx = idx + 1;
    }
    (start, end)
}

/// The chat screen's panes as values: which has focus, whether the guilds
/// tree shows, which overlays are open, and the message waiting for a delete
/// confirmation.
pub struct ChatView {
    pub focus: ChatFocus,
    pub tree_visible: bool,
    pub help: bool,
    pub explorer: bool,
    pub switcher: bool,
    pub pending_deletion: Option<u64>,
}

/// Focus on a pane.
pub open spec fn spec_set_focus(v: ChatView, f: ChatFocus) -> ChatView {
    ChatView { focus: f, ..v }
}

/// Focus on the guilds tree, if it shows.
pub open spec fn spec_focus_guilds(v: ChatView) -> ChatView {
    if v.tree_visible {
        spec_set_focus(v, ChatFocus::GuildsTree)
    } else {
        v
    }
}

/// Focus on the next pane of the cycle.
pub open spec fn spec_focus_next(v: ChatView) -> ChatView {
    spec_set_focus(v, spec_next(v.focus, v.tree_visible))
}

/// Focus on the previous pane of the cycle.
pub open spec fn spec_focus_previous(v: ChatView) -> ChatView {
    spec_set_focus(v, spec_previous(v.focus, v.tree_visible))
}

/// Shows or hides the guilds tree; hiding it while it has focus moves focus
/// to the next pane.
pub open spec fn spec_toggle_tree(v: ChatView) -> ChatView {
    let w = ChatView { tree_visible: !v.tree_visible, ..v };
    if !w.tree_visible && w.focus == ChatFocus::GuildsTree {
        spec_focus_next(w)
    } else {
        w
    }
}

/// What a key bound to an application-wide action does, whatever pane has
/// focus: quitting, logging out, moving focus, toggling the guilds tree, the
/// help or the quick switcher; the help key typed into the input is left to
/// the input. `None` leaves the key unhandled.
pub open spec fn spec_global_key(v: ChatView, action: Option<Action>, code: KeyCode) -> (ChatView, Option<ChatKeyResult>) {
    match action {
        Some(Action::Quit) => (v, Some(ChatKeyResult::Quit)),
        Some(Action::Logout) => (v, Some(ChatKeyResult::Logout)),
        Some(Action::SecureLogout) => (v, Some(ChatKeyResult::SecureLogout)),
        Some(Action::FocusGuilds) => (spec_focus_guilds(v), Some(ChatKeyResult::Consumed)),
        Some(Action::FocusMessages) => (spec_set_focus(v, ChatFocus::MessagesList), Some(ChatKeyResult::Consumed)),
        Some(Action::FocusInput) => if v.focus == ChatFocus::MessageInput {
            (v, None)
        } else {
            (spec_set_focus(v, ChatFocus::MessageInput), Some(ChatKeyResult::Consumed))
        },
        Some(Action::FocusPrevious) => (spec_focus_previous(v), Some(ChatKeyResult::Consumed)),
        Some(Action::FocusNext) => (spec_focus_next(v), Some(ChatKeyResult::Consumed)),
        Some(Action::NextTab) => (spec_focus_next(v), Some(ChatKeyResult::Consumed)),
        Some(Action::ToggleGuildsTree) => (spec_toggle_tree(v), Some(ChatKeyResult::Consumed)),
        Some(Action::ToggleHelp) => if v.focus == ChatFocus::MessageInput && code is Char {
            (v, None)
        } else {
            (ChatView { help: !v.help, ..v }, Some(ChatKeyResult::ToggleHelp))
        },
        Some(Action::ToggleDisplayName) => (v, Some(ChatKeyResult::ToggleDisplayName)),
        Some(Action::ToggleQuickSwitcher) => (ChatView { switcher: !v.switcher, ..v }, Some(ChatKeyResult::Consumed)),
        _ => (v, None),
    }
}

/// What a key does while the help or the delete confirmation is open: the
/// help takes every key and closes on the help, quit or cancel keys; the
/// confirmation deletes the waiting message on Enter, gives up on Esc or
/// `n`, and ignores other keys; both give focus back to the messages when
/// they close. `None` when neither is open.
pub open spec fn spec_modal_key(v: ChatView, action: Option<Action>, code: KeyCode) -> (ChatView, Option<ChatKeyResult>) {
    if v.help {
        let closes = action == Some(Action::ToggleHelp) || action == Some(Action::Quit) || action == Some(Action::Cancel);
        (if closes { ChatView { help: false, ..v } } else { v }, Some(ChatKeyResult::Consumed))
    } else if v.focus == ChatFocus::ConfirmationModal {
        match code {
            KeyCode::Enter => (
                ChatView { focus: ChatFocus::MessagesList, pending_deletion: None, ..v },
                Some(match v.pending_deletion {
                    Some(id) => ChatKeyResult::DeleteMessage(id),
                    None => ChatKeyResult::Consumed,
                }),
            ),
            KeyCode::Esc => (ChatView { focus: ChatFocus::MessagesList, pending_deletion: None, ..v }, Some(ChatKeyResult::Consumed)),
            KeyCode::Char('n') => (
                ChatView { focus: ChatFocus::MessagesList, pending_deletion: None, ..v },
                Some(ChatKeyResult::Consumed),
            ),
            _ => (v, Some(ChatKeyResult::Consumed)),
        }
    } else {
        (v, None)
    }
}

/// A visited item is worth remembering.
pub open spec fn worth_remembering() -> spec_fn(RecentItem) -> bool {
    |r: RecentItem| spec_is_valid_recent_item(r.id@, r.name@)
}

/// The visited items worth remembering, in order.
pub open spec fn valid_recents(s: Seq<RecentItem>) -> Seq<RecentItem> {
    s.filter(worth_remembering())
}

fn copy_recent(r: &RecentItem) -> (c: RecentItem)
    ensures
        recent_view(c) == recent_view(*r),
{
    RecentItem {
        id: copy_str(r.id.as_str()),
        name: copy_str(r.name.as_str()),
        kind: r.kind,
        guild_id: match &r.guild_id {
            Some(g) => Some(copy_str(g.as_str())),
            None => None,
        },
        timestamp: r.timestamp,
    }
}

/// The view of an optional string slice.
pub open spec fn opt_str_view(s: Option<&str>) -> Option<Seq<char>> {
    match s {
        Some(t) => Some(t@),
        None => None,
    }
}

/// A key binding as values: key, action, label, the name shown for the key
/// in its place, and whether it shows in the bar.
pub type KeybindView = (KeyEvent, Action, Seq<char>, Option<Seq<char>>, bool);

/// The values of a key binding.
pub open spec fn keybind_view(b: Keybind) -> KeybindView {
    (
        b.key,
        b.action,
        b.label@,
        match b.key_display {
            Some(d) => Some(d@),
            None => None,
        },
        b.visible_in_bar,
    )
}

/// The values of a list of key bindings.
pub open spec fn keybinds_view(v: Seq<Keybind>) -> Seq<KeybindView> {
    v.map_values(|b: Keybind| keybind_view(b))
}

/// The first key shown for an action, if any.
pub open spec fn first_key(reg: CommandRegistry, a: Action) -> Option<KeyEvent> {
    if reg.display().contains_key(a) && reg.display()[a].len() > 0 {
        Some(reg.display()[a][0])
    } else {
        None
    }
}

/// A plain binding.
pub open spec fn plain_bind(key: KeyEvent, a: Action, label: Seq<char>) -> KeybindView {
    (key, a, label, None, true)
}

/// The binding of an action's first key, if it has one.
pub open spec fn bind_first(reg: CommandRegistry, a: Action, label: Seq<char>) -> Seq<KeybindView> {
    match first_key(reg, a) {
        Some(key) => seq![plain_bind(key, a, label)],
        None => seq![],
    }
}

/// The navigation binding: the first key moving down, shown as `j/k` when
/// it is `j`.
pub open spec fn nav_bind(reg: CommandRegistry) -> Seq<KeybindView> {
    match first_key(reg, Action::NavigateDown) {
        Some(key) => seq![(
            key,
            Action::NavigateDown,
            "Nav"@,
            if key.code == KeyCode::Char('j') { Some("j/k"@) } else { None },
            true,
        )],
        None => seq![],
    }
}

/// The bindings shown while the guilds tree has focus: navigation; collapse
/// or expand for a node that can be expanded, back for one that cannot,
/// expand when nothing is selected; then select, the tree toggle, the
/// messages, the next pane and the help.
pub open spec fn spec_tree_commands(reg: CommandRegistry, sel: Option<NodeKey>, ex: Set<NodeKey>) -> Seq<KeybindView> {
    nav_bind(reg) + (match sel {
        Some(k) => if expandable(k) {
            if ex.contains(k) {
                bind_first(reg, Action::NavigateLeft, "Collapse"@)
            } else {
                bind_first(reg, Action::NavigateRight, "Expand"@)
            }
        } else {
            bind_first(reg, Action::NavigateLeft, "Back"@)
        },
        None => bind_first(reg, Action::NavigateRight, "Expand"@),
    }) + bind_first(reg, Action::Select, "Select"@) + bind_first(reg, Action::ToggleGuildsTree, "Toggle Tree"@)
        + bind_first(reg, Action::FocusMessages, "Msgs"@) + bind_first(reg, Action::NextTab, "Next"@) + bind_first(
        reg,
        Action::ToggleHelp,
        "Help"@,
    )
}

/// The bindings shown while the message list has focus: navigation, reply,
/// edit and delete when the selected message may be changed, the open
/// binding under the selected message's label or "Open", copy, jump, the
/// input and the help.
pub open spec fn spec_list_commands(reg: CommandRegistry, can_edit: bool, open_label: Option<Seq<char>>) -> Seq<KeybindView> {
    nav_bind(reg) + bind_first(reg, Action::Reply, "Reply"@) + (if can_edit {
        bind_first(reg, Action::EditMessage, "Edit"@)
    } else {
        seq![]
    }) + (if can_edit {
        bind_first(reg, Action::DeleteMessage, "Delete"@)
    } else {
        seq![]
    }) + bind_first(
        reg,
        Action::OpenAttachments,
        match open_label {
            Some(l) => l,
            None => "Open"@,
        },
    ) + bind_first(reg, Action::CopyContent, "Copy"@) + bind_first(reg, Action::JumpToReply, "Jump"@) + bind_first(
        reg,
        Action::FocusInput,
        "Focus Input"@,
    ) + bind_first(reg, Action::ToggleHelp, "Help"@)
}

/// The bindings shown while the input has focus: send, the messages, the
/// editor, attach, paste, cancel, and F1 for the help.
pub open spec fn spec_input_commands(reg: CommandRegistry) -> Seq<KeybindView> {
    bind_first(reg, Action::SendMessage, "Send"@) + bind_first(reg, Action::FocusMessages, "Msgs"@) + bind_first(
        reg,
        Action::OpenEditor,
        "Editor"@,
    ) + bind_first(reg, Action::ToggleFileExplorer, "Attach"@) + bind_first(reg, Action::Paste, "Paste"@) + bind_first(
        reg,
        Action::Cancel,
        "Cancel"@,
    ) + seq![plain_bind(press(KeyCode::F(1)), Action::ToggleHelp, "Help"@)]
}

/// A key pressed without modifiers.
pub open spec fn press(code: KeyCode) -> KeyEvent {
    KeyEvent { code, modifiers: KeyModifiers { bits: 0 }, kind: KeyEventKind::Press, state: 0 }
}

/// The bindings the footer shows for the screen: closing the help while it
/// is open; the quick switcher's keys while it is open; the file explorer's
/// keys while it is open; else those of the pane with focus, the delete
/// confirmation's included.
pub open spec fn spec_commands(
    v: ChatView,
    reg: CommandRegistry,
    sel: Option<NodeKey>,
    ex: Set<NodeKey>,
    can_edit: bool,
    open_label: Option<Seq<char>>,
    sort_mode_name: Seq<char>,
) -> Seq<KeybindView> {
    if v.help {
        seq![plain_bind(press(KeyCode::Esc), Action::ToggleHelp, "Close"@)]
    } else if v.switcher {
        seq![
            (press(KeyCode::Up), Action::NavigateUp, "Nav"@, Some("Ctrl+k/j"@), true),
            plain_bind(press(KeyCode::Enter), Action::Select, "Select"@),
            plain_bind(press(KeyCode::Tab), Action::NoAction, "Sort ("@ + sort_mode_name + ")"@),
            plain_bind(press(KeyCode::Esc), Action::Cancel, "Close"@),
        ]
    } else if v.explorer {
        bind_first(reg, Action::Select, "Select"@) + bind_first(reg, Action::ToggleFileExplorer, "Close"@) + seq![
            plain_bind(press(KeyCode::Char('.')), Action::ToggleHiddenFiles, "Hidden"@),
        ]
    } else {
        match v.focus {
            ChatFocus::GuildsTree => spec_tree_commands(reg, sel, ex),
            ChatFocus::MessagesList => spec_list_commands(reg, can_edit, open_label),
            ChatFocus::MessageInput => spec_input_commands(reg),
            ChatFocus::ConfirmationModal => seq![
                plain_bind(press(KeyCode::Enter), Action::Select, "Confirm"@),
                plain_bind(press(KeyCode::Esc), Action::Cancel, "Cancel"@),
            ] + bind_first(reg, Action::ToggleHelp, "Help"@),
        }
    }
}

fn push_first(out: &mut Vec<Keybind>, reg: &CommandRegistry, a: Action, label: &str)
    requires
        reg.wf(),
    ensures
        keybinds_view(final(out)@) == keybinds_view(old(out)@) + bind_first(*reg, a, label@),
{
    let ghost before = out@;
    match reg.get_first(a) {
        Some(key) => {
            out.push(Keybind::new(key, a, label));
            assert(keybinds_view(out@) =~= keybinds_view(before) + bind_first(*reg, a, label@));
        },
        None => {
            assert(keybinds_view(out@) =~= keybinds_view(before) + bind_first(*reg, a, label@));
        },
    }
}

fn push_nav(out: &mut Vec<Keybind>, reg: &CommandRegistry)
    requires
        reg.wf(),
    ensures
        keybinds_view(final(out)@) == keybinds_view(old(out)@) + nav_bind(*reg),
{
    let ghost before = out@;
    match reg.get_first(Action::NavigateDown) {
        Some(key) => {
            let mut bind = Keybind::new(key, Action::NavigateDown, "Nav");
            let is_j = match key.code {
                KeyCode::Char(c) => c == 'j',
                _ => false,
            };
            if is_j {
                bind = bind.with_display("j/k");
            }
            out.push(bind);
            assert(keybinds_view(out@) =~= keybinds_view(before) + nav_bind(*reg));
        },
        None => {
            assert(keybinds_view(out@) =~= keybinds_view(before) + nav_bind(*reg));
        },
    }
}

fn push_plain(out: &mut Vec<Keybind>, code: KeyCode, a: Action, label: &str)
    ensures
        keybinds_view(final(out)@) == keybinds_view(old(out)@).push(plain_bind(press(code), a, label@)),
{
    let ghost before = out@;
    out.push(Keybind::new(KeyEvent::new(code, KeyModifiers::none()), a, label));
    assert(keybinds_view(out@) =~= keybinds_view(before).push(plain_bind(press(code), a, label@)));
}

/// The first channel of a list with the id.
pub open spec fn first_channel_with(chs: Seq<Channel>, id: u64) -> Option<int> {
    if exists|k: int| 0 <= k < chs.len() && (#[trigger] chs[k]).id == id {
        Some(choose|k: int| 0 <= k < chs.len() && (#[trigger] chs[k]).id == id
            && forall|m: int| 0 <= m < k ==> (#[trigger] chs[m]).id != id)
    } else {
        None
    }
}

/// The first loaded channel list that holds a channel with the id.
pub open spec fn first_list_with(lists: Seq<(u64, Vec<Channel>)>, id: u64) -> Option<int> {
    if exists|i: int| 0 <= i < lists.len() && has_channel((#[trigger] lists[i]).1@, id) {
        Some(choose|i: int| 0 <= i < lists.len() && has_channel((#[trigger] lists[i]).1@, id)
            && forall|m: int| 0 <= m < i ==> !has_channel((#[trigger] lists[m]).1@, id))
    } else {
        None
    }
}

/// The guild a channel is opened in: the guild already open when its
/// loaded channels hold the channel, else the first guild whose do.
pub open spec fn target_guild(d: GuildsTreeData, selected: Option<u64>, id: u64) -> Option<u64> {
    if selected is Some && d.spec_channels(selected.unwrap()) is Some && has_channel(
        d.spec_channels(selected.unwrap()).unwrap(),
        id,
    ) {
        selected
    } else {
        match first_list_with(d.spec_channel_lists(), id) {
            Some(i) => Some(d.spec_channel_lists()[i].0),
            None => None,
        }
    }
}

/// The first loaded channel with the id.
pub open spec fn loaded_channel(d: GuildsTreeData, id: u64) -> Channel {
    let p = channel_position(d.spec_channel_lists(), id).unwrap();
    d.spec_channel_lists()[p.0].1@[p.1]
}

/// The read states with the mentions of a channel cleared.
pub open spec fn mentions_cleared(states: Map<u64, ReadState>, id: u64) -> Map<u64, ReadState> {
    if states.contains_key(id) {
        states.insert(id, ReadState { mention_count: 0, ..states[id] })
    } else {
        states
    }
}

/// The view of an optional string.
pub open spec fn opt_string_view(o: Option<String>) -> Option<Seq<char>> {
    match o {
        Some(s) => Some(s@),
        None => None,
    }
}

/// `chrono::Utc::now().timestamp()`: the current time in seconds since the
/// Unix epoch. It depends on the clock, so nothing is stated of it.
#[verifier::external_body]
fn now_timestamp() -> (t: i64) {
    chrono::Utc::now().timestamp()
}

fn first_channel_index(chs: &Vec<Channel>, id: u64) -> (r: Option<usize>)
    ensures
        match r {
            Some(i) => first_channel_with(chs@, id) == Some(i as int) && i < chs@.len(),
            None => first_channel_with(chs@, id) is None,
        },
{
    let mut i: usize = 0;
    while i < chs.len()
        invariant
            i <= chs@.len(),
            forall|m: int| 0 <= m < i ==> (#[trigger] chs@[m]).id != id,
        decreases chs@.len() - i,
    {
        if chs[i].id == id {
            proof {
                let k = choose|k: int| 0 <= k < chs@.len() && (#[trigger] chs@[k]).id == id
                    && forall|m: int| 0 <= m < k ==> (#[trigger] chs@[m]).id != id;
                assert(chs@[i as int].id == id);
                if k < i {
                    assert(chs@[k].id != id);
                }
                if i < k {
                    assert(chs@[i as int].id != id);
                }
            }
            return Some(i);
        }
        i = i + 1;
    }
    None
}

fn copy_recents(v: &Vec<RecentItem>) -> (r: Vec<RecentItem>)
    ensures
        recents_view(r@) == recents_view(v@),
{
    let mut out: Vec<RecentItem> = Vec::new();
    let mut i: usize = 0;
    while i < v.len()
        invariant
            i <= v@.len(),
            recents_view(out@) == recents_view(v@.take(i as int)),
        decreases v@.len() - i,
    {
        let ghost before = recents_view(out@);
        out.push(copy_recent(&v[i]));
        assert(recents_view(out@) =~= before.push(recent_view(v@[i as int])));
        assert(recents_view(v@.take(i + 1)) =~= recents_view(v@.take(i as int)).push(recent_view(v@[i as int])));
        i = i + 1;
    }
    assert(v@.take(v@.len() as int) =~= v@);
    out
}

proof fn lemma_first_list(lists: Seq<(u64, Vec<Channel>)>, id: u64, r: Option<u64>)
    requires
        match r {
            Some(g) => exists|i: int| 0 <= i < lists.len()
                && (#[trigger] lists[i]).0 == g
                && has_channel(lists[i].1@, id)
                && forall|k: int| 0 <= k < i ==> !has_channel(#[trigger] lists[k].1@, id),
            None => forall|k: int| 0 <= k < lists.len() ==> !has_channel(#[trigger] lists[k].1@, id),
        },
    ensures
        r == (match first_list_with(lists, id) {
            Some(i) => Some(lists[i].0),
            None => None,
        }),
{
    match r {
        Some(g) => {
            let i = choose|i: int| 0 <= i < lists.len()
                && (#[trigger] lists[i]).0 == g
                && has_channel(lists[i].1@, id)
                && forall|k: int| 0 <= k < i ==> !has_channel(#[trigger] lists[k].1@, id);
            assert(has_channel(lists[i].1@, id));
            let c = choose|c: int| 0 <= c < lists.len() && has_channel((#[trigger] lists[c]).1@, id)
                && forall|m: int| 0 <= m < c ==> !has_channel((#[trigger] lists[m]).1@, id);
            if c < i {
                assert(!has_channel(lists[c].1@, id));
            }
            if i < c {
                assert(!has_channel(lists[i].1@, id));
            }
            assert(c == i);
        },
        None => {
            if exists|i: int| 0 <= i < lists.len() && has_channel((#[trigger] lists[i]).1@, id) {
                let i = choose|i: int| 0 <= i < lists.len() && has_channel((#[trigger] lists[i]).1@, id);
                assert(!has_channel(lists[i].1@, id));
            }
        },
    }
}

proof fn lemma_position_kept(l0: Seq<(u64, Vec<Channel>)>, l1: Seq<(u64, Vec<Channel>)>, k: int, id: u64)
    requires
        l1.len() == l0.len(),
        forall|i: int| #![trigger l1[i]] 0 <= i < l1.len() ==> {
            &&& l1[i].0 == l0[i].0
            &&& l1[i].1@.len() == l0[i].1@.len()
            &&& forall|j: int| 0 <= j < l1[i].1@.len() ==> (#[trigger] l1[i].1@[j]).id == l0[i].1@[j].id
        },
        0 <= k < l0.len(),
        has_channel(l0[k].1@, id),
    ensures
        channel_position(l1, id) is Some,
{
    let chs = l0[k].1@;
    let j = choose|j: int| 0 <= j < chs.len() && (#[trigger] chs[j]).id == id;
    assert(l1[k].1@[j].id == l0[k].1@[j].id);
    assert(l1[k].1@[j].id == id);
}

/// The first message of the list with the id.
pub open spec fn summary_with_id(msgs: Seq<MessageSummary>, id: u64) -> Option<int> {
    if exists|k: int| 0 <= k < msgs.len() && (#[trigger] msgs[k]).id == id {
        Some(choose|k: int| 0 <= k < msgs.len() && (#[trigger] msgs[k]).id == id
            && forall|m: int| 0 <= m < k ==> (#[trigger] msgs[m]).id != id)
    } else {
        None
    }
}

/// The notice given on editing another user's message.
pub open spec fn edit_notice() -> Seq<char> {
    "You can only edit your own messages"@
}

/// The notice given on deleting another user's message.
pub open spec fn delete_notice() -> Seq<char> {
    "You can only delete your own messages"@
}

/// What a key result that carries no text is; a result with text is
/// compared by view in the contracts.
pub open spec fn is_notice(r: ChatKeyResult, text: Seq<char>) -> bool {
    r matches ChatKeyResult::ShowNotification(s) && s@ == text
}

fn summary_index(msgs: &Vec<MessageSummary>, id: u64) -> (r: Option<usize>)
    ensures
        match r {
            Some(i) => summary_with_id(msgs@, id) == Some(i as int) && i < msgs@.len(),
            None => summary_with_id(msgs@, id) is None,
        },
{
    let mut i: usize = 0;
    while i < msgs.len()
        invariant
            i <= msgs@.len(),
            forall|m: int| 0 <= m < i ==> (#[trigger] msgs@[m]).id != id,
        decreases msgs@.len() - i,
    {
        if msgs[i].id == id {
            proof {
                let k = choose|k: int| 0 <= k < msgs@.len() && (#[trigger] msgs@[k]).id == id
                    && forall|m: int| 0 <= m < k ==> (#[trigger] msgs@[m]).id != id;
                assert(msgs@[i as int].id == id);
                if k < i {
                    assert(msgs@[k].id != id);
                }
                if i < k {
                    assert(msgs@[i as int].id != id);
                }
            }
            return Some(i);
        }
        i = i + 1;
    }
    None
}

/// What acting on a message of the list did, from `before` to `after`
/// with result `r`: see `own_message_action`.
pub open spec fn own_message_outcome(
    before: ChatScreenState,
    after: ChatScreenState,
    action: MessagePaneAction,
    messages: Seq<MessageSummary>,
    user_id: Seq<char>,
    r: ChatKeyResult,
) -> bool {
    let id = match action {
        MessagePaneAction::Edit(i) => i,
        MessagePaneAction::EditExternal(i) => i,
        MessagePaneAction::Delete(i) => i,
        _ => 0,
    };
    match summary_with_id(messages, id) {
        None => r == ChatKeyResult::Ignored && after.view() == before.view()
            && after.spec_input() == before.spec_input(),
        Some(k) => {
            let m = messages[k];
            let own = m.author_id@ == user_id;
            match action {
                MessagePaneAction::Edit(_) => if own {
                    &&& r == ChatKeyResult::Ignored
                    &&& after.view() == spec_set_focus(before.view(), ChatFocus::MessageInput)
                    &&& after.spec_input().input_view() == (InputView {
                        mode: MessageInputMode::Editing { message_id: id },
                        text: spec_set_content(before.spec_input().spec_text(), m.content@),
                        ..before.spec_input().input_view()
                    })
                } else {
                    is_notice(r, edit_notice()) && after.view() == before.view()
                        && after.spec_input() == before.spec_input()
                },
                MessagePaneAction::EditExternal(_) => after.view() == before.view()
                    && after.spec_input() == before.spec_input() && if own {
                    r matches ChatKeyResult::OpenEditor { initial_content, message_id }
                        && initial_content@ == m.content@ && message_id == Some(id)
                } else {
                    is_notice(r, edit_notice())
                },
                _ => after.spec_input().input_view() == before.spec_input().input_view() && if own {
                    &&& r == ChatKeyResult::Consumed
                    &&& after.view() == (ChatView {
                        pending_deletion: Some(id),
                        ..spec_set_focus(before.view(), ChatFocus::ConfirmationModal)
                    })
                } else {
                    is_notice(r, delete_notice()) && after.view() == before.view()
                },
            }
        },
    }
}

/// The last direct message with the channel id: a later entry stands for an
/// earlier one with the same id.
pub open spec fn dm_entry(users: Seq<(String, String)>, id: Seq<char>) -> Option<int>
    decreases users.len(),
{
    if users.len() == 0 {
        None
    } else if users.last().0@ == id {
        Some(users.len() - 1)
    } else {
        dm_entry(users.drop_last(), id)
    }
}

fn dm_entry_index(users: &Vec<(String, String)>, id: &str) -> (r: Option<usize>)
    ensures
        match r {
            Some(i) => dm_entry(users@, id@) == Some(i as int) && i < users@.len(),
            None => dm_entry(users@, id@) is None,
        },
{
    let target = to_chars(id);
    let mut found: Option<usize> = None;
    let mut i: usize = 0;
    while i < users.len()
        invariant
            i <= users@.len(),
            target@ == id@,
            match found {
                Some(j) => dm_entry(users@.take(i as int), id@) == Some(j as int) && j < i,
                None => dm_entry(users@.take(i as int), id@) is None,
            },
        decreases users@.len() - i,
    {
        assert(users@.take(i + 1).drop_last() =~= users@.take(i as int));
        if chars_eq_str(&target, users[i].0.as_str()) {
            found = Some(i);
        }
        i = i + 1;
    }
    assert(users@.take(users@.len() as int) =~= users@);
    found
}

/// Whether a key edits text in the input (deletes, or deletes a word) with
/// Control or Alt held.
pub open spec fn is_text_editing(key: KeyEvent) -> bool {
    (key.code is Backspace || key.code is Delete || key.code == KeyCode::Char('w') || key.code == KeyCode::Char('h'))
        && (key.modifiers.has(MOD_CONTROL) || key.modifiers.has(MOD_ALT))
}

/// Whether an action moves focus away from the input or opens an overlay
/// that the input leaves to the whole screen.
pub open spec fn leaves_input(act: Option<Action>) -> bool {
    act == Some(Action::FocusMessages) || act == Some(Action::FocusGuilds) || act == Some(Action::FocusNext) || act
        == Some(Action::FocusPrevious) || act == Some(Action::NextTab) || act == Some(Action::ToggleGuildsTree) || act
        == Some(Action::ToggleQuickSwitcher)
}

/// The chat screen's panes and overlays: the focus, the guilds tree, message
/// list and input states, the key bindings, the quick switcher, and the
/// recently visited places.
pub struct ChatScreenState {
    focus: ChatFocus,
    guilds_tree_visible: bool,
    guilds_tree_state: GuildsTreeState,
    guilds_tree_data: GuildsTreeData,
    message_pane_state: MessagePaneState,
    message_pane_data: MessagePaneData,
    message_input_state: MessageInputState,
    registry: CommandRegistry,
    show_help: bool,
    show_file_explorer: bool,
    show_quick_switcher: bool,
    pending_deletion_id: Option<u64>,
    quick_switcher: QuickSwitcher,
    pub recents: Vec<RecentItem>,
    read_states: HashMap<u64, ReadState>,
    selected_guild: Option<u64>,
    selected_channel: Option<Channel>,
    forum_states: HashMap<u64, ForumState>,
    connection_status: ConnectionStatus,
    has_entered: bool,
    pending_duration: Duration,
}

/// The unread marks of `after` are those of `before` recomputed from
/// `states`, once the channel at `changed` (if any) has `last` as its last
/// message; nothing else of the tree changes.
pub open spec fn unread_marked_at(
    before: GuildsTreeData,
    after: GuildsTreeData,
    states: Map<u64, ReadState>,
    changed: Option<(int, int)>,
    last: u64,
) -> bool {
    &&& after.spec_channel_lists().len() == before.spec_channel_lists().len()
    &&& forall|i: int| #![trigger after.spec_channel_lists()[i]] 0 <= i < after.spec_channel_lists().len() ==> {
        &&& after.spec_channel_lists()[i].0 == before.spec_channel_lists()[i].0
        &&& after.spec_channel_lists()[i].1@.len() == before.spec_channel_lists()[i].1@.len()
        &&& forall|j: int| 0 <= j < after.spec_channel_lists()[i].1@.len() ==> {
            let c0 = if changed == Some((i, j)) {
                Channel { last_message_id: Some(last), ..before.spec_channel_lists()[i].1@[j] }
            } else {
                before.spec_channel_lists()[i].1@[j]
            };
            #[trigger] after.spec_channel_lists()[i].1@[j] == (Channel { unread: spec_is_unread(c0, states), ..c0 })
        }
    }
    &&& after.spec_guilds() == before.spec_guilds()
    &&& after.spec_folders() == before.spec_folders()
    &&& after.spec_group_guilds() == before.spec_group_guilds()
    &&& after.spec_dm_users() == before.spec_dm_users()
    &&& after.spec_active_guild() == before.spec_active_guild()
    &&& after.spec_active_channel() == before.spec_active_channel()
    &&& after.spec_active_dm_user() == before.spec_active_dm_user()
}

/// A tree whose channel at `p` (if any) got `last` as its last message and
/// whose unread marks were then recomputed is `before` with its marks
/// recomputed once the channel has that last message.
proof fn lemma_marks_after_arrival(
    before: GuildsTreeData,
    mid: GuildsTreeData,
    after: GuildsTreeData,
    rs: Map<u64, ReadState>,
    p: Option<(int, int)>,
    last: u64,
)
    requires
        unread_marked(mid, after, rs),
        mid.spec_channel_lists().len() == before.spec_channel_lists().len(),
        mid.spec_guilds() == before.spec_guilds(),
        mid.spec_folders() == before.spec_folders(),
        mid.spec_group_guilds() == before.spec_group_guilds(),
        mid.spec_dm_users() == before.spec_dm_users(),
        mid.spec_active_guild() == before.spec_active_guild(),
        mid.spec_active_channel() == before.spec_active_channel(),
        mid.spec_active_dm_user() == before.spec_active_dm_user(),
        p is None ==> mid.spec_channel_lists() == before.spec_channel_lists(),
        p matches Some(q) ==> {
            let l0 = before.spec_channel_lists();
            let l1 = mid.spec_channel_lists();
            &&& 0 <= q.0 < l0.len()
            &&& 0 <= q.1 < l0[q.0].1@.len()
            &&& forall|i: int| 0 <= i < l0.len() && i != q.0 ==> #[trigger] l1[i] == l0[i]
            &&& l1[q.0].0 == l0[q.0].0
            &&& l1[q.0].1@ == l0[q.0].1@.update(q.1, Channel { last_message_id: Some(last), ..l0[q.0].1@[q.1] })
        },
    ensures
        unread_marked_at(before, after, rs, p, last),
{
    let l0 = before.spec_channel_lists();
    let l1 = mid.spec_channel_lists();
    let l2 = after.spec_channel_lists();
    assert forall|i: int| #![trigger l2[i]] 0 <= i < l2.len() implies {
        &&& l2[i].0 == l0[i].0
        &&& l2[i].1@.len() == l0[i].1@.len()
        &&& forall|j: int| 0 <= j < l2[i].1@.len() ==> {
            let c0 = if p == Some((i, j)) {
                Channel { last_message_id: Some(last), ..l0[i].1@[j] }
            } else {
                l0[i].1@[j]
            };
            #[trigger] l2[i].1@[j] == (Channel { unread: spec_is_unread(c0, rs), ..c0 })
        }
    } by {
        assert(l2[i].1@.len() == l1[i].1@.len());
        if p is Some && i == p.unwrap().0 {
            let q = p.unwrap();
            assert(l1[i].1@.len() == l0[i].1@.len());
            assert forall|j: int| 0 <= j < l2[i].1@.len() implies {
                let c0 = if p == Some((i, j)) {
                    Channel { last_message_id: Some(last), ..l0[i].1@[j] }
                } else {
                    l0[i].1@[j]
                };
                #[trigger] l2[i].1@[j] == (Channel { unread: spec_is_unread(c0, rs), ..c0 })
            } by {
                assert(l2[i].1@[j] == (Channel { unread: spec_is_unread(l1[i].1@[j], rs), ..l1[i].1@[j] }));
                if j == q.1 {
                    assert(l1[i].1@[j] == Channel { last_message_id: Some(last), ..l0[i].1@[j] });
                } else {
                    assert(l1[i].1@[j] == l0[i].1@[j]);
                }
            }
        } else {
            assert(l1[i] == l0[i]);
            assert forall|j: int| 0 <= j < l2[i].1@.len() implies {
                let c0 = if p == Some((i, j)) {
                    Channel { last_message_id: Some(last), ..l0[i].1@[j] }
                } else {
                    l0[i].1@[j]
                };
                #[trigger] l2[i].1@[j] == (Channel { unread: spec_is_unread(c0, rs), ..c0 })
            } by {
                assert(l2[i].1@[j] == (Channel { unread: spec_is_unread(l1[i].1@[j], rs), ..l1[i].1@[j] }));
            }
        }
    }
}

/// The digits of each `<#digits>` channel mention in a text, left to right,
/// as the `regex` crate finds the matches of `<#(\d+)>` (`\d` being any
/// Unicode decimal digit).
pub uninterp spec fn channel_mention_groups(text: Seq<char>) -> Seq<Seq<char>>;

/// The channel part of each Discord channel link in a text, left to right,
/// as the `regex` crate finds the matches of
/// `https?://(?:ptb\.|canary\.)?discord(?:app)?\.com/channels/\d+/(\d+)`.
pub uninterp spec fn channel_link_groups(text: Seq<char>) -> Seq<Seq<char>>;

/// `regex::Regex::captures_iter` with the mention pattern: the text of the
/// group of each match. The pattern compiles and its one group takes part in
/// every match.
#[verifier::external_body]
fn mention_groups(text: &str) -> (groups: Vec<String>)
    ensures
        groups@.map_values(|g: String| g@) == channel_mention_groups(text@),
{
    match regex::Regex::new(r"<#(\d+)>") {
        Ok(re) => re.captures_iter(text).map(|c| c[1].to_string()).collect(),
        Err(_) => Vec::new(),
    }
}

/// `regex::Regex::captures_iter` with the channel link pattern: the text of
/// the last group of each match. The pattern compiles and that group takes
/// part in every match.
#[verifier::external_body]
fn link_groups(text: &str) -> (groups: Vec<String>)
    ensures
        groups@.map_values(|g: String| g@) == channel_link_groups(text@),
{
    match regex::Regex::new(r"https?://(?:ptb\.|canary\.)?discord(?:app)?\.com/channels/\d+/(\d+)") {
        Ok(re) => re.captures_iter(text).map(|c| c[1].to_string()).collect(),
        Err(_) => Vec::new(),
    }
}

/// The channel ids a message's text mentions, as texts: the `<#id>`
/// mentions, then the channel links.
pub open spec fn mentioned_ids(text: Seq<char>) -> Seq<Seq<char>> {
    channel_mention_groups(text) + channel_link_groups(text)
}

/// The name shown for a mentioned channel: its name after a thread sign, a
/// forum sign or `#`.
pub open spec fn mention_label(c: Channel) -> Seq<char> {
    (if c.kind == ChannelKind::Thread {
        "\u{f066f} "@
    } else if c.kind == ChannelKind::Forum {
        "\u{f0804} "@
    } else {
        "#"@
    }) + c.name@
}

/// Goes through mentioned ids in order: a loaded channel (the first with the
/// id) gets its name recorded; the id of no loaded channel and of no
/// recorded name is unknown (once per mention); a text that is not a `u64`
/// is skipped. Gives the recorded names and the unknown ids.
pub open spec fn mentions_step(
    lists: Seq<(u64, Vec<Channel>)>,
    names: Map<u64, Seq<char>>,
    unknown: Seq<u64>,
    ids: Seq<Seq<char>>,
) -> (Map<u64, Seq<char>>, Seq<u64>)
    decreases ids.len(),
{
    if ids.len() == 0 {
        (names, unknown)
    } else {
        let prev = mentions_step(lists, names, unknown, ids.drop_last());
        match parse_u64(ids.last()) {
            None => prev,
            Some(id) => match channel_position(lists, id) {
                Some(p) => (prev.0.insert(id, mention_label(lists[p.0].1@[p.1])), prev.1),
                None => if prev.0.contains_key(id) {
                    prev
                } else {
                    (prev.0, prev.1.push(id))
                },
            },
        }
    }
}

/// `mentions_step` over the texts of messages, one after the other.
pub open spec fn mentions_all(
    lists: Seq<(u64, Vec<Channel>)>,
    names: Map<u64, Seq<char>>,
    unknown: Seq<u64>,
    msgs: Seq<PaneMessage>,
) -> (Map<u64, Seq<char>>, Seq<u64>)
    decreases msgs.len(),
{
    if msgs.len() == 0 {
        (names, unknown)
    } else {
        let prev = mentions_all(lists, names, unknown, msgs.drop_last());
        mentions_step(lists, prev.0, prev.1, mentioned_ids(msgs.last().content@))
    }
}

/// A filter keeps at most the elements it is given.
proof fn lemma_filter_len_le<A>(s: Seq<A>, pred: spec_fn(A) -> bool)
    ensures
        s.filter(pred).len() <= s.len(),
    decreases s.len(),
{
    reveal(Seq::filter);
    if s.len() > 0 {
        lemma_filter_len_le(s.drop_last(), pred);
    }
}

/// `b` holds the same messages and channel as `a`; only recorded channel
/// names may differ.
pub open spec fn same_pane_messages(a: MessagePaneData, b: MessagePaneData) -> bool {
    &&& b.wf() == a.wf()
    &&& b.spec_messages() == a.spec_messages()
    &&& b.spec_channel_id() == a.spec_channel_id()
    &&& b.spec_channel_name() == a.spec_channel_name()
    &&& b.spec_channel_topic() == a.spec_channel_topic()
    &&& b.spec_loading_state() == a.spec_loading_state()
    &&& b.spec_error() == a.spec_error()
    &&& b.spec_is_dm() == a.spec_is_dm()
    &&& b.spec_is_dirty() == a.spec_is_dirty()
    &&& b.spec_use_display_name() == a.spec_use_display_name()
    &&& b.extras() == a.extras()
}

/// What opening a channel answers (see `ChatScreenState::on_channel_selected`),
/// from the state before and the state after it.
pub open spec fn channel_open_result(before: ChatScreenState, after: ChatScreenState, id: u64) -> Option<ChatKeyResult> {
    match target_guild(before.spec_tree_data(), before.spec_selected_guild(), id) {
        None => None,
        Some(g) => {
            let c = loaded_channel(after.spec_tree_data(), id);
            if c.kind == ChannelKind::Category {
                None
            } else if c.kind == ChannelKind::Forum {
                if before.kept_forum(id) matches Some(fv) && fv.0.len() > 0 {
                    None
                } else {
                    Some(ChatKeyResult::LoadForumThreads { channel_id: id, guild_id: Some(g), offset: 0 })
                }
            } else {
                Some(ChatKeyResult::LoadChannelMessages { channel_id: id, guild_id: Some(g) })
            }
        },
    }
}

/// The threads of the shown forum view, as values (none when the list shows
/// messages).
pub open spec fn shown_threads(s: ChatScreenState) -> Seq<ThreadView> {
    match s.spec_pane().spec_view_mode() {
        ViewMode::Forum(f) => forum_view(f).0,
        ViewMode::Messages => Seq::empty(),
    }
}

/// What opening a thread of a list of threads answers: the first thread with
/// the id is loaded when it belongs to a guild; otherwise the application is
/// asked to jump to the channel.
pub open spec fn thread_jump(vs: Seq<ThreadView>, id: u64) -> ChatKeyResult {
    if exists|k: int| first_thread_at(vs, id, k) {
        let k = choose|k: int| first_thread_at(vs, id, k);
        if vs[k].1 is Some {
            ChatKeyResult::LoadChannelMessages { channel_id: id, guild_id: vs[k].1 }
        } else {
            ChatKeyResult::JumpToChannel(id)
        }
    } else {
        ChatKeyResult::JumpToChannel(id)
    }
}

/// What opening a thread answers (see `ChatScreenState::open_thread`), from
/// the state before and the state after: what opening it as a channel
/// answers, else what the threads then shown give (those of the forum
/// opened with its kept view, or those shown before).
pub open spec fn open_thread_result(before: ChatScreenState, after: ChatScreenState, id: u64) -> ChatKeyResult {
    match channel_open_result(before, after, id) {
        Some(x) => x,
        None => if target_guild(before.spec_tree_data(), before.spec_selected_guild(), id) is Some
            && loaded_channel(after.spec_tree_data(), id).kind == ChannelKind::Forum {
            thread_jump(before.kept_forum(id).unwrap().0, id)
        } else {
            thread_jump(shown_threads(before), id)
        },
    }
}

/// What leaving a thread answers (see `ChatScreenState::close_thread`): from
/// a forum view, `Consumed`; otherwise what opening the open channel's parent
/// answers, or `Ignored`.
pub open spec fn close_thread_result(before: ChatScreenState, after: ChatScreenState) -> ChatKeyResult {
    match before.spec_pane().spec_view_mode() {
        ViewMode::Forum(_) => ChatKeyResult::Consumed,
        ViewMode::Messages => match before.spec_selected_channel() {
            Some(c) if c.parent_id is Some => match channel_open_result(before, after, c.parent_id.unwrap()) {
                Some(x) => x,
                None => ChatKeyResult::Ignored,
            },
            _ => ChatKeyResult::Ignored,
        },
    }
}

/// What asking for older content gives (see
/// `ChatScreenState::load_history_request`).
pub open spec fn history_request(s: ChatScreenState) -> ChatKeyResult {
    match (s.spec_pane().spec_view_mode(), s.spec_pane_data().spec_channel_id()) {
        (ViewMode::Forum(f), Some(cid)) => ChatKeyResult::LoadForumThreads {
            channel_id: cid,
            guild_id: s.spec_selected_guild(),
            offset: if f.threads@.len() <= u32::MAX { f.threads@.len() as u32 } else { 0 },
        },
        (_, Some(cid)) => if s.spec_pane_data().spec_messages().len() > 0 {
            ChatKeyResult::LoadHistory { channel_id: cid, before_message_id: s.spec_pane_data().spec_messages()[0].id }
        } else {
            ChatKeyResult::Ignored
        },
        _ => ChatKeyResult::Ignored,
    }
}

/// What a copy key gives for the selected message: its text, its first
/// image or its id; nothing without a selected message (or image).
pub open spec fn copy_result_ok(r: ChatKeyResult, sel: Option<usize>, act: Option<Action>, messages: Seq<MessageSummary>) -> bool {
    let msg = selected_message(sel, messages);
    match act {
        Some(Action::CopyContent) => match msg {
            Some(m) => r matches ChatKeyResult::CopyToClipboard(t) && t@ == m.content@,
            None => r == ChatKeyResult::Ignored,
        },
        Some(Action::CopyImage) => match msg {
            Some(m) => match m.first_image_id {
                Some(img) => r matches ChatKeyResult::CopyImageToClipboard(t) && t@ == img@,
                None => r == ChatKeyResult::Ignored,
            },
            None => r == ChatKeyResult::Ignored,
        },
        Some(Action::YankId) => match msg {
            Some(m) => r matches ChatKeyResult::CopyToClipboard(t) && t@ == decimal(m.id as nat),
            None => r == ChatKeyResult::Ignored,
        },
        _ => false,
    }
}

/// What opening a message's attachments gives: its images, the link it
/// carries, or nothing.
pub open spec fn attachments_result_ok(r: ChatKeyResult, messages: Seq<MessageSummary>, id: u64) -> bool {
    match summary_with_id(messages, id) {
        Some(k) => match messages[k].content_action {
            ContentAction::OpenImages => r == ChatKeyResult::OpenAttachments(id),
            ContentAction::OpenLink(u) => r matches ChatKeyResult::OpenLink(v) && v@ == u@,
            ContentAction::NoAction => r == ChatKeyResult::Ignored,
        },
        None => r == ChatKeyResult::Ignored,
    }
}

/// Nothing but the message list's navigation state differs.
pub open spec fn list_only_moved(before: ChatScreenState, after: ChatScreenState) -> bool {
    &&& after.same_outside_pane(&before)
    &&& after.spec_pane_data() == before.spec_pane_data()
}

/// A key on the message list (see `ChatScreenState::handle_messages_list_key`),
/// from `before` to `after`, answering `r`.
pub open spec fn list_key_post(
    before: ChatScreenState,
    after: ChatScreenState,
    key: KeyEvent,
    messages: Seq<MessageSummary>,
    user_id: Seq<char>,
    hide_blocked: bool,
    r: ChatKeyResult,
) -> bool {
    let act = first_action(before.spec_registry().inputs(), key);
    let p0 = before.spec_pane();
    match p0.spec_view_mode() {
        ViewMode::Forum(f0) => match spec_forum_action(f0, act) {
            Some(MessagePaneAction::CloseThread) => r == ChatKeyResult::Consumed && after.view() == spec_focus_guilds(
                before.view(),
            ) && after.keeps_data(&before),
            Some(MessagePaneAction::OpenThread(id)) => r == open_thread_result(before, after, id),
            other => {
                &&& r == (if other == Some(MessagePaneAction::LoadHistory) {
                    history_request(before)
                } else {
                    ChatKeyResult::Ignored
                })
                &&& list_only_moved(before, after)
                &&& after.spec_pane().spec_flags().focused == p0.spec_flags().focused
                &&& after.spec_pane().spec_view_mode() matches ViewMode::Forum(f1) && forum_key_post(
                    f0,
                    f1,
                    act,
                    p0.spec_viewport_height(),
                    other,
                )
                &&& after.spec_pane().selection() == p0.selection()
                &&& after.spec_pane().scroll() == p0.scroll()
            },
        },
        ViewMode::Messages => if is_copy_act(act) {
            &&& copy_result_ok(r, p0.selection(), act, messages)
            &&& list_only_moved(before, after)
            &&& after.spec_pane().spec_flags().focused == p0.spec_flags().focused
            &&& messages_pane_moved(p0, after.spec_pane(), act, messages, hide_blocked)
        } else {
            let a = spec_messages_action(p0.selection(), p0.scroll(), act, messages, hide_blocked);
            match a {
                Some(MessagePaneAction::Edit(id)) => own_message_outcome(
                    before,
                    after,
                    MessagePaneAction::Edit(id),
                    messages,
                    user_id,
                    r,
                ) && after.keeps_data(&before),
                Some(MessagePaneAction::EditExternal(id)) => own_message_outcome(
                    before,
                    after,
                    MessagePaneAction::EditExternal(id),
                    messages,
                    user_id,
                    r,
                ) && after.keeps_data(&before),
                Some(MessagePaneAction::Delete(id)) => own_message_outcome(
                    before,
                    after,
                    MessagePaneAction::Delete(id),
                    messages,
                    user_id,
                    r,
                ) && after.keeps_data(&before),
                Some(MessagePaneAction::OpenThread(c)) => r == open_thread_result(before, after, c),
                Some(MessagePaneAction::CloseThread) => r == close_thread_result(before, after),
                _ => {
                    &&& match a {
                        Some(MessagePaneAction::Reply { message_id, mention }) => r == ChatKeyResult::ReplyToMessage {
                            message_id,
                            mention,
                        },
                        Some(MessagePaneAction::JumpToReply(id)) => r == ChatKeyResult::JumpToMessage(id),
                        Some(MessagePaneAction::OpenAttachments(id)) => attachments_result_ok(r, messages, id),
                        Some(MessagePaneAction::LoadHistory) => r == history_request(before),
                        _ => r == ChatKeyResult::Ignored,
                    }
                    &&& list_only_moved(before, after)
                    &&& after.spec_pane().spec_flags().focused == p0.spec_flags().focused
                    &&& messages_pane_moved(p0, after.spec_pane(), act, messages, hide_blocked)
                },
            }
        },
    }
}

/// Two modes of the message list with the same values: the same forum view,
/// or both the messages.
pub open spec fn same_mode_values(a: ViewMode, b: ViewMode) -> bool {
    match (a, b) {
        (ViewMode::Forum(f), ViewMode::Forum(g)) => forum_view(f) == forum_view(g),
        (ViewMode::Messages, ViewMode::Messages) => true,
        _ => false,
    }
}

/// Moving the message list's selection or scroll (the forum view keeping its
/// values) changes nothing of what opening or leaving a thread, or asking
/// for older content, answers.
proof fn lemma_list_moved_same_results(before: ChatScreenState, mid: ChatScreenState)
    requires
        mid.same_outside_pane(&before),
        mid.spec_pane_data() == before.spec_pane_data(),
    ensures
        same_mode_values(before.spec_pane().spec_view_mode(), mid.spec_pane().spec_view_mode()) ==> {
            &&& history_request(mid) == history_request(before)
            &&& shown_threads(mid) == shown_threads(before)
            &&& forall|id: u64| #[trigger] mid.kept_forum(id) == before.kept_forum(id)
            &&& forall|after: ChatScreenState, id: u64| #[trigger] open_thread_result(mid, after, id)
                == open_thread_result(before, after, id)
            &&& forall|after: ChatScreenState| #[trigger] close_thread_result(mid, after) == close_thread_result(before, after)
        },
{
    if same_mode_values(before.spec_pane().spec_view_mode(), mid.spec_pane().spec_view_mode()) {
        match (before.spec_pane().spec_view_mode(), mid.spec_pane().spec_view_mode()) {
            (ViewMode::Forum(f), ViewMode::Forum(g)) => {
                assert(f.threads@.len() == forum_view(f).0.len());
                assert(g.threads@.len() == forum_view(g).0.len());
            },
            _ => {},
        }
        assert forall|id: u64| #[trigger] mid.kept_forum(id) == before.kept_forum(id) by {}
        assert forall|after: ChatScreenState, id: u64| #[trigger] open_thread_result(mid, after, id)
            == open_thread_result(before, after, id) by {
            assert(mid.kept_forum(id) == before.kept_forum(id));
            assert(channel_open_result(mid, after, id) == channel_open_result(before, after, id));
        }
        assert forall|after: ChatScreenState| #[trigger] close_thread_result(mid, after) == close_thread_result(before, after) by {
            match before.spec_selected_channel() {
                Some(c) => if c.parent_id is Some {
                    assert(mid.kept_forum(c.parent_id.unwrap()) == before.kept_forum(c.parent_id.unwrap()));
                    assert(channel_open_result(mid, after, c.parent_id.unwrap()) == channel_open_result(before, after, c.parent_id.unwrap()));
                },
                None => {},
            }
        }
    }
}

/// What carrying out a list action does (see
/// `ChatScreenState::apply_list_action`), from `before` to `after`.
pub open spec fn list_action_post(
    before: ChatScreenState,
    after: ChatScreenState,
    action: Option<MessagePaneAction>,
    messages: Seq<MessageSummary>,
    user_id: Seq<char>,
    r: ChatKeyResult,
) -> bool {
    match action {
        None => r == ChatKeyResult::Ignored && after == before,
        Some(MessagePaneAction::ClearSelection) => r == ChatKeyResult::Ignored && after == before,
        Some(MessagePaneAction::SelectMessage(_)) => r == ChatKeyResult::Ignored && after == before,
        Some(MessagePaneAction::Reply { message_id, mention }) => r == ChatKeyResult::ReplyToMessage {
            message_id,
            mention,
        } && after == before,
        Some(MessagePaneAction::YankContent(c)) => r == ChatKeyResult::CopyToClipboard(c) && after == before,
        Some(MessagePaneAction::YankUrl(c)) => r == ChatKeyResult::CopyToClipboard(c) && after == before,
        Some(MessagePaneAction::YankId(c)) => r == ChatKeyResult::CopyToClipboard(c) && after == before,
        Some(MessagePaneAction::CopyImage(c)) => r == ChatKeyResult::CopyImageToClipboard(c) && after == before,
        Some(MessagePaneAction::JumpToReply(id)) => r == ChatKeyResult::JumpToMessage(id) && after == before,
        Some(MessagePaneAction::OpenAttachments(id)) => after == before && match summary_with_id(messages, id) {
            Some(k) => match messages[k].content_action {
                ContentAction::OpenImages => r == ChatKeyResult::OpenAttachments(id),
                ContentAction::OpenLink(u) => r matches ChatKeyResult::OpenLink(v) && v@ == u@,
                ContentAction::NoAction => r == ChatKeyResult::Ignored,
            },
            None => r == ChatKeyResult::Ignored,
        },
        Some(MessagePaneAction::LoadHistory) => after == before && (match (
            before.spec_pane().spec_view_mode(),
            before.spec_pane_data().spec_channel_id(),
        ) {
            (ViewMode::Forum(f), Some(cid)) => r == ChatKeyResult::LoadForumThreads {
                channel_id: cid,
                guild_id: before.spec_selected_guild(),
                offset: if f.threads@.len() <= u32::MAX { f.threads@.len() as u32 } else { 0 },
            },
            (_, Some(cid)) => r == (if before.spec_pane_data().spec_messages().len() > 0 {
                ChatKeyResult::LoadHistory {
                    channel_id: cid,
                    before_message_id: before.spec_pane_data().spec_messages()[0].id,
                }
            } else {
                ChatKeyResult::Ignored
            }),
            _ => r == ChatKeyResult::Ignored,
        }),
        Some(MessagePaneAction::Edit(id)) => own_message_outcome(
            before,
            after,
            MessagePaneAction::Edit(id),
            messages,
            user_id,
            r,
        ) && after.keeps_data(&before),
        Some(MessagePaneAction::EditExternal(id)) => own_message_outcome(
            before,
            after,
            MessagePaneAction::EditExternal(id),
            messages,
            user_id,
            r,
        ) && after.keeps_data(&before),
        Some(MessagePaneAction::Delete(id)) => own_message_outcome(
            before,
            after,
            MessagePaneAction::Delete(id),
            messages,
            user_id,
            r,
        ) && after.keeps_data(&before),
        Some(MessagePaneAction::OpenThread(c)) => r == open_thread_result(before, after, c),
        Some(MessagePaneAction::CloseThread) => r == close_thread_result(before, after) && (before.spec_pane().spec_view_mode() is Forum
            ==> after.view() == spec_focus_guilds(before.view()) && after.keeps_data(&before)),
    }
}

/// A key moves the list (`before` to `mid`) and its action is carried out
/// (`mid` to `after`): together they are what a key on the message list does.
#[verifier::spinoff_prover]
#[verifier::rlimit(60)]
proof fn lemma_list_key_post(
    before: ChatScreenState,
    mid: ChatScreenState,
    after: ChatScreenState,
    key: KeyEvent,
    messages: Seq<MessageSummary>,
    user_id: Seq<char>,
    hide_blocked: bool,
    a: Option<MessagePaneAction>,
    r: ChatKeyResult,
)
    requires
        pane_key_post(
            before.spec_pane(),
            mid.spec_pane(),
            first_action(before.spec_registry().inputs(), key),
            messages,
            hide_blocked,
            a,
        ),
        mid.same_outside_pane(&before),
        mid.spec_pane_data() == before.spec_pane_data(),
        list_action_post(mid, after, a, messages, user_id, r),
    ensures
        list_key_post(before, after, key, messages, user_id, hide_blocked, r),
{
    let act = first_action(before.spec_registry().inputs(), key);
    let p0 = before.spec_pane();
    lemma_list_moved_same_results(before, mid);
    assert(list_only_moved(before, mid));
    match p0.spec_view_mode() {
        ViewMode::Forum(f0) => {
            let f1 = mid.spec_pane().spec_view_mode()->Forum_0;
            assert(a == spec_forum_action(f0, act));
            assert(f1.threads@ == f0.threads@);
            if a == Some(MessagePaneAction::LoadHistory) || (a is Some && a.unwrap() is OpenThread) {
                assert(forum_view(f1) == forum_view(f0)) by {
                    assert(f1.threads@.map_values(|t: ForumThread| thread_view(t)) =~= f0.threads@.map_values(
                        |t: ForumThread| thread_view(t),
                    ));
                }
                assert(same_mode_values(p0.spec_view_mode(), mid.spec_pane().spec_view_mode()));
            }
            match a {
                Some(MessagePaneAction::OpenThread(id)) => {
                    assert(open_thread_result(mid, after, id) == open_thread_result(before, after, id));
                },
                Some(MessagePaneAction::CloseThread) => {
                    assert(mid.view() == before.view());
                    assert(after.keeps_data(&mid));
                },
                Some(MessagePaneAction::LoadHistory) => {
                    assert(after == mid);
                    assert(history_request(mid) == history_request(before));
                },
                _ => {
                    assert(a is None);
                    assert(after == mid);
                },
            }
        },
        ViewMode::Messages => {
            assert(same_mode_values(p0.spec_view_mode(), mid.spec_pane().spec_view_mode()));
            if !is_copy_act(act) {
                let sa = spec_messages_action(p0.selection(), p0.scroll(), act, messages, hide_blocked);
                assert(a == sa);
                match sa {
                    Some(MessagePaneAction::OpenThread(c)) => {
                        assert(open_thread_result(mid, after, c) == open_thread_result(before, after, c));
                    },
                    Some(MessagePaneAction::CloseThread) => {
                        assert(close_thread_result(mid, after) == close_thread_result(before, after));
                    },
                    Some(MessagePaneAction::LoadHistory) => {
                        assert(history_request(mid) == history_request(before));
                    },
                    _ => {},
                }
            }
        },
    }
}

/// A key on the message input (see
/// `ChatScreenState::handle_message_input_key`), from `before` to `after`,
/// answering `r`.
pub open spec fn input_key_post(before: ChatScreenState, after: ChatScreenState, key: KeyEvent, r: ChatKeyResult) -> bool {
    &&& after.keeps_data(&before)
    &&& after.spec_switcher() == before.spec_switcher()
    &&& ({
        let act = first_action(before.spec_registry().inputs(), key);
        if !is_text_editing(key) && leaves_input(act) {
            r == ChatKeyResult::Ignored && after == before
        } else if act == Some(Action::ToggleFileExplorer) {
            r == ChatKeyResult::Consumed && after.view() == (ChatView {
                explorer: !before.view().explorer,
                ..before.view()
            })
        } else {
            let step = input_step(before.spec_input().input_view(), key, act);
            &&& after.spec_input().input_view() == step.0
            &&& match step.1 {
                None => r == ChatKeyResult::Ignored && after.view() == before.view(),
                Some(InputRequest::SendMessage { content, reply_to, attachments }) => {
                    &&& r matches ChatKeyResult::SendMessage { content: c, reply_to: rt, attachments: at }
                        && c@ == content && rt == reply_to && strings_view(at@) == attachments
                    &&& after.spec_pane().selection() is None
                    &&& after.view() == before.view()
                },
                Some(InputRequest::EditMessage { message_id, content }) => (r matches ChatKeyResult::SubmitEdit {
                    message_id: m,
                    content: c,
                } && m == message_id && c@ == content) && after.view() == before.view(),
                Some(InputRequest::ExitInput) => r == ChatKeyResult::Ignored && after.view() == spec_set_focus(
                    before.view(),
                    ChatFocus::MessagesList,
                ),
                Some(InputRequest::OpenEditor) => (r matches ChatKeyResult::OpenEditor {
                    initial_content: c,
                    message_id: m,
                } && c@ == join_lines(step.0.text.lines) && m == (match step.0.mode {
                    MessageInputMode::Editing { message_id } => Some(message_id),
                    _ => None,
                })) && after.view() == before.view(),
                Some(InputRequest::Paste) => r == ChatKeyResult::Paste && after.view() == before.view(),
                Some(InputRequest::StartTyping) => r == ChatKeyResult::StartTyping && after.view() == before.view(),
                Some(InputRequest::CancelReply) => r == ChatKeyResult::StartTyping && after.view() == before.view(),
            }
        }
    })
}

/// A key on the guilds tree (see `ChatScreenState::handle_guilds_tree_key`),
/// from `before` to `after`, answering `r`.
pub open spec fn tree_key_post(before: ChatScreenState, after: ChatScreenState, key: KeyEvent, r: ChatKeyResult) -> bool {
    let res = tree_key_result(
        before.spec_tree_data(),
        before.spec_tree().expanded_keys(),
        before.spec_tree().selected_key(),
        before.spec_tree().spec_list_selected(),
        first_action(before.spec_registry().inputs(), key),
    );
    let only_tree_moved = {
        &&& after.keeps_data(&before)
        &&& after.view() == before.view()
        &&& after.spec_input() == before.spec_input()
        &&& after.spec_pane() == before.spec_pane()
        &&& after.spec_switcher() == before.spec_switcher()
        &&& after.spec_tree().expanded_keys() == res.0
        &&& after.spec_tree().selected_key() == res.1
        &&& after.spec_tree().spec_list_selected() == res.2
        &&& after.spec_tree().spec_focused() == before.spec_tree().spec_focused()
    };
    match res.3 {
        None => r == ChatKeyResult::Ignored && only_tree_moved,
        Some(TreeRequest::YankId(text)) => (r matches ChatKeyResult::CopyToClipboard(t) && t@ == text) && only_tree_moved,
        Some(TreeRequest::LoadGuildChannels(g)) => r == ChatKeyResult::LoadGuildChannels(g) && only_tree_moved,
        Some(TreeRequest::SelectChannel(c)) => r == (match channel_open_result(before, after, c) {
            Some(x) => x,
            None => ChatKeyResult::Ignored,
        }),
        Some(TreeRequest::SelectGuild(g)) => if before.spec_selected_guild() == Some(g) {
            r == ChatKeyResult::Ignored && only_tree_moved
        } else {
            &&& after.spec_selected_guild() == Some(g)
            &&& after.view() == before.view()
            &&& r == (if before.spec_tree_data().spec_channels(g) is None {
                ChatKeyResult::LoadGuildChannels(g)
            } else {
                ChatKeyResult::Ignored
            })
        },
        Some(TreeRequest::SelectDirectMessage(id)) => match dm_entry(before.spec_tree_data().spec_dm_users(), id) {
            Some(k) if parse_u64(id) is Some => {
                &&& r matches ChatKeyResult::LoadDmMessages { channel_id: c, recipient_name: n } && c == parse_u64(id).unwrap()
                    && n@ == before.spec_tree_data().spec_dm_users()[k].1@
                &&& after.view() == spec_set_focus(before.view(), ChatFocus::MessagesList)
            },
            _ => r == ChatKeyResult::Ignored && only_tree_moved,
        },
    }
}

/// A key bound to an application-wide action (see
/// `ChatScreenState::handle_global_key`), from `before` to `after`,
/// answering `r`.
pub open spec fn global_key_post(before: ChatScreenState, after: ChatScreenState, key: KeyEvent, r: Option<ChatKeyResult>) -> bool {
    let act = first_action(before.spec_registry().inputs(), key);
    &&& (after.view(), r) == spec_global_key(before.view(), act, key.code)
    &&& after.spec_registry() == before.spec_registry()
    &&& after.spec_input().input_view() == before.spec_input().input_view()
    &&& after.keeps_data(&before)
    &&& act != Some(Action::ToggleQuickSwitcher) ==> after.spec_switcher() == before.spec_switcher()
    &&& act == Some(Action::ToggleQuickSwitcher) ==> after.spec_switcher().recents == before.spec_switcher().recents
        && after.spec_switcher().sort_mode == before.spec_switcher().sort_mode
        && (after.view().switcher ==> after.spec_switcher().input@.len() == 0
        && after.shows_empty_results(before.spec_empty_results()))
        && (!after.view().switcher ==> after.spec_switcher() == before.spec_switcher())
}

/// A key handled by the pane that has focus, from `before` to `after`,
/// answering `r`.
pub open spec fn focused_key_post(
    before: ChatScreenState,
    after: ChatScreenState,
    key: KeyEvent,
    messages: Seq<MessageSummary>,
    user_id: Seq<char>,
    hide_blocked: bool,
    r: ChatKeyResult,
) -> bool {
    match before.view().focus {
        ChatFocus::MessageInput => input_key_post(before, after, key, r),
        ChatFocus::GuildsTree => tree_key_post(before, after, key, r),
        ChatFocus::MessagesList => list_key_post(before, after, key, messages, user_id, hide_blocked, r),
        ChatFocus::ConfirmationModal => r == ChatKeyResult::Consumed && after == before,
    }
}

/// Loading the channels of a guild (see `ChatScreenState::set_channels`),
/// from `before` to `after`; without both a guild and its channels nothing
/// changes.
pub open spec fn channels_loaded(
    before: ChatScreenState,
    after: ChatScreenState,
    guild_id: Option<u64>,
    channels: Option<Vec<Channel>>,
    can_view: Option<Vec<bool>>,
) -> bool {
    match (guild_id, channels) {
        (Some(g), Some(cs)) => {
            &&& after.wf()
            &&& after.view() == before.view()
            &&& after.spec_registry() == before.spec_registry()
            &&& after.spec_pane_data() == before.spec_pane_data()
            &&& after.spec_read_states() == before.spec_read_states()
            &&& after.spec_recents() == before.spec_recents()
            &&& after.spec_selected_guild() == before.spec_selected_guild()
            &&& after.spec_tree_data().spec_channels(g) == Some(spec_visible_channels(
                cs@,
                match can_view {
                    Some(v) => Some(v@),
                    None => None,
                },
            ))
            &&& forall|h: u64| h != g ==> after.spec_tree_data().spec_channels(h) == before.spec_tree_data().spec_channels(h)
            &&& after.spec_tree_data().spec_guilds() == before.spec_tree_data().spec_guilds()
        },
        _ => after == before,
    }
}

/// Opening the channel to restore (see `ChatScreenState::on_channel_selected`),
/// from `before` to `after`, answering `r`; with no channel nothing changes.
pub open spec fn channel_restored(before: ChatScreenState, after: ChatScreenState, channel_id: Option<u64>, r: Option<ChatKeyResult>) -> bool {
    match channel_id {
        None => after == before && r is None,
        Some(c) => {
            &&& after.wf()
            &&& after.spec_registry() == before.spec_registry()
            &&& r == channel_open_result(before, after, c)
            &&& target_guild(before.spec_tree_data(), before.spec_selected_guild(), c) is None ==> after == before
            &&& r is Some ==> {
                &&& after.view() == spec_set_focus(before.view(), ChatFocus::MessagesList)
                &&& after.spec_selected_channel() matches Some(ch) && ch.id == c
                &&& after.spec_pane_data().spec_channel_id() == Some(c)
                &&& after.spec_selected_guild() == target_guild(before.spec_tree_data(), before.spec_selected_guild(), c)
            }
        },
    }
}

/// A kept forum view holds a thread with the id.
pub open spec fn thread_kept(forums: Map<u64, ForumState>, id: u64) -> bool {
    exists|p: u64, k: int| forums.contains_key(p) && 0 <= k < forums[p].threads@.len()
        && (#[trigger] forums[p].threads@[k]).id == id
}

/// A forum thread as plain values: id, guild, name, author, message and
/// reaction counts, last message, and whether it is new.
pub type ThreadView = (u64, Option<u64>, Seq<char>, Seq<char>, u32, u32, Option<u64>, bool);

/// Whether a thread holds messages not read yet: a thread without a read
/// state is new; one with a read state is new when its last message is not
/// the last one read, and not new when it has no last message.
pub open spec fn thread_is_new(read_states: Map<u64, ReadState>, id: u64, last: Option<u64>) -> bool {
    if read_states.contains_key(id) {
        match last {
            Some(m) => read_states[id].last_read_message_id != Some(m),
            None => false,
        }
    } else {
        true
    }
}

/// A thread with its new flag set from the read states.
pub open spec fn flagged_thread(read_states: Map<u64, ReadState>, v: ThreadView) -> ThreadView {
    (v.0, v.1, v.2, v.3, v.4, v.5, v.6, thread_is_new(read_states, v.0, v.6))
}

/// Threads with their new flags set from the read states.
pub open spec fn flagged_threads(read_states: Map<u64, ReadState>, ts: Seq<ForumThread>) -> Seq<ThreadView> {
    ts.map_values(|t: ForumThread| flagged_thread(read_states, thread_view(t)))
}

/// `k` is the first position of a thread with id `id`.
pub open spec fn first_thread_at(vs: Seq<ThreadView>, id: u64, k: int) -> bool {
    &&& 0 <= k < vs.len()
    &&& vs[k].0 == id
    &&& forall|j: int| 0 <= j < k ==> vs[j].0 != id
}

/// The forum view once a page of (flagged) threads arrives. Over a forum
/// view, a page at a nonzero offset goes before the threads shown, and the
/// selected thread stays selected, the scroll moving down by the number of
/// threads added (none when they do not fit a `u16`; at most the largest
/// `u16`); a first page replaces the threads, and selects the last one when
/// the selection was at or past the last thread. Over the messages, the
/// threads make a new forum view that selects the last thread, if any.
pub open spec fn forum_after_threads(before: ViewMode, flagged: Seq<ThreadView>, offset: u32) -> (Seq<ThreadView>, usize, u16, bool) {
    match before {
        ViewMode::Forum(f) => {
            let shown = forum_view(f).0;
            if offset > 0 {
                let all = flagged + shown;
                if f.selected_idx < shown.len() {
                    let id = shown[f.selected_idx as int].0;
                    let k = choose|k: int| first_thread_at(all, id, k);
                    let add: int = if flagged.len() <= u16::MAX { flagged.len() as int } else { 0 };
                    let scroll: u16 = if f.scroll_offset + add <= u16::MAX { (f.scroll_offset + add) as u16 } else { u16::MAX };
                    (all, k as usize, scroll, f.needs_scroll_to_selection)
                } else {
                    (all, f.selected_idx, f.scroll_offset, f.needs_scroll_to_selection)
                }
            } else if f.selected_idx + 1 >= shown.len() && flagged.len() > 0 {
                (flagged, (flagged.len() - 1) as usize, f.scroll_offset, true)
            } else {
                (flagged, f.selected_idx, f.scroll_offset, f.needs_scroll_to_selection)
            }
        },
        ViewMode::Messages => if flagged.len() > 0 {
            (flagged, (flagged.len() - 1) as usize, 0u16, true)
        } else {
            (flagged, 0usize, 0u16, false)
        },
    }
}

/// The first position of a thread with id `id`, which the list holds.
fn thread_position(ts: &Vec<ForumThread>, id: u64) -> (k: usize)
    requires
        exists|j: int| 0 <= j < ts@.len() && ts@[j].id == id,
    ensures
        first_thread_at(ts@.map_values(|t: ForumThread| thread_view(t)), id, k as int),
{
    let ghost vs = ts@.map_values(|t: ForumThread| thread_view(t));
    let mut i: usize = 0;
    while i < ts.len()
        invariant
            i <= ts@.len(),
            vs == ts@.map_values(|t: ForumThread| thread_view(t)),
            forall|j: int| 0 <= j < i ==> ts@[j].id != id,
            exists|j: int| i <= j < ts@.len() && ts@[j].id == id,
        decreases ts@.len() - i,
    {
        if ts[i].id == id {
            assert forall|j: int| 0 <= j < i implies vs[j].0 != id by {
                assert(vs[j] == thread_view(ts@[j]));
            }
            return i;
        }
        i = i + 1;
    }
    i
}

/// The first position of a thread in a list is unique.
proof fn lemma_first_thread_unique(vs: Seq<ThreadView>, id: u64, k: int)
    requires
        first_thread_at(vs, id, k),
    ensures
        (choose|c: int| first_thread_at(vs, id, c)) == k,
{
    let c = choose|c: int| first_thread_at(vs, id, c);
    assert(first_thread_at(vs, id, c));
    if c < k {
        assert(vs[c].0 != id);
    } else if c > k {
        assert(vs[k].0 != id);
    }
}

impl ChatScreenState {
    /// The panes as values.
    pub closed spec fn view(&self) -> ChatView {
        ChatView {
            focus: self.focus,
            tree_visible: self.guilds_tree_visible,
            help: self.show_help,
            explorer: self.show_file_explorer,
            switcher: self.show_quick_switcher,
            pending_deletion: self.pending_deletion_id,
        }
    }

    /// The key bindings are well formed, the input is, and exactly the pane
    /// that has focus knows it.
    pub closed spec fn wf(&self) -> bool {
        &&& self.registry.wf()
        &&& self.message_input_state.wf()
        &&& self.guilds_tree_data.wf()
        &&& self.guilds_tree_state.wf()
        &&& self.message_pane_data.wf()
        &&& self.guilds_tree_state.spec_focused() == (self.focus == ChatFocus::GuildsTree)
        &&& self.message_pane_state.spec_flags().focused == (self.focus == ChatFocus::MessagesList)
        &&& self.message_input_state.spec_focused() == (self.focus == ChatFocus::MessageInput)
    }

    /// The key bindings.
    pub closed spec fn spec_registry(&self) -> CommandRegistry {
        self.registry
    }

    /// The message input's state.
    pub closed spec fn spec_input(&self) -> MessageInputState {
        self.message_input_state
    }

    /// The guilds tree's state.
    pub closed spec fn spec_tree(&self) -> GuildsTreeState {
        self.guilds_tree_state
    }

    /// The guilds, folders and channels the tree shows.
    pub closed spec fn spec_tree_data(&self) -> GuildsTreeData {
        self.guilds_tree_data
    }

    /// The messages of the open channel.
    pub closed spec fn spec_pane_data(&self) -> MessagePaneData {
        self.message_pane_data
    }

    /// The message list's navigation state.
    pub closed spec fn spec_pane(&self) -> MessagePaneState {
        self.message_pane_state
    }

    /// The quick switcher.
    pub closed spec fn spec_switcher(&self) -> QuickSwitcher {
        self.quick_switcher
    }

    /// The remembered places.
    pub closed spec fn spec_recents(&self) -> Seq<RecentItem> {
        self.recents@
    }

    /// The read state of each channel, by channel id.
    pub closed spec fn spec_read_states(&self) -> Map<u64, ReadState> {
        self.read_states@
    }

    /// The guild of the open channel.
    pub closed spec fn spec_selected_guild(&self) -> Option<u64> {
        self.selected_guild
    }

    /// The open channel of a guild.
    pub closed spec fn spec_selected_channel(&self) -> Option<Channel> {
        self.selected_channel
    }

    /// The forum view last shown for each forum channel, by channel id.
    pub closed spec fn spec_forum_states(&self) -> Map<u64, ForumState> {
        self.forum_states@
    }

    /// The state of the connection shown in the header.
    pub closed spec fn spec_connection_status(&self) -> ConnectionStatus {
        self.connection_status
    }

    /// Whether the entrance animation has finished (or was never wanted).
    pub closed spec fn spec_has_entered(&self) -> bool {
        self.has_entered
    }

    /// The time, in nanoseconds, that passed and that the entrance animation
    /// has not played yet.
    pub closed spec fn spec_pending_nanos(&self) -> u128 {
        nanos_of(self.pending_duration)
    }

    /// `self` holds the same key bindings, guilds, channels, messages, read
    /// states, remembered places, open channel, forum views, connection state
    /// and entrance animation as `other`.
    pub open spec fn keeps_data(&self, other: &Self) -> bool {
        &&& self.spec_registry() == other.spec_registry()
        &&& self.spec_tree_data() == other.spec_tree_data()
        &&& self.spec_pane_data() == other.spec_pane_data()
        &&& self.spec_recents() == other.spec_recents()
        &&& self.spec_read_states() == other.spec_read_states()
        &&& self.spec_selected_guild() == other.spec_selected_guild()
        &&& self.spec_selected_channel() == other.spec_selected_channel()
        &&& self.spec_forum_states() == other.spec_forum_states()
        &&& self.spec_connection_status() == other.spec_connection_status()
        &&& self.spec_has_entered() == other.spec_has_entered()
        &&& self.spec_pending_nanos() == other.spec_pending_nanos()
    }

    /// A chat screen with the guilds tree shown and focused, no overlay open,
    /// disconnected, the valid items of `recents` remembered, and the
    /// entrance animation still to play when animations are enabled.
    pub fn new(
        use_display_name: bool,
        enable_animations: bool,
        registry: CommandRegistry,
        quick_switcher_order: QuickSwitcherSortMode,
        recents: Vec<RecentItem>,
    ) -> (s: Self)
        requires
            registry.wf(),
        ensures
            s.wf(),
            s.view() == (ChatView {
                focus: ChatFocus::GuildsTree,
                tree_visible: true,
                help: false,
                explorer: false,
                switcher: false,
                pending_deletion: None,
            }),
            s.spec_registry() == registry,
            s.spec_recents() == valid_recents(recents@),
            recents_view(s.spec_switcher().recents@) == recents_view(s.spec_recents()),
            s.spec_switcher().sort_mode == quick_switcher_order,
            s.spec_switcher().input@.len() == 0,
            s.spec_switcher().selected is None,
            s.spec_tree_data().spec_guilds().len() == 0,
            s.spec_pane_data().spec_messages().len() == 0,
            s.spec_pane_data().spec_use_display_name() == use_display_name,
            s.spec_connection_status() == ConnectionStatus::Disconnected,
            s.spec_has_entered() == !enable_animations,
            s.spec_pending_nanos() == 0,
    {
        let mut guilds_tree_state = GuildsTreeState::new();
        guilds_tree_state.set_focused(true);
        let message_pane_state = MessagePaneState::new();
        let message_input_state = MessageInputState::new();
        let ghost pred = worth_remembering();
        let ghost all = recents@;
        let mut rest = recents;
        let mut kept: Vec<RecentItem> = Vec::new();
        let mut copies: Vec<RecentItem> = Vec::new();
        let mut n: usize = 0;
        proof {
            reveal(Seq::filter);
            assert(all.take(0) =~= Seq::<RecentItem>::empty());
            assert(all.len() == rest.len());
        }
        while rest.len() > 0
            invariant
                n + rest@.len() == all.len(),
                all.len() <= usize::MAX,
                pred == worth_remembering(),
                rest@ == all.skip(n as int),
                kept@ == all.take(n as int).filter(pred),
                copies@.len() == kept@.len(),
                recents_view(copies@) == recents_view(kept@),
            decreases rest@.len(),
        {
            let r = rest.remove(0);
            assert(r == all[n as int]);
            proof {
                reveal(Seq::filter);
                assert(all.take(n + 1).drop_last() =~= all.take(n as int));
                assert(all.take(n + 1).last() == r);
                assert(rest@ =~= all.skip(n + 1));
            }
            if is_valid_recent_item(&r) {
                let ghost cv = recents_view(copies@);
                copies.push(copy_recent(&r));
                kept.push(r);
                proof {
                    reveal(Seq::filter);
                    assert(recents_view(copies@) =~= cv.push(recent_view(r)));
                    assert(recents_view(kept@) =~= cv.push(recent_view(r)));
                }
                assert(kept@ =~= all.take(n + 1).filter(pred));
            } else {
                proof {
                    reveal(Seq::filter);
                }
                assert(kept@ =~= all.take(n + 1).filter(pred));
            }
            n = n + 1;
        }
        assert(all.take(n as int) =~= all);
        let mut quick_switcher = QuickSwitcher::new(quick_switcher_order);
        quick_switcher.set_recents(copies);
        ChatScreenState {
            focus: ChatFocus::GuildsTree,
            guilds_tree_visible: true,
            guilds_tree_state,
            guilds_tree_data: GuildsTreeData::new(),
            message_pane_state,
            message_pane_data: MessagePaneData::new(use_display_name),
            message_input_state,
            registry,
            show_help: false,
            show_file_explorer: false,
            show_quick_switcher: false,
            pending_deletion_id: None,
            quick_switcher,
            recents: kept,
            read_states: HashMap::new(),
            selected_guild: None,
            selected_channel: None,
            forum_states: HashMap::new(),
            connection_status: ConnectionStatus::Disconnected,
            has_entered: !enable_animations,
            pending_duration: duration_from_millis(0),
        }
    }

    /// Lets `duration` pass: while the entrance animation has not finished,
    /// the time it still has to play grows by `duration` (up to the longest
    /// duration). Nothing else changes.
    pub fn tick(&mut self, duration: Duration)
        requires
            old(self).wf(),
        ensures
            final(self).wf(),
            final(self).view() == old(self).view(),
            final(self).spec_input() == old(self).spec_input(),
            final(self).spec_tree() == old(self).spec_tree(),
            final(self).spec_pane() == old(self).spec_pane(),
            final(self).spec_switcher() == old(self).spec_switcher(),
            final(self).spec_registry() == old(self).spec_registry(),
            final(self).spec_tree_data() == old(self).spec_tree_data(),
            final(self).spec_pane_data() == old(self).spec_pane_data(),
            final(self).spec_recents() == old(self).spec_recents(),
            final(self).spec_read_states() == old(self).spec_read_states(),
            final(self).spec_selected_guild() == old(self).spec_selected_guild(),
            final(self).spec_selected_channel() == old(self).spec_selected_channel(),
            final(self).spec_forum_states() == old(self).spec_forum_states(),
            final(self).spec_connection_status() == old(self).spec_connection_status(),
            final(self).spec_has_entered() == old(self).spec_has_entered(),
            final(self).spec_pending_nanos() == if old(self).spec_has_entered() {
                old(self).spec_pending_nanos()
            } else if old(self).spec_pending_nanos() + nanos_of(duration) <= max_duration_nanos() {
                (old(self).spec_pending_nanos() + nanos_of(duration)) as u128
            } else {
                max_duration_nanos()
            },
    {
        if !self.has_entered {
            self.pending_duration = duration_saturating_add(self.pending_duration, duration);
        }
    }

    /// Whether the entrance animation has finished.
    pub fn has_entered(&self) -> (b: bool)
        ensures
            b == self.spec_has_entered(),
    {
        self.has_entered
    }

    /// The state of the connection.
    pub fn connection_status(&self) -> (c: ConnectionStatus)
        ensures
            c == self.spec_connection_status(),
    {
        self.connection_status
    }

    /// Records the state of the connection; nothing else changes.
    pub fn set_connection_status(&mut self, status: ConnectionStatus)
        requires
            old(self).wf(),
        ensures
            final(self).wf(),
            final(self).spec_connection_status() == status,
            final(self).view() == old(self).view(),
            final(self).spec_input() == old(self).spec_input(),
            final(self).spec_tree() == old(self).spec_tree(),
            final(self).spec_pane() == old(self).spec_pane(),
            final(self).spec_switcher() == old(self).spec_switcher(),
            final(self).spec_registry() == old(self).spec_registry(),
            final(self).spec_tree_data() == old(self).spec_tree_data(),
            final(self).spec_pane_data() == old(self).spec_pane_data(),
            final(self).spec_recents() == old(self).spec_recents(),
            final(self).spec_read_states() == old(self).spec_read_states(),
            final(self).spec_selected_guild() == old(self).spec_selected_guild(),
            final(self).spec_selected_channel() == old(self).spec_selected_channel(),
            final(self).spec_forum_states() == old(self).spec_forum_states(),
            final(self).spec_has_entered() == old(self).spec_has_entered(),
            final(self).spec_pending_nanos() == old(self).spec_pending_nanos(),
    {
        self.connection_status = status;
    }

    /// The forum view kept for a channel once the shown one is put aside:
    /// the shown forum view when the channel is the shown one, else the one
    /// kept before, if any.
    pub open spec fn kept_forum(&self, id: u64) -> Option<(Seq<(u64, Option<u64>, Seq<char>, Seq<char>, u32, u32, Option<u64>, bool)>, usize, u16, bool)> {
        match self.spec_pane().spec_view_mode() {
            ViewMode::Forum(f) if self.spec_pane_data().spec_channel_id() == Some(id) => Some(forum_view(f)),
            _ => if self.spec_forum_states().contains_key(id) {
                Some(forum_view(self.spec_forum_states()[id]))
            } else {
                None
            },
        }
    }

    /// Opens a channel of a guild: in the guild already open when it holds
    /// the channel, else in the first guild that does. Nothing happens when
    /// no loaded guild holds it. Otherwise its mentions are cleared and the
    /// unread marks recomputed, it becomes the open channel; a category goes
    /// no further. Any other channel is remembered as a visited place, becomes
    /// active in the tree, replaces the shown channel (the forum view left is
    /// kept for later, and a forum shows its kept view or an empty one), gives
    /// the input a channel and an empty text, and focuses the messages. Its
    /// messages are to be loaded; a forum's threads are, unless its kept view
    /// holds some.
    pub fn on_channel_selected(&mut self, channel_id: u64) -> (r: Option<ChatKeyResult>)
        requires
            old(self).wf(),
        ensures
            final(self).wf(),
            final(self).spec_registry() == old(self).spec_registry(),
            r == channel_open_result(*old(self), *final(self), channel_id),
            match target_guild(old(self).spec_tree_data(), old(self).spec_selected_guild(), channel_id) {
                None => r is None && *final(self) == *old(self),
                Some(g) => {
                    let c = loaded_channel(final(self).spec_tree_data(), channel_id);
                    &&& c.id == channel_id
                    &&& final(self).spec_selected_guild() == Some(g)
                    &&& final(self).spec_selected_channel() matches Some(sc) && channel_view(sc) == channel_view(c)
                    &&& final(self).spec_read_states() == mentions_cleared(old(self).spec_read_states(), channel_id)
                    &&& final(self).spec_tree_data().spec_channel_lists().len() == old(self).spec_tree_data().spec_channel_lists().len()
                    &&& if c.kind == ChannelKind::Category {
                        &&& r is None
                        &&& final(self).spec_pane() == old(self).spec_pane()
                        &&& final(self).spec_input() == old(self).spec_input()
                        &&& final(self).view() == old(self).view()
                        &&& final(self).spec_pane_data() == old(self).spec_pane_data()
                        &&& final(self).spec_recents() == old(self).spec_recents()
                    } else {
                        &&& r == (if c.kind == ChannelKind::Forum {
                            if old(self).kept_forum(channel_id) matches Some(fv) && fv.0.len() > 0 {
                                None
                            } else {
                                Some(ChatKeyResult::LoadForumThreads { channel_id, guild_id: Some(g), offset: 0 })
                            }
                        } else {
                            Some(ChatKeyResult::LoadChannelMessages { channel_id, guild_id: Some(g) })
                        })
                        &&& final(self).view() == spec_set_focus(old(self).view(), ChatFocus::MessagesList)
                        &&& final(self).spec_tree_data().spec_active_guild() == Some(g)
                        &&& final(self).spec_tree_data().spec_active_channel() == Some(channel_id)
                        &&& final(self).spec_tree_data().spec_active_dm_user() is None
                        &&& final(self).spec_pane_data().spec_channel_id() == Some(channel_id)
                        &&& final(self).spec_pane_data().spec_channel_name() == Some(c.name@)
                        &&& final(self).spec_pane_data().spec_messages().len() == 0
                        &&& final(self).spec_input().spec_has_channel()
                        &&& final(self).spec_input().input_view() == spec_clear(old(self).spec_input().input_view())
                        &&& (if spec_is_valid_recent_item(decimal(channel_id as nat), c.name@) {
                            &&& final(self).spec_recents().len() > 0
                            &&& final(self).spec_recents()[0].id@ == decimal(channel_id as nat)
                            &&& final(self).spec_recents()[0].name@ == c.name@
                            &&& final(self).spec_recents()[0].kind == channel_search_kind(c.kind)
                            &&& final(self).spec_recents()[0].guild_id matches Some(gs) && gs@ == decimal(g as nat)
                            &&& recents_view(final(self).spec_switcher().recents@) == recents_view(final(self).spec_recents())
                        } else {
                            final(self).spec_recents() == old(self).spec_recents()
                        })
                        &&& (c.kind == ChannelKind::Forum ==> (final(self).spec_pane().spec_view_mode() matches ViewMode::Forum(f)
                            && (if old(self).kept_forum(channel_id) is Some {
                                forum_view(f) == old(self).kept_forum(channel_id).unwrap()
                            } else {
                                forum_view(f) == (Seq::<(u64, Option<u64>, Seq<char>, Seq<char>, u32, u32, Option<u64>, bool)>::empty(), 0usize, 0u16, false)
                            })))
                        &&& (c.kind != ChannelKind::Forum ==> final(self).spec_pane().spec_view_mode() is Messages)
                    }
                },
            },
    {
        let (g, topic) = match self.find_channel_target(channel_id) {
            Some(t) => t,
            None => {
                return None;
            },
        };
        let ghost data0 = self.guilds_tree_data;
        self.clear_mentions(channel_id);
        proof {
            data0.lemma_channels_of_lists();
            let l0 = data0.spec_channel_lists();
            let k = choose|i: int| 0 <= i < l0.len() && (#[trigger] l0[i]).0 == g && data0.spec_channels(g) == Some(l0[i].1@);
            lemma_position_kept(l0, self.guilds_tree_data.spec_channel_lists(), k, channel_id);
        }
        let channel = match self.guilds_tree_data.get_channel(channel_id) {
            Some(ch) => copy_channel(ch),
            None => {
                return None;
            },
        };
        self.selected_guild = Some(g);
        self.selected_channel = Some(copy_channel(&channel));
        if channel.kind == ChannelKind::Category {
            return None;
        }
        let kind = if channel.kind == ChannelKind::Voice || channel.kind == ChannelKind::Stage {
            SearchKind::Voice
        } else if channel.kind == ChannelKind::Thread {
            SearchKind::Thread
        } else if channel.kind == ChannelKind::Forum {
            SearchKind::Forum
        } else {
            SearchKind::Channel
        };
        self.remember_channel(channel_id, g, channel.name.as_str(), kind);
        self.guilds_tree_data.set_active_guild(Some(g));
        self.guilds_tree_data.set_active_channel(Some(channel_id));
        self.guilds_tree_data.set_active_dm_user(None);
        let is_forum = channel.kind == ChannelKind::Forum;
        let has_threads = self.show_channel(channel_id, channel.name.as_str(), is_forum, topic);
        if is_forum {
            if has_threads {
                return None;
            }
            return Some(ChatKeyResult::LoadForumThreads { channel_id, guild_id: Some(g), offset: 0 });
        }
        Some(ChatKeyResult::LoadChannelMessages { channel_id, guild_id: Some(g) })
    }

    /// Threads with their new flags set from the read states.
    fn flag_threads(&self, threads: &Vec<ForumThread>) -> (r: Vec<ForumThread>)
        ensures
            r@.map_values(|t: ForumThread| thread_view(t)) == flagged_threads(self.spec_read_states(), threads@),
    {
        broadcast use vstd::std_specs::hash::group_hash_axioms;
        let ghost rs = self.spec_read_states();
        let mut out: Vec<ForumThread> = Vec::new();
        let mut i: usize = 0;
        while i < threads.len()
            invariant
                i <= threads@.len(),
                rs == self.spec_read_states(),
                out@.len() == i,
                forall|k: int| 0 <= k < i ==> thread_view(#[trigger] out@[k]) == flagged_thread(rs, thread_view(threads@[k])),
            decreases threads@.len() - i,
        {
            let mut t = copy_thread(&threads[i]);
            let new = match self.read_states.get(&t.id) {
                Some(state) => match t.last_message_id {
                    Some(m) => match state.last_read_message_id {
                        Some(read) => read != m,
                        None => true,
                    },
                    None => false,
                },
                None => true,
            };
            t.new = new;
            out.push(t);
            i = i + 1;
        }
        assert(out@.map_values(|t: ForumThread| thread_view(t)) =~= flagged_threads(rs, threads@));
        out
    }

    /// Shows a page of a forum's threads, each flagged new or not by the read
    /// states: a page at a nonzero offset goes before the threads shown
    /// (keeping the selected thread selected), a first page replaces them,
    /// and over the messages the threads make a new forum view (see
    /// `forum_after_threads`). Nothing else changes.
    pub fn set_forum_threads(&mut self, threads: Vec<ForumThread>, offset: u32)
        requires
            old(self).wf(),
        ensures
            final(self).wf(),
            final(self).keeps_data(&*old(self)),
            final(self).view() == old(self).view(),
            final(self).spec_input() == old(self).spec_input(),
            final(self).spec_tree() == old(self).spec_tree(),
            final(self).spec_switcher() == old(self).spec_switcher(),
            final(self).spec_pane().selection() == old(self).spec_pane().selection(),
            final(self).spec_pane().spec_flags() == old(self).spec_pane().spec_flags(),
            final(self).spec_pane().scroll() == old(self).spec_pane().scroll(),
            final(self).spec_pane().spec_view_mode() matches ViewMode::Forum(f)
                && forum_view(f) == forum_after_threads(
                old(self).spec_pane().spec_view_mode(),
                flagged_threads(old(self).spec_read_states(), threads@),
                offset,
            ),
    {
        let flagged = self.flag_threads(&threads);
        let ghost fv = flagged@.map_values(|t: ForumThread| thread_view(t));
        let new_state = match self.message_pane_state.view_mode() {
            ViewMode::Forum(state) => {
                let ghost shown = forum_view(*state).0;
                if offset > 0 {
                    let added = flagged.len();
                    let mut all = flagged;
                    let mut i: usize = 0;
                    while i < state.threads.len()
                        invariant
                            i <= state.threads@.len(),
                            added == fv.len(),
                            shown == forum_view(*state).0,
                            all@.len() == added + i,
                            forall|k: int| 0 <= k < added ==> thread_view(#[trigger] all@[k]) == fv[k],
                            forall|k: int| 0 <= k < i ==> thread_view(#[trigger] all@[added + k]) == thread_view(state.threads@[k]),
                        decreases state.threads@.len() - i,
                    {
                        all.push(copy_thread(&state.threads[i]));
                        i = i + 1;
                    }
                    let ghost allv = all@.map_values(|t: ForumThread| thread_view(t));
                    assert(allv =~= fv + shown) by {
                        assert forall|k: int| 0 <= k < allv.len() implies allv[k] == (fv + shown)[k] by {
                            if k >= added {
                                assert(thread_view(all@[added + (k - added)]) == thread_view(state.threads@[k - added]));
                            }
                        }
                    }
                    if state.selected_idx < state.threads.len() {
                        let id = state.threads[state.selected_idx].id;
                        assert(all@[added + state.selected_idx as int].id == id) by {
                            assert(thread_view(all@[added + state.selected_idx as int]) == thread_view(state.threads@[state.selected_idx as int]));
                        }
                        let k = thread_position(&all, id);
                        proof {
                            assert(shown[state.selected_idx as int].0 == id);
                            lemma_first_thread_unique(allv, id, k as int);
                        }
                        let add: u16 = if added <= 65535 { added as u16 } else { 0 };
                        ForumState {
                            threads: all,
                            selected_idx: k,
                            scroll_offset: state.scroll_offset.saturating_add(add),
                            needs_scroll_to_selection: state.needs_scroll_to_selection,
                        }
                    } else {
                        ForumState {
                            threads: all,
                            selected_idx: state.selected_idx,
                            scroll_offset: state.scroll_offset,
                            needs_scroll_to_selection: state.needs_scroll_to_selection,
                        }
                    }
                } else {
                    let len = state.threads.len();
                    let at_bottom = len == 0 || state.selected_idx >= len - 1;
                    if at_bottom && flagged.len() > 0 {
                        let n = flagged.len();
                        ForumState {
                            threads: flagged,
                            selected_idx: n - 1,
                            scroll_offset: state.scroll_offset,
                            needs_scroll_to_selection: true,
                        }
                    } else {
                        ForumState {
                            threads: flagged,
                            selected_idx: state.selected_idx,
                            scroll_offset: state.scroll_offset,
                            needs_scroll_to_selection: state.needs_scroll_to_selection,
                        }
                    }
                }
            },
            ViewMode::Messages => {
                if flagged.len() > 0 {
                    let n = flagged.len();
                    ForumState { threads: flagged, selected_idx: n - 1, scroll_offset: 0, needs_scroll_to_selection: true }
                } else {
                    ForumState { threads: flagged, selected_idx: 0, scroll_offset: 0, needs_scroll_to_selection: false }
                }
            },
        };
        self.message_pane_state.set_view_mode(ViewMode::Forum(new_state));
    }

    /// Takes note of a message that arrived in a channel. A loaded guild
    /// channel with that id (the first one) gets it as its last message. When
    /// the channel is such a guild channel or a direct message, it is marked
    /// read up to the message if the user wrote it or it is the open channel,
    /// and the unread marks of the loaded channels are recomputed. Nothing
    /// else changes.
    pub fn on_message_received(&mut self, channel_id: u64, message_id: u64, author_id: &str, user_id: &str)
        requires
            old(self).wf(),
        ensures
            final(self).wf(),
            final(self).view() == old(self).view(),
            final(self).spec_input() == old(self).spec_input(),
            final(self).spec_tree() == old(self).spec_tree(),
            final(self).spec_pane() == old(self).spec_pane(),
            final(self).spec_switcher() == old(self).spec_switcher(),
            final(self).spec_registry() == old(self).spec_registry(),
            final(self).spec_pane_data() == old(self).spec_pane_data(),
            final(self).spec_recents() == old(self).spec_recents(),
            final(self).spec_selected_guild() == old(self).spec_selected_guild(),
            final(self).spec_selected_channel() == old(self).spec_selected_channel(),
            final(self).spec_forum_states() == old(self).spec_forum_states(),
            final(self).spec_connection_status() == old(self).spec_connection_status(),
            final(self).spec_has_entered() == old(self).spec_has_entered(),
            final(self).spec_pending_nanos() == old(self).spec_pending_nanos(),
            ({
                let p = channel_position(old(self).spec_tree_data().spec_channel_lists(), channel_id);
                let touched = p is Some || dm_entry(old(self).spec_tree_data().spec_dm_users(), decimal(channel_id as nat)) is Some;
                let read = author_id@ == user_id@ || (old(self).spec_selected_channel() matches Some(c) && c.id == channel_id);
                &&& final(self).spec_read_states() == if touched && read {
                    old(self).spec_read_states().insert(
                        channel_id,
                        if old(self).spec_read_states().contains_key(channel_id) {
                            ReadState { last_read_message_id: Some(message_id), ..old(self).spec_read_states()[channel_id] }
                        } else {
                            ReadState { channel_id, last_read_message_id: Some(message_id), mention_count: 0 }
                        },
                    )
                } else {
                    old(self).spec_read_states()
                }
                &&& touched ==> unread_marked_at(old(self).spec_tree_data(), final(self).spec_tree_data(), final(self).spec_read_states(), p, message_id)
                &&& !touched ==> final(self).spec_tree_data() == old(self).spec_tree_data()
            }),
    {
        let ghost data0 = self.guilds_tree_data;
        let ghost p = channel_position(data0.spec_channel_lists(), channel_id);
        let in_guild = self.guilds_tree_data.get_channel(channel_id).is_some();
        if in_guild {
            match self.guilds_tree_data.get_channel_mut(channel_id) {
                Some(ch) => {
                    ch.last_message_id = Some(message_id);
                },
                None => {},
            }
            proof {
                let q = p.unwrap();
                let l0 = data0.spec_channel_lists();
                assert(self.guilds_tree_data.spec_channel_lists()[q.0].1@ == l0[q.0].1@.update(
                    q.1,
                    Channel { last_message_id: Some(message_id), ..l0[q.0].1@[q.1] },
                ));
            }
        }
        let ghost data1 = self.guilds_tree_data;
        let key = u64_to_decimal(channel_id);
        let is_dm = dm_entry_index(self.guilds_tree_data.dm_users(), key.as_str()).is_some();
        if !in_guild && !is_dm {
            return;
        }
        let is_own = chars_eq_str(&to_chars(author_id), user_id);
        let is_active = match &self.selected_channel {
            Some(c) => c.id == channel_id,
            None => false,
        };
        if is_own || is_active {
            self.mark_channel_read(channel_id, message_id);
        } else {
            self.guilds_tree_data.update_unread_status(&self.read_states);
        }
        proof {
            lemma_marks_after_arrival(data0, data1, self.guilds_tree_data, self.spec_read_states(), p, message_id);
        }
    }

    /// A page of messages arrived for a channel. A page for a channel other
    /// than the shown one is dropped. Otherwise the messages replace the
    /// shown ones, nobody is shown typing, and, when there is a last message,
    /// the channel is marked read up to it and its id is returned, to be
    /// acknowledged.
    pub fn on_channel_messages_loaded(&mut self, channel_id: u64, messages: Vec<PaneMessage>) -> (ack: Option<u64>)
        requires
            old(self).wf(),
        ensures
            final(self).wf(),
            old(self).spec_pane_data().spec_channel_id() != Some(channel_id) ==> ack is None && *final(self) == *old(self),
            old(self).spec_pane_data().spec_channel_id() == Some(channel_id) ==> {
                let shown = regrouped(messages@);
                &&& final(self).spec_pane_data().spec_messages() == shown
                &&& final(self).spec_pane_data().spec_loading_state() == LoadingState::Loaded
                &&& final(self).spec_pane_data().spec_error() is None
                &&& final(self).spec_pane_data().spec_channel_id() == Some(channel_id)
                &&& final(self).spec_pane_data().spec_channel_name() == old(self).spec_pane_data().spec_channel_name()
                &&& final(self).spec_pane_data().extras().2 is None
                &&& ack == (if shown.len() > 0 { Some(shown.last().id) } else { None::<u64> })
                &&& (ack matches Some(m) ==> {
                    &&& final(self).spec_read_states() == old(self).spec_read_states().insert(
                        channel_id,
                        if old(self).spec_read_states().contains_key(channel_id) {
                            ReadState { last_read_message_id: Some(m), ..old(self).spec_read_states()[channel_id] }
                        } else {
                            ReadState { channel_id, last_read_message_id: Some(m), mention_count: 0 }
                        },
                    )
                    &&& unread_marked(old(self).spec_tree_data(), final(self).spec_tree_data(), final(self).spec_read_states())
                })
                &&& (ack is None ==> final(self).spec_read_states() == old(self).spec_read_states()
                    && final(self).spec_tree_data() == old(self).spec_tree_data())
                &&& final(self).view() == old(self).view()
                &&& final(self).spec_input() == old(self).spec_input()
                &&& final(self).spec_tree() == old(self).spec_tree()
                &&& final(self).spec_pane() == old(self).spec_pane()
                &&& final(self).spec_switcher() == old(self).spec_switcher()
                &&& final(self).spec_registry() == old(self).spec_registry()
                &&& final(self).spec_recents() == old(self).spec_recents()
                &&& final(self).spec_selected_guild() == old(self).spec_selected_guild()
                &&& final(self).spec_selected_channel() == old(self).spec_selected_channel()
                &&& final(self).spec_forum_states() == old(self).spec_forum_states()
                &&& final(self).spec_connection_status() == old(self).spec_connection_status()
                &&& final(self).spec_has_entered() == old(self).spec_has_entered()
                &&& final(self).spec_pending_nanos() == old(self).spec_pending_nanos()
            },
    {
        let shown = match self.message_pane_data.channel_id() {
            Some(id) => id == channel_id,
            None => false,
        };
        if !shown {
            return None;
        }
        self.message_pane_data.set_messages(messages);
        self.message_pane_data.set_typing_indicator(None);
        let n = self.message_pane_data.message_count();
        if n == 0 {
            return None;
        }
        let last = self.message_pane_data.messages()[n - 1].id;
        self.mark_channel_read(channel_id, last);
        Some(last)
    }

    /// Loading the messages of a channel failed: when it is the shown
    /// channel, the error is shown and the guilds tree takes focus (if it is
    /// visible); otherwise nothing changes.
    pub fn on_channel_messages_failed(&mut self, channel_id: u64, error: String)
        requires
            old(self).wf(),
        ensures
            final(self).wf(),
            old(self).spec_pane_data().spec_channel_id() != Some(channel_id) ==> *final(self) == *old(self),
            old(self).spec_pane_data().spec_channel_id() == Some(channel_id) ==> {
                &&& final(self).spec_pane_data().spec_loading_state() == LoadingState::Error
                &&& final(self).spec_pane_data().spec_error() == Some(error@)
                &&& final(self).spec_pane_data().spec_messages() == old(self).spec_pane_data().spec_messages()
                &&& final(self).spec_pane_data().spec_channel_id() == Some(channel_id)
                &&& final(self).view() == spec_focus_guilds(old(self).view())
                &&& final(self).spec_input().input_view() == old(self).spec_input().input_view()
                &&& final(self).spec_switcher() == old(self).spec_switcher()
                &&& final(self).spec_registry() == old(self).spec_registry()
                &&& final(self).spec_tree_data() == old(self).spec_tree_data()
                &&& final(self).spec_recents() == old(self).spec_recents()
                &&& final(self).spec_read_states() == old(self).spec_read_states()
                &&& final(self).spec_selected_guild() == old(self).spec_selected_guild()
                &&& final(self).spec_selected_channel() == old(self).spec_selected_channel()
                &&& final(self).spec_forum_states() == old(self).spec_forum_states()
                &&& final(self).spec_connection_status() == old(self).spec_connection_status()
            },
    {
        let shown = match self.message_pane_data.channel_id() {
            Some(id) => id == channel_id,
            None => false,
        };
        if !shown {
            return;
        }
        self.message_pane_data.set_error(error);
        self.focus_guilds_tree();
    }

    /// A page of a forum's threads arrived: shown (see `set_forum_threads`)
    /// when the forum is the shown channel, dropped otherwise.
    pub fn on_forum_threads_loaded(&mut self, channel_id: u64, threads: Vec<ForumThread>, offset: u32)
        requires
            old(self).wf(),
        ensures
            final(self).wf(),
            old(self).spec_pane_data().spec_channel_id() != Some(channel_id) ==> *final(self) == *old(self),
            old(self).spec_pane_data().spec_channel_id() == Some(channel_id) ==> {
                &&& final(self).keeps_data(&*old(self))
                &&& final(self).view() == old(self).view()
                &&& final(self).spec_input() == old(self).spec_input()
                &&& final(self).spec_tree() == old(self).spec_tree()
                &&& final(self).spec_switcher() == old(self).spec_switcher()
                &&& final(self).spec_pane().selection() == old(self).spec_pane().selection()
                &&& final(self).spec_pane().spec_flags() == old(self).spec_pane().spec_flags()
                &&& final(self).spec_pane().scroll() == old(self).spec_pane().scroll()
                &&& final(self).spec_pane().spec_view_mode() matches ViewMode::Forum(f)
                    && forum_view(f) == forum_after_threads(
                    old(self).spec_pane().spec_view_mode(),
                    flagged_threads(old(self).spec_read_states(), threads@),
                    offset,
                )
            },
    {
        let shown = match self.message_pane_data.channel_id() {
            Some(id) => id == channel_id,
            None => false,
        };
        if shown {
            self.set_forum_threads(threads, offset);
        }
    }

    /// Loading a forum's threads failed: the error is shown when the forum
    /// is the shown channel; otherwise nothing changes.
    pub fn on_forum_threads_failed(&mut self, channel_id: u64, error: String)
        requires
            old(self).wf(),
        ensures
            final(self).wf(),
            old(self).spec_pane_data().spec_channel_id() != Some(channel_id) ==> *final(self) == *old(self),
            old(self).spec_pane_data().spec_channel_id() == Some(channel_id) ==> {
                &&& final(self).spec_pane_data().spec_loading_state() == LoadingState::Error
                &&& final(self).spec_pane_data().spec_error() == Some(error@)
                &&& final(self).spec_pane_data().spec_messages() == old(self).spec_pane_data().spec_messages()
                &&& final(self).spec_pane_data().spec_channel_id() == Some(channel_id)
                &&& final(self).view() == old(self).view()
                &&& final(self).spec_input() == old(self).spec_input()
                &&& final(self).spec_tree() == old(self).spec_tree()
                &&& final(self).spec_pane() == old(self).spec_pane()
                &&& final(self).spec_switcher() == old(self).spec_switcher()
                &&& final(self).spec_registry() == old(self).spec_registry()
                &&& final(self).spec_tree_data() == old(self).spec_tree_data()
                &&& final(self).spec_recents() == old(self).spec_recents()
                &&& final(self).spec_read_states() == old(self).spec_read_states()
                &&& final(self).spec_selected_guild() == old(self).spec_selected_guild()
                &&& final(self).spec_selected_channel() == old(self).spec_selected_channel()
                &&& final(self).spec_forum_states() == old(self).spec_forum_states()
            },
    {
        let shown = match self.message_pane_data.channel_id() {
            Some(id) => id == channel_id,
            None => false,
        };
        if shown {
            self.message_pane_data.set_error(error);
        }
    }

    /// `self` and `other` agree on everything but the shown messages' data
    /// and the message list's navigation state.
    pub open spec fn same_outside_pane(&self, other: &Self) -> bool {
        &&& self.view() == other.view()
        &&& self.spec_input() == other.spec_input()
        &&& self.spec_tree() == other.spec_tree()
        &&& self.spec_switcher() == other.spec_switcher()
        &&& self.spec_registry() == other.spec_registry()
        &&& self.spec_tree_data() == other.spec_tree_data()
        &&& self.spec_recents() == other.spec_recents()
        &&& self.spec_read_states() == other.spec_read_states()
        &&& self.spec_selected_guild() == other.spec_selected_guild()
        &&& self.spec_selected_channel() == other.spec_selected_channel()
        &&& self.spec_forum_states() == other.spec_forum_states()
        &&& self.spec_connection_status() == other.spec_connection_status()
        &&& self.spec_has_entered() == other.spec_has_entered()
        &&& self.spec_pending_nanos() == other.spec_pending_nanos()
    }

    /// Records the names of the loaded channels that a text mentions and
    /// adds the unknown ids to `unknown` (see `mentions_step`).
    fn register_mentions(&mut self, text: &str, unknown: &mut Vec<u64>)
        requires
            old(self).wf(),
        ensures
            final(self).wf(),
            final(self).same_outside_pane(&*old(self)),
            final(self).spec_pane() == old(self).spec_pane(),
            same_pane_messages(old(self).spec_pane_data(), final(self).spec_pane_data()),
            (final(self).spec_pane_data().spec_channel_names(), final(unknown)@) == mentions_step(
                old(self).spec_tree_data().spec_channel_lists(),
                old(self).spec_pane_data().spec_channel_names(),
                old(unknown)@,
                mentioned_ids(text@),
            ),
    {
        let mut ids = mention_groups(text);
        let mut links = link_groups(text);
        ids.append(&mut links);
        let ghost lists = self.guilds_tree_data.spec_channel_lists();
        let ghost names0 = self.spec_pane_data().spec_channel_names();
        let ghost unknown0 = unknown@;
        let ghost idsv = ids@.map_values(|g: String| g@);
        assert(idsv =~= mentioned_ids(text@));
        let ghost before = *self;
        let mut i: usize = 0;
        while i < ids.len()
            invariant
                i <= ids@.len(),
                idsv == ids@.map_values(|g: String| g@),
                self.wf(),
                self.same_outside_pane(&before),
                self.spec_pane() == before.spec_pane(),
                same_pane_messages(before.spec_pane_data(), self.spec_pane_data()),
                lists == self.spec_tree_data().spec_channel_lists(),
                (self.spec_pane_data().spec_channel_names(), unknown@) == mentions_step(lists, names0, unknown0, idsv.take(i as int)),
            decreases ids@.len() - i,
        {
            assert(idsv.take(i + 1).drop_last() =~= idsv.take(i as int));
            assert(idsv.take(i + 1).last() == ids@[i as int]@);
            match parse_u64_str(ids[i].as_str()) {
                None => {},
                Some(id) => {
                    let label = match self.guilds_tree_data.get_channel(id) {
                        Some(ch) => {
                            let mut v: Vec<char> = Vec::new();
                            if ch.kind == ChannelKind::Thread {
                                append_str(&mut v, "\u{f066f} ");
                            } else if ch.kind == ChannelKind::Forum {
                                append_str(&mut v, "\u{f0804} ");
                            } else {
                                append_str(&mut v, "#");
                            }
                            append_str(&mut v, ch.name.as_str());
                            Some(from_chars(&v))
                        },
                        None => None,
                    };
                    match label {
                        Some(name) => {
                            self.message_pane_data.register_channel(id, name);
                        },
                        None => {
                            if !self.message_pane_data.is_channel_known(id) {
                                unknown.push(id);
                            }
                        },
                    }
                },
            }
            i = i + 1;
        }
        assert(idsv.take(ids@.len() as int) =~= idsv);
    }

    /// A new message: the channels it mentions are looked up (see
    /// `mentions_step`), it is added at the end of the shown channel's
    /// messages unless it belongs elsewhere or is there already, and the list
    /// moves to the newest message when it follows it. The ids of mentioned
    /// channels that are neither loaded nor known are to be fetched.
    pub fn add_message(&mut self, message: PaneMessage) -> (r: Option<ChatKeyResult>)
        requires
            old(self).wf(),
        ensures
            final(self).wf(),
            final(self).same_outside_pane(&*old(self)),
            ({
                let step = mentions_step(
                    old(self).spec_tree_data().spec_channel_lists(),
                    old(self).spec_pane_data().spec_channel_names(),
                    Seq::<u64>::empty(),
                    mentioned_ids(message.content@),
                );
                let before = old(self).spec_pane_data();
                &&& final(self).spec_pane_data().spec_channel_names() == step.0
                &&& (if step.1.len() == 0 {
                    r is None
                } else {
                    r matches Some(ChatKeyResult::RequestChannelFetch(ids)) && ids@ == step.1
                })
                &&& final(self).spec_pane_data().spec_messages() == if before.spec_channel_id() == Some(message.channel_id)
                    && !has_id(before.spec_messages(), message.id) {
                    regrouped(before.spec_messages().push(message))
                } else {
                    before.spec_messages()
                }
                &&& final(self).spec_pane_data().spec_channel_id() == before.spec_channel_id()
                &&& final(self).spec_pane_data().spec_loading_state() == before.spec_loading_state()
            }),
            final(self).spec_pane().scroll() == (if old(self).spec_pane().spec_flags().is_following {
                old(self).spec_pane().max_scroll()
            } else {
                old(self).spec_pane().scroll()
            }),
            final(self).spec_pane().selection() == old(self).spec_pane().selection(),
            final(self).spec_pane().spec_flags() == old(self).spec_pane().spec_flags(),
            final(self).spec_pane().spec_view_mode() == old(self).spec_pane().spec_view_mode(),
    {
        let mut unknown: Vec<u64> = Vec::new();
        self.register_mentions(message.content.as_str(), &mut unknown);
        self.message_pane_data.add_message(message);
        self.message_pane_state.on_new_message();
        if unknown.len() == 0 {
            None
        } else {
            Some(ChatKeyResult::RequestChannelFetch(unknown))
        }
    }

    /// An edited message: the channels it mentions are looked up (see
    /// `mentions_step`) and it replaces the first shown message with its id,
    /// if any. The ids of mentioned channels that are neither loaded nor
    /// known are to be fetched.
    pub fn update_message(&mut self, message: PaneMessage) -> (r: Option<ChatKeyResult>)
        requires
            old(self).wf(),
        ensures
            final(self).wf(),
            final(self).same_outside_pane(&*old(self)),
            final(self).spec_pane() == old(self).spec_pane(),
            ({
                let step = mentions_step(
                    old(self).spec_tree_data().spec_channel_lists(),
                    old(self).spec_pane_data().spec_channel_names(),
                    Seq::<u64>::empty(),
                    mentioned_ids(message.content@),
                );
                let before = old(self).spec_pane_data();
                &&& final(self).spec_pane_data().spec_channel_names() == step.0
                &&& (if step.1.len() == 0 {
                    r is None
                } else {
                    r matches Some(ChatKeyResult::RequestChannelFetch(ids)) && ids@ == step.1
                })
                &&& final(self).spec_pane_data().spec_messages() == match first_with_id(before.spec_messages(), message.id) {
                    Some(i) => regrouped(before.spec_messages().update(i, message)),
                    None => before.spec_messages(),
                }
                &&& final(self).spec_pane_data().spec_channel_id() == before.spec_channel_id()
                &&& final(self).spec_pane_data().spec_loading_state() == before.spec_loading_state()
            }),
    {
        let mut unknown: Vec<u64> = Vec::new();
        self.register_mentions(message.content.as_str(), &mut unknown);
        self.message_pane_data.update_message(message);
        if unknown.len() == 0 {
            None
        } else {
            Some(ChatKeyResult::RequestChannelFetch(unknown))
        }
    }

    /// Older messages arrived: the channels they mention are looked up, in
    /// order (see `mentions_step`), those not shown yet go before the shown
    /// ones, and, when some were added, the selection and the scroll move
    /// down past them (`added_height` is the height they take when drawn).
    /// The ids of mentioned channels that are neither loaded nor known are to
    /// be fetched. An empty page changes nothing.
    pub fn prepend_messages(&mut self, new_messages: Vec<PaneMessage>, added_height: usize) -> (r: Option<ChatKeyResult>)
        requires
            old(self).wf(),
            old(self).spec_pane().selection() matches Some(i) ==> i + new_messages@.len() <= usize::MAX,
        ensures
            final(self).wf(),
            new_messages@.len() == 0 ==> r is None && *final(self) == *old(self),
            new_messages@.len() > 0 ==> {
                let step = mentions_all(
                    old(self).spec_tree_data().spec_channel_lists(),
                    old(self).spec_pane_data().spec_channel_names(),
                    Seq::<u64>::empty(),
                    new_messages@,
                );
                let before = old(self).spec_pane_data();
                let fresh = new_messages@.filter(not_in(before.spec_messages()));
                &&& final(self).same_outside_pane(&*old(self))
                &&& final(self).spec_pane_data().spec_channel_names() == step.0
                &&& (if step.1.len() == 0 {
                    r is None
                } else {
                    r matches Some(ChatKeyResult::RequestChannelFetch(ids)) && ids@ == step.1
                })
                &&& final(self).spec_pane_data().spec_messages() == if fresh.len() > 0 {
                    regrouped(fresh + before.spec_messages())
                } else {
                    before.spec_messages()
                }
                &&& final(self).spec_pane_data().spec_channel_id() == before.spec_channel_id()
                &&& final(self).spec_pane().selection() == (match old(self).spec_pane().selection() {
                    Some(i) if fresh.len() > 0 => Some((i + fresh.len()) as usize),
                    s => s,
                })
                &&& final(self).spec_pane().scroll() == (if fresh.len() > 0 {
                    if old(self).spec_pane().scroll() + added_height > usize::MAX {
                        usize::MAX
                    } else {
                        (old(self).spec_pane().scroll() + added_height) as usize
                    }
                } else {
                    old(self).spec_pane().scroll()
                })
                &&& final(self).spec_pane().spec_flags() == old(self).spec_pane().spec_flags()
                &&& final(self).spec_pane().spec_view_mode() == old(self).spec_pane().spec_view_mode()
            },
    {
        if new_messages.len() == 0 {
            return None;
        }
        let mut unknown: Vec<u64> = Vec::new();
        let ghost lists = self.guilds_tree_data.spec_channel_lists();
        let ghost names0 = self.spec_pane_data().spec_channel_names();
        let ghost before = *self;
        let mut i: usize = 0;
        while i < new_messages.len()
            invariant
                i <= new_messages@.len(),
                self.wf(),
                self.same_outside_pane(&before),
                self.spec_pane() == before.spec_pane(),
                same_pane_messages(before.spec_pane_data(), self.spec_pane_data()),
                lists == self.spec_tree_data().spec_channel_lists(),
                (self.spec_pane_data().spec_channel_names(), unknown@) == mentions_all(
                    lists,
                    names0,
                    Seq::<u64>::empty(),
                    new_messages@.take(i as int),
                ),
            decreases new_messages@.len() - i,
        {
            assert(new_messages@.take(i + 1).drop_last() =~= new_messages@.take(i as int));
            self.register_mentions(new_messages[i].content.as_str(), &mut unknown);
            i = i + 1;
        }
        assert(new_messages@.take(new_messages@.len() as int) =~= new_messages@);
        let added = self.message_pane_data.prepend_messages(new_messages);
        proof {
            lemma_filter_len_le(new_messages@, not_in(before.spec_pane_data().spec_messages()));
        }
        if added > 0 {
            self.message_pane_state.adjust_for_prepend(added, added_height);
        }
        if unknown.len() == 0 {
            None
        } else {
            Some(ChatKeyResult::RequestChannelFetch(unknown))
        }
    }

    /// A kept forum view (of some forum) that holds a thread, and the thread.
    fn kept_thread(&self, thread_id: u64) -> (r: Option<(u64, ForumThread)>)
        ensures
            r matches Some(found) ==> {
                &&& self.spec_forum_states().contains_key(found.0)
                &&& found.1.id == thread_id
                &&& exists|k: int| 0 <= k < self.spec_forum_states()[found.0].threads@.len()
                    && thread_view(#[trigger] self.spec_forum_states()[found.0].threads@[k]) == thread_view(found.1)
            },
            r is None ==> forall|p: u64, k: int| self.spec_forum_states().contains_key(p)
                && 0 <= k < self.spec_forum_states()[p].threads@.len()
                ==> (#[trigger] self.spec_forum_states()[p].threads@[k]).id != thread_id,
    {
        broadcast use vstd::std_specs::hash::group_hash_axioms;
        let ghost m = self.forum_states@;
        let ghost v = spec_hash_map_iter(&self.forum_states).remaining();
        for pair in it: self.forum_states.iter()
            invariant
                m == self.forum_states@,
                it.seq() == v,
                v == spec_hash_map_iter(&self.forum_states).remaining(),
                forall|j: int, k: int| 0 <= j < it.index() && 0 <= k < (*it.seq()[j].1).threads@.len()
                    ==> (#[trigger] (*it.seq()[j].1).threads@[k]).id != thread_id,
        {
            let (p, st) = pair;
            proof {
                let j = it.index() as int;
                assert(0 <= j < v.len());
                assert(v[j] == pair);
                assert(m.contains_key(*v[j].0) && m[*v[j].0] == *v[j].1);
            }
            let mut k: usize = 0;
            while k < st.threads.len()
                invariant
                    k <= st.threads@.len(),
                    m == self.forum_states@,
                    m.contains_key(*p),
                    m[*p] == *st,
                    forall|b: int| 0 <= b < k ==> (#[trigger] st.threads@[b]).id != thread_id,
                decreases st.threads@.len() - k,
            {
                if st.threads[k].id == thread_id {
                    let t = copy_thread(&st.threads[k]);
                    assert(self.spec_forum_states()[*p].threads@[k as int] == st.threads@[k as int]);
                    let found = (*p, t);
                    assert(self.spec_forum_states().contains_key(found.0));
                    assert(found.1.id == thread_id);
                    assert(exists|b: int| 0 <= b < self.spec_forum_states()[found.0].threads@.len()
                        && thread_view(#[trigger] self.spec_forum_states()[found.0].threads@[b]) == thread_view(found.1));
                    return Some(found);
                }
                k = k + 1;
            }
        }
        proof {
            assert forall|q: u64, k: int| m.contains_key(q) && 0 <= k < m[q].threads@.len()
                implies (#[trigger] m[q].threads@[k]).id != thread_id by {
                assert(v.contains((&q, &m[q])));
                let j = choose|j: int| 0 <= j < v.len() && v[j] == (&q, &m[q]);
                assert((*v[j].1).threads@[k] == m[q].threads@[k]);
            }
        }
        None
    }

    /// Goes to a quick switcher result: a direct message, a guild or a
    /// channel opens as selecting it in the tree does, and answers what that
    /// answers, or `Consumed` when it answers nothing (or the id is not a
    /// number). A thread opens as a channel when a loaded guild holds it;
    /// otherwise, when a kept forum view lists it, that forum is opened and
    /// the thread is shown in its place, its messages to be loaded.
    pub fn jump_to_result(&mut self, result: &SearchResult) -> (r: ChatKeyResult)
        requires
            old(self).wf(),
        ensures
            final(self).wf(),
            final(self).spec_registry() == old(self).spec_registry(),
            result.kind == SearchKind::DM ==> {
                if dm_entry(old(self).spec_tree_data().spec_dm_users(), result.id@) is Some && parse_u64(result.id@) is Some {
                    &&& r matches ChatKeyResult::LoadDmMessages { channel_id: c, .. } && c == parse_u64(result.id@).unwrap()
                    &&& final(self).view() == spec_set_focus(old(self).view(), ChatFocus::MessagesList)
                    &&& final(self).spec_pane_data().spec_channel_id() == parse_u64(result.id@)
                } else {
                    r == ChatKeyResult::Consumed && *final(self) == *old(self)
                }
            },
            (result.kind == SearchKind::Channel || result.kind == SearchKind::Forum || result.kind == SearchKind::Voice) ==> {
                match parse_u64(result.id@) {
                    None => r == ChatKeyResult::Consumed && *final(self) == *old(self),
                    Some(c) => {
                        &&& r == (match channel_open_result(*old(self), *final(self), c) {
                            Some(x) => x,
                            None => ChatKeyResult::Consumed,
                        })
                        &&& target_guild(old(self).spec_tree_data(), old(self).spec_selected_guild(), c) is None ==> *final(self) == *old(self)
                        &&& channel_open_result(*old(self), *final(self), c) is Some ==> {
                            &&& final(self).view() == spec_set_focus(old(self).view(), ChatFocus::MessagesList)
                            &&& final(self).spec_selected_channel() matches Some(ch) && ch.id == c
                            &&& final(self).spec_pane_data().spec_channel_id() == Some(c)
                        }
                    },
                }
            },
            result.kind == SearchKind::Guild ==> {
                match parse_u64(result.id@) {
                    None => r == ChatKeyResult::Consumed && *final(self) == *old(self),
                    Some(g) => if old(self).spec_selected_guild() == Some(g) {
                        r == ChatKeyResult::Consumed && *final(self) == *old(self)
                    } else {
                        &&& r == (if old(self).spec_tree_data().spec_channels(g) is None {
                            ChatKeyResult::LoadGuildChannels(g)
                        } else {
                            ChatKeyResult::Consumed
                        })
                        &&& final(self).spec_selected_guild() == Some(g)
                        &&& final(self).spec_selected_channel() is None
                        &&& final(self).view() == old(self).view()
                    },
                }
            },
            result.kind == SearchKind::Thread ==> {
                let tid = match parse_u64(result.id@) {
                    Some(v) => v,
                    None => 0u64,
                };
                target_guild(old(self).spec_tree_data(), old(self).spec_selected_guild(), tid) is None ==> {
                    if thread_kept(old(self).spec_forum_states(), tid) {
                        &&& exists|p: u64, k: int| old(self).spec_forum_states().contains_key(p)
                            && 0 <= k < old(self).spec_forum_states()[p].threads@.len()
                            && (#[trigger] old(self).spec_forum_states()[p].threads@[k]).id == tid
                            && r == (ChatKeyResult::LoadChannelMessages {
                                channel_id: tid,
                                guild_id: old(self).spec_forum_states()[p].threads@[k].guild_id,
                            })
                            && (final(self).spec_selected_channel() matches Some(ch) && ch.id == tid
                                && ch.kind == ChannelKind::Thread && ch.parent_id == Some(p)
                                && ch.name@ == old(self).spec_forum_states()[p].threads@[k].name@)
                            && final(self).spec_pane_data().spec_channel_name() == Some(old(self).spec_forum_states()[p].threads@[k].name@)
                        &&& final(self).spec_pane_data().spec_channel_id() == Some(tid)
                        &&& final(self).spec_pane_data().spec_messages().len() == 0
                        &&& final(self).spec_pane().spec_view_mode() is Messages
                        &&& final(self).view().focus == ChatFocus::MessagesList
                        &&& final(self).spec_input().spec_has_channel()
                    } else {
                        r == ChatKeyResult::Consumed && *final(self) == *old(self)
                    }
                }
            },
    {
        match result.kind {
            SearchKind::DM => {
                match self.on_dm_selected(result.id.as_str()) {
                    Some(x) => x,
                    None => ChatKeyResult::Consumed,
                }
            },
            SearchKind::Guild => {
                match parse_u64_str(result.id.as_str()) {
                    Some(g) => match self.on_guild_selected(g) {
                        Some(x) => x,
                        None => ChatKeyResult::Consumed,
                    },
                    None => ChatKeyResult::Consumed,
                }
            },
            SearchKind::Thread => {
                let tid = match parse_u64_str(result.id.as_str()) {
                    Some(v) => v,
                    None => 0,
                };
                if let Some(x) = self.on_channel_selected(tid) {
                    return x;
                }
                let found = self.kept_thread(tid);
                match found {
                    Some((parent, thread)) => {
                        let _ = self.on_channel_selected(parent);
                        let mut channel = Channel::new(thread.id, thread.name.as_str(), ChannelKind::Thread);
                        channel.parent_id = Some(parent);
                        let name = copy_str(thread.name.as_str());
                        self.selected_channel = Some(channel);
                        self.message_pane_data.set_channel(tid, name);
                        self.message_pane_state.on_channel_change();
                        self.message_input_state.set_has_channel(true);
                        self.message_input_state.clear();
                        self.focus_messages_list();
                        ChatKeyResult::LoadChannelMessages { channel_id: tid, guild_id: thread.guild_id }
                    },
                    None => ChatKeyResult::Consumed,
                }
            },
            _ => {
                match parse_u64_str(result.id.as_str()) {
                    Some(c) => match self.on_channel_selected(c) {
                        Some(x) => x,
                        None => ChatKeyResult::Consumed,
                    },
                    None => ChatKeyResult::Consumed,
                }
            },
        }
    }

    /// Restores the place the user was in: the given channels of the given
    /// guild are loaded, and the given channel is opened; when it opens (see
    /// `on_channel_selected`), the given messages are shown and the channel
    /// is marked read up to the last of them. Otherwise the first guild, if
    /// any, is opened. The remembered places are those from before.
    /// Nothing is asked of the application.
    #[verifier::spinoff_prover]
    #[verifier::rlimit(80)]
    pub fn restore_state(
        &mut self,
        guild_id: Option<u64>,
        channel_id: Option<u64>,
        channels: Option<Vec<Channel>>,
        can_view: Option<Vec<bool>>,
        messages: Option<Vec<PaneMessage>>,
    ) -> (r: Option<ChatKeyResult>)
        requires
            old(self).wf(),
            channels matches Some(cs) ==> (can_view matches Some(v) ==> v@.len() == cs@.len()),
        ensures
            final(self).wf(),
            r is None,
            final(self).spec_registry() == old(self).spec_registry(),
            final(self).spec_recents() == old(self).spec_recents(),
            recents_view(final(self).spec_switcher().recents@) == recents_view(old(self).spec_recents()),
            exists|s1: ChatScreenState, mid: ChatScreenState, r1: Option<ChatKeyResult>| {
                &&& #[trigger] channels_loaded(*old(self), s1, guild_id, channels, can_view)
                &&& #[trigger] channel_restored(s1, mid, channel_id, r1)
                &&& if r1 is Some {
                    &&& final(self).view() == mid.view()
                    &&& final(self).spec_selected_channel() == mid.spec_selected_channel()
                    &&& final(self).spec_selected_guild() == mid.spec_selected_guild()
                    &&& final(self).spec_pane_data().spec_channel_id() == mid.spec_pane_data().spec_channel_id()
                    &&& match messages {
                        Some(m) => {
                            let shown = regrouped(m@);
                            &&& final(self).spec_pane_data().spec_messages() == shown
                            &&& final(self).spec_read_states() == if shown.len() > 0 {
                                mid.spec_read_states().insert(
                                    channel_id.unwrap(),
                                    if mid.spec_read_states().contains_key(channel_id.unwrap()) {
                                        ReadState {
                                            last_read_message_id: Some(shown.last().id),
                                            ..mid.spec_read_states()[channel_id.unwrap()]
                                        }
                                    } else {
                                        ReadState {
                                            channel_id: channel_id.unwrap(),
                                            last_read_message_id: Some(shown.last().id),
                                            mention_count: 0,
                                        }
                                    },
                                )
                            } else {
                                mid.spec_read_states()
                            }
                        },
                        None => final(self).spec_pane_data() == mid.spec_pane_data() && final(self).spec_read_states()
                            == mid.spec_read_states(),
                    }
                } else {
                    &&& final(self).view() == mid.view()
                    &&& final(self).spec_pane_data() == mid.spec_pane_data()
                    &&& final(self).spec_read_states() == mid.spec_read_states()
                    &&& final(self).spec_selected_guild() == if mid.spec_tree_data().spec_guilds().len() > 0 {
                        Some(mid.spec_tree_data().spec_guilds()[0].id)
                    } else {
                        mid.spec_selected_guild()
                    }
                }
            },
    {
        let ghost start = *self;
        match (guild_id, channels) {
            (Some(g), Some(chans)) => {
                self.set_channels(g, chans, can_view);
            },
            _ => {},
        }
        let ghost s1 = *self;
        let mut kept: Vec<RecentItem> = Vec::new();
        std::mem::swap(&mut kept, &mut self.recents);
        let ghost s1b = *self;
        let opened = match channel_id {
            Some(c) => self.on_channel_selected(c),
            None => None,
        };
        let ghost mid_b = *self;
        let ghost mid = ChatScreenState { recents: s1.recents, ..mid_b };
        let restored = opened.is_some();
        if restored {
            match messages {
                Some(msgs) => {
                    self.set_messages(msgs);
                    let n = self.message_pane_data.message_count();
                    if n > 0 {
                        let last = self.message_pane_data.messages()[n - 1].id;
                        self.mark_channel_read(channel_id.unwrap(), last);
                    }
                },
                None => {},
            }
        } else {
            let first = if self.guilds_tree_data.guilds().len() > 0 {
                Some(self.guilds_tree_data.guilds()[0].id)
            } else {
                None
            };
            match first {
                Some(g) => {
                    let _ = self.on_guild_selected(g);
                },
                None => {},
            }
        }
        self.recents = kept;
        let copies = copy_recents(&self.recents);
        self.quick_switcher.set_recents(copies);
        proof {
            assert(channels_loaded(start, s1, guild_id, channels, can_view));
            assert(mid.wf() == mid_b.wf());
            match channel_id {
                Some(c) => {
                    assert(channel_open_result(s1b, mid_b, c) == channel_open_result(s1, mid, c));
                    if target_guild(s1.spec_tree_data(), s1.spec_selected_guild(), c) is None {
                        assert(mid == s1);
                    }
                },
                None => {
                    assert(mid == s1);
                },
            }
            assert(channel_restored(s1, mid, channel_id, opened));
        }
        None
    }

    fn find_channel_target(&self, channel_id: u64) -> (r: Option<(u64, Option<String>)>)
        requires
            self.wf(),
        ensures
            match target_guild(self.spec_tree_data(), self.spec_selected_guild(), channel_id) {
                None => r is None,
                Some(g) => r matches Some(t) && t.0 == g && self.spec_tree_data().spec_channels(g) is Some
                    && has_channel(self.spec_tree_data().spec_channels(g).unwrap(), channel_id),
            },
    {
        proof {
            self.guilds_tree_data.lemma_channels_of_lists();
        }
        let mut guild_id = self.selected_guild;
        if let Some(id) = guild_id {
            let in_guild = match self.guilds_tree_data.channels(id) {
                Some(chs) => first_channel_index(chs, channel_id).is_some(),
                None => false,
            };
            if !in_guild {
                guild_id = None;
            }
        }
        if guild_id.is_none() {
            guild_id = self.guilds_tree_data.find_guild_for_channel(channel_id);
            proof {
                lemma_first_list(self.guilds_tree_data.spec_channel_lists(), channel_id, guild_id);
            }
        }
        let g = match guild_id {
            Some(g) => g,
            None => {
                return None;
            },
        };
        match self.guilds_tree_data.channels(g) {
            Some(chs) => match first_channel_index(chs, channel_id) {
                Some(k) => Some((g, match &chs[k].topic {
                    Some(t) => Some(copy_str(t.as_str())),
                    None => None,
                })),
                None => None,
            },
            None => None,
        }
    }

    fn clear_mentions(&mut self, channel_id: u64)
        requires
            old(self).wf(),
        ensures
            final(self).wf(),
            final(self).view() == old(self).view(),
            final(self).spec_read_states() == mentions_cleared(old(self).spec_read_states(), channel_id),
            unread_marked(old(self).spec_tree_data(), final(self).spec_tree_data(), final(self).spec_read_states()),
            final(self).spec_registry() == old(self).spec_registry(),
            final(self).spec_input() == old(self).spec_input(),
            final(self).spec_tree() == old(self).spec_tree(),
            final(self).spec_pane() == old(self).spec_pane(),
            final(self).spec_pane_data() == old(self).spec_pane_data(),
            final(self).spec_recents() == old(self).spec_recents(),
            final(self).spec_switcher() == old(self).spec_switcher(),
            final(self).spec_selected_guild() == old(self).spec_selected_guild(),
            final(self).spec_selected_channel() == old(self).spec_selected_channel(),
            final(self).spec_forum_states() == old(self).spec_forum_states(),
    {
        broadcast use vstd::std_specs::hash::group_hash_axioms;
        match self.read_states.get(&channel_id) {
            Some(rs) => {
                let cleared = ReadState { mention_count: 0, ..*rs };
                self.read_states.insert(channel_id, cleared);
            },
            None => {},
        }
        self.guilds_tree_data.update_unread_status(&self.read_states);
    }

    fn remember_channel(&mut self, channel_id: u64, g: u64, name: &str, kind: SearchKind)
        requires
            old(self).wf(),
        ensures
            final(self).wf(),
            final(self).view() == old(self).view(),
            final(self).spec_registry() == old(self).spec_registry(),
            final(self).spec_input() == old(self).spec_input(),
            final(self).spec_tree() == old(self).spec_tree(),
            final(self).spec_tree_data() == old(self).spec_tree_data(),
            final(self).spec_pane() == old(self).spec_pane(),
            final(self).spec_pane_data() == old(self).spec_pane_data(),
            final(self).spec_read_states() == old(self).spec_read_states(),
            final(self).spec_selected_guild() == old(self).spec_selected_guild(),
            final(self).spec_selected_channel() == old(self).spec_selected_channel(),
            final(self).spec_forum_states() == old(self).spec_forum_states(),
            if spec_is_valid_recent_item(decimal(channel_id as nat), name@) {
                &&& final(self).spec_recents().len() > 0
                &&& final(self).spec_recents()[0].id@ == decimal(channel_id as nat)
                &&& final(self).spec_recents()[0].name@ == name@
                &&& final(self).spec_recents()[0].kind == kind
                &&& final(self).spec_recents()[0].guild_id matches Some(gs) && gs@ == decimal(g as nat)
                &&& recents_view(final(self).spec_switcher().recents@) == recents_view(final(self).spec_recents())
            } else {
                &&& final(self).spec_recents() == old(self).spec_recents()
                &&& final(self).spec_switcher() == old(self).spec_switcher()
            },
    {
        let item = RecentItem {
            id: u64_to_decimal(channel_id),
            name: copy_str(name),
            kind,
            guild_id: Some(u64_to_decimal(g)),
            timestamp: now_timestamp(),
        };
        if is_valid_recent_item(&item) {
            add_recent_item(&mut self.recents, item);
            let copies = copy_recents(&self.recents);
            self.quick_switcher.set_recents(copies);
        }
    }

    /// Shows a channel: keeps the forum view being left, shows the channel's
    /// name and topic with no messages, a forum with its kept view, gives the
    /// input a channel and an empty text, and focuses the messages. Whether
    /// the forum view shown holds threads.
    fn show_channel(&mut self, channel_id: u64, name: &str, is_forum: bool, topic: Option<String>) -> (has_threads: bool)
        requires
            old(self).wf(),
        ensures
            final(self).wf(),
            final(self).view() == spec_set_focus(old(self).view(), ChatFocus::MessagesList),
            final(self).spec_registry() == old(self).spec_registry(),
            final(self).spec_tree_data() == old(self).spec_tree_data(),
            final(self).spec_recents() == old(self).spec_recents(),
            final(self).spec_switcher() == old(self).spec_switcher(),
            final(self).spec_read_states() == old(self).spec_read_states(),
            final(self).spec_selected_guild() == old(self).spec_selected_guild(),
            final(self).spec_selected_channel() == old(self).spec_selected_channel(),
            final(self).spec_pane_data().spec_channel_id() == Some(channel_id),
            final(self).spec_pane_data().spec_channel_name() == Some(name@),
            final(self).spec_pane_data().spec_messages().len() == 0,
            final(self).spec_input().spec_has_channel(),
            final(self).spec_input().input_view() == spec_clear(old(self).spec_input().input_view()),
            is_forum ==> (final(self).spec_pane().spec_view_mode() matches ViewMode::Forum(f) && (if old(self).kept_forum(
                channel_id,
            ) is Some {
                forum_view(f) == old(self).kept_forum(channel_id).unwrap()
            } else {
                forum_view(f) == (Seq::<(u64, Option<u64>, Seq<char>, Seq<char>, u32, u32, Option<u64>, bool)>::empty(), 0usize, 0u16, false)
            })),
            !is_forum ==> final(self).spec_pane().spec_view_mode() is Messages,
            is_forum ==> has_threads == (old(self).kept_forum(channel_id) matches Some(fv) && fv.0.len() > 0),
    {
        broadcast use vstd::std_specs::hash::group_hash_axioms;
        let ghost old_self = *self;
        match self.message_pane_data.channel_id() {
            Some(current) => {
                match self.message_pane_state.view_mode() {
                    ViewMode::Forum(st) => {
                        let saved = copy_forum_state(st);
                        self.forum_states.insert(current, saved);
                    },
                    ViewMode::Messages => {},
                }
            },
            None => {},
        }
        assert(old_self.kept_forum(channel_id) == (if self.forum_states@.contains_key(channel_id) {
            Some(forum_view(self.forum_states@[channel_id]))
        } else {
            None
        }));
        self.message_pane_data.set_channel(channel_id, copy_str(name));
        self.message_pane_state.on_channel_change();
        let mut has_threads = false;
        if is_forum {
            let st = match self.forum_states.get(&channel_id) {
                Some(saved) => copy_forum_state(saved),
                None => {
                    let empty: Vec<ForumThread> = Vec::new();
                    assert(empty@.map_values(|t: ForumThread| thread_view(t)) =~= Seq::<
                        (u64, Option<u64>, Seq<char>, Seq<char>, u32, u32, Option<u64>, bool),
                    >::empty());
                    ForumState { threads: empty, selected_idx: 0, scroll_offset: 0, needs_scroll_to_selection: false }
                },
            };
            has_threads = st.threads.len() > 0;
            assert(st.threads@.map_values(|t: ForumThread| thread_view(t)).len() == st.threads@.len());
            self.message_pane_state.set_view_mode(ViewMode::Forum(st));
        }
        self.message_pane_data.set_channel_topic(topic);
        self.message_input_state.set_has_channel(true);
        self.message_input_state.clear();
        self.focus_messages_list();
        has_threads
    }

    /// Acts on editing, opening in the editor, or deleting a message of the
    /// list: only the user's own messages can be; another's gives a notice.
    /// Editing puts the message's text in the input and focuses it; deleting
    /// asks for confirmation. A message not in the list is ignored.
    pub fn own_message_action(&mut self, action: MessagePaneAction, messages: &Vec<MessageSummary>, user_id: &str) -> (r: ChatKeyResult)
        requires
            old(self).wf(),
            action is Edit || action is EditExternal || action is Delete,
        ensures
            final(self).wf(),
            final(self).keeps_data(&*old(self)),
            final(self).spec_switcher() == old(self).spec_switcher(),
            own_message_outcome(*old(self), *final(self), action, messages@, user_id@, r),
    {
        let id = match &action {
            MessagePaneAction::Edit(i) => *i,
            MessagePaneAction::EditExternal(i) => *i,
            MessagePaneAction::Delete(i) => *i,
            _ => 0,
        };
        let k = match summary_index(messages, id) {
            Some(k) => k,
            None => {
                return ChatKeyResult::Ignored;
            },
        };
        let m = &messages[k];
        let own = chars_eq_str(&to_chars(m.author_id.as_str()), user_id);
        match action {
            MessagePaneAction::Edit(_) => {
                if own {
                    self.message_input_state.start_edit(id, m.content.as_str());
                    self.focus_message_input();
                    ChatKeyResult::Ignored
                } else {
                    ChatKeyResult::ShowNotification(copy_str("You can only edit your own messages"))
                }
            },
            MessagePaneAction::EditExternal(_) => {
                if own {
                    ChatKeyResult::OpenEditor { initial_content: copy_str(m.content.as_str()), message_id: Some(id) }
                } else {
                    ChatKeyResult::ShowNotification(copy_str("You can only edit your own messages"))
                }
            },
            _ => {
                if own {
                    self.pending_deletion_id = Some(id);
                    self.set_focus(ChatFocus::ConfirmationModal);
                    ChatKeyResult::Consumed
                } else {
                    ChatKeyResult::ShowNotification(copy_str("You can only delete your own messages"))
                }
            },
        }
    }

    /// The thread of the shown forum view with the id, if any.
    pub open spec fn forum_thread(&self, id: u64) -> Option<ForumThread> {
        match self.spec_pane().spec_view_mode() {
            ViewMode::Forum(f) => if exists|k: int| 0 <= k < f.threads@.len() && (#[trigger] f.threads@[k]).id == id {
                Some(f.threads@[choose|k: int| 0 <= k < f.threads@.len() && (#[trigger] f.threads@[k]).id == id
                    && forall|m: int| 0 <= m < k ==> (#[trigger] f.threads@[m]).id != id])
            } else {
                None
            },
            ViewMode::Messages => None,
        }
    }

    /// Opens a thread: as a channel of a guild when a loaded guild holds it;
    /// otherwise, as a thread of the shown forum that belongs to a guild, with
    /// the open channel as its parent; otherwise the application is asked to
    /// jump to it.
    pub fn open_thread(&mut self, channel_id: u64) -> (r: ChatKeyResult)
        requires
            old(self).wf(),
        ensures
            final(self).wf(),
            final(self).spec_registry() == old(self).spec_registry(),
            r == open_thread_result(*old(self), *final(self), channel_id),
            target_guild(old(self).spec_tree_data(), old(self).spec_selected_guild(), channel_id) is Some
                ==> final(self).spec_selected_guild() == target_guild(
                old(self).spec_tree_data(),
                old(self).spec_selected_guild(),
                channel_id,
            ),
            target_guild(old(self).spec_tree_data(), old(self).spec_selected_guild(), channel_id) is None ==> match old(
                self,
            ).forum_thread(channel_id) {
                Some(t) if t.guild_id is Some => {
                    &&& r == ChatKeyResult::LoadChannelMessages { channel_id, guild_id: t.guild_id }
                    &&& final(self).view() == spec_set_focus(old(self).view(), ChatFocus::MessagesList)
                    &&& final(self).spec_selected_channel() matches Some(c) && c.id == channel_id && c.kind
                        == ChannelKind::Thread && c.name@ == t.name@ && c.parent_id == (match old(self).spec_selected_channel() {
                        Some(p) => Some(p.id),
                        None => None,
                    })
                    &&& final(self).spec_pane_data().spec_channel_id() == Some(channel_id)
                    &&& final(self).spec_pane_data().spec_channel_name() == Some(t.name@)
                    &&& final(self).spec_input().spec_has_channel()
                    &&& final(self).spec_input().input_view() == spec_clear(old(self).spec_input().input_view())
                },
                _ => r == ChatKeyResult::JumpToChannel(channel_id) && *final(self) == *old(self),
            },
    {
        match self.on_channel_selected(channel_id) {
            Some(result) => {
                return result;
            },
            None => {},
        }
        let ghost mid = *self;
        proof {
            if target_guild(old(self).spec_tree_data(), old(self).spec_selected_guild(), channel_id) is Some {
                if loaded_channel(mid.spec_tree_data(), channel_id).kind == ChannelKind::Forum {
                    assert(shown_threads(mid) == old(self).kept_forum(channel_id).unwrap().0);
                } else {
                    assert(shown_threads(mid) == shown_threads(*old(self)));
                }
            }
        }
        let found = match self.message_pane_state.view_mode() {
            ViewMode::Forum(st) => {
                let ghost vs = forum_view(*st).0;
                let mut i: usize = 0;
                while i < st.threads.len() && st.threads[i].id != channel_id
                    invariant
                        i <= st.threads@.len(),
                        vs == forum_view(*st).0,
                        forall|m: int| 0 <= m < i ==> (#[trigger] st.threads@[m]).id != channel_id,
                    decreases st.threads@.len() - i,
                {
                    i = i + 1;
                }
                let hit: Option<usize> = if i < st.threads.len() {
                    Some(i)
                } else {
                    None
                };
                match hit {
                    Some(k) => {
                        proof {
                            assert forall|m: int| 0 <= m < k implies vs[m].0 != channel_id by {
                                assert(vs[m] == thread_view(st.threads@[m]));
                            }
                            assert(vs[k as int] == thread_view(st.threads@[k as int]));
                            assert(first_thread_at(vs, channel_id, k as int));
                            lemma_first_thread_unique(vs, channel_id, k as int);
                            let c = choose|c: int| 0 <= c < st.threads@.len() && (#[trigger] st.threads@[c]).id == channel_id
                                && forall|m: int| 0 <= m < c ==> (#[trigger] st.threads@[m]).id != channel_id;
                            assert(st.threads@[k as int].id == channel_id);
                            if c < k {
                                assert(st.threads@[c].id != channel_id);
                            }
                            if k < c {
                                assert(st.threads@[k as int].id != channel_id);
                            }
                        }
                        Some((copy_str(st.threads[k].name.as_str()), st.threads[k].guild_id))
                    },
                    None => {
                        proof {
                            assert forall|k: int| !first_thread_at(vs, channel_id, k) by {
                                if 0 <= k < vs.len() {
                                    assert(vs[k] == thread_view(st.threads@[k]));
                                }
                            }
                        }
                        None
                    },
                }
            },
            ViewMode::Messages => None,
        };
        match found {
            Some((name, Some(gid))) => {
                let mut channel = Channel::new(channel_id, name.as_str(), ChannelKind::Thread);
                channel.parent_id = match &self.selected_channel {
                    Some(p) => Some(p.id),
                    None => None,
                };
                self.selected_channel = Some(channel);
                self.message_pane_data.set_channel(channel_id, name);
                self.message_pane_state.on_channel_change();
                self.message_input_state.set_has_channel(true);
                self.message_input_state.clear();
                self.focus_messages_list();
                ChatKeyResult::LoadChannelMessages { channel_id, guild_id: Some(gid) }
            },
            _ => ChatKeyResult::JumpToChannel(channel_id),
        }
    }

    /// Leaves a thread: from a forum view, back to the guilds tree; otherwise
    /// to the open channel's parent when it can be opened, else back to the
    /// guilds tree.
    pub fn close_thread(&mut self) -> (r: ChatKeyResult)
        requires
            old(self).wf(),
        ensures
            final(self).wf(),
            final(self).spec_registry() == old(self).spec_registry(),
            r == close_thread_result(*old(self), *final(self)),
            old(self).spec_pane().spec_view_mode() is Forum ==> r == ChatKeyResult::Consumed
                && final(self).view() == spec_focus_guilds(old(self).view()) && final(self).keeps_data(&*old(self)),
            (old(self).spec_pane().spec_view_mode() is Messages && !(old(self).spec_selected_channel() is Some
                && old(self).spec_selected_channel().unwrap().parent_id is Some)) ==> r == ChatKeyResult::Ignored && final(self).view() == spec_focus_guilds(
                old(self).view(),
            ) && final(self).keeps_data(&*old(self)),
            (old(self).spec_pane().spec_view_mode() is Messages && old(self).spec_selected_channel() is Some
                && old(self).spec_selected_channel().unwrap().parent_id is Some && target_guild(
                old(self).spec_tree_data(),
                old(self).spec_selected_guild(),
                old(self).spec_selected_channel().unwrap().parent_id.unwrap(),
            ) is Some) ==> final(self).spec_selected_guild() == target_guild(
                old(self).spec_tree_data(),
                old(self).spec_selected_guild(),
                old(self).spec_selected_channel().unwrap().parent_id.unwrap(),
            ),
    {
        let in_forum = match self.message_pane_state.view_mode() {
            ViewMode::Forum(_) => true,
            ViewMode::Messages => false,
        };
        if in_forum {
            self.focus_guilds_tree();
            return ChatKeyResult::Consumed;
        }
        let parent = match &self.selected_channel {
            Some(c) => c.parent_id,
            None => None,
        };
        match parent {
            Some(p) => match self.on_channel_selected(p) {
                Some(result) => {
                    return result;
                },
                None => {},
            },
            None => {},
        }
        self.focus_guilds_tree();
        ChatKeyResult::Ignored
    }

    /// What loading older content asks for: in a forum view, more threads of
    /// the shown forum after those shown; otherwise the messages before the
    /// first one shown, when there is one.
    pub fn load_history_request(&self) -> (r: ChatKeyResult)
        ensures
            r == (match (self.spec_pane().spec_view_mode(), self.spec_pane_data().spec_channel_id()) {
                (ViewMode::Forum(f), Some(cid)) => ChatKeyResult::LoadForumThreads {
                    channel_id: cid,
                    guild_id: self.spec_selected_guild(),
                    offset: if f.threads@.len() <= u32::MAX { f.threads@.len() as u32 } else { 0 },
                },
                (_, Some(cid)) => if self.spec_pane_data().spec_messages().len() > 0 {
                    ChatKeyResult::LoadHistory { channel_id: cid, before_message_id: self.spec_pane_data().spec_messages()[0].id }
                } else {
                    ChatKeyResult::Ignored
                },
                _ => ChatKeyResult::Ignored,
            }),
    {
        let cid = match self.message_pane_data.channel_id() {
            Some(c) => c,
            None => {
                return ChatKeyResult::Ignored;
            },
        };
        match self.message_pane_state.view_mode() {
            ViewMode::Forum(f) => {
                let n = f.threads.len();
                let offset: u32 = if n <= 0xffff_ffff { n as u32 } else { 0 };
                return ChatKeyResult::LoadForumThreads { channel_id: cid, guild_id: self.selected_guild, offset };
            },
            ViewMode::Messages => {},
        }
        let msgs = self.message_pane_data.messages();
        if msgs.len() > 0 {
            ChatKeyResult::LoadHistory { channel_id: cid, before_message_id: msgs[0].id }
        } else {
            ChatKeyResult::Ignored
        }
    }

    /// What an action of the message list asks of the chat screen, for a
    /// user: a reply, a copy, a jump to a replied message, an edit or delete
    /// of the user's own message, opening attachments, loading older
    /// content, or opening or leaving a thread. Selection changes ask for
    /// nothing more.
    pub fn apply_list_action(
        &mut self,
        action: Option<MessagePaneAction>,
        messages: &Vec<MessageSummary>,
        user_id: &str,
    ) -> (r: ChatKeyResult)
        requires
            old(self).wf(),
        ensures
            final(self).wf(),
            final(self).spec_registry() == old(self).spec_registry(),
            list_action_post(*old(self), *final(self), action, messages@, user_id@, r),
    {
        let a = match action {
            Some(a) => a,
            None => {
                return ChatKeyResult::Ignored;
            },
        };
        match a {
            MessagePaneAction::ClearSelection => ChatKeyResult::Ignored,
            MessagePaneAction::SelectMessage(_) => ChatKeyResult::Ignored,
            MessagePaneAction::Reply { message_id, mention } => ChatKeyResult::ReplyToMessage { message_id, mention },
            MessagePaneAction::Edit(id) => self.own_message_action(MessagePaneAction::Edit(id), messages, user_id),
            MessagePaneAction::EditExternal(id) => self.own_message_action(
                MessagePaneAction::EditExternal(id),
                messages,
                user_id,
            ),
            MessagePaneAction::Delete(id) => self.own_message_action(MessagePaneAction::Delete(id), messages, user_id),
            MessagePaneAction::YankContent(c) => ChatKeyResult::CopyToClipboard(c),
            MessagePaneAction::YankUrl(c) => ChatKeyResult::CopyToClipboard(c),
            MessagePaneAction::CopyImage(c) => ChatKeyResult::CopyImageToClipboard(c),
            MessagePaneAction::YankId(c) => ChatKeyResult::CopyToClipboard(c),
            MessagePaneAction::OpenAttachments(id) => match summary_index(messages, id) {
                Some(k) => match &messages[k].content_action {
                    ContentAction::OpenImages => ChatKeyResult::OpenAttachments(id),
                    ContentAction::OpenLink(u) => ChatKeyResult::OpenLink(copy_str(u.as_str())),
                    ContentAction::NoAction => ChatKeyResult::Ignored,
                },
                None => ChatKeyResult::Ignored,
            },
            MessagePaneAction::JumpToReply(id) => ChatKeyResult::JumpToMessage(id),
            MessagePaneAction::OpenThread(cid) => self.open_thread(cid),
            MessagePaneAction::CloseThread => self.close_thread(),
            MessagePaneAction::LoadHistory => self.load_history_request(),
        }
    }

    /// Handles a key on the message list: the list moves its selection or
    /// names an action, and the action is carried out for the user.
    /// `messages` describes the messages the list shows, and
    /// `hide_blocked_completely` whether runs of blocked users' messages are
    /// left out rather than folded.
    pub fn handle_messages_list_key(
        &mut self,
        key: KeyEvent,
        messages: &Vec<MessageSummary>,
        user_id: &str,
        hide_blocked_completely: bool,
    ) -> (r: ChatKeyResult)
        requires
            old(self).wf(),
        ensures
            final(self).wf(),
            final(self).spec_registry() == old(self).spec_registry(),
            list_key_post(*old(self), *final(self), key, messages@, user_id@, hide_blocked_completely, r),
    {
        let ghost before = *self;
        let action = self.message_pane_state.handle_key(key, messages, &self.registry, hide_blocked_completely);
        let ghost mid = *self;
        let r = self.apply_list_action(action, messages, user_id);
        proof {
            lemma_list_key_post(before, mid, *self, key, messages@, user_id@, hide_blocked_completely, action, r);
        }
        r
    }

    /// The guild of the open channel.
    pub fn selected_guild(&self) -> (g: Option<u64>)
        ensures
            g == self.spec_selected_guild(),
    {
        self.selected_guild
    }

    /// The open channel of a guild.
    pub fn selected_channel(&self) -> (c: Option<&Channel>)
        ensures
            match c {
                Some(ch) => self.spec_selected_channel() == Some(*ch),
                None => self.spec_selected_channel() is None,
            },
    {
        match &self.selected_channel {
            Some(ch) => Some(ch),
            None => None,
        }
    }

    /// The key bindings.
    pub fn registry(&self) -> (r: &CommandRegistry)
        ensures
            *r == self.spec_registry(),
    {
        &self.registry
    }

    /// The pane that has focus.
    pub fn focus(&self) -> (f: ChatFocus)
        ensures
            f == self.view().focus,
    {
        self.focus
    }

    /// Whether the guilds tree shows.
    pub fn is_guilds_tree_visible(&self) -> (b: bool)
        ensures
            b == self.view().tree_visible,
    {
        self.guilds_tree_visible
    }

    /// Whether the help is open.
    pub fn is_help_shown(&self) -> (b: bool)
        ensures
            b == self.view().help,
    {
        self.show_help
    }

    /// Whether the file explorer is open.
    pub fn is_file_explorer_shown(&self) -> (b: bool)
        ensures
            b == self.view().explorer,
    {
        self.show_file_explorer
    }

    /// Whether the quick switcher is open.
    pub fn is_quick_switcher_shown(&self) -> (b: bool)
        ensures
            b == self.view().switcher,
    {
        self.show_quick_switcher
    }

    /// The message waiting for a delete confirmation.
    pub fn pending_deletion(&self) -> (p: Option<u64>)
        ensures
            p == self.view().pending_deletion,
    {
        self.pending_deletion_id
    }

    /// The order the quick switcher sorts in.
    pub fn quick_switcher_sort_mode(&self) -> (m: QuickSwitcherSortMode)
        ensures
            m == self.spec_switcher().sort_mode,
    {
        self.quick_switcher.sort_mode
    }

    /// Gives focus to a pane, and tells each pane whether it has it.
    pub fn set_focus(&mut self, focus: ChatFocus)
        requires
            old(self).wf(),
        ensures
            final(self).wf(),
            final(self).view() == spec_set_focus(old(self).view(), focus),
            final(self).spec_registry() == old(self).spec_registry(),
            final(self).spec_input().input_view() == old(self).spec_input().input_view(),
            final(self).keeps_data(&*old(self)),
            final(self).spec_switcher() == old(self).spec_switcher(),
            final(self).spec_input().spec_has_channel() == old(self).spec_input().spec_has_channel(),
            final(self).spec_pane().spec_view_mode() == old(self).spec_pane().spec_view_mode(),
    {
        self.focus = focus;
        self.guilds_tree_state.set_focused(focus == ChatFocus::GuildsTree);
        self.message_pane_state.set_focused(focus == ChatFocus::MessagesList);
        self.message_input_state.set_focused(focus == ChatFocus::MessageInput);
    }

    /// Focuses the guilds tree, if it shows.
    pub fn focus_guilds_tree(&mut self)
        requires
            old(self).wf(),
        ensures
            final(self).wf(),
            final(self).view() == spec_focus_guilds(old(self).view()),
            final(self).spec_registry() == old(self).spec_registry(),
            final(self).spec_input().input_view() == old(self).spec_input().input_view(),
            final(self).keeps_data(&*old(self)),
            final(self).spec_switcher() == old(self).spec_switcher(),
    {
        if self.guilds_tree_visible {
            self.set_focus(ChatFocus::GuildsTree);
        }
    }

    /// Focuses the message list.
    pub fn focus_messages_list(&mut self)
        requires
            old(self).wf(),
        ensures
            final(self).wf(),
            final(self).view() == spec_set_focus(old(self).view(), ChatFocus::MessagesList),
            final(self).spec_registry() == old(self).spec_registry(),
            final(self).spec_input().input_view() == old(self).spec_input().input_view(),
            final(self).keeps_data(&*old(self)),
            final(self).spec_switcher() == old(self).spec_switcher(),
            final(self).spec_input().spec_has_channel() == old(self).spec_input().spec_has_channel(),
            final(self).spec_pane().spec_view_mode() == old(self).spec_pane().spec_view_mode(),
    {
        self.set_focus(ChatFocus::MessagesList);
    }

    /// Focuses the message input.
    pub fn focus_message_input(&mut self)
        requires
            old(self).wf(),
        ensures
            final(self).wf(),
            final(self).view() == spec_set_focus(old(self).view(), ChatFocus::MessageInput),
            final(self).spec_registry() == old(self).spec_registry(),
            final(self).spec_input().input_view() == old(self).spec_input().input_view(),
            final(self).keeps_data(&*old(self)),
            final(self).spec_switcher() == old(self).spec_switcher(),
    {
        self.set_focus(ChatFocus::MessageInput);
    }

    /// Focuses the next pane of the cycle.
    pub fn focus_next(&mut self)
        requires
            old(self).wf(),
        ensures
            final(self).wf(),
            final(self).view() == spec_focus_next(old(self).view()),
            final(self).spec_registry() == old(self).spec_registry(),
            final(self).spec_input().input_view() == old(self).spec_input().input_view(),
            final(self).keeps_data(&*old(self)),
            final(self).spec_switcher() == old(self).spec_switcher(),
    {
        let f = self.focus.next(self.guilds_tree_visible);
        self.set_focus(f);
    }

    /// Focuses the previous pane of the cycle.
    pub fn focus_previous(&mut self)
        requires
            old(self).wf(),
        ensures
            final(self).wf(),
            final(self).view() == spec_focus_previous(old(self).view()),
            final(self).spec_registry() == old(self).spec_registry(),
            final(self).spec_input().input_view() == old(self).spec_input().input_view(),
            final(self).keeps_data(&*old(self)),
            final(self).spec_switcher() == old(self).spec_switcher(),
    {
        let f = self.focus.previous(self.guilds_tree_visible);
        self.set_focus(f);
    }

    /// Shows or hides the guilds tree, moving focus off it when it hides.
    pub fn toggle_guilds_tree(&mut self)
        requires
            old(self).wf(),
        ensures
            final(self).wf(),
            final(self).view() == spec_toggle_tree(old(self).view()),
            final(self).spec_registry() == old(self).spec_registry(),
            final(self).spec_input().input_view() == old(self).spec_input().input_view(),
            final(self).keeps_data(&*old(self)),
            final(self).spec_switcher() == old(self).spec_switcher(),
    {
        self.guilds_tree_visible = !self.guilds_tree_visible;
        if !self.guilds_tree_visible && self.focus == ChatFocus::GuildsTree {
            self.focus_next();
        }
    }

    /// Opens or closes the help.
    pub fn toggle_help(&mut self)
        requires
            old(self).wf(),
        ensures
            final(self).wf(),
            final(self).view() == (ChatView { help: !old(self).view().help, ..old(self).view() }),
            final(self).spec_registry() == old(self).spec_registry(),
            final(self).spec_input().input_view() == old(self).spec_input().input_view(),
            final(self).keeps_data(&*old(self)),
            final(self).spec_switcher() == old(self).spec_switcher(),
    {
        self.show_help = !self.show_help;
    }

    /// Opens or closes the file explorer.
    pub fn toggle_file_explorer(&mut self)
        requires
            old(self).wf(),
        ensures
            final(self).wf(),
            final(self).view() == (ChatView { explorer: !old(self).view().explorer, ..old(self).view() }),
            final(self).spec_registry() == old(self).spec_registry(),
            final(self).spec_input().input_view() == old(self).spec_input().input_view(),
            final(self).keeps_data(&*old(self)),
            final(self).spec_switcher() == old(self).spec_switcher(),
            final(self).spec_input() == old(self).spec_input(),
            final(self).spec_tree() == old(self).spec_tree(),
            final(self).spec_pane() == old(self).spec_pane(),
    {
        self.show_file_explorer = !self.show_file_explorer;
    }

    /// The results the quick switcher offers before anything is typed, from
    /// the remembered places and the loaded guilds, direct messages and channels.
    pub open spec fn spec_empty_results(&self) -> Seq<ResultView> {
        spec_empty_query_results(
            self.spec_switcher().sort_mode,
            self.spec_recents(),
            self.spec_tree_data().spec_guilds(),
            self.spec_tree_data().spec_dm_users(),
            spec_channel_results(self.spec_tree_data()),
        )
    }

    /// Whether the quick switcher holds the results offered before anything
    /// is typed, ordered by its sort mode, the first selected if any.
    pub open spec fn shows_empty_results(&self, offered: Seq<ResultView>) -> bool {
        exists|r: Seq<SearchResult>| #![trigger results_view(r)] results_view(r) == offered
            && self.spec_switcher().results@ == spec_apply_sort(
                self.spec_switcher().sort_mode,
                self.spec_switcher().recents@,
                r,
            ) && self.spec_switcher().selected == (if r.len() == 0 { None } else { Some(0usize) })
    }

    /// Fills the quick switcher with what it offers before anything is typed.
    pub fn fill_empty_query_results(&mut self)
        requires
            old(self).wf(),
        ensures
            final(self).wf(),
            final(self).view() == old(self).view(),
            final(self).spec_registry() == old(self).spec_registry(),
            final(self).spec_input() == old(self).spec_input(),
            final(self).spec_tree() == old(self).spec_tree(),
            final(self).spec_tree_data() == old(self).spec_tree_data(),
            final(self).spec_pane() == old(self).spec_pane(),
            final(self).spec_pane_data() == old(self).spec_pane_data(),
            final(self).spec_recents() == old(self).spec_recents(),
            final(self).spec_switcher().input == old(self).spec_switcher().input,
            final(self).spec_switcher().sort_mode == old(self).spec_switcher().sort_mode,
            final(self).spec_switcher().recents == old(self).spec_switcher().recents,
            final(self).shows_empty_results(old(self).spec_empty_results()),
            final(self).keeps_data(&*old(self)),
    {
        let mode = self.quick_switcher.sort_mode;
        let channels = match mode {
            QuickSwitcherSortMode::Mixed => channel_search_results(&self.guilds_tree_data),
            QuickSwitcherSortMode::Recents => Vec::new(),
        };
        let results = empty_query_results(
            mode,
            &self.recents,
            self.guilds_tree_data.guilds(),
            self.guilds_tree_data.dm_users(),
            channels,
        );
        let ghost r = results@;
        self.quick_switcher.set_results(results);
        assert(results_view(r) == old(self).spec_empty_results());
    }

    /// Opens the quick switcher with an empty search and the results offered
    /// before anything is typed, or closes it.
    pub fn toggle_quick_switcher(&mut self)
        requires
            old(self).wf(),
        ensures
            final(self).wf(),
            final(self).view() == (ChatView { switcher: !old(self).view().switcher, ..old(self).view() }),
            final(self).spec_registry() == old(self).spec_registry(),
            final(self).spec_input().input_view() == old(self).spec_input().input_view(),
            final(self).spec_tree_data() == old(self).spec_tree_data(),
            final(self).spec_recents() == old(self).spec_recents(),
            final(self).spec_switcher().sort_mode == old(self).spec_switcher().sort_mode,
            final(self).spec_switcher().recents == old(self).spec_switcher().recents,
            final(self).view().switcher ==> final(self).spec_switcher().input@.len() == 0
                && final(self).shows_empty_results(old(self).spec_empty_results()),
            !final(self).view().switcher ==> final(self).spec_switcher() == old(self).spec_switcher(),
            final(self).keeps_data(&*old(self)),
    {
        self.show_quick_switcher = !self.show_quick_switcher;
        if self.show_quick_switcher {
            self.quick_switcher.reset();
            self.fill_empty_query_results();
        }
    }

    /// The quick switcher.
    pub fn quick_switcher(&self) -> (q: &QuickSwitcher)
        ensures
            *q == self.spec_switcher(),
    {
        &self.quick_switcher
    }

    /// Asks to confirm the deletion of a message: the confirmation takes focus.
    pub fn request_deletion(&mut self, message_id: u64)
        requires
            old(self).wf(),
        ensures
            final(self).wf(),
            final(self).view() == (ChatView {
                focus: ChatFocus::ConfirmationModal,
                pending_deletion: Some(message_id),
                ..old(self).view()
            }),
            final(self).spec_registry() == old(self).spec_registry(),
            final(self).spec_input().input_view() == old(self).spec_input().input_view(),
            final(self).keeps_data(&*old(self)),
            final(self).spec_switcher() == old(self).spec_switcher(),
    {
        self.pending_deletion_id = Some(message_id);
        self.set_focus(ChatFocus::ConfirmationModal);
    }

    /// The message input.
    pub fn message_input_state(&self) -> (m: &MessageInputState)
        ensures
            *m == self.spec_input(),
    {
        &self.message_input_state
    }

    /// Starts a reply to a message and focuses the input.
    pub fn start_reply(&mut self, message_id: u64, author_name: String, mention: bool)
        requires
            old(self).wf(),
        ensures
            final(self).wf(),
            final(self).view() == spec_set_focus(old(self).view(), ChatFocus::MessageInput),
            final(self).spec_registry() == old(self).spec_registry(),
            final(self).spec_input().input_view() == (InputView {
                mode: MessageInputMode::Reply { message_id, author: author_name, mention },
                ..old(self).spec_input().input_view()
            }),
            final(self).keeps_data(&*old(self)),
            final(self).spec_switcher() == old(self).spec_switcher(),
    {
        let ghost before = self.message_input_state;
        self.message_input_state.start_reply(message_id, author_name, mention);
        proof {
            before.lemma_focus_in_chrome();
            self.message_input_state.lemma_focus_in_chrome();
        }
        self.focus_message_input();
    }

    /// Leaves reply or edit mode.
    pub fn cancel_reply(&mut self)
        requires
            old(self).wf(),
        ensures
            final(self).wf(),
            final(self).view() == old(self).view(),
            final(self).spec_registry() == old(self).spec_registry(),
            final(self).spec_input().input_view() == (InputView {
                mode: MessageInputMode::Normal,
                ..old(self).spec_input().input_view()
            }),
            final(self).keeps_data(&*old(self)),
            final(self).spec_switcher() == old(self).spec_switcher(),
    {
        let ghost before = self.message_input_state;
        self.message_input_state.reset_mode();
        proof {
            before.lemma_focus_in_chrome();
            self.message_input_state.lemma_focus_in_chrome();
        }
    }

    /// Empties the input.
    pub fn clear_input(&mut self)
        requires
            old(self).wf(),
        ensures
            final(self).wf(),
            final(self).view() == old(self).view(),
            final(self).spec_registry() == old(self).spec_registry(),
            final(self).spec_input().input_view() == spec_clear(old(self).spec_input().input_view()),
            final(self).keeps_data(&*old(self)),
            final(self).spec_switcher() == old(self).spec_switcher(),
    {
        let ghost before = self.message_input_state;
        self.message_input_state.clear();
        proof {
            before.lemma_focus_in_chrome();
            self.message_input_state.lemma_focus_in_chrome();
        }
    }

    /// The text in the input.
    pub fn message_input_value(&self) -> (v: String)
        requires
            self.wf(),
        ensures
            v@ == join_lines(self.spec_input().spec_text().lines),
    {
        self.message_input_state.value()
    }

    /// The message replied to, its author and whether to mention them, in
    /// reply mode.
    pub fn message_input_reply_info(&self) -> (r: Option<(u64, String, bool)>)
        ensures
            match self.spec_input().input_view().mode {
                MessageInputMode::Reply { message_id, author, mention } => r matches Some(t) && t.0 == message_id
                    && t.1@ == author@ && t.2 == mention,
                _ => r is None,
            },
    {
        match self.message_input_state.mode() {
            MessageInputMode::Reply { message_id, author, mention } => Some((*message_id, copy_str(author.as_str()), *mention)),
            _ => None,
        }
    }

    /// Replaces the input's text.
    pub fn set_message_input_content(&mut self, content: &str)
        requires
            old(self).wf(),
        ensures
            final(self).wf(),
            final(self).view() == old(self).view(),
            final(self).spec_registry() == old(self).spec_registry(),
            final(self).spec_input().input_view() == with_text(
                old(self).spec_input().input_view(),
                spec_set_content(old(self).spec_input().spec_text(), content@),
            ),
            final(self).keeps_data(&*old(self)),
            final(self).spec_switcher() == old(self).spec_switcher(),
    {
        let ghost before = self.message_input_state;
        self.message_input_state.set_content(content);
        proof {
            before.lemma_focus_in_chrome();
            self.message_input_state.lemma_focus_in_chrome();
        }
    }

    /// Attaches a file to the message and focuses the input.
    pub fn add_attachment(&mut self, path: String)
        requires
            old(self).wf(),
        ensures
            final(self).wf(),
            final(self).view() == spec_set_focus(old(self).view(), ChatFocus::MessageInput),
            final(self).spec_registry() == old(self).spec_registry(),
            final(self).spec_input().input_view() == (InputView {
                attachments: old(self).spec_input().input_view().attachments.push(path@),
                ..old(self).spec_input().input_view()
            }),
            final(self).keeps_data(&*old(self)),
            final(self).spec_switcher() == old(self).spec_switcher(),
    {
        let ghost before = self.message_input_state;
        self.message_input_state.add_attachment(path);
        proof {
            before.lemma_focus_in_chrome();
            self.message_input_state.lemma_focus_in_chrome();
        }
        self.focus_message_input();
    }

    /// Inserts a text at the input's cursor and focuses the input.
    pub fn insert_text(&mut self, text: &str)
        requires
            old(self).wf(),
        ensures
            final(self).wf(),
            final(self).view() == spec_set_focus(old(self).view(), ChatFocus::MessageInput),
            final(self).spec_registry() == old(self).spec_registry(),
            final(self).spec_input().input_view() == with_text(
                old(self).spec_input().input_view(),
                ta_insert_str(old(self).spec_input().spec_text(), text@),
            ),
            final(self).keeps_data(&*old(self)),
            final(self).spec_switcher() == old(self).spec_switcher(),
    {
        let ghost before = self.message_input_state;
        self.message_input_state.insert_text_at_cursor(text);
        proof {
            before.lemma_focus_in_chrome();
            self.message_input_state.lemma_focus_in_chrome();
        }
        self.focus_message_input();
    }

    /// The bindings shown while the guilds tree has focus.
    pub fn get_guilds_tree_commands(&self, registry: &CommandRegistry) -> (r: Vec<Keybind>)
        requires
            registry.wf(),
        ensures
            keybinds_view(r@) == spec_tree_commands(*registry, self.spec_tree().selected_key(), self.spec_tree().expanded_keys()),
    {
        let mut out: Vec<Keybind> = Vec::new();
        assert(keybinds_view(out@) =~= Seq::<KeybindView>::empty());
        push_nav(&mut out, registry);
        let ghost after_nav = keybinds_view(out@);
        match self.guilds_tree_state.selected() {
            Some(id) => {
                let expanded = self.guilds_tree_state.is_expanded(id);
                let can_expand = match id {
                    TreeNodeId::Guild(_) => true,
                    TreeNodeId::Category(_) => true,
                    TreeNodeId::DirectMessages => true,
                    TreeNodeId::Folder(_) => true,
                    _ => false,
                };
                assert(can_expand == expandable(node_key(*id)));
                if can_expand {
                    if expanded {
                        push_first(&mut out, registry, Action::NavigateLeft, "Collapse");
                    } else {
                        push_first(&mut out, registry, Action::NavigateRight, "Expand");
                    }
                } else {
                    push_first(&mut out, registry, Action::NavigateLeft, "Back");
                }
            },
            None => push_first(&mut out, registry, Action::NavigateRight, "Expand"),
        }
        push_first(&mut out, registry, Action::Select, "Select");
        push_first(&mut out, registry, Action::ToggleGuildsTree, "Toggle Tree");
        push_first(&mut out, registry, Action::FocusMessages, "Msgs");
        push_first(&mut out, registry, Action::NextTab, "Next");
        push_first(&mut out, registry, Action::ToggleHelp, "Help");
        out
    }

    /// The bindings shown while the message list has focus, given whether
    /// the selected message may be edited and deleted, and the label of what
    /// opening it does.
    pub fn get_messages_list_commands(&self, registry: &CommandRegistry, can_edit: bool, open_label: Option<&str>) -> (r: Vec<Keybind>)
        requires
            registry.wf(),
        ensures
            keybinds_view(r@) == spec_list_commands(*registry, can_edit, opt_str_view(open_label)),
    {
        let mut out: Vec<Keybind> = Vec::new();
        assert(keybinds_view(out@) =~= Seq::<KeybindView>::empty());
        push_nav(&mut out, registry);
        push_first(&mut out, registry, Action::Reply, "Reply");
        if can_edit {
            push_first(&mut out, registry, Action::EditMessage, "Edit");
        }
        if can_edit {
            push_first(&mut out, registry, Action::DeleteMessage, "Delete");
        }
        match open_label {
            Some(l) => push_first(&mut out, registry, Action::OpenAttachments, l),
            None => push_first(&mut out, registry, Action::OpenAttachments, "Open"),
        }
        push_first(&mut out, registry, Action::CopyContent, "Copy");
        push_first(&mut out, registry, Action::JumpToReply, "Jump");
        push_first(&mut out, registry, Action::FocusInput, "Focus Input");
        push_first(&mut out, registry, Action::ToggleHelp, "Help");
        out
    }

    /// The bindings shown while the input has focus.
    pub fn get_message_input_commands(&self, registry: &CommandRegistry) -> (r: Vec<Keybind>)
        requires
            registry.wf(),
        ensures
            keybinds_view(r@) == spec_input_commands(*registry),
    {
        let mut out: Vec<Keybind> = Vec::new();
        assert(keybinds_view(out@) =~= Seq::<KeybindView>::empty());
        push_first(&mut out, registry, Action::SendMessage, "Send");
        push_first(&mut out, registry, Action::FocusMessages, "Msgs");
        push_first(&mut out, registry, Action::OpenEditor, "Editor");
        push_first(&mut out, registry, Action::ToggleFileExplorer, "Attach");
        push_first(&mut out, registry, Action::Paste, "Paste");
        push_first(&mut out, registry, Action::Cancel, "Cancel");
        push_plain(&mut out, KeyCode::F(1), Action::ToggleHelp, "Help");
        out
    }

    /// The bindings the footer shows for the screen, given what the selected
    /// message allows and the name of the quick switcher's sort order.
    pub fn get_commands(&self, registry: &CommandRegistry, can_edit: bool, open_label: Option<&str>, sort_mode_name: &str) -> (r: Vec<Keybind>)
        requires
            registry.wf(),
        ensures
            keybinds_view(r@) == spec_commands(
                self.view(),
                *registry,
                self.spec_tree().selected_key(),
                self.spec_tree().expanded_keys(),
                can_edit,
                opt_str_view(open_label),
                sort_mode_name@,
            ),
    {
        let mut out: Vec<Keybind> = Vec::new();
        assert(keybinds_view(out@) =~= Seq::<KeybindView>::empty());
        if self.show_help {
            push_plain(&mut out, KeyCode::Esc, Action::ToggleHelp, "Close");
            assert(keybinds_view(out@) =~= seq![plain_bind(press(KeyCode::Esc), Action::ToggleHelp, "Close"@)]);
            return out;
        }
        if self.show_quick_switcher {
            out.push(Keybind::new(KeyEvent::new(KeyCode::Up, KeyModifiers::none()), Action::NavigateUp, "Nav").with_display("Ctrl+k/j"));
            push_plain(&mut out, KeyCode::Enter, Action::Select, "Select");
            let mut sort: Vec<char> = to_chars("Sort (");
            crate::chars::append_str(&mut sort, sort_mode_name);
            crate::chars::append_str(&mut sort, ")");
            let sort_label = crate::chars::from_chars(&sort);
            push_plain(&mut out, KeyCode::Tab, Action::NoAction, sort_label.as_str());
            push_plain(&mut out, KeyCode::Esc, Action::Cancel, "Close");
            assert(keybinds_view(out@) =~= spec_commands(
                self.view(),
                *registry,
                self.spec_tree().selected_key(),
                self.spec_tree().expanded_keys(),
                can_edit,
                opt_str_view(open_label),
                sort_mode_name@,
            ));
            return out;
        }
        if self.show_file_explorer {
            push_first(&mut out, registry, Action::Select, "Select");
            push_first(&mut out, registry, Action::ToggleFileExplorer, "Close");
            push_plain(&mut out, KeyCode::Char('.'), Action::ToggleHiddenFiles, "Hidden");
            return out;
        }
        match self.focus {
            ChatFocus::GuildsTree => self.get_guilds_tree_commands(registry),
            ChatFocus::MessagesList => self.get_messages_list_commands(registry, can_edit, open_label),
            ChatFocus::MessageInput => self.get_message_input_commands(registry),
            ChatFocus::ConfirmationModal => {
                push_plain(&mut out, KeyCode::Enter, Action::Select, "Confirm");
                push_plain(&mut out, KeyCode::Esc, Action::Cancel, "Cancel");
                push_first(&mut out, registry, Action::ToggleHelp, "Help");
                out
            },
        }
    }

    /// The guilds, folders and channels the tree shows.
    pub fn guilds_tree_data(&self) -> (d: &GuildsTreeData)
        ensures
            *d == self.spec_tree_data(),
    {
        &self.guilds_tree_data
    }

    /// Replaces the guilds.
    pub fn set_guilds(&mut self, guilds: Vec<Guild>)
        requires
            old(self).wf(),
        ensures
            final(self).wf(),
            final(self).view() == old(self).view(),
            final(self).spec_tree_data().spec_guilds() == guilds@,
            final(self).spec_tree_data().spec_folders() == old(self).spec_tree_data().spec_folders(),
            final(self).spec_tree_data().spec_channel_lists() == old(self).spec_tree_data().spec_channel_lists(),
    {
        self.guilds_tree_data.set_guilds(guilds);
    }

    /// Stores the channels of a guild that the user is shown: those whose
    /// permissions let them be viewed (a thread going by its parent's), except
    /// those under a category that cannot be viewed. `can_view` holds, per
    /// channel, whether its permissions grant viewing, and is absent where the
    /// member or the guild's roles are unknown, so that nothing is shown.
    pub fn set_channels(&mut self, guild_id: u64, channels: Vec<Channel>, can_view: Option<Vec<bool>>)
        requires
            old(self).wf(),
            can_view matches Some(v) ==> v@.len() == channels@.len(),
        ensures
            final(self).wf(),
            final(self).view() == old(self).view(),
            final(self).spec_registry() == old(self).spec_registry(),
            final(self).spec_pane_data() == old(self).spec_pane_data(),
            final(self).spec_read_states() == old(self).spec_read_states(),
            final(self).spec_recents() == old(self).spec_recents(),
            final(self).spec_selected_guild() == old(self).spec_selected_guild(),
            final(self).spec_selected_channel() == old(self).spec_selected_channel(),
            final(self).spec_forum_states() == old(self).spec_forum_states(),
            final(self).spec_input() == old(self).spec_input(),
            final(self).spec_pane() == old(self).spec_pane(),
            final(self).spec_switcher() == old(self).spec_switcher(),
            final(self).spec_tree_data().spec_channels(guild_id) == Some(spec_visible_channels(
                channels@,
                match can_view {
                    Some(v) => Some(v@),
                    None => None,
                },
            )),
            forall|g: u64| g != guild_id ==> final(self).spec_tree_data().spec_channels(g)
                == old(self).spec_tree_data().spec_channels(g),
            final(self).spec_tree_data().spec_guilds() == old(self).spec_tree_data().spec_guilds(),
            final(self).spec_tree_data().spec_folders() == old(self).spec_tree_data().spec_folders(),
            final(self).spec_tree_data().spec_dm_users() == old(self).spec_tree_data().spec_dm_users(),
    {
        let shown = visible_channels(channels, can_view);
        self.guilds_tree_data.set_channels(guild_id, shown);
    }

    /// Replaces the read states and marks each loaded channel read or unread
    /// by them.
    pub fn set_read_states(&mut self, read_states: HashMap<u64, ReadState>)
        requires
            old(self).wf(),
        ensures
            final(self).wf(),
            final(self).view() == old(self).view(),
            final(self).spec_read_states() == read_states@,
            unread_marked(old(self).spec_tree_data(), final(self).spec_tree_data(), read_states@),
    {
        self.read_states = read_states;
        self.guilds_tree_data.update_unread_status(&self.read_states);
    }

    /// The read states, by channel id.
    pub fn read_states(&self) -> (r: &HashMap<u64, ReadState>)
        ensures
            r@ == self.spec_read_states(),
    {
        &self.read_states
    }

    /// Records that a channel was read up to a message, keeping the rest of
    /// its read state, and marks each loaded channel read or unread again.
    pub fn mark_channel_read(&mut self, channel_id: u64, message_id: u64)
        requires
            old(self).wf(),
        ensures
            final(self).wf(),
            final(self).view() == old(self).view(),
            final(self).spec_read_states() == old(self).spec_read_states().insert(
                channel_id,
                if old(self).spec_read_states().contains_key(channel_id) {
                    ReadState { last_read_message_id: Some(message_id), ..old(self).spec_read_states()[channel_id] }
                } else {
                    ReadState { channel_id, last_read_message_id: Some(message_id), mention_count: 0 }
                },
            ),
            unread_marked(old(self).spec_tree_data(), final(self).spec_tree_data(), final(self).spec_read_states()),
            final(self).spec_input() == old(self).spec_input(),
            final(self).spec_tree() == old(self).spec_tree(),
            final(self).spec_pane() == old(self).spec_pane(),
            final(self).spec_switcher() == old(self).spec_switcher(),
            final(self).spec_registry() == old(self).spec_registry(),
            final(self).spec_pane_data() == old(self).spec_pane_data(),
            final(self).spec_recents() == old(self).spec_recents(),
            final(self).spec_selected_guild() == old(self).spec_selected_guild(),
            final(self).spec_selected_channel() == old(self).spec_selected_channel(),
            final(self).spec_forum_states() == old(self).spec_forum_states(),
            final(self).spec_connection_status() == old(self).spec_connection_status(),
            final(self).spec_has_entered() == old(self).spec_has_entered(),
            final(self).spec_pending_nanos() == old(self).spec_pending_nanos(),
    {
        broadcast use vstd::std_specs::hash::group_hash_axioms;
        let updated = match self.read_states.get(&channel_id) {
            Some(rs) => ReadState { last_read_message_id: Some(message_id), ..*rs },
            None => ReadState { channel_id, last_read_message_id: Some(message_id), mention_count: 0 },
        };
        self.read_states.insert(channel_id, updated);
        self.guilds_tree_data.update_unread_status(&self.read_states);
    }

    /// Counts one more mention of the user in a channel, unless it is the
    /// open channel, and marks each loaded channel read or unread again.
    pub fn increment_mention_count(&mut self, channel_id: u64)
        requires
            old(self).wf(),
            old(self).spec_read_states().contains_key(channel_id) ==> old(self).spec_read_states()[channel_id].mention_count
                < u32::MAX,
        ensures
            final(self).wf(),
            final(self).view() == old(self).view(),
            (old(self).spec_selected_channel() matches Some(c) && c.id == channel_id) ==> *final(self) == *old(self),
            !(old(self).spec_selected_channel() matches Some(c) && c.id == channel_id) ==> {
                &&& final(self).spec_read_states() == old(self).spec_read_states().insert(
                    channel_id,
                    if old(self).spec_read_states().contains_key(channel_id) {
                        ReadState {
                            mention_count: (old(self).spec_read_states()[channel_id].mention_count + 1) as u32,
                            ..old(self).spec_read_states()[channel_id]
                        }
                    } else {
                        ReadState { channel_id, last_read_message_id: None, mention_count: 1 }
                    },
                )
                &&& unread_marked(old(self).spec_tree_data(), final(self).spec_tree_data(), final(self).spec_read_states())
            },
            final(self).spec_registry() == old(self).spec_registry(),
            final(self).spec_pane_data() == old(self).spec_pane_data(),
            final(self).spec_recents() == old(self).spec_recents(),
            final(self).spec_selected_guild() == old(self).spec_selected_guild(),
            final(self).spec_selected_channel() == old(self).spec_selected_channel(),
    {
        broadcast use vstd::std_specs::hash::group_hash_axioms;
        let is_open = match &self.selected_channel {
            Some(c) => c.id == channel_id,
            None => false,
        };
        if is_open {
            return;
        }
        let updated = match self.read_states.get(&channel_id) {
            Some(rs) => ReadState { mention_count: rs.mention_count + 1, ..*rs },
            None => {
                let mut rs = ReadState::new(channel_id, None);
                rs.mention_count = 1;
                rs
            },
        };
        self.read_states.insert(channel_id, updated);
        self.guilds_tree_data.update_unread_status(&self.read_states);
    }

    /// Opens a guild: nothing when it is the guild already open. Otherwise
    /// the guild, when known, is remembered as a visited place, it becomes the
    /// open guild with no open channel and the active guild of the tree, and
    /// its channels are asked for when none are loaded.
    pub fn on_guild_selected(&mut self, guild_id: u64) -> (r: Option<ChatKeyResult>)
        requires
            old(self).wf(),
        ensures
            final(self).wf(),
            final(self).view() == old(self).view(),
            final(self).spec_read_states() == old(self).spec_read_states(),
            final(self).spec_registry() == old(self).spec_registry(),
            old(self).spec_selected_guild() == Some(guild_id) ==> r is None && *final(self) == *old(self),
            old(self).spec_selected_guild() != Some(guild_id) ==> {
                &&& final(self).spec_selected_guild() == Some(guild_id)
                &&& final(self).spec_selected_channel() is None
                &&& final(self).spec_tree_data().spec_active_guild() == Some(guild_id)
                &&& final(self).spec_tree_data().spec_active_channel() is None
                &&& final(self).spec_tree_data().spec_channel_lists() == old(self).spec_tree_data().spec_channel_lists()
                &&& r == (if old(self).spec_tree_data().spec_channels(guild_id) is None {
                    Some(ChatKeyResult::LoadGuildChannels(guild_id))
                } else {
                    None
                })
                &&& final(self).spec_pane_data() == old(self).spec_pane_data()
                &&& final(self).spec_input() == old(self).spec_input()
            },
    {
        if self.selected_guild == Some(guild_id) {
            return None;
        }
        let guilds = self.guilds_tree_data.guilds();
        let mut i: usize = 0;
        while i < guilds.len() && guilds[i].id != guild_id
            invariant
                i <= guilds@.len(),
            decreases guilds@.len() - i,
        {
            i = i + 1;
        }
        if i < guilds.len() {
            let name = copy_str(guilds[i].name.as_str());
            self.remember_place(u64_to_decimal(guild_id), name, SearchKind::Guild, None);
        }
        self.selected_guild = Some(guild_id);
        self.selected_channel = None;
        let ghost before = old(self).guilds_tree_data;
        self.guilds_tree_data.set_active_channel(None);
        self.guilds_tree_data.set_active_guild(Some(guild_id));
        proof {
            before.lemma_channels_of_lists();
            self.guilds_tree_data.lemma_channels_of_lists();
        }
        match self.guilds_tree_data.channels(guild_id) {
            None => Some(ChatKeyResult::LoadGuildChannels(guild_id)),
            Some(_) => None,
        }
    }

    fn remember_place(&mut self, id: String, name: String, kind: SearchKind, guild_id: Option<String>)
        requires
            old(self).wf(),
        ensures
            final(self).wf(),
            final(self).view() == old(self).view(),
            final(self).spec_registry() == old(self).spec_registry(),
            final(self).spec_input() == old(self).spec_input(),
            final(self).spec_tree() == old(self).spec_tree(),
            final(self).spec_tree_data() == old(self).spec_tree_data(),
            final(self).spec_pane() == old(self).spec_pane(),
            final(self).spec_pane_data() == old(self).spec_pane_data(),
            final(self).spec_read_states() == old(self).spec_read_states(),
            final(self).spec_selected_guild() == old(self).spec_selected_guild(),
            final(self).spec_selected_channel() == old(self).spec_selected_channel(),
            final(self).spec_forum_states() == old(self).spec_forum_states(),
            if spec_is_valid_recent_item(id@, name@) {
                &&& final(self).spec_recents().len() > 0
                &&& final(self).spec_recents()[0].id@ == id@
                &&& final(self).spec_recents()[0].name@ == name@
                &&& final(self).spec_recents()[0].kind == kind
                &&& final(self).spec_recents()[0].guild_id == guild_id
                &&& recents_view(final(self).spec_switcher().recents@) == recents_view(final(self).spec_recents())
            } else {
                &&& final(self).spec_recents() == old(self).spec_recents()
                &&& final(self).spec_switcher() == old(self).spec_switcher()
            },
    {
        let item = RecentItem { id, name, kind, guild_id, timestamp: now_timestamp() };
        if is_valid_recent_item(&item) {
            add_recent_item(&mut self.recents, item);
            let copies = copy_recents(&self.recents);
            self.quick_switcher.set_recents(copies);
        }
    }

    /// Opens a direct message by its channel id: nothing when no direct
    /// message has that id or the id is not a number. Otherwise it is
    /// remembered as a visited place, its mentions are cleared and the unread
    /// marks recomputed, it becomes the open channel with no open guild and
    /// the active direct message of the tree, the message list shows it as
    /// `@` and the recipient's name with no messages, the input gets a
    /// channel and an empty text, the messages take focus, and its messages
    /// are to be loaded.
    pub fn on_dm_selected(&mut self, dm_channel_id: &str) -> (r: Option<ChatKeyResult>)
        requires
            old(self).wf(),
        ensures
            final(self).wf(),
            final(self).spec_registry() == old(self).spec_registry(),
            match dm_entry(old(self).spec_tree_data().spec_dm_users(), dm_channel_id@) {
                Some(i) if parse_u64(dm_channel_id@) is Some => {
                    let channel_id = parse_u64(dm_channel_id@).unwrap();
                    let name = old(self).spec_tree_data().spec_dm_users()[i].1@;
                    &&& r matches Some(ChatKeyResult::LoadDmMessages { channel_id: c, recipient_name: n }) && c == channel_id
                        && n@ == name
                    &&& final(self).view() == spec_set_focus(old(self).view(), ChatFocus::MessagesList)
                    &&& final(self).spec_selected_guild() is None
                    &&& final(self).spec_selected_channel() matches Some(ch) && ch.id == channel_id && ch.kind == ChannelKind::Dm
                        && ch.name@ == name
                    &&& final(self).spec_read_states() == mentions_cleared(old(self).spec_read_states(), channel_id)
                    &&& final(self).spec_tree_data().spec_active_guild() is None
                    &&& final(self).spec_tree_data().spec_active_channel() is None
                    &&& final(self).spec_tree_data().spec_active_dm_user() == Some(dm_channel_id@)
                    &&& final(self).spec_pane_data().spec_channel_id() == Some(channel_id)
                    &&& final(self).spec_pane_data().spec_channel_name() == Some(seq!['@'] + name)
                    &&& final(self).spec_input().spec_has_channel()
                    &&& final(self).spec_input().input_view() == spec_clear(old(self).spec_input().input_view())
                },
                _ => r is None && *final(self) == *old(self),
            },
    {
        let i = match dm_entry_index(self.guilds_tree_data.dm_users(), dm_channel_id) {
            Some(i) => i,
            None => {
                return None;
            },
        };
        let channel_id = match parse_u64_str(dm_channel_id) {
            Some(c) => c,
            None => {
                return None;
            },
        };
        let name = copy_str(self.guilds_tree_data.dm_users()[i].1.as_str());
        self.remember_place(copy_str(dm_channel_id), copy_str(name.as_str()), SearchKind::DM, None);
        self.clear_mentions(channel_id);
        self.selected_channel = Some(Channel::new(channel_id, name.as_str(), ChannelKind::Dm));
        self.selected_guild = None;
        self.guilds_tree_data.set_active_guild(None);
        self.guilds_tree_data.set_active_channel(None);
        self.guilds_tree_data.set_active_dm_user(Some(copy_str(dm_channel_id)));
        let mut display: Vec<char> = Vec::new();
        display.push('@');
        append_str(&mut display, name.as_str());
        self.message_pane_data.set_channel(channel_id, from_chars(&display));
        self.message_pane_state.on_channel_change();
        self.message_input_state.set_has_channel(true);
        self.message_input_state.clear();
        self.focus_messages_list();
        Some(ChatKeyResult::LoadDmMessages { channel_id, recipient_name: name })
    }

    /// Handles a key on the guilds tree: the tree moves or folds, or asks to
    /// open a channel, a guild or a direct message, to copy an id, or to load
    /// a guild's channels; opening is done here.
    pub fn handle_guilds_tree_key(&mut self, key: KeyEvent) -> (r: ChatKeyResult)
        requires
            old(self).wf(),
        ensures
            final(self).wf(),
            final(self).spec_registry() == old(self).spec_registry(),
            tree_key_post(*old(self), *final(self), key, r),
    {
        let action = self.guilds_tree_state.handle_key(key, &self.guilds_tree_data, &self.registry);
        match action {
            Some(GuildsTreeAction::SelectChannel(c)) => match self.on_channel_selected(c) {
                Some(result) => result,
                None => ChatKeyResult::Ignored,
            },
            Some(GuildsTreeAction::SelectGuild(g)) => match self.on_guild_selected(g) {
                Some(result) => result,
                None => ChatKeyResult::Ignored,
            },
            Some(GuildsTreeAction::SelectDirectMessage(id)) => match self.on_dm_selected(id.as_str()) {
                Some(result) => result,
                None => ChatKeyResult::Ignored,
            },
            Some(GuildsTreeAction::YankId(text)) => ChatKeyResult::CopyToClipboard(text),
            Some(GuildsTreeAction::LoadGuildChannels(g)) => ChatKeyResult::LoadGuildChannels(g),
            None => ChatKeyResult::Ignored,
        }
    }

    /// Replaces the direct messages (channel id and name).
    pub fn set_dm_users(&mut self, users: Vec<(String, String)>)
        requires
            old(self).wf(),
        ensures
            final(self).wf(),
            final(self).view() == old(self).view(),
            final(self).spec_tree_data().spec_dm_users() == users@,
            final(self).spec_tree_data().spec_guilds() == old(self).spec_tree_data().spec_guilds(),
            final(self).spec_tree_data().spec_channel_lists() == old(self).spec_tree_data().spec_channel_lists(),
    {
        self.guilds_tree_data.set_dm_users(users);
    }

    /// Shows the messages of the open channel, grouped.
    pub fn set_messages(&mut self, messages: Vec<PaneMessage>)
        requires
            old(self).wf(),
        ensures
            final(self).wf(),
            final(self).view() == old(self).view(),
            final(self).spec_pane_data().spec_messages() == regrouped(messages@),
            final(self).spec_pane_data().spec_channel_id() == old(self).spec_pane_data().spec_channel_id(),
            final(self).spec_pane() == old(self).spec_pane(),
            final(self).spec_input() == old(self).spec_input(),
            final(self).spec_tree_data() == old(self).spec_tree_data(),
            final(self).same_outside_pane(&*old(self)),
    {
        self.message_pane_data.set_messages(messages);
    }

    /// Replaces the guild folders.
    pub fn set_guild_folders(&mut self, folders: Vec<GuildFolder>)
        requires
            old(self).wf(),
        ensures
            final(self).wf(),
            final(self).view() == old(self).view(),
            final(self).spec_tree_data().spec_folders() == folders@,
            final(self).spec_tree_data().spec_guilds() == old(self).spec_tree_data().spec_guilds(),
            final(self).spec_tree_data().spec_channel_lists() == old(self).spec_tree_data().spec_channel_lists(),
    {
        self.guilds_tree_data.set_folders(folders);
    }

    /// Sets whether guilds are grouped in their folders.
    pub fn set_group_guilds(&mut self, group: bool)
        requires
            old(self).wf(),
        ensures
            final(self).wf(),
            final(self).view() == old(self).view(),
            final(self).spec_tree_data().spec_group_guilds() == group,
            final(self).spec_tree_data().spec_guilds() == old(self).spec_tree_data().spec_guilds(),
            final(self).spec_tree_data().spec_channel_lists() == old(self).spec_tree_data().spec_channel_lists(),
    {
        self.guilds_tree_data.set_group_guilds(group);
    }

    /// The first loaded channel with the id.
    pub fn get_channel(&self, channel_id: u64) -> (r: Option<&Channel>)
        ensures
            match channel_position(self.spec_tree_data().spec_channel_lists(), channel_id) {
                Some(p) => r is Some && *r.unwrap() == self.spec_tree_data().spec_channel_lists()[p.0].1@[p.1],
                None => r is None,
            },
    {
        self.guilds_tree_data.get_channel(channel_id)
    }

    /// The message list's navigation state.
    pub fn message_pane_state(&self) -> (m: &MessagePaneState)
        ensures
            *m == self.spec_pane(),
    {
        &self.message_pane_state
    }

    /// The messages of the open channel.
    pub fn message_pane_data(&self) -> (d: &MessagePaneData)
        ensures
            *d == self.spec_pane_data(),
    {
        &self.message_pane_data
    }

    /// Records that the messages failed to load.
    pub fn set_message_error(&mut self, error: String)
        requires
            old(self).wf(),
        ensures
            final(self).wf(),
            final(self).view() == old(self).view(),
            final(self).spec_pane_data().spec_loading_state() == LoadingState::Error,
            final(self).spec_pane_data().spec_error() == Some(error@),
            final(self).spec_pane_data().spec_messages() == old(self).spec_pane_data().spec_messages(),
            final(self).spec_pane_data().spec_channel_id() == old(self).spec_pane_data().spec_channel_id(),
            final(self).same_outside_pane(&*old(self)),
            final(self).spec_pane() == old(self).spec_pane(),
    {
        self.message_pane_data.set_error(error);
    }

    /// Sets who is typing.
    pub fn set_typing_indicator(&mut self, indicator: Option<String>)
        requires
            old(self).wf(),
        ensures
            final(self).wf(),
            final(self).view() == old(self).view(),
            final(self).spec_pane_data().extras().2 == (match indicator {
                Some(n) => Some(n@),
                None => None,
            }),
            final(self).spec_pane_data().spec_messages() == old(self).spec_pane_data().spec_messages(),
    {
        self.message_pane_data.set_typing_indicator(indicator);
    }

    /// Removes a message.
    pub fn remove_message(&mut self, message_id: u64)
        requires
            old(self).wf(),
        ensures
            final(self).wf(),
            final(self).view() == old(self).view(),
            final(self).spec_pane_data().spec_messages() == regrouped(
                old(self).spec_pane_data().spec_messages().filter(|m: PaneMessage| m.id != message_id),
            ),
            final(self).spec_pane_data().spec_channel_id() == old(self).spec_pane_data().spec_channel_id(),
            final(self).same_outside_pane(&*old(self)),
            final(self).spec_pane() == old(self).spec_pane(),
    {
        self.message_pane_data.remove_message(message_id);
    }

    /// Marks the messages as changed since they were last drawn.
    pub fn mark_messages_dirty(&mut self)
        requires
            old(self).wf(),
        ensures
            final(self).wf(),
            final(self).view() == old(self).view(),
            final(self).spec_pane_data().spec_is_dirty(),
            final(self).spec_pane_data().spec_messages() == old(self).spec_pane_data().spec_messages(),
    {
        self.message_pane_data.mark_dirty();
    }

    /// Selects the first message with the id, if the list holds one.
    pub fn jump_to_message(&mut self, message_id: u64)
        requires
            old(self).wf(),
        ensures
            final(self).wf(),
            final(self).view() == old(self).view(),
            final(self).spec_pane_data() == old(self).spec_pane_data(),
            match first_with_id(old(self).spec_pane_data().spec_messages(), message_id) {
                Some(i) => final(self).spec_pane().selection() == Some(i as usize)
                    && !final(self).spec_pane().spec_flags().is_following,
                None => final(self).spec_pane() == old(self).spec_pane(),
            },
            final(self).keeps_data(&*old(self)),
            final(self).spec_switcher() == old(self).spec_switcher(),
    {
        match has_id_exec(self.message_pane_data.messages(), message_id) {
            Some(index) => self.message_pane_state.jump_to_index(index),
            None => {},
        }
    }

    /// Handles a key in the message input: keys that move focus or open the
    /// quick switcher are left to the screen unless they edit text; the file
    /// explorer key toggles it; any other key edits the input, which may ask
    /// to send, to submit an edit (the message list's selection is cleared on
    /// sending), to leave the input for the messages, to open the editor on
    /// the text, to paste, or tells that the user is typing. Suggestions for
    /// mentions are not offered here.
    pub fn handle_message_input_key(&mut self, key: KeyEvent) -> (r: ChatKeyResult)
        requires
            old(self).wf(),
        ensures
            final(self).wf(),
            final(self).spec_registry() == old(self).spec_registry(),
            input_key_post(*old(self), *final(self), key, r),
    {
        let act = self.registry.find_action(key);
        let editing = (match key.code {
            KeyCode::Backspace | KeyCode::Delete => true,
            KeyCode::Char(c) => c == 'w' || c == 'h',
            _ => false,
        }) && (key.modifiers.contains(MOD_CONTROL) || key.modifiers.contains(MOD_ALT));
        let leaves = match act {
            Some(Action::FocusMessages) | Some(Action::FocusGuilds) | Some(Action::FocusNext) | Some(Action::FocusPrevious)
            | Some(Action::NextTab) | Some(Action::ToggleGuildsTree) | Some(Action::ToggleQuickSwitcher) => true,
            _ => false,
        };
        if !editing && leaves {
            return ChatKeyResult::Ignored;
        }
        match act {
            Some(Action::ToggleFileExplorer) => {
                self.toggle_file_explorer();
                return ChatKeyResult::Consumed;
            },
            _ => {},
        }
        match self.message_input_state.handle_key(key, &self.registry) {
            Some(MessageInputAction::SendMessage { content, reply_to, attachments }) => {
                self.message_pane_state.clear_selection();
                ChatKeyResult::SendMessage { content, reply_to, attachments }
            },
            Some(MessageInputAction::EditMessage { message_id, content }) => ChatKeyResult::SubmitEdit { message_id, content },
            Some(MessageInputAction::ExitInput) => {
                self.focus_messages_list();
                ChatKeyResult::Ignored
            },
            Some(MessageInputAction::OpenEditor) => {
                let initial_content = self.message_input_state.value();
                let message_id = match self.message_input_state.mode() {
                    MessageInputMode::Editing { message_id } => Some(*message_id),
                    _ => None,
                };
                ChatKeyResult::OpenEditor { initial_content, message_id }
            },
            Some(MessageInputAction::Paste) => ChatKeyResult::Paste,
            Some(MessageInputAction::StartTyping) => ChatKeyResult::StartTyping,
            Some(MessageInputAction::CancelReply) => ChatKeyResult::StartTyping,
            None => ChatKeyResult::Ignored,
        }
    }

    /// Handles a key on the chat screen: the help and the delete
    /// confirmation take it first; an open file explorer closes on its key or
    /// cancel and leaves other keys to the explorer; the quick switcher opens
    /// on its key, and when open closes on cancel and leaves other keys to
    /// the switcher; otherwise the focused pane handles it (the message list
    /// for a user, given what it shows), and a key the pane leaves goes to
    /// the application-wide bindings, the rest being consumed.
    pub fn handle_key(
        &mut self,
        key: KeyEvent,
        messages: &Vec<MessageSummary>,
        user_id: &str,
        hide_blocked_completely: bool,
    ) -> (r: ChatKeyResult)
        requires
            old(self).wf(),
        ensures
            final(self).wf(),
            final(self).spec_registry() == old(self).spec_registry(),
            ({
                let act = first_action(old(self).spec_registry().inputs(), key);
                let v = old(self).view();
                if v.help || v.focus == ChatFocus::ConfirmationModal {
                    (final(self).view(), Some(r)) == spec_modal_key(v, act, key.code)
                } else if v.explorer {
                    if act == Some(Action::ToggleFileExplorer) || act == Some(Action::Cancel) {
                        r == ChatKeyResult::Consumed && final(self).view() == (ChatView { explorer: false, ..v })
                    } else {
                        r == ChatKeyResult::Ignored && *final(self) == *old(self)
                    }
                } else if act == Some(Action::ToggleQuickSwitcher) && !v.switcher {
                    r == ChatKeyResult::Consumed && final(self).view() == (ChatView { switcher: true, ..v })
                } else if v.switcher {
                    if act == Some(Action::Cancel) {
                        r == ChatKeyResult::Consumed && final(self).view() == (ChatView { switcher: false, ..v })
                    } else {
                        r == ChatKeyResult::Ignored && *final(self) == *old(self)
                    }
                } else {
                    exists|mid: ChatScreenState, r0: ChatKeyResult|
                        #[trigger] focused_key_post(*old(self), mid, key, messages@, user_id@, hide_blocked_completely, r0)
                        && mid.wf() && mid.spec_registry() == old(self).spec_registry()
                        && if r0 != ChatKeyResult::Ignored {
                        r == r0 && *final(self) == mid
                    } else {
                        exists|g: Option<ChatKeyResult>| #[trigger] global_key_post(mid, *final(self), key, g)
                            && r == (match g {
                            Some(x) => x,
                            None => ChatKeyResult::Consumed,
                        })
                    }
                }
            }),
    {
        match self.handle_modal_key(key) {
            Some(result) => {
                return result;
            },
            None => {},
        }
        let act = self.registry.find_action(key);
        let closes_explorer = match act {
            Some(Action::ToggleFileExplorer) | Some(Action::Cancel) => true,
            _ => false,
        };
        if self.show_file_explorer {
            if closes_explorer {
                self.toggle_file_explorer();
                return ChatKeyResult::Consumed;
            }
            return ChatKeyResult::Ignored;
        }
        let opens_switcher = match act {
            Some(Action::ToggleQuickSwitcher) => true,
            _ => false,
        };
        if opens_switcher && !self.show_quick_switcher {
            self.toggle_quick_switcher();
            return ChatKeyResult::Consumed;
        }
        if self.show_quick_switcher {
            let cancels = match act {
                Some(Action::Cancel) => true,
                _ => false,
            };
            if cancels {
                self.toggle_quick_switcher();
                return ChatKeyResult::Consumed;
            }
            return ChatKeyResult::Ignored;
        }
        let ghost before = *self;
        let result = match self.focus {
            ChatFocus::MessageInput => self.handle_message_input_key(key),
            ChatFocus::GuildsTree => self.handle_guilds_tree_key(key),
            ChatFocus::MessagesList => self.handle_messages_list_key(key, messages, user_id, hide_blocked_completely),
            ChatFocus::ConfirmationModal => ChatKeyResult::Consumed,
        };
        let ghost mid = *self;
        assert(focused_key_post(before, mid, key, messages@, user_id@, hide_blocked_completely, result));
        match result {
            ChatKeyResult::Ignored => {},
            other => {
                return other;
            },
        }
        let g = self.handle_global_key(key);
        assert(global_key_post(mid, *self, key, g));
        match g {
            Some(result) => result,
            None => ChatKeyResult::Consumed,
        }
    }

    /// Handles a key bound to an application-wide action.
    pub fn handle_global_key(&mut self, key: KeyEvent) -> (r: Option<ChatKeyResult>)
        requires
            old(self).wf(),
        ensures
            final(self).wf(),
            global_key_post(*old(self), *final(self), key, r),
    {
        match self.registry.find_action(key) {
            Some(Action::Quit) => Some(ChatKeyResult::Quit),
            Some(Action::Logout) => Some(ChatKeyResult::Logout),
            Some(Action::SecureLogout) => Some(ChatKeyResult::SecureLogout),
            Some(Action::FocusGuilds) => {
                self.focus_guilds_tree();
                Some(ChatKeyResult::Consumed)
            },
            Some(Action::FocusMessages) => {
                self.focus_messages_list();
                Some(ChatKeyResult::Consumed)
            },
            Some(Action::FocusInput) => {
                if self.focus == ChatFocus::MessageInput {
                    return None;
                }
                self.focus_message_input();
                Some(ChatKeyResult::Consumed)
            },
            Some(Action::FocusPrevious) => {
                self.focus_previous();
                Some(ChatKeyResult::Consumed)
            },
            Some(Action::FocusNext) => {
                self.focus_next();
                Some(ChatKeyResult::Consumed)
            },
            Some(Action::NextTab) => {
                self.focus_next();
                Some(ChatKeyResult::Consumed)
            },
            Some(Action::ToggleGuildsTree) => {
                self.toggle_guilds_tree();
                Some(ChatKeyResult::Consumed)
            },
            Some(Action::ToggleHelp) => {
                let typed = match key.code {
                    KeyCode::Char(_) => true,
                    _ => false,
                };
                if self.focus == ChatFocus::MessageInput && typed {
                    return None;
                }
                self.toggle_help();
                Some(ChatKeyResult::ToggleHelp)
            },
            Some(Action::ToggleDisplayName) => Some(ChatKeyResult::ToggleDisplayName),
            Some(Action::ToggleQuickSwitcher) => {
                self.toggle_quick_switcher();
                Some(ChatKeyResult::Consumed)
            },
            _ => None,
        }
    }

    /// Handles a key while the help or the delete confirmation is open;
    /// `None` when neither is.
    pub fn handle_modal_key(&mut self, key: KeyEvent) -> (r: Option<ChatKeyResult>)
        requires
            old(self).wf(),
        ensures
            final(self).wf(),
            (final(self).view(), r) == spec_modal_key(old(self).view(), first_action(old(self).spec_registry().inputs(), key), key.code),
            r is None ==> *final(self) == *old(self),
            final(self).spec_registry() == old(self).spec_registry(),
            final(self).spec_input().input_view() == old(self).spec_input().input_view(),
            final(self).keeps_data(&*old(self)),
            final(self).spec_switcher() == old(self).spec_switcher(),
    {
        if self.show_help {
            let action = self.registry.find_action(key);
            let closes = match action {
                Some(Action::ToggleHelp) => true,
                Some(Action::Quit) => true,
                Some(Action::Cancel) => true,
                _ => false,
            };
            if closes {
                self.toggle_help();
            }
            return Some(ChatKeyResult::Consumed);
        }
        if self.focus == ChatFocus::ConfirmationModal {
            match key.code {
                KeyCode::Enter => {
                    let pending = self.pending_deletion_id;
                    self.pending_deletion_id = None;
                    self.set_focus(ChatFocus::MessagesList);
                    return Some(
                        match pending {
                            Some(id) => ChatKeyResult::DeleteMessage(id),
                            None => ChatKeyResult::Consumed,
                        },
                    );
                },
                KeyCode::Esc => {
                    self.pending_deletion_id = None;
                    self.set_focus(ChatFocus::MessagesList);
                    return Some(ChatKeyResult::Consumed);
                },
                KeyCode::Char('n') => {
                    self.pending_deletion_id = None;
                    self.set_focus(ChatFocus::MessagesList);
                    return Some(ChatKeyResult::Consumed);
                },
                _ => {
                    return Some(ChatKeyResult::Consumed);
                },
            }
        }
        None
    }
}

/// Showing and hiding the guilds tree brings its visibility back, and a
/// hidden tree is never left with focus.
pub proof fn lemma_toggle_tree(v: ChatView)
    ensures
        spec_toggle_tree(spec_toggle_tree(v)).tree_visible == v.tree_visible,
        !spec_toggle_tree(v).tree_visible ==> spec_toggle_tree(v).focus != ChatFocus::GuildsTree,
        v.focus != ChatFocus::GuildsTree ==> spec_toggle_tree(v).focus == v.focus,
{
}

/// While the help is open it takes every key: nothing else happens and
/// only the help, quit and cancel keys close it.
pub proof fn lemma_help_takes_every_key(v: ChatView, action: Option<Action>, code: KeyCode)
    requires
        v.help,
    ensures
        spec_modal_key(v, action, code).1 == Some(ChatKeyResult::Consumed),
        spec_modal_key(v, action, code).0.focus == v.focus,
        spec_modal_key(v, action, code).0.pending_deletion == v.pending_deletion,
        !spec_modal_key(v, action, code).0.help <==> (action == Some(Action::ToggleHelp) || action == Some(Action::Quit)
            || action == Some(Action::Cancel)),
{
}

/// Every key closes the delete confirmation but the ones it ignores, and
/// only Enter deletes, the message that was waiting.
pub proof fn lemma_confirmation_deletes_only_on_enter(v: ChatView, action: Option<Action>, code: KeyCode)
    requires
        !v.help,
        v.focus == ChatFocus::ConfirmationModal,
    ensures
        spec_modal_key(v, action, code).1 matches Some(ChatKeyResult::DeleteMessage(id)) ==> code == KeyCode::Enter
            && v.pending_deletion == Some(id),
        spec_modal_key(v, action, code).0.focus != ChatFocus::ConfirmationModal ==> spec_modal_key(v, action, code).0.pending_deletion is None,
{
}

} // verus!
