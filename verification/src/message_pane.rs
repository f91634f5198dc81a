//! The message list's navigation state: selection, scrolling, following
//! new messages, collapsed runs of blocked messages, the forum view, and the
//! actions that keys ask for.

use vstd::prelude::*;
use crate::commands::{CommandRegistry, first_action};
use crate::entities::{copy_thread, thread_view, ForumThread};
use crate::keys::{Action, KeyEvent};
use crate::utils::{decimal, u64_to_decimal};

verus! {

/// Lines moved by one scroll step.
pub const SCROLL_AMOUNT: usize = 3;

/// Height of a thread card in the forum view.
pub const THREAD_CARD_HEIGHT: u16 = 6;

/// Whether a message starts a group or continues the previous author's.
#[derive(Clone, Copy, Debug, PartialEq, Eq, Structural)]
pub enum MessageGroup {
    Start,
    Compact,
}

impl Default for MessageGroup {
    fn default() -> (g: MessageGroup)
        ensures
            g == MessageGroup::Start,
    {
        MessageGroup::Start
    }
}

/// The loading state of the message list.
#[derive(Clone, Copy, Debug, PartialEq, Eq, Structural)]
pub enum LoadingState {
    Idle,
    Loading,
    Loaded,
    Error,
}

/// What a key on the message list asks for.
#[derive(Clone, Debug, PartialEq, Eq)]
pub enum MessagePaneAction {
    SelectMessage(u64),
    ClearSelection,
    Reply { message_id: u64, mention: bool },
    Edit(u64),
    EditExternal(u64),
    Delete(u64),
    CopyImage(String),
    YankContent(String),
    YankUrl(String),
    YankId(String),
    OpenAttachments(u64),
    JumpToReply(u64),
    LoadHistory,
    OpenThread(u64),
    CloseThread,
}

/// An item of the rendered list: one visible message, or a run of
/// consecutive messages from blocked users.
#[derive(Clone, Copy, Debug, PartialEq, Eq, Structural)]
pub enum RenderItem {
    Message { idx: usize },
    BlockedRun { count: usize, start_idx: usize },
}

/// What opening a message's attachments does: show its images, open the
/// link it carries, or nothing.
#[derive(Clone, Debug)]
pub enum ContentAction {
    OpenImages,
    OpenLink(String),
    NoAction,
}

/// What the message list needs to know of a message to act on keys.
#[derive(Clone, Debug)]
pub struct MessageSummary {
    pub id: u64,
    pub author_id: String,
    pub content: String,
    pub content_action: ContentAction,
    pub author_blocked: bool,
    pub first_image_id: Option<String>,
    pub reply_to: Option<u64>,
    pub first_channel_mention: Option<u64>,
}

/// The end of the run of blocked messages starting at `i`.
pub open spec fn run_end(blocked: Seq<bool>, i: int) -> int
    decreases blocked.len() - i,
{
    if 0 <= i < blocked.len() && blocked[i] {
        run_end(blocked, i + 1)
    } else {
        i
    }
}

proof fn lemma_run_end_bounds(blocked: Seq<bool>, i: int)
    requires
        0 <= i <= blocked.len(),
    ensures
        i <= run_end(blocked, i) <= blocked.len(),
        i < blocked.len() && blocked[i] ==> run_end(blocked, i) > i,
    decreases blocked.len() - i,
{
    if i < blocked.len() && blocked[i] {
        lemma_run_end_bounds(blocked, i + 1);
    }
}

/// Within a run that starts at `i`, every message is blocked, and the run
/// stops at the end or at a message that is not blocked.
proof fn lemma_run_end_props(blocked: Seq<bool>, i: int)
    requires
        0 <= i <= blocked.len(),
    ensures
        forall|t: int| i <= t < run_end(blocked, i) ==> blocked[t],
        run_end(blocked, i) < blocked.len() ==> !blocked[run_end(blocked, i)],
        i <= run_end(blocked, i) <= blocked.len(),
    decreases blocked.len() - i,
{
    lemma_run_end_bounds(blocked, i);
    if i < blocked.len() && blocked[i] {
        lemma_run_end_props(blocked, i + 1);
    }
}

/// The message after the last one a render item stands for.
pub open spec fn item_end(item: RenderItem) -> int {
    match item {
        RenderItem::Message { idx } => idx + 1,
        RenderItem::BlockedRun { count, start_idx } => start_idx + count,
    }
}

/// A render item is right for the messages: a message item stands for a
/// message that is not blocked; a run stands for one or more blocked
/// messages in a row, with no blocked message just before or just after it.
pub open spec fn item_fits(blocked: Seq<bool>, item: RenderItem) -> bool {
    match item {
        RenderItem::Message { idx } => idx < blocked.len() && !blocked[idx as int],
        RenderItem::BlockedRun { count, start_idx } => {
            &&& count > 0
            &&& start_idx + count <= blocked.len()
            &&& forall|t: int| start_idx <= t < start_idx + count ==> blocked[t]
            &&& (start_idx + count == blocked.len() || !blocked[start_idx + count])
            &&& (start_idx == 0 || !blocked[start_idx - 1])
        },
    }
}

/// The items cover the messages from `from` to the end, in order, each
/// taking up where the one before it stops, and each fits the messages.
pub open spec fn items_cover(blocked: Seq<bool>, items: Seq<RenderItem>, from: int) -> bool {
    &&& forall|k: int| 0 <= k < items.len() ==> item_fits(blocked, #[trigger] items[k])
    &&& items.len() == 0 ==> from == blocked.len()
    &&& items.len() > 0 ==> item_message(items[0]) == from && item_end(items.last()) == blocked.len()
    &&& forall|k: int| 0 <= k < items.len() - 1 ==> item_end(#[trigger] items[k]) == item_message(items[k + 1])
}

proof fn lemma_items_from_cover(blocked: Seq<bool>, from: int)
    requires
        blocked.len() <= usize::MAX,
        0 <= from <= blocked.len(),
        0 < from < blocked.len() && blocked[from] ==> !blocked[from - 1],
    ensures
        items_cover(blocked, render_items_from(blocked, false, from), from),
    decreases blocked.len() - from,
{
    if from < blocked.len() {
        let (head, next) = if blocked[from] {
            lemma_run_end_props(blocked, from);
            let j = run_end(blocked, from);
            (RenderItem::BlockedRun { count: (j - from) as usize, start_idx: from as usize }, j)
        } else {
            (RenderItem::Message { idx: from as usize }, from + 1)
        };
        lemma_run_end_props(blocked, from);
        lemma_items_from_cover(blocked, next);
        let rest = render_items_from(blocked, false, next);
        let items = render_items_from(blocked, false, from);
        assert(items =~= seq![head] + rest);
        assert(item_fits(blocked, head));
        assert(item_end(head) == next);
        assert forall|k: int| 0 <= k < items.len() implies item_fits(blocked, #[trigger] items[k]) by {
            if k > 0 {
                assert(items[k] == rest[k - 1]);
            }
        }
        assert forall|k: int| 0 <= k < items.len() - 1 implies item_end(#[trigger] items[k]) == item_message(
            items[k + 1],
        ) by {
            if k > 0 {
                assert(items[k] == rest[k - 1]);
                assert(items[k + 1] == rest[k]);
            } else {
                assert(items[1] == rest[0]);
            }
        }
        if rest.len() > 0 {
            assert(items.last() == rest.last());
        }
    }
}

/// Folding blocked users' messages: the render items stand, in order, for
/// all the messages; each visible message is an item of its own, and each
/// maximal run of consecutive blocked messages is one item (so no run is
/// cut in pieces, and no two runs touch).
pub proof fn lemma_render_items_fold_runs(blocked: Seq<bool>)
    requires
        blocked.len() <= usize::MAX,
    ensures
        items_cover(blocked, spec_render_items(blocked, false), 0),
{
    lemma_items_from_cover(blocked, 0);
}

/// The render items of messages `i..`: a visible message is one item; a
/// run of blocked messages is one item, or none when blocked messages are
/// hidden completely.
pub open spec fn render_items_from(blocked: Seq<bool>, hide_blocked: bool, i: int) -> Seq<RenderItem>
    decreases blocked.len() - i,
{
    if i < 0 || i >= blocked.len() {
        Seq::empty()
    } else if blocked[i] && hide_blocked {
        render_items_from(blocked, hide_blocked, i + 1)
    } else if blocked[i] {
        let j = run_end(blocked, i);
        if i < j <= blocked.len() {
            seq![RenderItem::BlockedRun { count: (j - i) as usize, start_idx: i as usize }]
                + render_items_from(blocked, hide_blocked, j)
        } else {
            Seq::empty()
        }
    } else {
        seq![RenderItem::Message { idx: i as usize }] + render_items_from(blocked, hide_blocked, i + 1)
    }
}

/// The render items of a message list whose authors are blocked or not.
pub open spec fn spec_render_items(blocked: Seq<bool>, hide_blocked: bool) -> Seq<RenderItem> {
    render_items_from(blocked, hide_blocked, 0)
}

/// Groups the messages into render items.
pub fn build_render_items(blocked: &Vec<bool>, hide_blocked: bool) -> (items: Vec<RenderItem>)
    ensures
        items@ == spec_render_items(blocked@, hide_blocked),
{
    let mut items: Vec<RenderItem> = Vec::new();
    let mut i: usize = 0;
    while i < blocked.len()
        invariant
            i <= blocked@.len(),
            items@ + render_items_from(blocked@, hide_blocked, i as int) == spec_render_items(blocked@, hide_blocked),
        decreases blocked@.len() - i,
    {
        if blocked[i] && hide_blocked {
            i = i + 1;
        } else if blocked[i] {
            let start = i;
            let mut j = i;
            proof {
                lemma_run_end_bounds(blocked@, i as int);
            }
            while j < blocked.len() && blocked[j]
                invariant
                    start <= j <= blocked@.len(),
                    run_end(blocked@, start as int) == run_end(blocked@, j as int),
                decreases blocked@.len() - j,
            {
                j = j + 1;
            }
            let ghost before = items@;
            items.push(RenderItem::BlockedRun { count: j - start, start_idx: start });
            assert(items@ + render_items_from(blocked@, hide_blocked, j as int) =~= before
                + render_items_from(blocked@, hide_blocked, start as int));
            i = j;
        } else {
            let ghost before = items@;
            items.push(RenderItem::Message { idx: i });
            assert(items@ + render_items_from(blocked@, hide_blocked, i + 1) =~= before
                + render_items_from(blocked@, hide_blocked, i as int));
            i = i + 1;
        }
    }
    assert(items@ + Seq::<RenderItem>::empty() =~= items@);
    items
}

/// Whether a render item holds the message at `sel`.
pub open spec fn item_holds(item: RenderItem, sel: usize) -> bool {
    match item {
        RenderItem::Message { idx } => idx == sel,
        RenderItem::BlockedRun { start_idx, count } => start_idx <= sel && sel < start_idx + count,
    }
}

/// The message that stands for a render item: the message, or the first of the run.
pub open spec fn item_message(item: RenderItem) -> usize {
    match item {
        RenderItem::Message { idx } => idx,
        RenderItem::BlockedRun { start_idx, .. } => start_idx,
    }
}

/// The first render item that holds the selected message.
pub open spec fn spec_find_item(items: Seq<RenderItem>, selected: Option<usize>) -> Option<int> {
    match selected {
        None => None,
        Some(sel) => if exists|k: int| 0 <= k < items.len() && item_holds(#[trigger] items[k], sel) {
            Some(choose|k: int| 0 <= k < items.len() && item_holds(#[trigger] items[k], sel)
                && forall|m: int| 0 <= m < k ==> !item_holds(#[trigger] items[m], sel))
        } else {
            None
        },
    }
}

/// Forum view state: the threads, the selected one, and the scroll offset.
#[derive(Clone, Debug)]
pub struct ForumState {
    pub threads: Vec<ForumThread>,
    pub selected_idx: usize,
    pub scroll_offset: u16,
    pub needs_scroll_to_selection: bool,
}

/// A forum view as plain values: its threads, the selected thread, the
/// scroll offset, and whether the selection is to be scrolled to.
pub open spec fn forum_view(f: ForumState) -> (Seq<(u64, Option<u64>, Seq<char>, Seq<char>, u32, u32, Option<u64>, bool)>, usize, u16, bool) {
    (f.threads@.map_values(|t: ForumThread| thread_view(t)), f.selected_idx, f.scroll_offset, f.needs_scroll_to_selection)
}

/// A copy of a forum view.
pub fn copy_forum_state(f: &ForumState) -> (r: ForumState)
    ensures
        forum_view(r) == forum_view(*f),
{
    let mut threads: Vec<ForumThread> = Vec::new();
    let mut i: usize = 0;
    while i < f.threads.len()
        invariant
            i <= f.threads@.len(),
            threads@.len() == i,
            forall|k: int| 0 <= k < i ==> thread_view(#[trigger] threads@[k]) == thread_view(f.threads@[k]),
        decreases f.threads@.len() - i,
    {
        threads.push(copy_thread(&f.threads[i]));
        i = i + 1;
    }
    let r = ForumState {
        threads,
        selected_idx: f.selected_idx,
        scroll_offset: f.scroll_offset,
        needs_scroll_to_selection: f.needs_scroll_to_selection,
    };
    assert(r.threads@.map_values(|t: ForumThread| thread_view(t)) =~= f.threads@.map_values(|t: ForumThread| thread_view(t)));
    r
}

impl Default for ForumState {
    fn default() -> (f: ForumState)
        ensures
            f.threads@.len() == 0,
            f.selected_idx == 0,
            f.scroll_offset == 0,
            !f.needs_scroll_to_selection,
    {
        ForumState { threads: Vec::new(), selected_idx: 0, scroll_offset: 0, needs_scroll_to_selection: false }
    }
}

/// Whether the pane shows messages or the threads of a forum.
#[derive(Clone, Debug)]
pub enum ViewMode {
    Messages,
    Forum(ForumState),
}

impl Default for ViewMode {
    fn default() -> (v: ViewMode)
        ensures
            v is Messages,
    {
        ViewMode::Messages
    }
}

/// Focus, following and scroll-to-selection flags.
#[derive(Clone, Copy, Debug, PartialEq, Eq, Structural)]
pub struct MessagePaneFlags {
    pub focused: bool,
    pub is_following: bool,
    pub scroll_to_selection: bool,
}

/// The navigation state of the message list.
pub struct MessagePaneState {
    pub view_mode: ViewMode,
    pub vertical_scroll: usize,
    pub show_spoilers: bool,
    selected_index: Option<usize>,
    flags: MessagePaneFlags,
    content_height: usize,
    viewport_height: u16,
    last_width: u16,
}

/// The farthest the list can scroll: the content beyond one viewport.
pub open spec fn spec_max_scroll(content_height: usize, viewport_height: u16) -> usize {
    if content_height > viewport_height {
        (content_height - viewport_height) as usize
    } else {
        0
    }
}

/// The message `select_next` selects: the next one, stopping at the last;
/// the last when none is selected.
pub open spec fn spec_next_selection(sel: Option<usize>, count: usize) -> usize {
    match sel {
        None => (count - 1) as usize,
        Some(i) => if i + 1 < count { (i + 1) as usize } else { (count - 1) as usize },
    }
}

/// The message `select_previous` selects: the previous one, stopping at the
/// first; the last when none is selected.
pub open spec fn spec_previous_selection(sel: Option<usize>, count: usize) -> usize {
    match sel {
        None => (count - 1) as usize,
        Some(i) => if i > 0 { (i - 1) as usize } else { 0 },
    }
}

/// Away from the last message, selecting the previous message after the
/// next one comes back to the message that was selected; away from the
/// first, the next after the previous does too.
pub proof fn lemma_select_previous_undoes_next(i: usize, count: usize)
    requires
        i < count,
    ensures
        i + 1 < count ==> spec_previous_selection(Some(spec_next_selection(Some(i), count)), count) == i,
        i > 0 ==> spec_next_selection(Some(spec_previous_selection(Some(i), count)), count) == i,
{
}

impl MessagePaneState {
    /// The scroll offset, in lines.
    pub closed spec fn scroll(&self) -> usize {
        self.vertical_scroll
    }

    /// Whether spoilers are shown.
    pub closed spec fn spoilers(&self) -> bool {
        self.show_spoilers
    }

    /// What the pane shows.
    pub closed spec fn spec_view_mode(&self) -> ViewMode {
        self.view_mode
    }

    /// The selected message.
    pub closed spec fn selection(&self) -> Option<usize> {
        self.selected_index
    }

    /// The flags.
    pub closed spec fn spec_flags(&self) -> MessagePaneFlags {
        self.flags
    }

    /// The height of the content, in lines.
    pub closed spec fn spec_content_height(&self) -> usize {
        self.content_height
    }

    /// The height of the viewport, in lines.
    pub closed spec fn spec_viewport_height(&self) -> u16 {
        self.viewport_height
    }

    /// The width the list was last laid out with.
    pub closed spec fn spec_last_width(&self) -> u16 {
        self.last_width
    }

    /// The farthest the list can scroll now.
    pub open spec fn max_scroll(&self) -> usize {
        spec_max_scroll(self.spec_content_height(), self.spec_viewport_height())
    }

    /// A state showing messages, nothing selected, following new messages,
    /// unfocused, at the top, with no content.
    pub fn new() -> (s: MessagePaneState)
        ensures
            s.spec_view_mode() is Messages,
            s.scroll() == 0,
            !s.spoilers(),
            s.selection() is None,
            s.spec_flags() == (MessagePaneFlags { focused: false, is_following: true, scroll_to_selection: false }),
            s.spec_content_height() == 0,
            s.spec_viewport_height() == 0,
            s.spec_last_width() == 0,
    {
        MessagePaneState {
            view_mode: ViewMode::Messages,
            vertical_scroll: 0,
            show_spoilers: false,
            selected_index: None,
            flags: MessagePaneFlags { focused: false, is_following: true, scroll_to_selection: false },
            content_height: 0,
            viewport_height: 0,
            last_width: 0,
        }
    }

    /// What the pane shows.
    pub fn view_mode(&self) -> (m: &ViewMode)
        ensures
            *m == self.spec_view_mode(),
    {
        &self.view_mode
    }

    /// Shows messages or a forum view.
    pub fn set_view_mode(&mut self, mode: ViewMode)
        ensures
            final(self).spec_view_mode() == mode,
            final(self).selection() == old(self).selection(),
            final(self).spec_flags() == old(self).spec_flags(),
            final(self).scroll() == old(self).scroll(),
            final(self).spoilers() == old(self).spoilers(),
            final(self).spec_content_height() == old(self).spec_content_height(),
            final(self).spec_viewport_height() == old(self).spec_viewport_height(),
            final(self).spec_last_width() == old(self).spec_last_width(),
    {
        self.view_mode = mode;
    }

    /// Sets focus.
    pub fn set_focused(&mut self, focused: bool)
        ensures
            final(self).spec_flags() == (MessagePaneFlags { focused, ..old(self).spec_flags() }),
            final(self).selection() == old(self).selection(),
            final(self).scroll() == old(self).scroll(),
            final(self).spec_content_height() == old(self).spec_content_height(),
            final(self).spec_viewport_height() == old(self).spec_viewport_height(),
            final(self).spec_view_mode() == old(self).spec_view_mode(),
            final(self).spoilers() == old(self).spoilers(),
            final(self).spec_last_width() == old(self).spec_last_width(),
    {
        self.flags.focused = focused;
    }

    /// Whether the list has focus.
    pub fn is_focused(&self) -> (b: bool)
        ensures
            b == self.spec_flags().focused,
    {
        self.flags.focused
    }

    /// Whether the list follows new messages.
    pub fn is_following(&self) -> (b: bool)
        ensures
            b == self.spec_flags().is_following,
    {
        self.flags.is_following
    }

    /// Whether the view is to be scrolled to the selection.
    pub fn scroll_to_selection(&self) -> (b: bool)
        ensures
            b == self.spec_flags().scroll_to_selection,
    {
        self.flags.scroll_to_selection
    }

    /// Marks the scroll to the selection done or pending.
    pub fn set_scroll_to_selection(&mut self, pending: bool)
        ensures
            final(self).spec_flags() == (MessagePaneFlags { scroll_to_selection: pending, ..old(self).spec_flags() }),
            final(self).selection() == old(self).selection(),
            final(self).scroll() == old(self).scroll(),
            final(self).spec_content_height() == old(self).spec_content_height(),
            final(self).spec_viewport_height() == old(self).spec_viewport_height(),
            final(self).spec_view_mode() == old(self).spec_view_mode(),
            final(self).spoilers() == old(self).spoilers(),
            final(self).spec_last_width() == old(self).spec_last_width(),
    {
        self.flags.scroll_to_selection = pending;
    }

    /// The selected message.
    pub fn selected_index(&self) -> (s: Option<usize>)
        ensures
            s == self.selection(),
    {
        self.selected_index
    }

    /// The viewport height.
    pub fn viewport_height(&self) -> (h: u16)
        ensures
            h == self.spec_viewport_height(),
    {
        self.viewport_height
    }

    /// The content height.
    pub fn content_height(&self) -> (h: usize)
        ensures
            h == self.spec_content_height(),
    {
        self.content_height
    }

    /// The last layout width.
    pub fn last_width(&self) -> (w: u16)
        ensures
            w == self.spec_last_width(),
    {
        self.last_width
    }

    /// Records the width the list was laid out with.
    pub fn set_last_width(&mut self, width: u16)
        ensures
            final(self).spec_last_width() == width,
            final(self).selection() == old(self).selection(),
            final(self).spec_flags() == old(self).spec_flags(),
            final(self).scroll() == old(self).scroll(),
            final(self).spec_content_height() == old(self).spec_content_height(),
            final(self).spec_viewport_height() == old(self).spec_viewport_height(),
            final(self).spec_view_mode() == old(self).spec_view_mode(),
            final(self).spoilers() == old(self).spoilers(),
    {
        self.last_width = width;
    }

    /// Shows or hides spoilers.
    pub fn toggle_spoiler(&mut self)
        ensures
            final(self).spoilers() == !old(self).spoilers(),
            final(self).selection() == old(self).selection(),
            final(self).spec_flags() == old(self).spec_flags(),
            final(self).scroll() == old(self).scroll(),
            final(self).spec_content_height() == old(self).spec_content_height(),
            final(self).spec_viewport_height() == old(self).spec_viewport_height(),
            final(self).spec_view_mode() == old(self).spec_view_mode(),
            final(self).spec_last_width() == old(self).spec_last_width(),
    {
        self.show_spoilers = !self.show_spoilers;
    }

    /// Keeps the view on the same messages after older ones were added above:
    /// the selection moves down by the messages added, and the scroll and the
    /// content height grow by their height (saturating).
    pub fn adjust_for_prepend(&mut self, added_count: usize, added_height: usize)
        requires
            old(self).selection() matches Some(i) ==> i + added_count <= usize::MAX,
        ensures
            final(self).selection() == (match old(self).selection() {
                Some(i) => Some((i + added_count) as usize),
                None => None,
            }),
            final(self).scroll() == (if old(self).scroll() + added_height > usize::MAX {
                usize::MAX
            } else {
                (old(self).scroll() + added_height) as usize
            }),
            final(self).spec_content_height() == (if old(self).spec_content_height() + added_height > usize::MAX {
                usize::MAX
            } else {
                (old(self).spec_content_height() + added_height) as usize
            }),
            final(self).spec_flags() == old(self).spec_flags(),
            final(self).spec_viewport_height() == old(self).spec_viewport_height(),
            final(self).spec_view_mode() == old(self).spec_view_mode(),
            final(self).spoilers() == old(self).spoilers(),
            final(self).spec_last_width() == old(self).spec_last_width(),
    {
        if let Some(idx) = self.selected_index {
            self.selected_index = Some(idx + added_count);
        }
        self.vertical_scroll = self.vertical_scroll.saturating_add(added_height);
        self.content_height = self.content_height.saturating_add(added_height);
    }

    /// Selects a message and stops following.
    pub fn jump_to_index(&mut self, index: usize)
        ensures
            final(self).selection() == Some(index),
            final(self).spec_flags() == (MessagePaneFlags {
                scroll_to_selection: true,
                is_following: false,
                ..old(self).spec_flags()
            }),
            final(self).scroll() == old(self).scroll(),
            final(self).spec_content_height() == old(self).spec_content_height(),
            final(self).spec_viewport_height() == old(self).spec_viewport_height(),
            final(self).spec_view_mode() == old(self).spec_view_mode(),
            final(self).spoilers() == old(self).spoilers(),
            final(self).spec_last_width() == old(self).spec_last_width(),
    {
        self.selected_index = Some(index);
        self.flags.scroll_to_selection = true;
        self.flags.is_following = false;
    }

    /// Selects the next message, stopping at the last; with no selection,
    /// selects the last. Nothing happens when there are no messages.
    pub fn select_next(&mut self, message_count: usize)
        ensures
            message_count == 0 ==> final(self).selection() == old(self).selection()
                && final(self).spec_flags() == old(self).spec_flags(),
            message_count > 0 ==> final(self).selection() == Some(spec_next_selection(old(self).selection(), message_count))
                && final(self).spec_flags() == (MessagePaneFlags {
                scroll_to_selection: true,
                is_following: false,
                ..old(self).spec_flags()
            }),
            final(self).scroll() == old(self).scroll(),
            final(self).spec_content_height() == old(self).spec_content_height(),
            final(self).spec_viewport_height() == old(self).spec_viewport_height(),
            final(self).spec_view_mode() == old(self).spec_view_mode(),
            final(self).spoilers() == old(self).spoilers(),
            final(self).spec_last_width() == old(self).spec_last_width(),
    {
        if message_count == 0 {
            return;
        }
        self.flags.is_following = false;
        self.flags.scroll_to_selection = true;
        self.selected_index = Some(
            match self.selected_index {
                None => message_count - 1,
                Some(idx) => if idx < message_count - 1 { idx + 1 } else { message_count - 1 },
            },
        );
    }

    /// Selects the previous message, stopping at the first; with no
    /// selection, selects the last. Nothing happens when there are no messages.
    pub fn select_previous(&mut self, message_count: usize)
        ensures
            message_count == 0 ==> final(self).selection() == old(self).selection()
                && final(self).spec_flags() == old(self).spec_flags(),
            message_count > 0 ==> final(self).selection() == Some(spec_previous_selection(old(self).selection(), message_count))
                && final(self).spec_flags() == (MessagePaneFlags {
                scroll_to_selection: true,
                is_following: false,
                ..old(self).spec_flags()
            }),
            final(self).scroll() == old(self).scroll(),
            final(self).spec_content_height() == old(self).spec_content_height(),
            final(self).spec_viewport_height() == old(self).spec_viewport_height(),
            final(self).spec_view_mode() == old(self).spec_view_mode(),
            final(self).spoilers() == old(self).spoilers(),
            final(self).spec_last_width() == old(self).spec_last_width(),
    {
        if message_count == 0 {
            return;
        }
        self.flags.is_following = false;
        self.flags.scroll_to_selection = true;
        self.selected_index = Some(
            match self.selected_index {
                None => message_count - 1,
                Some(idx) => if idx > 0 { idx - 1 } else { 0 },
            },
        );
    }

    /// The index of the first render item holding the selected message.
    pub fn find_current_render_item_index(&self, items: &Vec<RenderItem>) -> (r: Option<usize>)
        ensures
            match r {
                Some(k) => k < items@.len() && self.selection() is Some
                    && item_holds(items@[k as int], self.selection().unwrap())
                    && forall|m: int| 0 <= m < k ==> !item_holds(#[trigger] items@[m], self.selection().unwrap()),
                None => self.selection() is None || forall|m: int|
                    0 <= m < items@.len() ==> !item_holds(#[trigger] items@[m], self.selection().unwrap()),
            },
    {
        let sel = match self.selected_index {
            None => {
                return None;
            },
            Some(s) => s,
        };
        let mut k: usize = 0;
        while k < items.len()
            invariant
                k <= items@.len(),
                self.selection() == Some(sel),
                forall|m: int| 0 <= m < k ==> !item_holds(#[trigger] items@[m], sel),
            decreases items@.len() - k,
        {
            let holds = match items[k] {
                RenderItem::Message { idx } => idx == sel,
                RenderItem::BlockedRun { start_idx, count } => start_idx <= sel && (sel - start_idx) < count,
            };
            if holds {
                return Some(k);
            }
            k = k + 1;
        }
        None
    }

    /// The message that stands for a render item.
    pub fn message_index_for_render_item(item: &RenderItem) -> (i: usize)
        ensures
            i == item_message(*item),
    {
        match item {
            RenderItem::Message { idx } => *idx,
            RenderItem::BlockedRun { start_idx, .. } => *start_idx,
        }
    }

    /// Selects the message of the next render item, a blocked run counting
    /// as one; with no selection in the items, the last item.
    pub fn select_next_visible(&mut self, items: &Vec<RenderItem>, message_count: usize)
        ensures
            (items@.len() == 0 || message_count == 0) ==> final(self).selection() == old(self).selection()
                && final(self).spec_flags() == old(self).spec_flags(),
            (items@.len() > 0 && message_count > 0) ==> {
                &&& final(self).spec_flags() == (MessagePaneFlags {
                    scroll_to_selection: true,
                    is_following: false,
                    ..old(self).spec_flags()
                })
                &&& exists|k: int| #![trigger items@[k]] 0 <= k < items@.len()
                    && final(self).selection() == Some(item_message(items@[k]))
                    && (if old(self).selection() is Some && exists|m: int| 0 <= m < items@.len()
                        && item_holds(#[trigger] items@[m], old(self).selection().unwrap()) {
                        let cur = choose|m: int| 0 <= m < items@.len()
                            && item_holds(#[trigger] items@[m], old(self).selection().unwrap())
                            && forall|p: int| 0 <= p < m ==> !item_holds(#[trigger] items@[p], old(self).selection().unwrap());
                        k == (if cur + 1 < items@.len() { cur + 1 } else { items@.len() - 1 })
                    } else {
                        k == items@.len() - 1
                    })
            },
            final(self).scroll() == old(self).scroll(),
            final(self).spec_content_height() == old(self).spec_content_height(),
            final(self).spec_viewport_height() == old(self).spec_viewport_height(),
            final(self).spec_view_mode() == old(self).spec_view_mode(),
            final(self).spoilers() == old(self).spoilers(),
            final(self).spec_last_width() == old(self).spec_last_width(),
    {
        if items.len() == 0 || message_count == 0 {
            return;
        }
        let cur = self.find_current_render_item_index(items);
        let ghost old_sel = self.selection();
        self.flags.is_following = false;
        self.flags.scroll_to_selection = true;
        let next = match cur {
            Some(k) => if k + 1 < items.len() { k + 1 } else { items.len() - 1 },
            None => items.len() - 1,
        };
        proof {
            match cur {
                Some(k) => {
                    let sel = old_sel.unwrap();
                    assert(exists|m: int| 0 <= m < items@.len() && item_holds(#[trigger] items@[m], sel));
                    let c = choose|m: int| 0 <= m < items@.len() && item_holds(#[trigger] items@[m], sel)
                        && forall|p: int| 0 <= p < m ==> !item_holds(#[trigger] items@[p], sel);
                    assert(c == k as int) by {
                        if c < k {
                            assert(!item_holds(items@[c], sel));
                        }
                        if k < c {
                            assert(!item_holds(items@[k as int], sel));
                        }
                    }
                },
                None => {},
            }
        }
        self.selected_index = Some(Self::message_index_for_render_item(&items[next]));
        assert(final(self).selection() == Some(item_message(items@[next as int])));
    }

    /// Selects the message of the previous render item, a blocked run
    /// counting as one; with no selection in the items, the last item.
    pub fn select_previous_visible(&mut self, items: &Vec<RenderItem>, message_count: usize)
        ensures
            (items@.len() == 0 || message_count == 0) ==> final(self).selection() == old(self).selection()
                && final(self).spec_flags() == old(self).spec_flags(),
            (items@.len() > 0 && message_count > 0) ==> {
                &&& final(self).spec_flags() == (MessagePaneFlags {
                    scroll_to_selection: true,
                    is_following: false,
                    ..old(self).spec_flags()
                })
                &&& exists|k: int| #![trigger items@[k]] 0 <= k < items@.len()
                    && final(self).selection() == Some(item_message(items@[k]))
                    && (if old(self).selection() is Some && exists|m: int| 0 <= m < items@.len()
                        && item_holds(#[trigger] items@[m], old(self).selection().unwrap()) {
                        let cur = choose|m: int| 0 <= m < items@.len()
                            && item_holds(#[trigger] items@[m], old(self).selection().unwrap())
                            && forall|p: int| 0 <= p < m ==> !item_holds(#[trigger] items@[p], old(self).selection().unwrap());
                        k == (if cur > 0 { cur - 1 } else { 0 })
                    } else {
                        k == items@.len() - 1
                    })
            },
            final(self).scroll() == old(self).scroll(),
            final(self).spec_content_height() == old(self).spec_content_height(),
            final(self).spec_viewport_height() == old(self).spec_viewport_height(),
            final(self).spec_view_mode() == old(self).spec_view_mode(),
            final(self).spoilers() == old(self).spoilers(),
            final(self).spec_last_width() == old(self).spec_last_width(),
    {
        if items.len() == 0 || message_count == 0 {
            return;
        }
        let cur = self.find_current_render_item_index(items);
        let ghost old_sel = self.selection();
        self.flags.is_following = false;
        self.flags.scroll_to_selection = true;
        let prev = match cur {
            Some(k) => if k > 0 { k - 1 } else { 0 },
            None => items.len() - 1,
        };
        proof {
            match cur {
                Some(k) => {
                    let sel = old_sel.unwrap();
                    assert(exists|m: int| 0 <= m < items@.len() && item_holds(#[trigger] items@[m], sel));
                    let c = choose|m: int| 0 <= m < items@.len() && item_holds(#[trigger] items@[m], sel)
                        && forall|p: int| 0 <= p < m ==> !item_holds(#[trigger] items@[p], sel);
                    assert(c == k as int) by {
                        if c < k {
                            assert(!item_holds(items@[c], sel));
                        }
                        if k < c {
                            assert(!item_holds(items@[k as int], sel));
                        }
                    }
                },
                None => {},
            }
        }
        self.selected_index = Some(Self::message_index_for_render_item(&items[prev]));
        assert(final(self).selection() == Some(item_message(items@[prev as int])));
    }

    /// Selects the first message and scrolls to the top.
    pub fn select_first(&mut self)
        ensures
            final(self).selection() == Some(0usize),
            final(self).spec_flags() == (MessagePaneFlags {
                scroll_to_selection: true,
                is_following: false,
                ..old(self).spec_flags()
            }),
            final(self).scroll() == 0,
            final(self).spec_content_height() == old(self).spec_content_height(),
            final(self).spec_viewport_height() == old(self).spec_viewport_height(),
            final(self).spec_view_mode() == old(self).spec_view_mode(),
            final(self).spoilers() == old(self).spoilers(),
            final(self).spec_last_width() == old(self).spec_last_width(),
    {
        self.flags.is_following = false;
        self.flags.scroll_to_selection = true;
        self.selected_index = Some(0);
        self.scroll_to_top();
    }

    /// Selects the last message and scrolls to the bottom.
    pub fn select_last(&mut self, message_count: usize)
        ensures
            message_count == 0 ==> final(self).selection() == old(self).selection()
                && final(self).spec_flags() == old(self).spec_flags()
                && final(self).scroll() == old(self).scroll(),
            message_count > 0 ==> final(self).selection() == Some((message_count - 1) as usize)
                && final(self).spec_flags() == (MessagePaneFlags {
                scroll_to_selection: true,
                is_following: false,
                ..old(self).spec_flags()
            }) && final(self).scroll() == old(self).max_scroll(),
            final(self).spec_content_height() == old(self).spec_content_height(),
            final(self).spec_viewport_height() == old(self).spec_viewport_height(),
            final(self).spec_view_mode() == old(self).spec_view_mode(),
            final(self).spoilers() == old(self).spoilers(),
            final(self).spec_last_width() == old(self).spec_last_width(),
    {
        if message_count == 0 {
            return;
        }
        self.selected_index = Some(message_count - 1);
        self.flags.is_following = false;
        self.flags.scroll_to_selection = true;
        self.scroll_to_bottom();
    }

    /// Clears the selection, follows new messages and scrolls to the bottom.
    pub fn clear_selection(&mut self)
        ensures
            final(self).selection() is None,
            final(self).spec_flags() == (MessagePaneFlags { is_following: true, ..old(self).spec_flags() }),
            final(self).scroll() == old(self).max_scroll(),
            final(self).spec_content_height() == old(self).spec_content_height(),
            final(self).spec_viewport_height() == old(self).spec_viewport_height(),
            final(self).spec_view_mode() == old(self).spec_view_mode(),
            final(self).spoilers() == old(self).spoilers(),
            final(self).spec_last_width() == old(self).spec_last_width(),
    {
        self.selected_index = None;
        self.flags.is_following = true;
        self.scroll_to_bottom();
    }

    /// Scrolls to the bottom when following.
    pub fn on_new_message(&mut self)
        ensures
            final(self).scroll() == (if old(self).spec_flags().is_following {
                old(self).max_scroll()
            } else {
                old(self).scroll()
            }),
            final(self).selection() == old(self).selection(),
            final(self).spec_flags() == old(self).spec_flags(),
            final(self).spec_content_height() == old(self).spec_content_height(),
            final(self).spec_viewport_height() == old(self).spec_viewport_height(),
            final(self).spec_view_mode() == old(self).spec_view_mode(),
            final(self).spoilers() == old(self).spoilers(),
            final(self).spec_last_width() == old(self).spec_last_width(),
    {
        if self.flags.is_following {
            self.scroll_to_bottom();
        }
    }

    /// Resets for a new channel: no selection, following, at the top, no
    /// content, showing messages.
    pub fn on_channel_change(&mut self)
        ensures
            final(self).selection() is None,
            final(self).spec_flags() == (MessagePaneFlags { is_following: true, ..old(self).spec_flags() }),
            final(self).scroll() == 0,
            final(self).spec_content_height() == 0,
            final(self).spec_viewport_height() == 0,
            final(self).spec_view_mode() is Messages,
            final(self).spoilers() == old(self).spoilers(),
            final(self).spec_last_width() == old(self).spec_last_width(),
    {
        self.selected_index = None;
        self.flags.is_following = true;
        self.vertical_scroll = 0;
        self.content_height = 0;
        self.viewport_height = 0;
        self.view_mode = ViewMode::Messages;
    }

    /// Scrolls down one step, not past the bottom, and stops following.
    pub fn scroll_down(&mut self)
        ensures
            final(self).scroll() == (if old(self).scroll() + SCROLL_AMOUNT < old(self).max_scroll() {
                (old(self).scroll() + SCROLL_AMOUNT) as usize
            } else {
                old(self).max_scroll()
            }),
            final(self).spec_flags() == (MessagePaneFlags { is_following: false, ..old(self).spec_flags() }),
            final(self).selection() == old(self).selection(),
            final(self).spec_content_height() == old(self).spec_content_height(),
            final(self).spec_viewport_height() == old(self).spec_viewport_height(),
            final(self).spec_view_mode() == old(self).spec_view_mode(),
            final(self).spoilers() == old(self).spoilers(),
            final(self).spec_last_width() == old(self).spec_last_width(),
    {
        self.flags.is_following = false;
        let max_scroll = self.content_height.saturating_sub(self.viewport_height as usize);
        let next = self.vertical_scroll.saturating_add(SCROLL_AMOUNT);
        self.vertical_scroll = if next < max_scroll { next } else { max_scroll };
    }

    /// Scrolls up one step, not past the top, and stops following.
    pub fn scroll_up(&mut self)
        ensures
            final(self).scroll() == (if old(self).scroll() >= SCROLL_AMOUNT {
                (old(self).scroll() - SCROLL_AMOUNT) as usize
            } else {
                0
            }),
            final(self).spec_flags() == (MessagePaneFlags { is_following: false, ..old(self).spec_flags() }),
            final(self).selection() == old(self).selection(),
            final(self).spec_content_height() == old(self).spec_content_height(),
            final(self).spec_viewport_height() == old(self).spec_viewport_height(),
            final(self).spec_view_mode() == old(self).spec_view_mode(),
            final(self).spoilers() == old(self).spoilers(),
            final(self).spec_last_width() == old(self).spec_last_width(),
    {
        self.flags.is_following = false;
        self.vertical_scroll = self.vertical_scroll.saturating_sub(SCROLL_AMOUNT);
    }

    /// Scrolls to the bottom.
    pub fn scroll_to_bottom(&mut self)
        ensures
            final(self).scroll() == old(self).max_scroll(),
            final(self).selection() == old(self).selection(),
            final(self).spec_flags() == old(self).spec_flags(),
            final(self).spec_content_height() == old(self).spec_content_height(),
            final(self).spec_viewport_height() == old(self).spec_viewport_height(),
            final(self).spec_view_mode() == old(self).spec_view_mode(),
            final(self).spoilers() == old(self).spoilers(),
            final(self).spec_last_width() == old(self).spec_last_width(),
    {
        if self.content_height > self.viewport_height as usize {
            self.vertical_scroll = self.content_height - self.viewport_height as usize;
        } else {
            self.vertical_scroll = 0;
        }
    }

    /// Scrolls to the top.
    pub fn scroll_to_top(&mut self)
        ensures
            final(self).scroll() == 0,
            final(self).selection() == old(self).selection(),
            final(self).spec_flags() == old(self).spec_flags(),
            final(self).spec_content_height() == old(self).spec_content_height(),
            final(self).spec_viewport_height() == old(self).spec_viewport_height(),
            final(self).spec_view_mode() == old(self).spec_view_mode(),
            final(self).spoilers() == old(self).spoilers(),
            final(self).spec_last_width() == old(self).spec_last_width(),
    {
        self.vertical_scroll = 0;
    }

    /// Records the content and viewport heights; when following, scrolls to
    /// the bottom, otherwise keeps the scroll within the content.
    pub fn update_dimensions(&mut self, content_height: usize, viewport_height: u16)
        ensures
            final(self).spec_content_height() == content_height,
            final(self).spec_viewport_height() == viewport_height,
            final(self).spec_view_mode() == old(self).spec_view_mode(),
            final(self).scroll() == (if old(self).spec_flags().is_following {
                spec_max_scroll(content_height, viewport_height)
            } else if old(self).scroll() > spec_max_scroll(content_height, viewport_height) {
                spec_max_scroll(content_height, viewport_height)
            } else {
                old(self).scroll()
            }),
            final(self).selection() == old(self).selection(),
            final(self).spec_flags() == old(self).spec_flags(),
            final(self).spoilers() == old(self).spoilers(),
            final(self).spec_last_width() == old(self).spec_last_width(),
    {
        self.content_height = content_height;
        self.viewport_height = viewport_height;
        if self.flags.is_following {
            self.scroll_to_bottom();
        } else {
            let max_scroll = content_height.saturating_sub(viewport_height as usize);
            if self.vertical_scroll > max_scroll {
                self.vertical_scroll = max_scroll;
            }
        }
    }
}

impl Default for MessagePaneState {
    fn default() -> (s: MessagePaneState)
        ensures
            s.selection() is None,
            s.spec_flags().is_following,
            s.scroll() == 0,
    {
        Self::new()
    }
}

/// The authors-blocked flags of a list of messages.
pub open spec fn blocked_flags(messages: Seq<MessageSummary>) -> Seq<bool> {
    messages.map_values(|m: MessageSummary| m.author_blocked)
}

/// The selected message, if the selection lies in the list.
pub open spec fn selected_message(sel: Option<usize>, messages: Seq<MessageSummary>) -> Option<MessageSummary> {
    match sel {
        Some(i) => if i < messages.len() { Some(messages[i as int]) } else { None },
        None => None,
    }
}

/// The action a key bound to `act` asks for on the message list, decided on
/// the state before the key: navigation at the top asks for older history,
/// cancelling with nothing selected closes the thread, and the message
/// actions apply to the selected message.
pub open spec fn spec_messages_action(
    sel: Option<usize>,
    scroll: usize,
    act: Option<Action>,
    messages: Seq<MessageSummary>,
    hide_blocked: bool,
) -> Option<MessagePaneAction> {
    let items = spec_render_items(blocked_flags(messages), hide_blocked);
    let msg = selected_message(sel, messages);
    match act {
        Some(Action::NavigateUp) => if sel is Some && items.len() > 0 && item_holds(items[0], sel.unwrap()) {
            Some(MessagePaneAction::LoadHistory)
        } else {
            None
        },
        Some(Action::ScrollUp) => if scroll == 0 { Some(MessagePaneAction::LoadHistory) } else { None },
        Some(Action::SelectFirst) => Some(MessagePaneAction::LoadHistory),
        Some(Action::Cancel) | Some(Action::ClearSelection) => if sel is Some {
            Some(MessagePaneAction::ClearSelection)
        } else {
            Some(MessagePaneAction::CloseThread)
        },
        Some(Action::Reply) => match msg {
            Some(m) => Some(MessagePaneAction::Reply { message_id: m.id, mention: true }),
            None => None,
        },
        Some(Action::ReplyNoMention) => match msg {
            Some(m) => Some(MessagePaneAction::Reply { message_id: m.id, mention: false }),
            None => None,
        },
        Some(Action::EditMessage) => match msg {
            Some(m) => Some(MessagePaneAction::Edit(m.id)),
            None => None,
        },
        Some(Action::OpenEditor) => match msg {
            Some(m) => Some(MessagePaneAction::EditExternal(m.id)),
            None => None,
        },
        Some(Action::DeleteMessage) => match msg {
            Some(m) => Some(MessagePaneAction::Delete(m.id)),
            None => None,
        },
        Some(Action::OpenAttachments) => match msg {
            Some(m) => Some(MessagePaneAction::OpenAttachments(m.id)),
            None => None,
        },
        Some(Action::JumpToReply) => match msg {
            Some(m) => match m.reply_to {
                Some(r) => Some(MessagePaneAction::JumpToReply(r)),
                None => match m.first_channel_mention {
                    Some(c) => Some(MessagePaneAction::OpenThread(c)),
                    None => None,
                },
            },
            None => None,
        },
        _ => None,
    }
}

/// How a key bound to `act` moves the message list (not a forum view): the
/// scroll and selection after it, with the view mode and heights kept.
pub open spec fn messages_pane_moved(
    p0: MessagePaneState,
    p1: MessagePaneState,
    act: Option<Action>,
    messages: Seq<MessageSummary>,
    hide_blocked: bool,
) -> bool {
    let items = spec_render_items(blocked_flags(messages), hide_blocked);
    let f0 = p0.spec_flags();
    let unchanged = p1.selection() == p0.selection() && p1.scroll() == p0.scroll() && p1.spec_flags() == f0;
    let selected = MessagePaneFlags { scroll_to_selection: true, is_following: false, ..f0 };
    &&& p1.spec_view_mode() is Messages
    &&& p1.spec_content_height() == p0.spec_content_height()
    &&& p1.spec_viewport_height() == p0.spec_viewport_height()
    &&& p1.spec_last_width() == p0.spec_last_width()
    &&& p1.spoilers() == (if act == Some(Action::Select) { !p0.spoilers() } else { p0.spoilers() })
    &&& match act {
        Some(Action::ScrollDown) => {
            let sc: usize = if p0.scroll() + SCROLL_AMOUNT < p0.max_scroll() {
                (p0.scroll() + SCROLL_AMOUNT) as usize
            } else {
                p0.max_scroll()
            };
            &&& p1.scroll() == sc
            &&& p1.selection() == p0.selection()
            &&& p1.spec_flags() == (MessagePaneFlags { is_following: sc == p0.max_scroll(), ..f0 })
        },
        Some(Action::ScrollUp) => if p0.scroll() == 0 {
            unchanged
        } else {
            &&& p1.scroll() == (if p0.scroll() >= SCROLL_AMOUNT { (p0.scroll() - SCROLL_AMOUNT) as usize } else { 0 })
            &&& p1.selection() == p0.selection()
            &&& p1.spec_flags() == (MessagePaneFlags { is_following: false, ..f0 })
        },
        Some(Action::SelectFirst) => p1.selection() == Some(0usize) && p1.scroll() == 0 && p1.spec_flags() == selected,
        Some(Action::SelectLast) => if messages.len() > 0 {
            p1.selection() == Some((messages.len() - 1) as usize) && p1.scroll() == p0.max_scroll()
                && p1.spec_flags() == selected
        } else {
            unchanged
        },
        Some(Action::ScrollToTop) => p1.scroll() == 0 && p1.selection() == p0.selection() && p1.spec_flags() == f0,
        Some(Action::ScrollToBottom) => p1.scroll() == p0.max_scroll() && p1.selection() == p0.selection()
            && p1.spec_flags() == (if p0.selection() is None { MessagePaneFlags { is_following: true, ..f0 } } else { f0 }),
        Some(Action::Cancel) | Some(Action::ClearSelection) => if p0.selection() is Some {
            p1.selection() is None && p1.scroll() == p0.max_scroll() && p1.spec_flags() == (MessagePaneFlags {
                is_following: true,
                ..f0
            })
        } else {
            unchanged
        },
        Some(Action::NavigateDown) => if items.len() > 0 && messages.len() > 0 {
            p1.selection() == Some(moved_selection(items, p0.selection(), true)) && p1.scroll() == p0.scroll()
                && p1.spec_flags() == selected
        } else {
            unchanged
        },
        Some(Action::NavigateUp) => if p0.selection() is Some && items.len() > 0 && item_holds(
            items[0],
            p0.selection().unwrap(),
        ) {
            unchanged
        } else if items.len() > 0 && messages.len() > 0 {
            p1.selection() == Some(moved_selection(items, p0.selection(), false)) && p1.scroll() == p0.scroll()
                && p1.spec_flags() == selected
        } else {
            unchanged
        },
        _ => unchanged,
    }
}

/// The message the selection moves to, one rendered item down (or up):
/// from the first item holding the selected message, stopping at the last
/// (or first) item; without such an item, the last item's message.
pub open spec fn moved_selection(items: Seq<RenderItem>, sel: Option<usize>, down: bool) -> usize {
    let k = if sel is Some && exists|m: int| 0 <= m < items.len() && item_holds(#[trigger] items[m], sel.unwrap()) {
        let cur = choose|m: int| 0 <= m < items.len() && item_holds(#[trigger] items[m], sel.unwrap())
            && forall|p: int| 0 <= p < m ==> !item_holds(#[trigger] items[p], sel.unwrap());
        if down {
            if cur + 1 < items.len() { cur + 1 } else { items.len() - 1 }
        } else {
            if cur > 0 { cur - 1 } else { 0 }
        }
    } else {
        items.len() - 1
    };
    item_message(items[k])
}

/// Whether `act` copies something out of the selected message.
pub open spec fn is_copy_act(act: Option<Action>) -> bool {
    act == Some(Action::CopyContent) || act == Some(Action::CopyImage) || act == Some(Action::YankId)
}

/// The action a key bound to `act` asks for in a forum view: moving up from
/// the first thread asks for more threads, selecting opens the selected
/// thread, and going back closes the forum.
pub open spec fn spec_forum_action(f0: ForumState, act: Option<Action>) -> Option<MessagePaneAction> {
    match act {
        Some(Action::NavigateUp) => if f0.selected_idx == 0 { Some(MessagePaneAction::LoadHistory) } else { None },
        Some(Action::Select) | Some(Action::NavigateRight) => if f0.selected_idx < f0.threads@.len() {
            Some(MessagePaneAction::OpenThread(f0.threads@[f0.selected_idx as int].id))
        } else {
            None
        },
        Some(Action::Cancel) | Some(Action::NavigateLeft) => Some(MessagePaneAction::CloseThread),
        _ => None,
    }
}

/// A key bound to `act` on the message list, from `p0` to `p1`, asking for
/// `r`: in a forum view it moves the forum selection; on messages it moves
/// the list and asks for the action on the selected message.
pub open spec fn pane_key_post(
    p0: MessagePaneState,
    p1: MessagePaneState,
    act: Option<Action>,
    messages: Seq<MessageSummary>,
    hide_blocked: bool,
    r: Option<MessagePaneAction>,
) -> bool {
    &&& p1.spec_flags().focused == p0.spec_flags().focused
    &&& match p0.spec_view_mode() {
        ViewMode::Forum(f0) => p1.spec_view_mode() matches ViewMode::Forum(f1)
            && forum_key_post(f0, f1, act, p0.spec_viewport_height(), r)
            && p1.selection() == p0.selection()
            && p1.scroll() == p0.scroll(),
        ViewMode::Messages => {
            &&& messages_pane_moved(p0, p1, act, messages, hide_blocked)
            &&& if is_copy_act(act) {
                action_text_ok(r, p0.selection(), act, messages)
            } else {
                r == spec_messages_action(p0.selection(), p0.scroll(), act, messages, hide_blocked)
            }
        },
    }
}

/// The text a yank or copy action carries, compared by view.
pub open spec fn action_text_ok(
    r: Option<MessagePaneAction>,
    sel: Option<usize>,
    act: Option<Action>,
    messages: Seq<MessageSummary>,
) -> bool {
    let msg = selected_message(sel, messages);
    match act {
        Some(Action::CopyContent) => match msg {
            Some(m) => r matches Some(MessagePaneAction::YankContent(s)) && s@ == m.content@,
            None => r is None,
        },
        Some(Action::CopyImage) => match msg {
            Some(m) => match m.first_image_id {
                Some(img) => r matches Some(MessagePaneAction::CopyImage(s)) && s@ == img@,
                None => r is None,
            },
            None => r is None,
        },
        Some(Action::YankId) => match msg {
            Some(m) => r matches Some(MessagePaneAction::YankId(s)) && s@ == decimal(m.id as nat),
            None => r is None,
        },
        _ => true,
    }
}

/// The forum selection moved down one thread, and the scroll offset after it
/// so that the selected card stays in view.
pub open spec fn spec_forum_down(selected_idx: usize, count: nat, scroll_offset: u16, viewport_height: u16) -> (usize, u16) {
    let idx: int = if selected_idx + 1 < count { selected_idx + 1 } else { count - 1 };
    let visible: int = (viewport_height / THREAD_CARD_HEIGHT) as int;
    let selected: int = if idx > u16::MAX { u16::MAX as int } else { idx };
    let offset: int = if selected >= scroll_offset + visible {
        if selected + 1 - visible > u16::MAX { u16::MAX as int } else { selected + 1 - visible }
    } else {
        scroll_offset as int
    };
    (idx as usize, offset as u16)
}

fn clamp_u16(x: usize) -> (r: u16)
    ensures
        r == (if x > u16::MAX { u16::MAX as int } else { x as int }),
{
    if x > 65535 {
        65535
    } else {
        x as u16
    }
}

/// How the forum view changes and what it returns for a key bound to `act`:
/// moving down keeps the selected card in view, moving up from the first
/// thread asks for more, selecting opens the thread, cancelling closes it.
pub open spec fn forum_key_post(f0: ForumState, f1: ForumState, act: Option<Action>, viewport_height: u16, r: Option<MessagePaneAction>) -> bool {
    &&& (match act {
                Some(Action::NavigateDown) => r is None && if f0.threads@.len() > 0 {
                    (f1.selected_idx, f1.scroll_offset) == spec_forum_down(
                        f0.selected_idx,
                        f0.threads@.len(),
                        f0.scroll_offset,
                        viewport_height,
                    )
                } else {
                    f1.selected_idx == f0.selected_idx
                        && f1.scroll_offset == f0.scroll_offset
                },
                Some(Action::NavigateUp) => if f0.selected_idx == 0 {
                    r == Some(MessagePaneAction::LoadHistory) && f1.selected_idx == 0
                        && f1.scroll_offset == f0.scroll_offset
                } else {
                    r is None && f1.selected_idx == f0.selected_idx - 1
                        && f1.scroll_offset == (if (f0.selected_idx - 1) < f0.scroll_offset {
                        (f0.selected_idx - 1) as u16
                    } else {
                        f0.scroll_offset
                    })
                },
                Some(Action::Select) | Some(Action::NavigateRight) => f1.selected_idx == f0.selected_idx
                    && f1.scroll_offset == f0.scroll_offset
                    && r == (if f0.selected_idx < f0.threads@.len() {
                    Some(MessagePaneAction::OpenThread(f0.threads@[f0.selected_idx as int].id))
                } else {
                    None
                }),
                Some(Action::Cancel) | Some(Action::NavigateLeft) => r == Some(MessagePaneAction::CloseThread)
                    && f1.selected_idx == f0.selected_idx
                    && f1.scroll_offset == f0.scroll_offset,
                _ => r is None && f1.selected_idx == f0.selected_idx
                    && f1.scroll_offset == f0.scroll_offset,
            })
    &&& (f1.threads@ == f0.threads@)
    &&& (f1.needs_scroll_to_selection == f0.needs_scroll_to_selection)
}

fn forum_key(forum: &mut ForumState, act: Option<Action>, viewport_height: u16) -> (r: Option<MessagePaneAction>)
    ensures
        forum_key_post(*old(forum), *final(forum), act, viewport_height, r),
{
    match act {
        Some(Action::NavigateDown) => {
            let count = forum.threads.len();
            if count > 0 {
                forum.selected_idx = if forum.selected_idx < count - 1 { forum.selected_idx + 1 } else { count - 1 };
                let visible: u32 = (viewport_height / THREAD_CARD_HEIGHT) as u32;
                let selected: u32 = clamp_u16(forum.selected_idx) as u32;
                let offset: u32 = forum.scroll_offset as u32;
                if selected >= offset + visible {
                    let n: u32 = selected + 1 - visible;
                    forum.scroll_offset = if n > 65535 { 65535 } else { n as u16 };
                }
            }
            None
        },
        Some(Action::NavigateUp) => {
            if forum.selected_idx == 0 {
                return Some(MessagePaneAction::LoadHistory);
            }
            forum.selected_idx = forum.selected_idx - 1;
            let selected = clamp_u16(forum.selected_idx);
            if selected < forum.scroll_offset {
                forum.scroll_offset = selected;
            }
            None
        },
        Some(Action::Select) | Some(Action::NavigateRight) => {
            if forum.selected_idx < forum.threads.len() {
                Some(MessagePaneAction::OpenThread(forum.threads[forum.selected_idx].id))
            } else {
                None
            }
        },
        Some(Action::Cancel) | Some(Action::NavigateLeft) => Some(MessagePaneAction::CloseThread),
        _ => None,
    }
}

fn copy_string(s: &String) -> (r: String)
    ensures
        r@ == s@,
{
    crate::entities::copy_str(s.as_str())
}

impl MessagePaneState {
    /// Handles a key on the message list or, in the forum view, on the list
    /// of threads; returns what the key asks the application to do.
    #[verifier::spinoff_prover]
    #[verifier::rlimit(60)]
    pub fn handle_key(
        &mut self,
        key: KeyEvent,
        messages: &Vec<MessageSummary>,
        registry: &CommandRegistry,
        hide_blocked_completely: bool,
    ) -> (r: Option<MessagePaneAction>)
        ensures
            pane_key_post(*old(self), *final(self), first_action(registry.inputs(), key), messages@, hide_blocked_completely, r),
            final(self).spec_flags().focused == old(self).spec_flags().focused,
    {
        let act = registry.find_action(key);
        let viewport = self.viewport_height;
        if let ViewMode::Forum(forum) = &mut self.view_mode {
            return forum_key(forum, act, viewport);
        }
        let message_count = messages.len();
        let mut blocked: Vec<bool> = Vec::new();
        let mut i: usize = 0;
        while i < messages.len()
            invariant
                i <= messages@.len(),
                blocked@ == blocked_flags(messages@).take(i as int),
            decreases messages@.len() - i,
        {
            blocked.push(messages[i].author_blocked);
            assert(blocked_flags(messages@).take(i + 1) =~= blocked_flags(messages@).take(i as int).push(
                messages@[i as int].author_blocked,
            ));
            i = i + 1;
        }
        assert(blocked_flags(messages@).take(messages@.len() as int) =~= blocked_flags(messages@));
        let items = build_render_items(&blocked, hide_blocked_completely);
        let sel = self.selected_index;
        let msg: Option<&MessageSummary> = match sel {
            Some(s) => if s < messages.len() { Some(&messages[s]) } else { None },
            None => None,
        };
        match act {
            Some(Action::NavigateDown) => {
                self.select_next_visible(&items, message_count);
                proof {
                    if items@.len() > 0 && message_count > 0 {
                        assert(self.selection() == Some(moved_selection(items@, sel, true)));
                    }
                }
                None
            },
            Some(Action::NavigateUp) => {
                let at_top = match sel {
                    Some(s) => items.len() > 0 && match items[0] {
                        RenderItem::Message { idx } => idx == s,
                        RenderItem::BlockedRun { start_idx, count } => start_idx <= s && (s - start_idx) < count,
                    },
                    None => false,
                };
                if at_top {
                    return Some(MessagePaneAction::LoadHistory);
                }
                self.select_previous_visible(&items, message_count);
                proof {
                    if items@.len() > 0 && message_count > 0 {
                        assert(self.selection() == Some(moved_selection(items@, sel, false)));
                    }
                }
                None
            },
            Some(Action::ScrollDown) => {
                self.scroll_down();
                let max_scroll = self.content_height.saturating_sub(self.viewport_height as usize);
                if self.vertical_scroll == max_scroll {
                    self.flags.is_following = true;
                }
                None
            },
            Some(Action::ScrollUp) => {
                if self.vertical_scroll == 0 {
                    return Some(MessagePaneAction::LoadHistory);
                }
                self.scroll_up();
                None
            },
            Some(Action::SelectFirst) => {
                self.select_first();
                Some(MessagePaneAction::LoadHistory)
            },
            Some(Action::SelectLast) => {
                self.select_last(message_count);
                None
            },
            Some(Action::ScrollToTop) => {
                self.scroll_to_top();
                None
            },
            Some(Action::ScrollToBottom) => {
                self.scroll_to_bottom();
                if self.selected_index.is_none() {
                    self.flags.is_following = true;
                }
                None
            },
            Some(Action::Cancel) | Some(Action::ClearSelection) => {
                if self.selected_index.is_some() {
                    self.clear_selection();
                    Some(MessagePaneAction::ClearSelection)
                } else {
                    Some(MessagePaneAction::CloseThread)
                }
            },
            Some(Action::Reply) => match msg {
                Some(m) => Some(MessagePaneAction::Reply { message_id: m.id, mention: true }),
                None => None,
            },
            Some(Action::ReplyNoMention) => match msg {
                Some(m) => Some(MessagePaneAction::Reply { message_id: m.id, mention: false }),
                None => None,
            },
            Some(Action::EditMessage) => match msg {
                Some(m) => Some(MessagePaneAction::Edit(m.id)),
                None => None,
            },
            Some(Action::OpenEditor) => match msg {
                Some(m) => Some(MessagePaneAction::EditExternal(m.id)),
                None => None,
            },
            Some(Action::DeleteMessage) => match msg {
                Some(m) => Some(MessagePaneAction::Delete(m.id)),
                None => None,
            },
            Some(Action::CopyContent) => match msg {
                Some(m) => Some(MessagePaneAction::YankContent(copy_string(&m.content))),
                None => None,
            },
            Some(Action::CopyImage) => match msg {
                Some(m) => match &m.first_image_id {
                    Some(img) => Some(MessagePaneAction::CopyImage(copy_string(img))),
                    None => None,
                },
                None => None,
            },
            Some(Action::YankId) => match msg {
                Some(m) => Some(MessagePaneAction::YankId(u64_to_decimal(m.id))),
                None => None,
            },
            Some(Action::OpenAttachments) => match msg {
                Some(m) => Some(MessagePaneAction::OpenAttachments(m.id)),
                None => None,
            },
            Some(Action::JumpToReply) => match msg {
                Some(m) => match m.reply_to {
                    Some(rid) => Some(MessagePaneAction::JumpToReply(rid)),
                    None => match m.first_channel_mention {
                        Some(c) => Some(MessagePaneAction::OpenThread(c)),
                        None => None,
                    },
                },
                None => None,
            },
            Some(Action::Select) => {
                self.show_spoilers = !self.show_spoilers;
                None
            },
            _ => None,
        }
    }

    /// The id of the selected message, if the selection lies in the list.
    pub fn get_selected_message_id(&self, messages: &Vec<MessageSummary>) -> (r: Option<u64>)
        ensures
            r == (match selected_message(self.selection(), messages@) {
                Some(m) => Some(m.id),
                None => None,
            }),
    {
        match self.selected_index {
            Some(s) => if s < messages.len() {
                Some(messages[s].id)
            } else {
                None
            },
            None => None,
        }
    }
}

/// After new dimensions the scroll never passes the bottom of the content.
pub proof fn lemma_dimensions_keep_scroll_in_content(old_scroll: usize, following: bool, content_height: usize, viewport_height: u16, new_scroll: usize)
    requires
        new_scroll == (if following {
            spec_max_scroll(content_height, viewport_height)
        } else if old_scroll > spec_max_scroll(content_height, viewport_height) {
            spec_max_scroll(content_height, viewport_height)
        } else {
            old_scroll
        }),
    ensures
        new_scroll <= spec_max_scroll(content_height, viewport_height),
{
}

} // verus!
