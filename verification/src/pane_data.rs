//! The messages of the open channel, kept in order with each message marked
//! as the start of a group or as a compact follow-up of its author's
//! previous message.

use vstd::prelude::*;
use crate::chars::{append_chars, append_str, from_chars, to_chars};
use crate::message_pane::{LoadingState, MessageGroup};
use crate::text::{chars_eq, in_set, strip_start, strip_start_in, to_uppercase, uppercase};
use crate::utils::{clean_text, spec_clean_text};
use std::collections::HashMap;
use crate::entities::copy_str;

verus! {

/// Messages of one author less than this many seconds apart form a group.
pub const GROUPING_WINDOW_SECONDS: i64 = 420;

/// A message as the list keeps it.
#[derive(Debug)]
pub struct PaneMessage {
    pub id: u64,
    pub channel_id: u64,
    pub author_id: String,
    pub timestamp: i64,
    pub is_reply: bool,
    pub group: MessageGroup,
    /// The text of the message.
    pub content: String,
}

/// The group of the `i`-th message: a reply, the first message, a message
/// by another author than the one before it, or one sent at least the window
/// after it starts a group; any other continues it.
pub open spec fn spec_group(msgs: Seq<PaneMessage>, i: int) -> MessageGroup {
    if i <= 0 || msgs[i].is_reply {
        MessageGroup::Start
    } else if msgs[i - 1].author_id@ == msgs[i].author_id@ && msgs[i].timestamp - msgs[i - 1].timestamp
        < GROUPING_WINDOW_SECONDS {
        MessageGroup::Compact
    } else {
        MessageGroup::Start
    }
}

/// The messages with their groups worked out.
pub open spec fn regrouped(msgs: Seq<PaneMessage>) -> Seq<PaneMessage> {
    Seq::new(msgs.len(), |i: int| PaneMessage { group: spec_group(msgs, i), ..msgs[i] })
}

/// Every message carries the group its place gives it.
pub open spec fn grouped(msgs: Seq<PaneMessage>) -> bool {
    forall|i: int| 0 <= i < msgs.len() ==> (#[trigger] msgs[i]).group == spec_group(msgs, i)
}

/// Whether a message with the id is in the list.
pub open spec fn has_id(msgs: Seq<PaneMessage>, id: u64) -> bool {
    exists|i: int| 0 <= i < msgs.len() && (#[trigger] msgs[i]).id == id
}

/// The messages of a batch whose ids are not among `msgs`.
pub open spec fn not_in(msgs: Seq<PaneMessage>) -> spec_fn(PaneMessage) -> bool {
    |m: PaneMessage| !has_id(msgs, m.id)
}

/// The first message with the id.
pub open spec fn first_with_id(msgs: Seq<PaneMessage>, id: u64) -> Option<int> {
    if has_id(msgs, id) {
        Some(choose|i: int| 0 <= i < msgs.len() && (#[trigger] msgs[i]).id == id
            && forall|k: int| 0 <= k < i ==> (#[trigger] msgs[k]).id != id)
    } else {
        None
    }
}

/// The title of a channel: its cleaned name without leading `@`,
/// upper-cased, between `[ ` and ` ]`.
pub open spec fn spec_channel_title(name: Seq<char>) -> Seq<char> {
    "[ "@ + uppercase(strip_start(spec_clean_text(name), in_set(seq!['@']))) + " ]"@
}

/// The messages of the open channel and how far they have loaded.
pub struct MessagePaneData {
    channel_id: Option<u64>,
    channel_name: Option<String>,
    channel_topic: Option<String>,
    channel_icon: Option<String>,
    online_count: Option<u32>,
    typing_indicator: Option<String>,
    messages: Vec<PaneMessage>,
    loading_state: LoadingState,
    error_message: Option<String>,
    is_dm: bool,
    is_dirty: bool,
    use_display_name: bool,
    channel_names: HashMap<u64, String>,
}

proof fn lemma_regrouped_grouped(msgs: Seq<PaneMessage>)
    ensures
        grouped(regrouped(msgs)),
        regrouped(msgs).len() == msgs.len(),
{
    let r = regrouped(msgs);
    assert forall|i: int| 0 <= i < r.len() implies (#[trigger] r[i]).group == spec_group(r, i) by {
        if i > 0 {
            assert(r[i - 1].author_id == msgs[i - 1].author_id);
        }
    }
}

/// Puts each message's group in place.
fn regroup(msgs: Vec<PaneMessage>) -> (r: Vec<PaneMessage>)
    ensures
        r@ == regrouped(msgs@),
{
    let ghost s = msgs@;
    let total = msgs.len();
    let mut rest = msgs;
    let mut out: Vec<PaneMessage> = Vec::new();
    let mut prev: Option<(Vec<char>, i64)> = None;
    let mut i: usize = 0;
    while rest.len() > 0
        invariant
            i + rest@.len() == s.len(),
            total == s.len(),
            rest@ == s.skip(i as int),
            out@.len() == i,
            forall|k: int| 0 <= k < i ==> #[trigger] out@[k] == (PaneMessage { group: spec_group(s, k), ..s[k] }),
            match prev {
                Some(p) => i > 0 && p.0@ == s[i - 1].author_id@ && p.1 == s[i - 1].timestamp,
                None => i == 0,
            },
        decreases rest@.len(),
    {
        let mut m = rest.remove(0);
        assert(m == s[i as int]);
        let author = to_chars(m.author_id.as_str());
        let compact = if m.is_reply {
            false
        } else {
            match &prev {
                Some(p) => chars_eq(&p.0, &author) && (m.timestamp as i128) - (p.1 as i128) < GROUPING_WINDOW_SECONDS as i128,
                None => false,
            }
        };
        m.group = if compact {
            MessageGroup::Compact
        } else {
            MessageGroup::Start
        };
        let ts = m.timestamp;
        out.push(m);
        prev = Some((author, ts));
        assert(rest@ =~= s.skip(i + 1));
        i = i + 1;
    }
    assert(out@ =~= regrouped(s));
    out
}

pub(crate) fn has_id_exec(msgs: &Vec<PaneMessage>, id: u64) -> (r: Option<usize>)
    ensures
        match r {
            Some(i) => first_with_id(msgs@, id) == Some(i as int) && i < msgs@.len(),
            None => !has_id(msgs@, id),
        },
{
    let mut i: usize = 0;
    while i < msgs.len()
        invariant
            i <= msgs@.len(),
            forall|k: int| 0 <= k < i ==> (#[trigger] msgs@[k]).id != id,
        decreases msgs@.len() - i,
    {
        if msgs[i].id == id {
            proof {
                let c = choose|c: int| 0 <= c < msgs@.len() && (#[trigger] msgs@[c]).id == id
                    && forall|k: int| 0 <= k < c ==> (#[trigger] msgs@[k]).id != id;
                assert(0 <= i < msgs@.len() && msgs@[i as int].id == id && forall|k: int| 0 <= k < i ==> (#[trigger] msgs@[k]).id != id);
                if c < i {
                    assert(msgs@[c].id != id);
                }
                if c > i {
                    assert(msgs@[i as int].id != id);
                }
            }
            return Some(i);
        }
        i = i + 1;
    }
    None
}

fn replace_and_regroup(msgs: Vec<PaneMessage>, pos: usize, updated: PaneMessage) -> (r: Vec<PaneMessage>)
    requires
        pos < msgs@.len(),
    ensures
        r@ == regrouped(msgs@.update(pos as int, updated)),
        grouped(r@),
{
    let mut msgs = msgs;
    msgs.set(pos, updated);
    let ghost changed = msgs@;
    proof {
        lemma_regrouped_grouped(changed);
    }
    regroup(msgs)
}

impl MessagePaneData {
    /// Every message carries the group its place gives it.
    pub closed spec fn wf(&self) -> bool {
        grouped(self.messages@)
    }

    /// The names shown for the channels that messages mention, by id.
    pub closed spec fn spec_channel_names(&self) -> Map<u64, Seq<char>> {
        Map::new(|k: u64| self.channel_names@.contains_key(k), |k: u64| self.channel_names@[k]@)
    }

    /// The messages, in order.
    pub closed spec fn spec_messages(&self) -> Seq<PaneMessage> {
        self.messages@
    }

    /// The open channel.
    pub closed spec fn spec_channel_id(&self) -> Option<u64> {
        self.channel_id
    }

    /// The open channel's name.
    pub closed spec fn spec_channel_name(&self) -> Option<Seq<char>> {
        match &self.channel_name {
            Some(n) => Some(n@),
            None => None,
        }
    }

    /// The open channel's topic.
    pub closed spec fn spec_channel_topic(&self) -> Option<Seq<char>> {
        match &self.channel_topic {
            Some(n) => Some(n@),
            None => None,
        }
    }

    /// How far the messages have loaded.
    pub closed spec fn spec_loading_state(&self) -> LoadingState {
        self.loading_state
    }

    /// The error of the last load.
    pub closed spec fn spec_error(&self) -> Option<Seq<char>> {
        match &self.error_message {
            Some(n) => Some(n@),
            None => None,
        }
    }

    /// Whether the open channel is a direct message.
    pub closed spec fn spec_is_dm(&self) -> bool {
        self.is_dm
    }

    /// Whether the list changed since it was last drawn.
    pub closed spec fn spec_is_dirty(&self) -> bool {
        self.is_dirty
    }

    /// Whether authors are shown by display name.
    pub closed spec fn spec_use_display_name(&self) -> bool {
        self.use_display_name
    }

    /// The channel's icon, its online count and the typing indicator.
    pub closed spec fn extras(&self) -> (Option<Seq<char>>, Option<u32>, Option<Seq<char>>) {
        (
            match &self.channel_icon {
                Some(n) => Some(n@),
                None => None,
            },
            self.online_count,
            match &self.typing_indicator {
                Some(n) => Some(n@),
                None => None,
            },
        )
    }

    /// An empty list with no channel.
    pub fn new(use_display_name: bool) -> (d: MessagePaneData)
        ensures
            d.wf(),
            d.spec_messages().len() == 0,
            d.spec_channel_id() is None,
            d.spec_channel_name() is None,
            d.spec_channel_topic() is None,
            d.spec_loading_state() == LoadingState::Idle,
            d.spec_error() is None,
            !d.spec_is_dm(),
            d.spec_is_dirty(),
            d.spec_use_display_name() == use_display_name,
            d.extras() == (None::<Seq<char>>, None::<u32>, None::<Seq<char>>),
            d.spec_channel_names() == Map::<u64, Seq<char>>::empty(),
    {
        MessagePaneData {
            channel_id: None,
            channel_name: None,
            channel_topic: None,
            channel_icon: None,
            online_count: None,
            typing_indicator: None,
            messages: Vec::new(),
            loading_state: LoadingState::Idle,
            error_message: None,
            is_dm: false,
            is_dirty: true,
            use_display_name,
            channel_names: HashMap::new(),
        }
    }

    /// Opens a channel: no messages yet, loading. A name starting with `@`
    /// is a direct message.
    pub fn set_channel(&mut self, channel_id: u64, channel_name: String)
        ensures
            final(self).wf(),
            final(self).spec_is_dm() == (channel_name@.len() > 0 && channel_name@[0] == '@'),
            final(self).spec_channel_id() == Some(channel_id),
            final(self).spec_channel_name() == Some(channel_name@),
            final(self).spec_channel_topic() is None,
            final(self).spec_messages().len() == 0,
            final(self).spec_loading_state() == LoadingState::Loading,
            final(self).spec_error() is None,
            final(self).spec_is_dirty(),
            final(self).spec_use_display_name() == old(self).spec_use_display_name(),
            final(self).extras() == old(self).extras(),
    {
        let name = to_chars(channel_name.as_str());
        self.is_dm = name.len() > 0 && name[0] == '@';
        self.channel_id = Some(channel_id);
        self.channel_name = Some(channel_name);
        self.channel_topic = None;
        self.messages = Vec::new();
        self.loading_state = LoadingState::Loading;
        self.error_message = None;
        self.is_dirty = true;
    }

    /// Sets the channel's topic.
    pub fn set_channel_topic(&mut self, topic: Option<String>)
        requires
            old(self).wf(),
        ensures
            final(self).wf(),
            final(self).spec_channel_topic() == (match topic {
                Some(t) => Some(t@),
                None => None,
            }),
            final(self).spec_messages() == old(self).spec_messages(),
            final(self).spec_channel_id() == old(self).spec_channel_id(),
            final(self).spec_channel_name() == old(self).spec_channel_name(),
            final(self).spec_is_dm() == old(self).spec_is_dm(),
            final(self).spec_loading_state() == old(self).spec_loading_state(),
            final(self).extras() == old(self).extras(),
    {
        self.channel_topic = topic;
    }

    /// Replaces the messages; they have loaded.
    pub fn set_messages(&mut self, messages: Vec<PaneMessage>)
        ensures
            final(self).wf(),
            final(self).spec_messages() == regrouped(messages@),
            final(self).spec_loading_state() == LoadingState::Loaded,
            final(self).spec_error() is None,
            final(self).spec_is_dirty(),
            final(self).spec_channel_id() == old(self).spec_channel_id(),
            final(self).spec_channel_name() == old(self).spec_channel_name(),
            final(self).spec_use_display_name() == old(self).spec_use_display_name(),
            final(self).extras() == old(self).extras(),
    {
        self.messages = regroup(messages);
        proof {
            lemma_regrouped_grouped(messages@);
        }
        self.loading_state = LoadingState::Loaded;
        self.error_message = None;
        self.is_dirty = true;
    }

    /// Adds a message at the end if it belongs to the open channel and is
    /// not in the list yet.
    pub fn add_message(&mut self, message: PaneMessage)
        requires
            old(self).wf(),
        ensures
            final(self).wf(),
            if old(self).spec_channel_id() == Some(message.channel_id) && !has_id(old(self).spec_messages(), message.id) {
                &&& final(self).spec_messages() == regrouped(old(self).spec_messages().push(message))
                &&& final(self).spec_is_dirty()
            } else {
                &&& final(self).spec_messages() == old(self).spec_messages()
                &&& final(self).spec_is_dirty() == old(self).spec_is_dirty()
            },
            final(self).spec_channel_id() == old(self).spec_channel_id(),
            final(self).spec_loading_state() == old(self).spec_loading_state(),
            final(self).extras() == old(self).extras(),
            final(self).spec_channel_names() == old(self).spec_channel_names(),
            final(self).spec_channel_name() == old(self).spec_channel_name(),
    {
        let same_channel = match self.channel_id {
            Some(c) => c == message.channel_id,
            None => false,
        };
        if same_channel && has_id_exec(&self.messages, message.id).is_none() {
            let mut msgs: Vec<PaneMessage> = Vec::new();
            std::mem::swap(&mut msgs, &mut self.messages);
            msgs.push(message);
            let ghost pushed = msgs@;
            self.messages = regroup(msgs);
            proof {
                lemma_regrouped_grouped(pushed);
            }
            self.is_dirty = true;
        }
    }

    /// Puts older messages in front, skipping those already in the list,
    /// keeping their order; returns how many were added.
    pub fn prepend_messages(&mut self, new_messages: Vec<PaneMessage>) -> (added: usize)
        requires
            old(self).wf(),
        ensures
            final(self).wf(),
            added == new_messages@.filter(not_in(old(self).spec_messages())).len(),
            added > 0 ==> final(self).spec_messages() == regrouped(
                new_messages@.filter(not_in(old(self).spec_messages())) + old(self).spec_messages(),
            ),
            added > 0 ==> final(self).spec_is_dirty(),
            added == 0 ==> final(self).spec_messages() == old(self).spec_messages(),
            added == 0 ==> final(self).spec_is_dirty() == old(self).spec_is_dirty(),
            final(self).spec_channel_id() == old(self).spec_channel_id(),
            final(self).spec_loading_state() == old(self).spec_loading_state(),
            final(self).extras() == old(self).extras(),
            final(self).spec_channel_names() == old(self).spec_channel_names(),
            final(self).spec_channel_name() == old(self).spec_channel_name(),
    {
        let ghost old_msgs = self.messages@;
        let ghost pred = not_in(old_msgs);
        let ghost s = new_messages@;
        let total = new_messages.len();
        let mut rest = new_messages;
        let mut kept: Vec<PaneMessage> = Vec::new();
        let mut n: usize = 0;
        proof {
            reveal(Seq::filter);
            assert(s.take(0) =~= Seq::<PaneMessage>::empty());
        }
        while rest.len() > 0
            invariant
                n + rest@.len() == s.len(),
                total == s.len(),
                rest@ == s.skip(n as int),
                pred == not_in(old_msgs),
                self.messages@ == old_msgs,
                kept@ == s.take(n as int).filter(pred),
                kept@.len() <= n,
            decreases rest@.len(),
        {
            let m = rest.remove(0);
            assert(m == s[n as int]);
            proof {
                reveal(Seq::filter);
                assert(s.take(n + 1).drop_last() =~= s.take(n as int));
                assert(s.take(n + 1).last() == m);
                assert(rest@ =~= s.skip(n + 1));
            }
            if has_id_exec(&self.messages, m.id).is_none() {
                kept.push(m);
            }
            n = n + 1;
        }
        assert(s.take(n as int) =~= s);
        let added = kept.len();
        if added > 0 {
            let mut old_v: Vec<PaneMessage> = Vec::new();
            std::mem::swap(&mut old_v, &mut self.messages);
            kept.append(&mut old_v);
            let ghost joined = kept@;
            self.messages = regroup(kept);
            proof {
                lemma_regrouped_grouped(joined);
            }
            self.is_dirty = true;
        }
        added
    }

    /// Replaces the first message with the same id, if there is one.
    pub fn update_message(&mut self, updated: PaneMessage)
        requires
            old(self).wf(),
        ensures
            final(self).wf(),
            match first_with_id(old(self).spec_messages(), updated.id) {
                Some(i) => final(self).spec_messages() == regrouped(old(self).spec_messages().update(i, updated))
                    && final(self).spec_is_dirty(),
                None => final(self).spec_messages() == old(self).spec_messages() && final(self).spec_is_dirty()
                    == old(self).spec_is_dirty(),
            },
            final(self).spec_channel_id() == old(self).spec_channel_id(),
            final(self).spec_loading_state() == old(self).spec_loading_state(),
            final(self).extras() == old(self).extras(),
            final(self).spec_channel_names() == old(self).spec_channel_names(),
            final(self).spec_channel_name() == old(self).spec_channel_name(),
    {
        let ghost ex = self.extras();
        match has_id_exec(&self.messages, updated.id) {
            Some(pos) => {
                let mut msgs: Vec<PaneMessage> = Vec::new();
                std::mem::swap(&mut msgs, &mut self.messages);
                self.messages = replace_and_regroup(msgs, pos, updated);
                self.is_dirty = true;
            },
            None => {},
        }
        assert(self.extras() == ex);
    }

    /// Removes every message with the id.
    pub fn remove_message(&mut self, message_id: u64)
        requires
            old(self).wf(),
        ensures
            final(self).wf(),
            final(self).spec_messages() == regrouped(
                old(self).spec_messages().filter(|m: PaneMessage| m.id != message_id),
            ),
            final(self).spec_is_dirty(),
            final(self).spec_channel_id() == old(self).spec_channel_id(),
            final(self).spec_loading_state() == old(self).spec_loading_state(),
            final(self).extras() == old(self).extras(),
    {
        let ghost pred = |m: PaneMessage| m.id != message_id;
        let ghost s = self.messages@;
        let mut rest: Vec<PaneMessage> = Vec::new();
        std::mem::swap(&mut rest, &mut self.messages);
        let total = rest.len();
        let mut kept: Vec<PaneMessage> = Vec::new();
        let mut n: usize = 0;
        proof {
            reveal(Seq::filter);
            assert(s.take(0) =~= Seq::<PaneMessage>::empty());
        }
        while rest.len() > 0
            invariant
                n + rest@.len() == s.len(),
                total == s.len(),
                rest@ == s.skip(n as int),
                pred == (|m: PaneMessage| m.id != message_id),
                kept@ == s.take(n as int).filter(pred),
            decreases rest@.len(),
        {
            let m = rest.remove(0);
            assert(m == s[n as int]);
            proof {
                reveal(Seq::filter);
                assert(s.take(n + 1).drop_last() =~= s.take(n as int));
                assert(s.take(n + 1).last() == m);
                assert(rest@ =~= s.skip(n + 1));
            }
            if m.id != message_id {
                kept.push(m);
            }
            n = n + 1;
        }
        assert(s.take(n as int) =~= s);
        let ghost k = kept@;
        self.messages = regroup(kept);
        proof {
            lemma_regrouped_grouped(k);
        }
        self.is_dirty = true;
    }

    /// Records a failed load.
    pub fn set_error(&mut self, error: String)
        requires
            old(self).wf(),
        ensures
            final(self).wf(),
            final(self).spec_loading_state() == LoadingState::Error,
            final(self).spec_error() == Some(error@),
            final(self).spec_is_dirty(),
            final(self).spec_messages() == old(self).spec_messages(),
            final(self).spec_channel_id() == old(self).spec_channel_id(),
            final(self).extras() == old(self).extras(),
    {
        self.loading_state = LoadingState::Error;
        self.error_message = Some(error);
        self.is_dirty = true;
    }

    /// Records the name shown for a mentioned channel; nothing else changes.
    pub fn register_channel(&mut self, id: u64, name: String)
        requires
            old(self).wf(),
        ensures
            final(self).wf(),
            final(self).spec_channel_names() == old(self).spec_channel_names().insert(id, name@),
            final(self).spec_messages() == old(self).spec_messages(),
            final(self).spec_channel_id() == old(self).spec_channel_id(),
            final(self).spec_channel_name() == old(self).spec_channel_name(),
            final(self).spec_channel_topic() == old(self).spec_channel_topic(),
            final(self).spec_loading_state() == old(self).spec_loading_state(),
            final(self).spec_error() == old(self).spec_error(),
            final(self).spec_is_dm() == old(self).spec_is_dm(),
            final(self).spec_is_dirty() == old(self).spec_is_dirty(),
            final(self).spec_use_display_name() == old(self).spec_use_display_name(),
            final(self).extras() == old(self).extras(),
    {
        broadcast use vstd::std_specs::hash::group_hash_axioms;
        let ghost before = self.spec_channel_names();
        self.channel_names.insert(id, name);
        assert(self.spec_channel_names() =~= before.insert(id, name@));
    }

    /// Whether a name is recorded for a mentioned channel.
    pub fn is_channel_known(&self, id: u64) -> (b: bool)
        ensures
            b == self.spec_channel_names().contains_key(id),
    {
        broadcast use vstd::std_specs::hash::group_hash_axioms;
        self.channel_names.contains_key(&id)
    }

    /// The name recorded for a mentioned channel.
    pub fn resolve_channel(&self, id: u64) -> (r: Option<String>)
        ensures
            match r {
                Some(n) => self.spec_channel_names().contains_key(id) && n@ == self.spec_channel_names()[id],
                None => !self.spec_channel_names().contains_key(id),
            },
    {
        broadcast use vstd::std_specs::hash::group_hash_axioms;
        match self.channel_names.get(&id) {
            Some(n) => Some(copy_str(n.as_str())),
            None => None,
        }
    }

    /// Closes the channel and forgets its messages.
    pub fn clear(&mut self)
        ensures
            final(self).wf(),
            final(self).spec_channel_id() is None,
            final(self).spec_channel_name() is None,
            final(self).spec_channel_topic() is None,
            final(self).spec_messages().len() == 0,
            final(self).spec_loading_state() == LoadingState::Idle,
            final(self).spec_error() is None,
            !final(self).spec_is_dm(),
            final(self).spec_is_dirty(),
            final(self).spec_use_display_name() == old(self).spec_use_display_name(),
            final(self).extras() == (None::<Seq<char>>, None::<u32>, None::<Seq<char>>),
            final(self).spec_channel_names() == Map::<u64, Seq<char>>::empty(),
    {
        self.channel_names = HashMap::new();
        self.channel_id = None;
        self.channel_name = None;
        self.channel_topic = None;
        self.channel_icon = None;
        self.online_count = None;
        self.typing_indicator = None;
        self.messages = Vec::new();
        self.loading_state = LoadingState::Idle;
        self.error_message = None;
        self.is_dm = false;
        self.is_dirty = true;
    }

    /// Sets the channel's icon.
    pub fn set_channel_icon(&mut self, icon: Option<String>)
        requires
            old(self).wf(),
        ensures
            final(self).wf(),
            final(self).extras() == (
                match icon {
                    Some(n) => Some(n@),
                    None => None,
                },
                old(self).extras().1,
                old(self).extras().2,
            ),
            final(self).spec_messages() == old(self).spec_messages(),
            final(self).spec_channel_id() == old(self).spec_channel_id(),
            final(self).spec_is_dirty() == old(self).spec_is_dirty(),
    {
        self.channel_icon = icon;
    }

    /// Sets how many members are online.
    pub fn set_online_count(&mut self, count: Option<u32>)
        requires
            old(self).wf(),
        ensures
            final(self).wf(),
            final(self).extras() == (old(self).extras().0, count, old(self).extras().2),
            final(self).spec_messages() == old(self).spec_messages(),
            final(self).spec_channel_id() == old(self).spec_channel_id(),
            final(self).spec_is_dirty() == old(self).spec_is_dirty(),
    {
        self.online_count = count;
    }

    /// Sets who is typing.
    pub fn set_typing_indicator(&mut self, indicator: Option<String>)
        requires
            old(self).wf(),
        ensures
            final(self).wf(),
            final(self).extras() == (
                old(self).extras().0,
                old(self).extras().1,
                match indicator {
                    Some(n) => Some(n@),
                    None => None,
                },
            ),
            final(self).spec_messages() == old(self).spec_messages(),
            final(self).spec_channel_id() == old(self).spec_channel_id(),
            final(self).spec_is_dirty() == old(self).spec_is_dirty(),
            final(self).spec_channel_name() == old(self).spec_channel_name(),
            final(self).spec_channel_topic() == old(self).spec_channel_topic(),
            final(self).spec_loading_state() == old(self).spec_loading_state(),
            final(self).spec_error() == old(self).spec_error(),
            final(self).spec_is_dm() == old(self).spec_is_dm(),
            final(self).spec_use_display_name() == old(self).spec_use_display_name(),
    {
        self.typing_indicator = indicator;
    }

    /// Marks the list as changed since it was last drawn.
    pub fn mark_dirty(&mut self)
        requires
            old(self).wf(),
        ensures
            final(self).wf(),
            final(self).spec_is_dirty(),
            final(self).extras() == old(self).extras(),
            final(self).spec_messages() == old(self).spec_messages(),
            final(self).spec_channel_id() == old(self).spec_channel_id(),
    {
        self.is_dirty = true;
    }

    /// The channel's icon.
    pub fn channel_icon(&self) -> (r: Option<&str>)
        ensures
            match r {
                Some(t) => self.extras().0 == Some(t@),
                None => self.extras().0 is None,
            },
    {
        match &self.channel_icon {
            Some(t) => Some(t.as_str()),
            None => None,
        }
    }

    /// How many members are online.
    pub fn online_count(&self) -> (r: Option<u32>)
        ensures
            r == self.extras().1,
    {
        self.online_count
    }

    /// Who is typing.
    pub fn typing_indicator(&self) -> (r: Option<&str>)
        ensures
            match r {
                Some(t) => self.extras().2 == Some(t@),
                None => self.extras().2 is None,
            },
    {
        match &self.typing_indicator {
            Some(t) => Some(t.as_str()),
            None => None,
        }
    }

    /// The error shown in place of the messages, if any.
    pub fn error_message(&self) -> (r: Option<&str>)
        ensures
            match r {
                Some(t) => self.spec_error() == Some(t@),
                None => self.spec_error() is None,
            },
    {
        match &self.error_message {
            Some(t) => Some(t.as_str()),
            None => None,
        }
    }

    /// Whether someone is typing.
    pub fn has_typing_indicator(&self) -> (b: bool)
        ensures
            b == self.extras().2 is Some,
    {
        self.typing_indicator.is_some()
    }

    /// The message at a position of the list.
    pub fn get_message(&self, index: usize) -> (r: Option<&PaneMessage>)
        ensures
            match r {
                Some(m) => index < self.spec_messages().len() && *m == self.spec_messages()[index as int],
                None => index >= self.spec_messages().len(),
            },
    {
        if index < self.messages.len() {
            Some(&self.messages[index])
        } else {
            None
        }
    }

    /// The messages, in order.
    pub fn messages(&self) -> (m: &Vec<PaneMessage>)
        ensures
            m@ == self.spec_messages(),
    {
        &self.messages
    }

    /// The number of messages.
    pub fn message_count(&self) -> (n: usize)
        ensures
            n == self.spec_messages().len(),
    {
        self.messages.len()
    }

    /// How far the messages have loaded.
    pub fn loading_state(&self) -> (s: LoadingState)
        ensures
            s == self.spec_loading_state(),
    {
        self.loading_state
    }

    /// The open channel.
    pub fn channel_id(&self) -> (c: Option<u64>)
        ensures
            c == self.spec_channel_id(),
    {
        self.channel_id
    }

    /// Whether the open channel is a direct message.
    pub fn is_dm(&self) -> (b: bool)
        ensures
            b == self.spec_is_dm(),
    {
        self.is_dm
    }

    /// Whether the list holds no message.
    pub fn is_empty(&self) -> (b: bool)
        ensures
            b == (self.spec_messages().len() == 0),
    {
        self.messages.len() == 0
    }

    /// The open channel's name.
    pub fn channel_name(&self) -> (n: Option<&str>)
        ensures
            match n {
                Some(s) => self.spec_channel_name() == Some(s@),
                None => self.spec_channel_name() is None,
            },
    {
        match &self.channel_name {
            Some(s) => Some(s.as_str()),
            None => None,
        }
    }

    /// The open channel's topic.
    pub fn channel_topic(&self) -> (n: Option<&str>)
        ensures
            match n {
                Some(s) => self.spec_channel_topic() == Some(s@),
                None => self.spec_channel_topic() is None,
            },
    {
        match &self.channel_topic {
            Some(s) => Some(s.as_str()),
            None => None,
        }
    }

    /// The title of the open channel: its cleaned name without leading `@`,
    /// upper-cased, between `[ ` and ` ]`.
    pub fn formatted_channel_title(&self) -> (t: Option<String>)
        ensures
            match self.spec_channel_name() {
                Some(n) => t is Some && t->0@ == spec_channel_title(n),
                None => t is None,
            },
    {
        match &self.channel_name {
            Some(name) => {
                let clean = to_chars(clean_text(name.as_str()).as_str());
                let mut at: Vec<char> = Vec::new();
                at.push('@');
                assert(at@ =~= seq!['@']);
                let bare = strip_start_in(&clean, &at);
                let upper = to_chars(to_uppercase(from_chars(&bare).as_str()).as_str());
                let mut v: Vec<char> = Vec::new();
                append_str(&mut v, "[ ");
                append_chars(&mut v, &upper);
                append_str(&mut v, " ]");
                Some(from_chars(&v))
            },
            None => None,
        }
    }
}

} // verus!
