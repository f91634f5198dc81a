//! What the chat screen does with the results the backend sends back:
//! loaded messages, threads and channels, and the outcome of sending,
//! editing and deleting messages. Each result is a step from the chat
//! state to the next one, with the requests the application is to send.

use vstd::prelude::*;
use crate::chars::{append_str, from_chars};
use crate::chat_screen::{
    flagged_threads, forum_after_threads, mentioned_ids, mentions_all, mentions_step, ChatScreenState,
};
use crate::channel_access::spec_visible_channels;
use crate::entities::{Channel, ForumThread, ReadState};
use crate::guilds_tree::unread_marked;
use crate::message_pane::{forum_view, LoadingState, ViewMode};
use crate::pane_data::{first_with_id, has_id, not_in, regrouped, PaneMessage};
use std::collections::HashMap;

verus! {

/// A result the backend sends back to the chat screen.
pub enum BackendAction {
    /// Older messages of the shown channel, and the height they take when
    /// drawn.
    HistoryLoaded { messages: Vec<PaneMessage>, added_height: usize },
    /// The channels of a guild, with whether the user may view each one
    /// (absent where the permissions are unknown).
    GuildChannelsLoaded { guild_id: u64, channels: Vec<Channel>, can_view: Option<Vec<bool>> },
    /// The messages of a channel.
    ChannelMessagesLoaded { channel_id: u64, messages: Vec<PaneMessage> },
    /// Loading the messages of a channel failed.
    ChannelMessagesLoadError { channel_id: u64, error: String },
    /// A page of a forum's threads.
    ForumThreadsLoaded { channel_id: u64, threads: Vec<ForumThread>, offset: u32 },
    /// Loading a forum's threads failed.
    ForumThreadsLoadError { channel_id: u64, error: String },
    /// A message was sent.
    MessageSent(PaneMessage),
    /// Sending a message failed.
    MessageSendError(String),
    /// A message was edited.
    MessageEdited(PaneMessage),
    /// Editing a message failed.
    MessageEditError(String),
    /// A message was deleted.
    MessageDeleted(u64),
    /// Deleting a message failed.
    MessageDeleteError(String),
}

/// A request to the backend that a result gives rise to.
#[derive(Clone, Copy, Debug, PartialEq, Eq, Structural)]
pub enum BackendRequest {
    /// Tell the server that the channel was read up to the message.
    AcknowledgeMessage { channel_id: u64, message_id: u64 },
}

/// The text shown when an operation failed: what failed, then the error.
pub open spec fn failure_text(action: Seq<char>, error: Seq<char>) -> Seq<char> {
    action + ": "@ + error
}

/// `prefix`, `": "` and `error`, as one string.
fn failure_message(prefix: &str, error: &str) -> (s: String)
    ensures
        s@ == failure_text(prefix@, error@),
{
    let mut v: Vec<char> = Vec::new();
    append_str(&mut v, prefix);
    append_str(&mut v, ": ");
    append_str(&mut v, error);
    from_chars(&v)
}

/// The read states once those that arrived before the data (in order) are
/// laid over the loaded ones: each replaces the state of its channel.
pub open spec fn with_pending(loaded: Map<u64, ReadState>, pending: Seq<ReadState>) -> Map<u64, ReadState>
    decreases pending.len(),
{
    if pending.len() == 0 {
        loaded
    } else {
        with_pending(loaded, pending.drop_last()).insert(pending.last().channel_id, pending.last())
    }
}

/// Lays the read states that arrived before the data over the loaded ones.
pub fn merge_pending_read_states(loaded: HashMap<u64, ReadState>, pending: Option<Vec<ReadState>>) -> (r: HashMap<
    u64,
    ReadState,
>)
    ensures
        r@ == match pending {
            Some(p) => with_pending(loaded@, p@),
            None => loaded@,
        },
{
    broadcast use vstd::std_specs::hash::group_hash_axioms;
    let mut out = loaded;
    match pending {
        None => out,
        Some(p) => {
            let ghost l = out@;
            let mut i: usize = 0;
            while i < p.len()
                invariant
                    i <= p@.len(),
                    out@ == with_pending(l, p@.take(i as int)),
                decreases p@.len() - i,
            {
                assert(p@.take(i + 1).drop_last() =~= p@.take(i as int));
                let rs = p[i];
                out.insert(rs.channel_id, rs);
                i = i + 1;
            }
            assert(p@.take(p@.len() as int) =~= p@);
            out
        },
    }
}

/// Applies a result of the backend to the chat screen, giving the requests
/// the application is to send. Results for a channel other than the shown
/// one are dropped. Loaded messages of the shown channel replace the shown
/// ones, nobody is shown typing, the channel is marked read up to the last
/// message, and that message is acknowledged (when the user is signed in).
/// A failed load shows its error (and, for messages, focuses the guilds
/// tree). Sent, edited and deleted messages change the shown messages;
/// failures show "Failed to send", "Failed to edit" or "Failed to delete"
/// and the error.
pub fn apply_backend_action(state: &mut ChatScreenState, action: BackendAction, signed_in: bool) -> (cmds: Vec<
    BackendRequest,
>)
    requires
        old(state).wf(),
        action matches BackendAction::HistoryLoaded { messages, .. } ==> (old(state).spec_pane().selection() matches Some(
            i,
        ) ==> i + messages@.len() <= usize::MAX),
        action matches BackendAction::GuildChannelsLoaded { channels, can_view, .. } ==> (can_view matches Some(v)
            ==> v@.len() == channels@.len()),
    ensures
        final(state).wf(),
        final(state).spec_registry() == old(state).spec_registry(),
        match action {
            BackendAction::HistoryLoaded { messages, added_height } => {
                let before = old(state).spec_pane_data();
                let fresh = messages@.filter(not_in(before.spec_messages()));
                &&& cmds@.len() == 0
                &&& messages@.len() == 0 ==> *final(state) == *old(state)
                &&& messages@.len() > 0 ==> {
                    &&& final(state).same_outside_pane(&*old(state))
                    &&& final(state).spec_pane_data().spec_messages() == if fresh.len() > 0 {
                        regrouped(fresh + before.spec_messages())
                    } else {
                        before.spec_messages()
                    }
                    &&& final(state).spec_pane_data().spec_channel_names() == mentions_all(
                        old(state).spec_tree_data().spec_channel_lists(),
                        before.spec_channel_names(),
                        Seq::<u64>::empty(),
                        messages@,
                    ).0
                    &&& final(state).spec_pane().selection() == (match old(state).spec_pane().selection() {
                        Some(i) if fresh.len() > 0 => Some((i + fresh.len()) as usize),
                        s => s,
                    })
                    &&& final(state).spec_pane().scroll() == (if fresh.len() > 0 {
                        if old(state).spec_pane().scroll() + added_height > usize::MAX {
                            usize::MAX
                        } else {
                            (old(state).spec_pane().scroll() + added_height) as usize
                        }
                    } else {
                        old(state).spec_pane().scroll()
                    })
                }
            },
            BackendAction::GuildChannelsLoaded { guild_id, channels, can_view } => {
                &&& cmds@.len() == 0
                &&& final(state).view() == old(state).view()
                &&& final(state).spec_tree_data().spec_channels(guild_id) == Some(
                    spec_visible_channels(
                        channels@,
                        match can_view {
                            Some(v) => Some(v@),
                            None => None,
                        },
                    ),
                )
                &&& forall|g: u64| g != guild_id ==> final(state).spec_tree_data().spec_channels(g)
                    == old(state).spec_tree_data().spec_channels(g)
            },
            BackendAction::ChannelMessagesLoaded { channel_id, messages } => if old(
                state,
            ).spec_pane_data().spec_channel_id() != Some(channel_id) {
                cmds@.len() == 0 && *final(state) == *old(state)
            } else {
                let shown = regrouped(messages@);
                &&& final(state).spec_pane_data().spec_messages() == shown
                &&& final(state).spec_pane_data().spec_loading_state() == LoadingState::Loaded
                &&& final(state).spec_pane_data().spec_error() is None
                &&& final(state).spec_pane_data().extras().2 is None
                &&& final(state).view() == old(state).view()
                &&& final(state).spec_pane() == old(state).spec_pane()
                &&& if shown.len() > 0 {
                    let m = shown.last().id;
                    &&& final(state).spec_read_states() == old(state).spec_read_states().insert(
                        channel_id,
                        if old(state).spec_read_states().contains_key(channel_id) {
                            ReadState { last_read_message_id: Some(m), ..old(state).spec_read_states()[channel_id] }
                        } else {
                            ReadState { channel_id, last_read_message_id: Some(m), mention_count: 0 }
                        },
                    )
                    &&& unread_marked(
                        old(state).spec_tree_data(),
                        final(state).spec_tree_data(),
                        final(state).spec_read_states(),
                    )
                    &&& cmds@ == (if signed_in {
                        seq![BackendRequest::AcknowledgeMessage { channel_id, message_id: m }]
                    } else {
                        Seq::<BackendRequest>::empty()
                    })
                } else {
                    &&& cmds@.len() == 0
                    &&& final(state).spec_read_states() == old(state).spec_read_states()
                    &&& final(state).spec_tree_data() == old(state).spec_tree_data()
                }
            },
            BackendAction::ChannelMessagesLoadError { channel_id, error } => {
                &&& cmds@.len() == 0
                &&& old(state).spec_pane_data().spec_channel_id() != Some(channel_id) ==> *final(state) == *old(state)
                &&& old(state).spec_pane_data().spec_channel_id() == Some(channel_id) ==> {
                    &&& final(state).spec_pane_data().spec_loading_state() == LoadingState::Error
                    &&& final(state).spec_pane_data().spec_error() == Some(error@)
                    &&& final(state).spec_pane_data().spec_messages() == old(state).spec_pane_data().spec_messages()
                    &&& final(state).view() == crate::chat_screen::spec_focus_guilds(old(state).view())
                    &&& final(state).spec_tree_data() == old(state).spec_tree_data()
                    &&& final(state).spec_read_states() == old(state).spec_read_states()
                }
            },
            BackendAction::ForumThreadsLoaded { channel_id, threads, offset } => {
                &&& cmds@.len() == 0
                &&& old(state).spec_pane_data().spec_channel_id() != Some(channel_id) ==> *final(state) == *old(state)
                &&& old(state).spec_pane_data().spec_channel_id() == Some(channel_id) ==> {
                    &&& final(state).keeps_data(&*old(state))
                    &&& final(state).view() == old(state).view()
                    &&& final(state).spec_pane().spec_view_mode() matches ViewMode::Forum(f) && forum_view(f)
                        == forum_after_threads(
                        old(state).spec_pane().spec_view_mode(),
                        flagged_threads(old(state).spec_read_states(), threads@),
                        offset,
                    )
                }
            },
            BackendAction::ForumThreadsLoadError { channel_id, error } => {
                &&& cmds@.len() == 0
                &&& old(state).spec_pane_data().spec_channel_id() != Some(channel_id) ==> *final(state) == *old(state)
                &&& old(state).spec_pane_data().spec_channel_id() == Some(channel_id) ==> {
                    &&& final(state).spec_pane_data().spec_loading_state() == LoadingState::Error
                    &&& final(state).spec_pane_data().spec_error() == Some(error@)
                    &&& final(state).spec_pane_data().spec_messages() == old(state).spec_pane_data().spec_messages()
                    &&& final(state).view() == old(state).view()
                    &&& final(state).spec_tree_data() == old(state).spec_tree_data()
                }
            },
            BackendAction::MessageSent(message) => {
                let before = old(state).spec_pane_data();
                &&& cmds@.len() == 0
                &&& final(state).same_outside_pane(&*old(state))
                &&& final(state).spec_pane_data().spec_messages() == if before.spec_channel_id() == Some(
                    message.channel_id,
                ) && !has_id(before.spec_messages(), message.id) {
                    regrouped(before.spec_messages().push(message))
                } else {
                    before.spec_messages()
                }
                &&& final(state).spec_pane_data().spec_channel_names() == mentions_step(
                    old(state).spec_tree_data().spec_channel_lists(),
                    before.spec_channel_names(),
                    Seq::<u64>::empty(),
                    mentioned_ids(message.content@),
                ).0
            },
            BackendAction::MessageEdited(message) => {
                let before = old(state).spec_pane_data();
                &&& cmds@.len() == 0
                &&& final(state).same_outside_pane(&*old(state))
                &&& final(state).spec_pane() == old(state).spec_pane()
                &&& final(state).spec_pane_data().spec_messages() == match first_with_id(
                    before.spec_messages(),
                    message.id,
                ) {
                    Some(i) => regrouped(before.spec_messages().update(i, message)),
                    None => before.spec_messages(),
                }
                &&& final(state).spec_pane_data().spec_channel_names() == mentions_step(
                    old(state).spec_tree_data().spec_channel_lists(),
                    before.spec_channel_names(),
                    Seq::<u64>::empty(),
                    mentioned_ids(message.content@),
                ).0
            },
            BackendAction::MessageDeleted(id) => {
                &&& cmds@.len() == 0
                &&& final(state).same_outside_pane(&*old(state))
                &&& final(state).spec_pane() == old(state).spec_pane()
                &&& final(state).spec_pane_data().spec_messages() == regrouped(
                    old(state).spec_pane_data().spec_messages().filter(|m: PaneMessage| m.id != id),
                )
            },
            BackendAction::MessageSendError(e) => failed_with(*old(state), *final(state), "Failed to send"@, e@)
                && cmds@.len() == 0,
            BackendAction::MessageEditError(e) => failed_with(*old(state), *final(state), "Failed to edit"@, e@)
                && cmds@.len() == 0,
            BackendAction::MessageDeleteError(e) => failed_with(*old(state), *final(state), "Failed to delete"@, e@)
                && cmds@.len() == 0,
        },
{
    match action {
        BackendAction::HistoryLoaded { messages, added_height } => {
            let _ = state.prepend_messages(messages, added_height);
            Vec::new()
        },
        BackendAction::GuildChannelsLoaded { guild_id, channels, can_view } => {
            state.set_channels(guild_id, channels, can_view);
            Vec::new()
        },
        BackendAction::ChannelMessagesLoaded { channel_id, messages } => {
            let mut cmds: Vec<BackendRequest> = Vec::new();
            match state.on_channel_messages_loaded(channel_id, messages) {
                Some(message_id) => {
                    if signed_in {
                        cmds.push(BackendRequest::AcknowledgeMessage { channel_id, message_id });
                    }
                },
                None => {},
            }
            cmds
        },
        BackendAction::ChannelMessagesLoadError { channel_id, error } => {
            state.on_channel_messages_failed(channel_id, error);
            Vec::new()
        },
        BackendAction::ForumThreadsLoaded { channel_id, threads, offset } => {
            state.on_forum_threads_loaded(channel_id, threads, offset);
            Vec::new()
        },
        BackendAction::ForumThreadsLoadError { channel_id, error } => {
            state.on_forum_threads_failed(channel_id, error);
            Vec::new()
        },
        BackendAction::MessageSent(message) => {
            let _ = state.add_message(message);
            Vec::new()
        },
        BackendAction::MessageSendError(error) => {
            state.set_message_error(failure_message("Failed to send", error.as_str()));
            Vec::new()
        },
        BackendAction::MessageEdited(message) => {
            let _ = state.update_message(message);
            Vec::new()
        },
        BackendAction::MessageEditError(error) => {
            state.set_message_error(failure_message("Failed to edit", error.as_str()));
            Vec::new()
        },
        BackendAction::MessageDeleted(id) => {
            state.remove_message(id);
            Vec::new()
        },
        BackendAction::MessageDeleteError(error) => {
            state.set_message_error(failure_message("Failed to delete", error.as_str()));
            Vec::new()
        },
    }
}

/// The shown messages' data shows that an operation failed with an error;
/// nothing else changes.
pub open spec fn failed_with(before: ChatScreenState, after: ChatScreenState, what: Seq<char>, error: Seq<char>) -> bool {
    &&& after.spec_pane_data().spec_loading_state() == LoadingState::Error
    &&& after.spec_pane_data().spec_error() == Some(failure_text(what, error))
    &&& after.spec_pane_data().spec_messages() == before.spec_pane_data().spec_messages()
    &&& after.spec_pane_data().spec_channel_id() == before.spec_pane_data().spec_channel_id()
    &&& after.same_outside_pane(&before)
    &&& after.spec_pane() == before.spec_pane()
}

} // verus!
