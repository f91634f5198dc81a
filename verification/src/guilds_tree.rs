//! The guilds tree: direct messages, folders, guilds, categories and
//! channels as an expandable tree, flattened into rows, and its keyboard
//! navigation.

use vstd::prelude::*;
use std::collections::HashMap;
use crate::chars::{append_chars, append_str, from_chars, to_chars};
use crate::commands::{CommandRegistry, first_action};
use crate::entities::{Channel, ChannelKind, Guild, GuildFolder, ReadState, copy_str};
use crate::keys::{Action, KeyEvent};
use crate::utils::{decimal, spec_clean_text, u64_to_decimal};
use crate::sorting::{insert_pos, stable_sort};
use crate::text::uppercase;
use crate::width::{char_width, char_width_exec, str_width, str_width_exec};

verus! {

/// A node of the guilds tree.
#[derive(Debug)]
pub enum TreeNodeId {
    DirectMessages,
    DirectMessageUser(String),
    Folder(Option<u64>),
    Guild(u64),
    Category(u64),
    Channel(u64),
    Placeholder(u64),
}

/// The identity of a node as a value: a tag, a number, and a text.
pub open spec fn node_key(n: TreeNodeId) -> (int, Option<u64>, Seq<char>) {
    match n {
        TreeNodeId::DirectMessages => (0, None, Seq::empty()),
        TreeNodeId::DirectMessageUser(s) => (1, None, s@),
        TreeNodeId::Folder(o) => (2, o, Seq::empty()),
        TreeNodeId::Guild(g) => (3, Some(g), Seq::empty()),
        TreeNodeId::Category(c) => (4, Some(c), Seq::empty()),
        TreeNodeId::Channel(c) => (5, Some(c), Seq::empty()),
        TreeNodeId::Placeholder(g) => (6, Some(g), Seq::empty()),
    }
}

/// The key of a direct-messages user node.
pub open spec fn dm_user_key(id: Seq<char>) -> (int, Option<u64>, Seq<char>) {
    (1, None, id)
}

/// The key of the direct-messages node.
pub open spec fn dm_key() -> (int, Option<u64>, Seq<char>) {
    (0, None, Seq::empty())
}

/// The key of a folder node.
pub open spec fn folder_key(id: Option<u64>) -> (int, Option<u64>, Seq<char>) {
    (2, id, Seq::empty())
}

/// The key of a guild node.
pub open spec fn guild_key(id: u64) -> (int, Option<u64>, Seq<char>) {
    (3, Some(id), Seq::empty())
}

/// The key of a category node.
pub open spec fn category_key(id: u64) -> (int, Option<u64>, Seq<char>) {
    (4, Some(id), Seq::empty())
}

/// The key of a channel node.
pub open spec fn channel_key(id: u64) -> (int, Option<u64>, Seq<char>) {
    (5, Some(id), Seq::empty())
}

/// The key of a loading placeholder node.
pub open spec fn placeholder_key(id: u64) -> (int, Option<u64>, Seq<char>) {
    (6, Some(id), Seq::empty())
}

impl TreeNodeId {
    /// A copy of the node.
    pub fn copy(&self) -> (r: TreeNodeId)
        ensures
            node_key(r) == node_key(*self),
    {
        match self {
            TreeNodeId::DirectMessages => TreeNodeId::DirectMessages,
            TreeNodeId::DirectMessageUser(s) => TreeNodeId::DirectMessageUser(copy_str(s.as_str())),
            TreeNodeId::Folder(o) => TreeNodeId::Folder(*o),
            TreeNodeId::Guild(g) => TreeNodeId::Guild(*g),
            TreeNodeId::Category(c) => TreeNodeId::Category(*c),
            TreeNodeId::Channel(c) => TreeNodeId::Channel(*c),
            TreeNodeId::Placeholder(g) => TreeNodeId::Placeholder(*g),
        }
    }

    /// Whether two nodes are the same.
    pub fn same(&self, other: &TreeNodeId) -> (b: bool)
        ensures
            b == (node_key(*self) == node_key(*other)),
    {
        match (self, other) {
            (TreeNodeId::DirectMessages, TreeNodeId::DirectMessages) => true,
            (TreeNodeId::DirectMessageUser(a), TreeNodeId::DirectMessageUser(b)) => crate::text::chars_eq(
                &to_chars(a.as_str()),
                &to_chars(b.as_str()),
            ),
            (TreeNodeId::Folder(a), TreeNodeId::Folder(b)) => *a == *b,
            (TreeNodeId::Guild(a), TreeNodeId::Guild(b)) => *a == *b,
            (TreeNodeId::Category(a), TreeNodeId::Category(b)) => *a == *b,
            (TreeNodeId::Channel(a), TreeNodeId::Channel(b)) => *a == *b,
            (TreeNodeId::Placeholder(a), TreeNodeId::Placeholder(b)) => *a == *b,
            _ => false,
        }
    }

    /// The text of a node id: `dm`, `dm:ID`, `folder:Some(ID)` or
    /// `folder:None`, `guild:ID`, `cat:ID`, `ch:ID`, `placeholder:ID`.
    pub open spec fn spec_to_string(self) -> Seq<char> {
        match self {
            TreeNodeId::DirectMessages => "dm"@,
            TreeNodeId::DirectMessageUser(s) => "dm:"@ + s@,
            TreeNodeId::Folder(o) => "folder:"@ + spec_option_debug(o),
            TreeNodeId::Guild(g) => "guild:"@ + decimal(g as nat),
            TreeNodeId::Category(c) => "cat:"@ + decimal(c as nat),
            TreeNodeId::Channel(c) => "ch:"@ + decimal(c as nat),
            TreeNodeId::Placeholder(g) => "placeholder:"@ + decimal(g as nat),
        }
    }

    /// The text of the node id.
    pub fn to_string(&self) -> (s: String)
        ensures
            s@ == self.spec_to_string(),
    {
        let mut v: Vec<char> = Vec::new();
        match self {
            TreeNodeId::DirectMessages => append_str(&mut v, "dm"),
            TreeNodeId::DirectMessageUser(s) => {
                append_str(&mut v, "dm:");
                append_str(&mut v, s.as_str());
            },
            TreeNodeId::Folder(o) => {
                append_str(&mut v, "folder:");
                let d = option_debug(*o);
                append_str(&mut v, d.as_str());
            },
            TreeNodeId::Guild(g) => {
                append_str(&mut v, "guild:");
                append_str(&mut v, u64_to_decimal(*g).as_str());
            },
            TreeNodeId::Category(c) => {
                append_str(&mut v, "cat:");
                append_str(&mut v, u64_to_decimal(*c).as_str());
            },
            TreeNodeId::Channel(c) => {
                append_str(&mut v, "ch:");
                append_str(&mut v, u64_to_decimal(*c).as_str());
            },
            TreeNodeId::Placeholder(g) => {
                append_str(&mut v, "placeholder:");
                append_str(&mut v, u64_to_decimal(*g).as_str());
            },
        }
        from_chars(&v)
    }
}

impl Clone for TreeNodeId {
    fn clone(&self) -> (r: TreeNodeId)
        ensures
            node_key(r) == node_key(*self),
    {
        self.copy()
    }
}

impl PartialEq for TreeNodeId {
    fn eq(&self, other: &TreeNodeId) -> (b: bool) {
        self.same(other)
    }
}

impl vstd::std_specs::cmp::PartialEqSpecImpl for TreeNodeId {
    open spec fn obeys_eq_spec() -> bool {
        true
    }

    open spec fn eq_spec(&self, other: &TreeNodeId) -> bool {
        node_key(*self) == node_key(*other)
    }
}

impl Eq for TreeNodeId {}

/// The debug text of an optional number: `Some(N)` or `None`.
pub open spec fn spec_option_debug(o: Option<u64>) -> Seq<char> {
    match o {
        Some(n) => "Some("@ + decimal(n as nat) + ")"@,
        None => "None"@,
    }
}

/// The debug text of an optional number.
pub fn option_debug(o: Option<u64>) -> (s: String)
    ensures
        s@ == spec_option_debug(o),
{
    let mut v: Vec<char> = Vec::new();
    match o {
        Some(n) => {
            append_str(&mut v, "Some(");
            append_str(&mut v, u64_to_decimal(n).as_str());
            append_str(&mut v, ")");
        },
        None => append_str(&mut v, "None"),
    }
    from_chars(&v)
}

/// What the guilds tree asks the application to do.
#[derive(Debug)]
pub enum GuildsTreeAction {
    SelectChannel(u64),
    SelectGuild(u64),
    SelectDirectMessage(String),
    YankId(String),
    LoadGuildChannels(u64),
}

/// The guilds, folders, channels and direct-message users shown in the tree,
/// and which of them is active.
pub struct GuildsTreeData {
    guilds: Vec<Guild>,
    folders: Vec<GuildFolder>,
    group_guilds: bool,
    channels_by_guild: Vec<(u64, Vec<Channel>)>,
    dm_users: Vec<(String, String)>,
    active_guild_id: Option<u64>,
    active_channel_id: Option<u64>,
    active_dm_user_id: Option<String>,
}

/// No guild has two channel lists.
pub open spec fn unique_guilds(e: Seq<(u64, Vec<Channel>)>) -> bool {
    forall|i: int, j: int| 0 <= i < e.len() && 0 <= j < e.len() && i != j ==> (#[trigger] e[i]).0 != (#[trigger] e[j]).0
}

/// The channel list stored for a guild.
pub open spec fn channels_of(e: Seq<(u64, Vec<Channel>)>, g: u64) -> Option<Seq<Channel>> {
    if exists|i: int| 0 <= i < e.len() && (#[trigger] e[i]).0 == g {
        Some(e[choose|i: int| 0 <= i < e.len() && (#[trigger] e[i]).0 == g].1@)
    } else {
        None
    }
}

proof fn lemma_channels_of_at(e: Seq<(u64, Vec<Channel>)>, i: int)
    requires
        unique_guilds(e),
        0 <= i < e.len(),
    ensures
        channels_of(e, e[i].0) == Some(e[i].1@),
{
    let g = e[i].0;
    assert(exists|k: int| 0 <= k < e.len() && (#[trigger] e[k]).0 == g);
    let k = choose|k: int| 0 <= k < e.len() && (#[trigger] e[k]).0 == g;
    assert(k == i);
}

impl GuildsTreeData {
    /// No guild has two channel lists.
    pub closed spec fn wf(&self) -> bool {
        unique_guilds(self.channels_by_guild@)
    }

    /// The guilds, in order.
    pub closed spec fn spec_guilds(&self) -> Seq<Guild> {
        self.guilds@
    }

    /// The folders, in order.
    pub closed spec fn spec_folders(&self) -> Seq<GuildFolder> {
        self.folders@
    }

    /// Whether guilds are grouped in folders.
    pub closed spec fn spec_group_guilds(&self) -> bool {
        self.group_guilds
    }

    /// The channels loaded for a guild.
    pub closed spec fn spec_channels(&self, g: u64) -> Option<Seq<Channel>> {
        channels_of(self.channels_by_guild@, g)
    }

    /// The guilds whose channels are loaded, with their channels, in the order loaded.
    pub closed spec fn spec_channel_lists(&self) -> Seq<(u64, Vec<Channel>)> {
        self.channels_by_guild@
    }

    /// The direct-message users, as id and name.
    pub closed spec fn spec_dm_users(&self) -> Seq<(String, String)> {
        self.dm_users@
    }

    /// The active guild.
    pub closed spec fn spec_active_guild(&self) -> Option<u64> {
        self.active_guild_id
    }

    /// The active channel.
    pub closed spec fn spec_active_channel(&self) -> Option<u64> {
        self.active_channel_id
    }

    /// The active direct-message user.
    pub closed spec fn spec_active_dm_user(&self) -> Option<Seq<char>> {
        match &self.active_dm_user_id {
            Some(s) => Some(s@),
            None => None,
        }
    }

    /// Well-formed data holds at most one channel list per guild, and the
    /// channels loaded for a guild are those of its list.
    pub proof fn lemma_channels_of_lists(&self)
        requires
            self.wf(),
        ensures
            unique_guilds(self.spec_channel_lists()),
            forall|g: u64| #[trigger] self.spec_channels(g) == channels_of(self.spec_channel_lists(), g),
            forall|i: int| 0 <= i < self.spec_channel_lists().len()
                ==> self.spec_channels(#[trigger] self.spec_channel_lists()[i].0) == Some(self.spec_channel_lists()[i].1@),
            forall|g: u64| #[trigger] self.spec_channels(g) is Some ==> exists|i: int| 0 <= i < self.spec_channel_lists().len()
                && (#[trigger] self.spec_channel_lists()[i]).0 == g && self.spec_channels(g) == Some(self.spec_channel_lists()[i].1@),
    {
        assert forall|g: u64| #[trigger] self.spec_channels(g) is Some implies exists|i: int| 0 <= i < self.spec_channel_lists().len()
            && (#[trigger] self.spec_channel_lists()[i]).0 == g && self.spec_channels(g) == Some(self.spec_channel_lists()[i].1@) by {
            let e = self.channels_by_guild@;
            let k = choose|i: int| 0 <= i < e.len() && (#[trigger] e[i]).0 == g;
            assert(self.spec_channels(g) == Some(e[k].1@));
        }
        assert forall|i: int| 0 <= i < self.spec_channel_lists().len()
            implies self.spec_channels(#[trigger] self.spec_channel_lists()[i].0) == Some(self.spec_channel_lists()[i].1@) by {
            lemma_channels_of_at(self.channels_by_guild@, i);
        }
    }

    /// Empty data, guilds not grouped, nothing active.
    pub fn new() -> (d: GuildsTreeData)
        ensures
            d.wf(),
            d.spec_guilds().len() == 0,
            d.spec_folders().len() == 0,
            !d.spec_group_guilds(),
            d.spec_channel_lists().len() == 0,
            d.spec_dm_users().len() == 0,
            d.spec_active_guild() is None,
            d.spec_active_channel() is None,
            d.spec_active_dm_user() is None,
    {
        GuildsTreeData {
            guilds: Vec::new(),
            folders: Vec::new(),
            group_guilds: false,
            channels_by_guild: Vec::new(),
            dm_users: Vec::new(),
            active_guild_id: None,
            active_channel_id: None,
            active_dm_user_id: None,
        }
    }

    /// Replaces the guilds.
    pub fn set_guilds(&mut self, guilds: Vec<Guild>)
        ensures
            final(self).spec_guilds() == guilds@,
            final(self).spec_channel_lists() == old(self).spec_channel_lists(),
            final(self).spec_folders() == old(self).spec_folders(),
            final(self).wf() == old(self).wf(),
            final(self).spec_group_guilds() == old(self).spec_group_guilds(),
            final(self).spec_dm_users() == old(self).spec_dm_users(),
            final(self).spec_active_guild() == old(self).spec_active_guild(),
            final(self).spec_active_channel() == old(self).spec_active_channel(),
            final(self).spec_active_dm_user() == old(self).spec_active_dm_user(),
    {
        self.guilds = guilds;
    }

    /// Replaces the folders.
    pub fn set_folders(&mut self, folders: Vec<GuildFolder>)
        ensures
            final(self).spec_folders() == folders@,
            final(self).spec_guilds() == old(self).spec_guilds(),
            final(self).spec_channel_lists() == old(self).spec_channel_lists(),
            final(self).wf() == old(self).wf(),
            final(self).spec_group_guilds() == old(self).spec_group_guilds(),
            final(self).spec_dm_users() == old(self).spec_dm_users(),
            final(self).spec_active_guild() == old(self).spec_active_guild(),
            final(self).spec_active_channel() == old(self).spec_active_channel(),
            final(self).spec_active_dm_user() == old(self).spec_active_dm_user(),
    {
        self.folders = folders;
    }

    /// Sets whether guilds are grouped in folders.
    pub fn set_group_guilds(&mut self, group: bool)
        ensures
            final(self).spec_group_guilds() == group,
            final(self).spec_guilds() == old(self).spec_guilds(),
            final(self).spec_channel_lists() == old(self).spec_channel_lists(),
            final(self).wf() == old(self).wf(),
            final(self).spec_folders() == old(self).spec_folders(),
            final(self).spec_dm_users() == old(self).spec_dm_users(),
            final(self).spec_active_guild() == old(self).spec_active_guild(),
            final(self).spec_active_channel() == old(self).spec_active_channel(),
            final(self).spec_active_dm_user() == old(self).spec_active_dm_user(),
    {
        self.group_guilds = group;
    }

    /// Stores the channels of a guild, replacing those stored before.
    pub fn set_channels(&mut self, guild_id: u64, channels: Vec<Channel>)
        requires
            old(self).wf(),
        ensures
            final(self).wf(),
            final(self).spec_channels(guild_id) == Some(channels@),
            forall|g: u64| g != guild_id ==> final(self).spec_channels(g) == old(self).spec_channels(g),
            final(self).spec_guilds() == old(self).spec_guilds(),
            final(self).spec_folders() == old(self).spec_folders(),
            final(self).spec_group_guilds() == old(self).spec_group_guilds(),
            final(self).spec_dm_users() == old(self).spec_dm_users(),
            final(self).spec_active_guild() == old(self).spec_active_guild(),
            final(self).spec_active_channel() == old(self).spec_active_channel(),
            final(self).spec_active_dm_user() == old(self).spec_active_dm_user(),
    {
        let ghost old_e = self.channels_by_guild@;
        let mut i: usize = 0;
        while i < self.channels_by_guild.len() && self.channels_by_guild[i].0 != guild_id
            invariant
                i <= self.channels_by_guild@.len(),
                self.channels_by_guild@ == old_e,
                forall|j: int| 0 <= j < i ==> (#[trigger] old_e[j]).0 != guild_id,
            decreases self.channels_by_guild@.len() - i,
        {
            i = i + 1;
        }
        if i < self.channels_by_guild.len() {
            let ghost c = channels@;
            self.channels_by_guild.set(i, (guild_id, channels));
            let ghost e = self.channels_by_guild@;
            assert forall|a: int, b: int| 0 <= a < e.len() && 0 <= b < e.len() && a != b implies (#[trigger] e[a]).0 != (#[trigger] e[b]).0 by {
                assert(e[a].0 == old_e[a].0);
                assert(e[b].0 == old_e[b].0);
            }
            proof {
                lemma_channels_of_at(e, i as int);
                assert forall|g: u64| g != guild_id implies channels_of(e, g) == channels_of(old_e, g) by {
                    if exists|k: int| 0 <= k < old_e.len() && (#[trigger] old_e[k]).0 == g {
                        let k = choose|k: int| 0 <= k < old_e.len() && (#[trigger] old_e[k]).0 == g;
                        lemma_channels_of_at(old_e, k);
                        assert(e[k] == old_e[k]);
                        lemma_channels_of_at(e, k);
                    } else {
                        assert forall|k: int| 0 <= k < e.len() implies (#[trigger] e[k]).0 != g by {
                            assert(e[k].0 == old_e[k].0);
                        }
                    }
                }
            }
        } else {
            self.channels_by_guild.push((guild_id, channels));
            let ghost e = self.channels_by_guild@;
            assert forall|a: int, b: int| 0 <= a < e.len() && 0 <= b < e.len() && a != b implies (#[trigger] e[a]).0 != (#[trigger] e[b]).0 by {
                if a < old_e.len() {
                    assert(e[a] == old_e[a]);
                }
                if b < old_e.len() {
                    assert(e[b] == old_e[b]);
                }
            }
            proof {
                lemma_channels_of_at(e, old_e.len() as int);
                assert forall|g: u64| g != guild_id implies channels_of(e, g) == channels_of(old_e, g) by {
                    if exists|k: int| 0 <= k < old_e.len() && (#[trigger] old_e[k]).0 == g {
                        let k = choose|k: int| 0 <= k < old_e.len() && (#[trigger] old_e[k]).0 == g;
                        lemma_channels_of_at(old_e, k);
                        assert(e[k] == old_e[k]);
                        lemma_channels_of_at(e, k);
                    } else {
                        assert forall|k: int| 0 <= k < e.len() implies (#[trigger] e[k]).0 != g by {
                            if k < old_e.len() {
                                assert(e[k] == old_e[k]);
                            }
                        }
                    }
                }
            }
        }
    }

    /// Replaces the direct-message users (id and name).
    pub fn set_dm_users(&mut self, users: Vec<(String, String)>)
        ensures
            final(self).spec_dm_users() == users@,
            final(self).spec_guilds() == old(self).spec_guilds(),
            final(self).spec_channel_lists() == old(self).spec_channel_lists(),
            final(self).wf() == old(self).wf(),
            final(self).spec_folders() == old(self).spec_folders(),
            final(self).spec_group_guilds() == old(self).spec_group_guilds(),
            final(self).spec_active_guild() == old(self).spec_active_guild(),
            final(self).spec_active_channel() == old(self).spec_active_channel(),
            final(self).spec_active_dm_user() == old(self).spec_active_dm_user(),
    {
        self.dm_users = users;
    }

    /// The guilds.
    pub fn guilds(&self) -> (g: &Vec<Guild>)
        ensures
            g@ == self.spec_guilds(),
    {
        &self.guilds
    }

    /// The channels loaded for a guild.
    pub fn channels(&self, guild_id: u64) -> (r: Option<&Vec<Channel>>)
        requires
            self.wf(),
        ensures
            match r {
                Some(v) => self.spec_channels(guild_id) == Some(v@),
                None => self.spec_channels(guild_id) is None,
            },
    {
        let mut i: usize = 0;
        while i < self.channels_by_guild.len()
            invariant
                i <= self.channels_by_guild@.len(),
                unique_guilds(self.channels_by_guild@),
                forall|j: int| 0 <= j < i ==> (#[trigger] self.channels_by_guild@[j]).0 != guild_id,
            decreases self.channels_by_guild@.len() - i,
        {
            if self.channels_by_guild[i].0 == guild_id {
                proof {
                    lemma_channels_of_at(self.channels_by_guild@, i as int);
                }
                return Some(&self.channels_by_guild[i].1);
            }
            i = i + 1;
        }
        None
    }

    /// The direct-message users.
    pub fn dm_users(&self) -> (u: &Vec<(String, String)>)
        ensures
            u@ == self.spec_dm_users(),
    {
        &self.dm_users
    }

    /// Sets the active guild.
    pub fn set_active_guild(&mut self, guild_id: Option<u64>)
        ensures
            final(self).spec_active_guild() == guild_id,
            final(self).spec_active_channel() == old(self).spec_active_channel(),
            final(self).spec_active_dm_user() == old(self).spec_active_dm_user(),
            final(self).spec_guilds() == old(self).spec_guilds(),
            final(self).spec_channel_lists() == old(self).spec_channel_lists(),
            final(self).wf() == old(self).wf(),
            final(self).spec_folders() == old(self).spec_folders(),
            final(self).spec_group_guilds() == old(self).spec_group_guilds(),
            final(self).spec_dm_users() == old(self).spec_dm_users(),
    {
        self.active_guild_id = guild_id;
    }

    /// Sets the active channel.
    pub fn set_active_channel(&mut self, channel_id: Option<u64>)
        ensures
            final(self).spec_active_channel() == channel_id,
            final(self).spec_active_guild() == old(self).spec_active_guild(),
            final(self).spec_active_dm_user() == old(self).spec_active_dm_user(),
            final(self).spec_guilds() == old(self).spec_guilds(),
            final(self).spec_channel_lists() == old(self).spec_channel_lists(),
            final(self).wf() == old(self).wf(),
            final(self).spec_folders() == old(self).spec_folders(),
            final(self).spec_group_guilds() == old(self).spec_group_guilds(),
            final(self).spec_dm_users() == old(self).spec_dm_users(),
    {
        self.active_channel_id = channel_id;
    }

    /// Sets the active direct-message user.
    pub fn set_active_dm_user(&mut self, user_id: Option<String>)
        ensures
            final(self).spec_active_dm_user() == (match user_id {
                Some(s) => Some(s@),
                None => None,
            }),
            final(self).spec_active_guild() == old(self).spec_active_guild(),
            final(self).spec_active_channel() == old(self).spec_active_channel(),
            final(self).spec_guilds() == old(self).spec_guilds(),
            final(self).spec_channel_lists() == old(self).spec_channel_lists(),
            final(self).wf() == old(self).wf(),
            final(self).spec_folders() == old(self).spec_folders(),
            final(self).spec_group_guilds() == old(self).spec_group_guilds(),
            final(self).spec_dm_users() == old(self).spec_dm_users(),
    {
        self.active_dm_user_id = user_id;
    }

    /// The active guild.
    pub fn active_guild_id(&self) -> (g: Option<u64>)
        ensures
            g == self.spec_active_guild(),
    {
        self.active_guild_id
    }

    /// The active channel.
    pub fn active_channel_id(&self) -> (c: Option<u64>)
        ensures
            c == self.spec_active_channel(),
    {
        self.active_channel_id
    }

    /// The active direct-message user.
    pub fn active_dm_user_id(&self) -> (u: Option<&String>)
        ensures
            match u {
                Some(s) => self.spec_active_dm_user() == Some(s@),
                None => self.spec_active_dm_user() is None,
            },
    {
        match &self.active_dm_user_id {
            Some(s) => Some(s),
            None => None,
        }
    }

    /// The guild whose loaded channels include the channel: the first such
    /// guild in the order the channel lists were loaded.
    pub fn find_guild_for_channel(&self, channel_id: u64) -> (r: Option<u64>)
        ensures
            match r {
                Some(g) => exists|i: int| 0 <= i < self.spec_channel_lists().len()
                    && (#[trigger] self.spec_channel_lists()[i]).0 == g
                    && has_channel(self.spec_channel_lists()[i].1@, channel_id)
                    && forall|k: int| 0 <= k < i ==> !has_channel(#[trigger] self.spec_channel_lists()[k].1@, channel_id),
                None => forall|k: int| 0 <= k < self.spec_channel_lists().len()
                    ==> !has_channel(#[trigger] self.spec_channel_lists()[k].1@, channel_id),
            },
    {
        let mut i: usize = 0;
        while i < self.channels_by_guild.len()
            invariant
                i <= self.channels_by_guild@.len(),
                forall|k: int| 0 <= k < i ==> !has_channel(#[trigger] self.channels_by_guild@[k].1@, channel_id),
            decreases self.channels_by_guild@.len() - i,
        {
            let chans = &self.channels_by_guild[i].1;
            let mut j: usize = 0;
            while j < chans.len()
                invariant
                    j <= chans@.len(),
                    i < self.channels_by_guild@.len(),
                    *chans == self.channels_by_guild@[i as int].1,
                    forall|k: int| 0 <= k < i ==> !has_channel(#[trigger] self.channels_by_guild@[k].1@, channel_id),
                    forall|m: int| 0 <= m < j ==> (#[trigger] chans@[m]).id != channel_id,
                decreases chans@.len() - j,
            {
                if chans[j].id == channel_id {
                    assert(has_channel(self.spec_channel_lists()[i as int].1@, channel_id));
                    assert(self.spec_channel_lists()[i as int].0 == self.channels_by_guild@[i as int].0);
                    return Some(self.channels_by_guild[i].0);
                }
                j = j + 1;
            }
            assert(!has_channel(self.channels_by_guild@[i as int].1@, channel_id));
            i = i + 1;
        }
        assert(self.spec_channel_lists() == self.channels_by_guild@);
        None
    }

    /// Marks each loaded channel read or unread: unread when it has a last
    /// message and a read state for it either has read nothing or an older
    /// message; read otherwise.
    pub fn update_unread_status(&mut self, read_states: &HashMap<u64, ReadState>)
        requires
            old(self).wf(),
        ensures
            final(self).wf(),
            unread_marked(*old(self), *final(self), read_states@),
    {
        let ghost old_e = self.channels_by_guild@;
        let mut lists: Vec<(u64, Vec<Channel>)> = Vec::new();
        std::mem::swap(&mut lists, &mut self.channels_by_guild);
        let mut out: Vec<(u64, Vec<Channel>)> = Vec::new();
        let mut i: usize = 0;
        let total = lists.len();
        while lists.len() > 0
            invariant
                i + lists@.len() == old_e.len(),
                total == old_e.len(),
                lists@ == old_e.skip(i as int),
                out@.len() == i,
                forall|k: int| #![trigger out@[k]] 0 <= k < i ==> {
                    &&& out@[k].0 == old_e[k].0
                    &&& out@[k].1@.len() == old_e[k].1@.len()
                    &&& forall|j: int| 0 <= j < out@[k].1@.len() ==> #[trigger] out@[k].1@[j] == (Channel {
                        unread: spec_is_unread(old_e[k].1@[j], read_states@),
                        ..old_e[k].1@[j]
                    })
                },
            decreases lists@.len(),
        {
            let (g, chans) = lists.remove(0);
            assert(old_e[i as int] == (g, chans));
            let n = chans.len();
            let mut rest = chans;
            let mut updated: Vec<Channel> = Vec::new();
            let mut j: usize = 0;
            let ghost orig = rest@;
            while rest.len() > 0
                invariant
                    orig.len() == n,
                    j + rest@.len() == orig.len(),
                    rest@ == orig.skip(j as int),
                    updated@.len() == j,
                    forall|m: int| 0 <= m < j ==> #[trigger] updated@[m] == (Channel {
                        unread: spec_is_unread(orig[m], read_states@),
                        ..orig[m]
                    }),
                decreases rest@.len(),
            {
                let mut c = rest.remove(0);
                assert(c == orig[j as int]);
                let u = is_unread(&c, read_states);
                c.unread = u;
                updated.push(c);
                assert(rest@ =~= orig.skip(j + 1));
                j = j + 1;
            }
            out.push((g, updated));
            assert(lists@ =~= old_e.skip(i + 1));
            i = i + 1;
        }
        self.channels_by_guild = out;
        let ghost e = self.channels_by_guild@;
        assert forall|a: int, b: int| 0 <= a < e.len() && 0 <= b < e.len() && a != b implies (#[trigger] e[a]).0 != (#[trigger] e[b]).0 by {
            assert(e[a].0 == old_e[a].0);
            assert(e[b].0 == old_e[b].0);
        }
    }
}

/// Whether a list of channels holds a channel with the id.
pub open spec fn has_channel(chans: Seq<Channel>, id: u64) -> bool {
    exists|j: int| 0 <= j < chans.len() && (#[trigger] chans[j]).id == id
}

/// Whether a channel is unread: there is a read state for it and it has a
/// last message, and the read state has read nothing or an older message.
pub open spec fn spec_is_unread(c: Channel, states: Map<u64, ReadState>) -> bool {
    if states.contains_key(c.id) {
        match c.last_message_id {
            Some(last) => match states[c.id].last_read_message_id {
                Some(read) => last > read,
                None => true,
            },
            None => false,
        }
    } else {
        false
    }
}

/// `after` is `before` with each loaded channel marked read or unread by
/// the read states, and nothing else changed.
pub open spec fn unread_marked(before: GuildsTreeData, after: GuildsTreeData, states: Map<u64, ReadState>) -> bool {
    &&& after.spec_channel_lists().len() == before.spec_channel_lists().len()
    &&& forall|i: int| #![trigger after.spec_channel_lists()[i]] 0 <= i < after.spec_channel_lists().len() ==> {
        &&& after.spec_channel_lists()[i].0 == before.spec_channel_lists()[i].0
        &&& after.spec_channel_lists()[i].1@.len() == before.spec_channel_lists()[i].1@.len()
        &&& forall|j: int| 0 <= j < after.spec_channel_lists()[i].1@.len() ==> {
            let c0 = before.spec_channel_lists()[i].1@[j];
            let c1 = #[trigger] after.spec_channel_lists()[i].1@[j];
            c1 == (Channel { unread: spec_is_unread(c0, states), ..c0 })
        }
    }
    &&& after.spec_guilds() == before.spec_guilds()
    &&& after.spec_folders() == before.spec_folders()
    &&& after.spec_group_guilds() == before.spec_group_guilds()
    &&& after.spec_dm_users() == before.spec_dm_users()
    &&& after.spec_active_guild() == before.spec_active_guild()
    &&& after.spec_active_channel() == before.spec_active_channel()
    &&& after.spec_active_dm_user() == before.spec_active_dm_user()
}

/// A channel whose read state has read up to its last message is not unread.
pub proof fn lemma_read_up_to_last_is_read(c: Channel, states: Map<u64, ReadState>, rs: ReadState)
    requires
        rs.last_read_message_id == c.last_message_id,
    ensures
        !spec_is_unread(c, states.insert(c.id, rs)),
{
}

/// A channel that has a last message, with a read state that has read
/// nothing yet, is unread.
pub proof fn lemma_nothing_read_is_unread(c: Channel, states: Map<u64, ReadState>)
    requires
        states.contains_key(c.id),
        states[c.id].last_read_message_id is None,
        c.last_message_id is Some,
    ensures
        spec_is_unread(c, states),
{
}

/// A channel whose last message is newer than the last one read is unread.
pub proof fn lemma_newer_message_is_unread(c: Channel, states: Map<u64, ReadState>, read: u64)
    requires
        states.contains_key(c.id),
        states[c.id].last_read_message_id == Some(read),
        c.last_message_id matches Some(last) && last > read,
    ensures
        spec_is_unread(c, states),
{
}

/// Reading further never makes a channel unread: a channel that is unread
/// with a read state that has read up to some message was also unread with
/// one that had read less, or nothing.
pub proof fn lemma_reading_further_never_unreads(
    c: Channel,
    states: Map<u64, ReadState>,
    less: Option<u64>,
    more: u64,
)
    requires
        less matches Some(l) ==> l <= more,
        spec_is_unread(c, states.insert(c.id, ReadState { last_read_message_id: Some(more), ..states[c.id] })),
    ensures
        spec_is_unread(c, states.insert(c.id, ReadState { last_read_message_id: less, ..states[c.id] })),
{
}

/// A channel without a read state, or without any message, is not unread.
pub proof fn lemma_unread_needs_state_and_message(c: Channel, states: Map<u64, ReadState>)
    requires
        !states.contains_key(c.id) || c.last_message_id is None,
    ensures
        !spec_is_unread(c, states),
{
}

fn is_unread(c: &Channel, states: &HashMap<u64, ReadState>) -> (b: bool)
    ensures
        b == spec_is_unread(*c, states@),
{
    broadcast use vstd::std_specs::hash::group_hash_axioms;
    match states.get(&c.id) {
        Some(rs) => match c.last_message_id {
            Some(last) => match rs.last_read_message_id {
                Some(read) => last > read,
                None => true,
            },
            None => false,
        },
        None => false,
    }
}

impl Default for GuildsTreeData {
    fn default() -> (d: GuildsTreeData)
        ensures
            d.wf(),
            d.spec_guilds().len() == 0,
    {
        Self::new()
    }
}

/// The tree's state: expanded nodes, the selected node, focus, and the
/// selected row of the list.
pub struct GuildsTreeState {
    expanded: Vec<TreeNodeId>,
    selected: Option<TreeNodeId>,
    focused: bool,
    list_selected: Option<usize>,
}

/// No node occurs twice.
pub open spec fn unique_nodes(v: Seq<TreeNodeId>) -> bool {
    forall|i: int, j: int| 0 <= i < v.len() && 0 <= j < v.len() && i != j ==> node_key(#[trigger] v[i]) != node_key(
        #[trigger] v[j],
    )
}

/// The keys of a list of nodes.
pub open spec fn key_set(v: Seq<TreeNodeId>) -> Set<(int, Option<u64>, Seq<char>)> {
    Set::new(|k: (int, Option<u64>, Seq<char>)| exists|i: int| 0 <= i < v.len() && node_key(#[trigger] v[i]) == k)
}

fn position_of(v: &Vec<TreeNodeId>, n: &TreeNodeId) -> (r: Option<usize>)
    ensures
        match r {
            Some(i) => i < v@.len() && node_key(v@[i as int]) == node_key(*n),
            None => !key_set(v@).contains(node_key(*n)),
        },
{
    let mut i: usize = 0;
    while i < v.len()
        invariant
            i <= v@.len(),
            forall|j: int| 0 <= j < i ==> node_key(#[trigger] v@[j]) != node_key(*n),
        decreases v@.len() - i,
    {
        if v[i].same(n) {
            return Some(i);
        }
        i = i + 1;
    }
    None
}

impl GuildsTreeState {
    /// No node is expanded twice.
    pub closed spec fn wf(&self) -> bool {
        unique_nodes(self.expanded@)
    }

    /// The expanded nodes.
    pub closed spec fn expanded_keys(&self) -> Set<(int, Option<u64>, Seq<char>)> {
        key_set(self.expanded@)
    }

    /// The selected node.
    pub closed spec fn selected_key(&self) -> Option<(int, Option<u64>, Seq<char>)> {
        match self.selected {
            Some(n) => Some(node_key(n)),
            None => None,
        }
    }

    /// Whether the tree has focus.
    pub closed spec fn spec_focused(&self) -> bool {
        self.focused
    }

    /// The selected row of the list.
    pub closed spec fn spec_list_selected(&self) -> Option<usize> {
        self.list_selected
    }

    /// Nothing expanded, nothing selected, unfocused.
    pub fn new() -> (s: GuildsTreeState)
        ensures
            s.wf(),
            s.expanded_keys() == Set::<(int, Option<u64>, Seq<char>)>::empty(),
            s.selected_key() is None,
            !s.spec_focused(),
            s.spec_list_selected() is None,
    {
        let s = GuildsTreeState { expanded: Vec::new(), selected: None, focused: false, list_selected: None };
        assert(key_set(s.expanded@) =~= Set::<(int, Option<u64>, Seq<char>)>::empty());
        s
    }

    /// Sets focus.
    pub fn set_focused(&mut self, focused: bool)
        ensures
            final(self).spec_focused() == focused,
            final(self).expanded_keys() == old(self).expanded_keys(),
            final(self).selected_key() == old(self).selected_key(),
            final(self).wf() == old(self).wf(),
    {
        self.focused = focused;
    }

    /// Whether the tree has focus.
    pub fn is_focused(&self) -> (b: bool)
        ensures
            b == self.spec_focused(),
    {
        self.focused
    }

    /// The selected node.
    pub fn selected(&self) -> (r: Option<&TreeNodeId>)
        ensures
            match r {
                Some(n) => self.selected_key() == Some(node_key(*n)),
                None => self.selected_key() is None,
            },
    {
        match &self.selected {
            Some(n) => Some(n),
            None => None,
        }
    }

    /// The selected row of the list.
    pub fn list_selected(&self) -> (r: Option<usize>)
        ensures
            r == self.spec_list_selected(),
    {
        self.list_selected
    }

    /// Sets the selected row of the list.
    pub fn set_list_selected(&mut self, row: Option<usize>)
        ensures
            final(self).spec_list_selected() == row,
            final(self).expanded_keys() == old(self).expanded_keys(),
            final(self).selected_key() == old(self).selected_key(),
            final(self).spec_focused() == old(self).spec_focused(),
            final(self).wf() == old(self).wf(),
    {
        self.list_selected = row;
    }

    /// Selects a node.
    pub fn select(&mut self, node_id: TreeNodeId)
        ensures
            final(self).selected_key() == Some(node_key(node_id)),
            final(self).expanded_keys() == old(self).expanded_keys(),
            final(self).spec_focused() == old(self).spec_focused(),
            final(self).spec_list_selected() == old(self).spec_list_selected(),
            final(self).wf() == old(self).wf(),
    {
        self.selected = Some(node_id);
    }

    /// Expands a node.
    pub fn expand(&mut self, node_id: TreeNodeId)
        requires
            old(self).wf(),
        ensures
            final(self).wf(),
            final(self).expanded_keys() == old(self).expanded_keys().insert(node_key(node_id)),
            final(self).selected_key() == old(self).selected_key(),
            final(self).spec_focused() == old(self).spec_focused(),
            final(self).spec_list_selected() == old(self).spec_list_selected(),
    {
        let ghost before = self.expanded@;
        match position_of(&self.expanded, &node_id) {
            Some(_) => {
                assert(key_set(before).insert(node_key(node_id)) =~= key_set(before));
            },
            None => {
                self.expanded.push(node_id);
                let ghost after = self.expanded@;
                assert forall|i: int, j: int| 0 <= i < after.len() && 0 <= j < after.len() && i != j implies node_key(
                    #[trigger] after[i],
                ) != node_key(#[trigger] after[j]) by {
                    if i < before.len() && j < before.len() {
                        assert(after[i] == before[i] && after[j] == before[j]);
                    } else if i < before.len() {
                        assert(after[i] == before[i]);
                        assert(key_set(before).contains(node_key(after[i])));
                    } else if j < before.len() {
                        assert(after[j] == before[j]);
                        assert(key_set(before).contains(node_key(after[j])));
                    }
                }
                assert forall|k| key_set(after).contains(k) <==> #[trigger] key_set(before).insert(node_key(node_id)).contains(k) by {
                    if key_set(before).contains(k) {
                        let i = choose|i: int| 0 <= i < before.len() && node_key(#[trigger] before[i]) == k;
                        assert(after[i] == before[i]);
                    }
                    if key_set(after).contains(k) {
                        let i = choose|i: int| 0 <= i < after.len() && node_key(#[trigger] after[i]) == k;
                        if i < before.len() {
                            assert(after[i] == before[i]);
                        }
                    }
                    if k == node_key(node_id) {
                        assert(node_key(after[before.len() as int]) == k);
                    }
                }
                assert(key_set(after) =~= key_set(before).insert(node_key(node_id)));
            },
        }
    }

    /// Collapses a node.
    pub fn collapse(&mut self, node_id: &TreeNodeId)
        requires
            old(self).wf(),
        ensures
            final(self).wf(),
            final(self).expanded_keys() == old(self).expanded_keys().remove(node_key(*node_id)),
            final(self).selected_key() == old(self).selected_key(),
            final(self).spec_focused() == old(self).spec_focused(),
            final(self).spec_list_selected() == old(self).spec_list_selected(),
    {
        let ghost before = self.expanded@;
        match position_of(&self.expanded, node_id) {
            Some(p) => {
                self.expanded.remove(p);
                let ghost after = self.expanded@;
                assert(after =~= before.remove(p as int));
                assert forall|i: int, j: int| 0 <= i < after.len() && 0 <= j < after.len() && i != j implies node_key(
                    #[trigger] after[i],
                ) != node_key(#[trigger] after[j]) by {
                    let bi = if i < p { i } else { i + 1 };
                    let bj = if j < p { j } else { j + 1 };
                    assert(after[i] == before[bi] && after[j] == before[bj]);
                }
                assert forall|k| key_set(after).contains(k) <==> #[trigger] key_set(before).remove(node_key(*node_id)).contains(k) by {
                    if key_set(after).contains(k) {
                        let i = choose|i: int| 0 <= i < after.len() && node_key(#[trigger] after[i]) == k;
                        let bi = if i < p { i } else { i + 1 };
                        assert(after[i] == before[bi]);
                        assert(bi != p);
                    }
                    if key_set(before).remove(node_key(*node_id)).contains(k) {
                        let i = choose|i: int| 0 <= i < before.len() && node_key(#[trigger] before[i]) == k;
                        assert(i != p);
                        let ai = if i < p { i } else { i - 1 };
                        assert(after[ai] == before[i]);
                    }
                }
                assert(key_set(after) =~= key_set(before).remove(node_key(*node_id)));
            },
            None => {
                assert(key_set(before).remove(node_key(*node_id)) =~= key_set(before));
            },
        }
    }

    /// Whether a node is expanded.
    pub fn is_expanded(&self, node_id: &TreeNodeId) -> (b: bool)
        ensures
            b == self.expanded_keys().contains(node_key(*node_id)),
    {
        position_of(&self.expanded, node_id).is_some()
    }

    /// Expands the selected node if collapsed, collapses it if expanded.
    pub fn toggle_current(&mut self)
        requires
            old(self).wf(),
        ensures
            final(self).wf(),
            final(self).expanded_keys() == (match old(self).selected_key() {
                Some(k) => if old(self).expanded_keys().contains(k) {
                    old(self).expanded_keys().remove(k)
                } else {
                    old(self).expanded_keys().insert(k)
                },
                None => old(self).expanded_keys(),
            }),
            final(self).selected_key() == old(self).selected_key(),
            final(self).spec_focused() == old(self).spec_focused(),
            final(self).spec_list_selected() == old(self).spec_list_selected(),
    {
        let sel = match &self.selected {
            Some(n) => n.copy(),
            None => {
                return;
            },
        };
        if self.is_expanded(&sel) {
            self.collapse(&sel);
        } else {
            self.expand(sel);
        }
    }
}

impl Default for GuildsTreeState {
    fn default() -> (s: GuildsTreeState)
        ensures
            s.wf(),
            s.selected_key() is None,
    {
        Self::new()
    }
}

/// How a piece of a row is styled.
#[derive(Clone, Copy, Debug, PartialEq, Eq, Structural)]
pub enum SpanRole {
    TreeGuide,
    Plain,
    DirectMessage,
    DirectMessageActive,
    Folder { fg: Option<crate::theme::Color> },
    Guild,
    GuildUnread,
    GuildActive,
    Placeholder,
    Category,
    Channel,
    ChannelUnread,
    ChannelActive,
    UnreadDot,
}

/// A piece of a row's label.
#[derive(Debug)]
pub struct LabelSpan {
    pub text: String,
    pub role: SpanRole,
}

/// A row of the flattened tree: the node, its label and its depth.
#[derive(Debug)]
pub struct FlattenedNode {
    pub id: TreeNodeId,
    pub label: Vec<LabelSpan>,
    pub depth: usize,
}

/// A label as texts and roles.
pub type LabelView = Seq<(Seq<char>, SpanRole)>;

/// A row as key, label and depth.
pub type RowView = ((int, Option<u64>, Seq<char>), Seq<(Seq<char>, SpanRole)>, int);

/// The view of a label.
pub open spec fn label_view(v: Seq<LabelSpan>) -> Seq<(Seq<char>, SpanRole)> {
    v.map_values(|s: LabelSpan| (s.text@, s.role))
}

/// The view of a row.
pub open spec fn row_view(n: FlattenedNode) -> ((int, Option<u64>, Seq<char>), Seq<(Seq<char>, SpanRole)>, int) {
    (node_key(n.id), label_view(n.label@), n.depth as int)
}

/// The view of rows.
pub open spec fn rows_view(v: Seq<FlattenedNode>) -> Seq<((int, Option<u64>, Seq<char>), Seq<(Seq<char>, SpanRole)>, int)> {
    v.map_values(|n: FlattenedNode| row_view(n))
}

/// The concatenation of `f(0)`, ..., `f(n - 1)`.
pub open spec fn concat_range<T>(f: spec_fn(int) -> Seq<T>, n: int) -> Seq<T>
    decreases n,
{
    if n <= 0 {
        Seq::empty()
    } else {
        concat_range(f, n - 1) + f(n - 1)
    }
}

/// The arrow of an expandable node.
pub open spec fn arrow(expanded: bool) -> Seq<char> {
    if expanded { "\u{25be} "@ } else { "\u{25b8} "@ }
}

/// The connector of a child: the last child closes the branch.
pub open spec fn branch(is_last: bool) -> Seq<char> {
    if is_last { "\u{2514}\u{2500}\u{2500} "@ } else { "\u{251c}\u{2500}\u{2500} "@ }
}

/// The indentation under a child: a line unless it was the last.
pub open spec fn sibling_indent(is_last: bool) -> Seq<char> {
    if is_last { "    "@ } else { "\u{2502}   "@ }
}

/// A key type for rows.
pub type NodeKey = (int, Option<u64>, Seq<char>);

/// A width in columns as a `u16`, or a default when it does not fit.
pub open spec fn u16_or(n: usize, d: u16) -> u16 {
    if n <= 65535 { n as u16 } else { d }
}

/// Subtraction stopping at zero.
pub open spec fn sat_sub(a: u16, b: u16) -> u16 {
    if a >= b { (a - b) as u16 } else { 0 }
}

/// Addition stopping at the largest `u16`.
pub open spec fn sat_add(a: u16, b: u16) -> u16 {
    if a + b <= 65535 { (a + b) as u16 } else { 65535 }
}

/// `n` spaces.
pub open spec fn spaces(n: nat) -> Seq<char> {
    Seq::new(n, |i: int| ' ')
}

/// The longest prefix of `s` that fits in `max` columns after `used`
/// columns, a character of unknown width counting as none.
pub open spec fn truncate_width(s: Seq<char>, used: nat, max: nat) -> Seq<char>
    decreases s.len(),
{
    if s.len() == 0 {
        s
    } else {
        let cw: nat = match char_width(s[0]) {
            Some(x) => x as nat,
            None => 0,
        };
        if used + cw > max {
            Seq::empty()
        } else {
            seq![s[0]] + truncate_width(s.drop_first(), used + cw, max)
        }
    }
}

/// The style of a guild's name: active, unread, or plain.
pub open spec fn guild_role(active: Option<u64>, g: Guild) -> SpanRole {
    if active == Some(g.id) {
        SpanRole::GuildActive
    } else if g.unread {
        SpanRole::GuildUnread
    } else {
        SpanRole::Guild
    }
}

/// The style of a channel's name: active, unread, or plain.
pub open spec fn channel_role(active: Option<u64>, c: Channel) -> SpanRole {
    if active == Some(c.id) {
        SpanRole::ChannelActive
    } else if c.unread {
        SpanRole::ChannelUnread
    } else {
        SpanRole::Channel
    }
}

/// The row of a channel in a tree `width` columns wide, after the two
/// indentations and the branch `prefix`; none for kinds the tree does not
/// list. The name is cut to the columns left by the prefix, the icon and
/// the unread dot; an unread channel gets padding and a dot at the right.
pub open spec fn channel_row(
    active: Option<u64>,
    ch: Channel,
    depth: int,
    prefix: Seq<char>,
    width: u16,
    b1: Seq<char>,
    b2: Seq<char>,
) -> Option<RowView> {
    if !ch.kind.spec_is_listed() {
        None
    } else {
        let role = channel_role(active, ch);
        let icon = ch.kind.spec_prefix();
        let icon_w = u16_or(str_width(icon), 0);
        let prefix_w = u16_or(str_width(prefix), 65535);
        let max_name_w = sat_sub(sat_sub(sat_sub(sat_sub(width, prefix_w), icon_w), 1), 1);
        let name0 = spec_clean_text(ch.name@);
        let name_w = u16_or(str_width(name0), 65535);
        let name = if name_w > max_name_w { truncate_width(name0, 0, max_name_w as nat) } else { name0 };
        let dot: Seq<(Seq<char>, SpanRole)> = if ch.unread {
            let used = sat_add(sat_add(sat_add(sat_add(u16_or(str_width(b1), 0), u16_or(str_width(b2), 0)), prefix_w), icon_w), u16_or(str_width(name), 0));
            let avail = sat_sub(sat_sub(width, 1), 1);
            let pad = sat_sub(avail, used);
            (if pad > 0 { seq![(spaces(pad as nat), SpanRole::Plain)] } else { seq![(" "@, SpanRole::Plain)] })
                + seq![("\u{2981}"@, SpanRole::UnreadDot)]
        } else {
            Seq::empty()
        };
        Some((
            channel_key(ch.id),
            seq![
                (b1, SpanRole::TreeGuide),
                (b2, SpanRole::TreeGuide),
                (prefix, SpanRole::TreeGuide),
                (icon, role),
                (name, role),
            ] + dot,
            depth,
        ))
    }
}

/// The row of an optional row.
pub open spec fn opt_rows(r: Option<RowView>) -> Seq<RowView> {
    match r {
        Some(x) => seq![x],
        None => Seq::empty(),
    }
}

/// Which channels of a list a part of the tree shows.
#[derive(Clone, Copy, Debug, PartialEq, Eq, Structural)]
pub enum ChannelGroup {
    Categories,
    Uncategorized,
    InCategory(u64),
}

/// Whether a channel belongs to a group: the categories; the channels in no
/// category; the channels of one category.
pub open spec fn in_group(g: ChannelGroup, c: Channel) -> bool {
    match g {
        ChannelGroup::Categories => c.kind.spec_is_category(),
        ChannelGroup::Uncategorized => !c.kind.spec_is_category() && c.parent_id is None,
        ChannelGroup::InCategory(cat) => !c.kind.spec_is_category() && c.parent_id == Some(cat),
    }
}

/// The indices `0`, ..., `n - 1`.
pub open spec fn index_seq(n: nat) -> Seq<usize> {
    Seq::new(n, |i: int| i as usize)
}

/// Whether the channel at an index belongs to a group.
pub open spec fn group_pred(chs: Seq<Channel>, g: ChannelGroup) -> spec_fn(usize) -> bool {
    |i: usize| in_group(g, chs[i as int])
}

/// The indices of the first `n` channels that belong to a group, in list order.
pub open spec fn group_indices_upto(chs: Seq<Channel>, g: ChannelGroup, n: nat) -> Seq<usize> {
    index_seq(n).filter(group_pred(chs, g))
}

/// Lower positions first.
pub open spec fn by_position(chs: Seq<Channel>) -> spec_fn(usize, usize) -> bool {
    |a: usize, b: usize| chs[a as int].position <= chs[b as int].position
}

/// The indices of the channels of a group, by position, ties in list order.
pub open spec fn group_sorted(chs: Seq<Channel>, g: ChannelGroup) -> Seq<usize> {
    stable_sort(group_indices_upto(chs, g, chs.len()), by_position(chs))
}

/// The rows of the channels of an expanded category.
pub open spec fn child_rows_fn(
    active: Option<u64>,
    chs: Seq<Channel>,
    kids: Seq<usize>,
    last_cat: bool,
    width: u16,
    b1: Seq<char>,
    b2: Seq<char>,
) -> spec_fn(int) -> Seq<RowView> {
    |j: int| opt_rows(channel_row(active, chs[kids[j] as int], 2, sibling_indent(last_cat) + branch(j == kids.len() - 1), width, b1, b2))
}

/// The rows of a category and, when it is expanded, of its channels.
pub open spec fn category_rows(
    active: Option<u64>,
    ex: Set<NodeKey>,
    chs: Seq<Channel>,
    cats: Seq<usize>,
    i: int,
    width: u16,
    b1: Seq<char>,
    b2: Seq<char>,
) -> Seq<RowView> {
    let cat = chs[cats[i] as int];
    let last = i == cats.len() - 1;
    let exp = ex.contains(category_key(cat.id));
    let kids = group_sorted(chs, ChannelGroup::InCategory(cat.id));
    seq![(
        category_key(cat.id),
        seq![
            (b1, SpanRole::TreeGuide),
            (b2, SpanRole::TreeGuide),
            (branch(last), SpanRole::TreeGuide),
            (arrow(exp), SpanRole::TreeGuide),
            (uppercase(spec_clean_text(cat.name@)), SpanRole::Category),
        ],
        1int,
    )] + if exp {
        concat_range(child_rows_fn(active, chs, kids, last, width, b1, b2), kids.len() as int)
    } else {
        Seq::empty()
    }
}

/// The rows of the channels in no category.
pub open spec fn orphan_rows_fn(
    active: Option<u64>,
    chs: Seq<Channel>,
    orphans: Seq<usize>,
    no_cats: bool,
    width: u16,
    b1: Seq<char>,
    b2: Seq<char>,
) -> spec_fn(int) -> Seq<RowView> {
    |i: int| opt_rows(channel_row(active, chs[orphans[i] as int], 1, branch(i == orphans.len() - 1 && no_cats), width, b1, b2))
}

/// The rows of each category.
pub open spec fn category_rows_fn(
    active: Option<u64>,
    ex: Set<NodeKey>,
    chs: Seq<Channel>,
    cats: Seq<usize>,
    width: u16,
    b1: Seq<char>,
    b2: Seq<char>,
) -> spec_fn(int) -> Seq<RowView> {
    |i: int| category_rows(active, ex, chs, cats, i, width, b1, b2)
}

/// The rows of a guild's channels: channels in no category first, then
/// each category with its channels, all by position.
pub open spec fn channel_rows(
    active: Option<u64>,
    ex: Set<NodeKey>,
    chs: Seq<Channel>,
    width: u16,
    b1: Seq<char>,
    b2: Seq<char>,
) -> Seq<RowView> {
    let cats = group_sorted(chs, ChannelGroup::Categories);
    let orphans = group_sorted(chs, ChannelGroup::Uncategorized);
    concat_range(orphan_rows_fn(active, chs, orphans, cats.len() == 0, width, b1, b2), orphans.len() as int)
        + concat_range(category_rows_fn(active, ex, chs, cats, width, b1, b2), cats.len() as int)
}

/// The placeholder row of a guild whose channels are loading.
pub open spec fn placeholder_row(g: u64, b1: Seq<char>, b2: Option<Seq<char>>) -> RowView {
    (
        placeholder_key(g),
        match b2 {
            Some(b) => seq![
                (b1, SpanRole::TreeGuide),
                (b, SpanRole::TreeGuide),
                (branch(true), SpanRole::TreeGuide),
                ("Loading..."@, SpanRole::Placeholder),
            ],
            None => seq![
                (b1, SpanRole::TreeGuide),
                (branch(true), SpanRole::TreeGuide),
                ("Loading..."@, SpanRole::Placeholder),
            ],
        },
        1,
    )
}

impl GuildsTreeData {
    /// The rows under an expanded guild: its channels, or a placeholder while
    /// they load. `b2` is the second indentation of a guild in a folder.
    pub closed spec fn guild_children(&self, ex: Set<NodeKey>, g: Guild, width: u16, b1: Seq<char>, b2: Option<Seq<char>>) -> Seq<RowView> {
        match self.spec_channels(g.id) {
            Some(chs) => channel_rows(self.active_channel_id, ex, chs, width, b1, match b2 {
                Some(b) => b,
                None => Seq::empty(),
            }),
            None => seq![placeholder_row(g.id, b1, b2)],
        }
    }

    /// The rows of a guild at the top level.
    pub closed spec fn guild_rows(&self, ex: Set<NodeKey>, g: Guild, width: u16) -> Seq<RowView> {
        let exp = ex.contains(guild_key(g.id));
        seq![(
            guild_key(g.id),
            seq![(arrow(exp), SpanRole::TreeGuide), (spec_clean_text(g.name@), guild_role(self.active_guild_id, g))],
            0int,
        )] + if exp { self.guild_children(ex, g, width, Seq::empty(), None) } else { Seq::empty() }
    }

    /// The rows of a guild inside a folder.
    pub closed spec fn nested_guild_rows(&self, ex: Set<NodeKey>, g: Guild, width: u16, connector: Seq<char>, b2: Seq<char>) -> Seq<RowView> {
        let exp = ex.contains(guild_key(g.id));
        seq![(
            guild_key(g.id),
            seq![
                (Seq::<char>::empty(), SpanRole::TreeGuide),
                (connector, SpanRole::TreeGuide),
                (arrow(exp), SpanRole::TreeGuide),
                (spec_clean_text(g.name@), guild_role(self.active_guild_id, g)),
            ],
            0int,
        )] + if exp { self.guild_children(ex, g, width, Seq::empty(), Some(b2)) } else { Seq::empty() }
    }

    /// The first guild with an id.
    pub closed spec fn guild_with_id(&self, id: u64) -> Option<Guild> {
        if exists|k: int| 0 <= k < self.guilds@.len() && (#[trigger] self.guilds@[k]).id == id {
            Some(self.guilds@[choose|k: int| 0 <= k < self.guilds@.len() && (#[trigger] self.guilds@[k]).id == id
                && forall|m: int| 0 <= m < k ==> (#[trigger] self.guilds@[m]).id != id])
        } else {
            None
        }
    }

    /// The rows of the `i`-th guild of a folder, if the guild is known.
    pub closed spec fn folder_guild_rows(&self, ex: Set<NodeKey>, f: GuildFolder, i: int, width: u16) -> Seq<RowView> {
        match self.guild_with_id(f.guild_ids@[i]) {
            Some(g) => {
                let last = i == f.guild_ids@.len() - 1;
                self.nested_guild_rows(ex, g, width, branch(last), sibling_indent(last))
            },
            None => Seq::empty(),
        }
    }

    /// The color of a folder, if it has one.
    pub open spec fn folder_fg(f: GuildFolder) -> Option<crate::theme::Color> {
        match f.color {
            Some(c) => Some(crate::theme::Color::Rgb(((c >> 16u32) & 0xffu32) as u8, ((c >> 8u32) & 0xffu32) as u8, (c & 0xffu32) as u8)),
            None => None,
        }
    }

    /// The rows of a folder and, when expanded, of its guilds.
    pub closed spec fn folder_rows(&self, ex: Set<NodeKey>, f: GuildFolder, width: u16) -> Seq<RowView> {
        let exp = ex.contains(folder_key(f.id));
        let role = SpanRole::Folder { fg: Self::folder_fg(f) };
        let name = match f.name {
            Some(n) => n@,
            None => "Folder"@,
        };
        seq![(
            folder_key(f.id),
            seq![(arrow(exp), SpanRole::TreeGuide), ("\u{e5ff} "@, role), (name, role)],
            0int,
        )] + if exp {
            concat_range(self.folder_guilds_fn(ex, f, width), f.guild_ids@.len() as int)
        } else {
            Seq::empty()
        }
    }

    /// The rows of each guild of a folder.
    pub closed spec fn folder_guilds_fn(&self, ex: Set<NodeKey>, f: GuildFolder, width: u16) -> spec_fn(int) -> Seq<RowView> {
        |i: int| self.folder_guild_rows(ex, f, i, width)
    }

    /// The row of the `i`-th direct-message user.
    pub closed spec fn dm_user_row(&self, i: int) -> RowView {
        let (id, name) = self.dm_users@[i];
        let role = if self.spec_active_dm_user() == Some(id@) {
            SpanRole::DirectMessageActive
        } else {
            SpanRole::DirectMessage
        };
        (
            dm_user_key(id@),
            seq![
                (Seq::<char>::empty(), SpanRole::TreeGuide),
                (branch(i == self.dm_users@.len() - 1), SpanRole::TreeGuide),
                ("@ "@, role),
                (spec_clean_text(name@), role),
            ],
            1,
        )
    }

    /// The direct-messages row and, when expanded, a row per user.
    pub closed spec fn dm_rows(&self, ex: Set<NodeKey>) -> Seq<RowView> {
        let exp = ex.contains(dm_key());
        seq![(dm_key(), seq![(arrow(exp), SpanRole::TreeGuide), ("Direct Messages"@, SpanRole::Plain)], 0int)]
            + if exp { Seq::new(self.dm_users@.len(), |i: int| self.dm_user_row(i)) } else { Seq::empty() }
    }

    /// Whether a guild is in some folder.
    pub closed spec fn in_some_folder(&self, id: u64) -> bool {
        exists|i: int, j: int| 0 <= i < self.folders@.len() && 0 <= j < self.folders@[i].guild_ids@.len()
            && #[trigger] self.folders@[i].guild_ids@[j] == id
    }

    /// The rows of the tree with the given nodes expanded: direct messages
    /// first; then, when grouping, each folder and then the guilds in no
    /// folder; otherwise every guild.
    pub closed spec fn spec_flatten(&self, ex: Set<NodeKey>, width: u16) -> Seq<RowView> {
        self.dm_rows(ex) + if self.group_guilds {
            concat_range(self.folders_fn(ex, width), self.folders@.len() as int)
                + concat_range(self.loose_guilds_fn(ex, width), self.guilds@.len() as int)
        } else {
            concat_range(self.guilds_fn(ex, width), self.guilds@.len() as int)
        }
    }

    /// The rows of each folder.
    pub closed spec fn folders_fn(&self, ex: Set<NodeKey>, width: u16) -> spec_fn(int) -> Seq<RowView> {
        |i: int| self.folder_rows(ex, self.folders@[i], width)
    }

    /// The rows of each guild in no folder; none for a guild in a folder.
    pub closed spec fn loose_guilds_fn(&self, ex: Set<NodeKey>, width: u16) -> spec_fn(int) -> Seq<RowView> {
        |i: int| if self.in_some_folder(self.guilds@[i].id) {
            Seq::empty()
        } else {
            self.guild_rows(ex, self.guilds@[i], width)
        }
    }

    /// The rows of each guild.
    pub closed spec fn guilds_fn(&self, ex: Set<NodeKey>, width: u16) -> spec_fn(int) -> Seq<RowView> {
        |i: int| self.guild_rows(ex, self.guilds@[i], width)
    }
}

fn to_u16_or(n: usize, d: u16) -> (r: u16)
    ensures
        r == u16_or(n, d),
{
    if n <= 65535 {
        n as u16
    } else {
        d
    }
}

fn u16_sat_sub(a: u16, b: u16) -> (r: u16)
    ensures
        r == sat_sub(a, b),
{
    if a >= b {
        a - b
    } else {
        0
    }
}

fn u16_sat_add(a: u16, b: u16) -> (r: u16)
    ensures
        r == sat_add(a, b),
{
    if a as u32 + b as u32 <= 65535 {
        a + b
    } else {
        65535
    }
}

fn width_of(v: &Vec<char>) -> (w: usize)
    ensures
        w == str_width(v@),
{
    let s = from_chars(v);
    str_width_exec(s.as_str())
}

fn make_span(text: &Vec<char>, role: SpanRole) -> (s: LabelSpan)
    ensures
        s.text@ == text@,
        s.role == role,
{
    LabelSpan { text: from_chars(text), role }
}

fn str_span(text: &str, role: SpanRole) -> (s: LabelSpan)
    ensures
        s.text@ == text@,
        s.role == role,
{
    LabelSpan { text: copy_str(text), role }
}

fn truncate_to_width(s: &Vec<char>, max: u16) -> (r: Vec<char>)
    ensures
        r@ == truncate_width(s@, 0, max as nat),
{
    let mut r: Vec<char> = Vec::new();
    let mut w: usize = 0;
    let mut i: usize = 0;
    assert(s@.skip(0) =~= s@);
    while i < s.len()
        invariant
            i <= s@.len(),
            w <= max,
            truncate_width(s@, 0, max as nat) == r@ + truncate_width(s@.skip(i as int), w as nat, max as nat),
        decreases s@.len() - i,
    {
        let c = s[i];
        let cw: usize = match char_width_exec(c) {
            Some(x) => x,
            None => 0,
        };
        assert(s@.skip(i as int)[0] == c);
        if cw > (max as usize) - w {
            assert(truncate_width(s@.skip(i as int), w as nat, max as nat) =~= Seq::<char>::empty());
            assert(r@ + Seq::<char>::empty() =~= r@);
            return r;
        }
        let ghost before = r@;
        r.push(c);
        assert(s@.skip(i as int).drop_first() =~= s@.skip(i + 1));
        assert(before + (seq![c] + truncate_width(s@.skip(i + 1), (w + cw) as nat, max as nat)) =~= r@
            + truncate_width(s@.skip(i + 1), (w + cw) as nat, max as nat));
        w = w + cw;
        i = i + 1;
    }
    assert(s@.skip(i as int) =~= Seq::<char>::empty());
    assert(r@ + Seq::<char>::empty() =~= r@);
    r
}

fn spaces_exec(n: u16) -> (v: Vec<char>)
    ensures
        v@ == spaces(n as nat),
{
    let mut v: Vec<char> = Vec::new();
    let mut i: u16 = 0;
    while i < n
        invariant
            i <= n,
            v@ == spaces(i as nat),
        decreases n - i,
    {
        v.push(' ');
        assert(v@ =~= spaces((i + 1) as nat));
        i = i + 1;
    }
    v
}

impl GuildsTreeData {
    /// The row of a channel, if the tree lists it.
    fn create_channel_node(
        &self,
        ch: &Channel,
        depth: usize,
        prefix: &Vec<char>,
        width: u16,
        b1: &Vec<char>,
        b2: &Vec<char>,
    ) -> (r: Option<FlattenedNode>)
        ensures
            match r {
                Some(n) => channel_row(self.spec_active_channel(), *ch, depth as int, prefix@, width, b1@, b2@) == Some(row_view(n)),
                None => channel_row(self.spec_active_channel(), *ch, depth as int, prefix@, width, b1@, b2@) is None,
            },
    {
        if !ch.kind.is_text_based() && !ch.kind.is_voice() && ch.kind != ChannelKind::Forum {
            return None;
        }
        let role = if self.active_channel_id == Some(ch.id) {
            SpanRole::ChannelActive
        } else if ch.unread {
            SpanRole::ChannelUnread
        } else {
            SpanRole::Channel
        };
        let icon = to_chars(ch.kind.prefix());
        let icon_w = to_u16_or(width_of(&icon), 0);
        let prefix_w = to_u16_or(width_of(prefix), 65535);
        let max_name_w = u16_sat_sub(u16_sat_sub(u16_sat_sub(u16_sat_sub(width, prefix_w), icon_w), 1), 1);
        let name0 = to_chars(crate::utils::clean_text(ch.name.as_str()).as_str());
        let name_w = to_u16_or(width_of(&name0), 65535);
        let name = if name_w > max_name_w { truncate_to_width(&name0, max_name_w) } else { name0 };
        let mut label: Vec<LabelSpan> = Vec::new();
        label.push(make_span(b1, SpanRole::TreeGuide));
        label.push(make_span(b2, SpanRole::TreeGuide));
        label.push(make_span(prefix, SpanRole::TreeGuide));
        label.push(make_span(&icon, role));
        label.push(make_span(&name, role));
        let ghost base = seq![
            (b1@, SpanRole::TreeGuide),
            (b2@, SpanRole::TreeGuide),
            (prefix@, SpanRole::TreeGuide),
            (icon@, role),
            (name@, role),
        ];
        assert(label_view(label@) =~= base);
        if ch.unread {
            let used = u16_sat_add(
                u16_sat_add(u16_sat_add(u16_sat_add(to_u16_or(width_of(b1), 0), to_u16_or(width_of(b2), 0)), prefix_w), icon_w),
                to_u16_or(width_of(&name), 0),
            );
            let avail = u16_sat_sub(u16_sat_sub(width, 1), 1);
            let pad = u16_sat_sub(avail, used);
            if pad > 0 {
                label.push(make_span(&spaces_exec(pad), SpanRole::Plain));
            } else {
                label.push(str_span(" ", SpanRole::Plain));
            }
            label.push(str_span("\u{2981}", SpanRole::UnreadDot));
            let ghost dot = (if pad > 0 { seq![(spaces(pad as nat), SpanRole::Plain)] } else { seq![(" "@, SpanRole::Plain)] })
                + seq![("\u{2981}"@, SpanRole::UnreadDot)];
            assert(label_view(label@) =~= base + dot);
        } else {
            assert(base + Seq::<(Seq<char>, SpanRole)>::empty() =~= base);
        }
        Some(FlattenedNode { id: TreeNodeId::Channel(ch.id), label, depth })
    }
}


fn in_group_exec(g: ChannelGroup, c: &Channel) -> (b: bool)
    ensures
        b == in_group(g, *c),
{
    match g {
        ChannelGroup::Categories => c.kind.is_category(),
        ChannelGroup::Uncategorized => !c.kind.is_category() && c.parent_id.is_none(),
        ChannelGroup::InCategory(cat) => {
            if c.kind.is_category() {
                false
            } else {
                match c.parent_id {
                    Some(p) => p == cat,
                    None => false,
                }
            }
        },
    }
}

/// The indices of the channels of a group, in list order.
fn group_indices(chs: &Vec<Channel>, g: ChannelGroup) -> (r: Vec<usize>)
    ensures
        r@ == group_indices_upto(chs@, g, chs@.len()),
        forall|j: int| 0 <= j < r@.len() ==> (#[trigger] r@[j]) < chs@.len(),
{
    let mut out: Vec<usize> = Vec::new();
    let mut n: usize = 0;
    proof {
        reveal(Seq::filter);
        assert(index_seq(0) =~= Seq::<usize>::empty());
    }
    while n < chs.len()
        invariant
            n <= chs@.len(),
            out@ == group_indices_upto(chs@, g, n as nat),
            forall|j: int| 0 <= j < out@.len() ==> (#[trigger] out@[j]) < n,
        decreases chs@.len() - n,
    {
        proof {
            reveal(Seq::filter);
            assert(index_seq((n + 1) as nat).drop_last() =~= index_seq(n as nat));
            assert(index_seq((n + 1) as nat).last() == n);
        }
        if in_group_exec(g, &chs[n]) {
            out.push(n);
        }
        n = n + 1;
    }
    out
}

/// Channel indices sorted by the channels' positions, ties in the given order.
fn sort_by_position(idx: Vec<usize>, chs: &Vec<Channel>) -> (r: Vec<usize>)
    requires
        forall|j: int| 0 <= j < idx@.len() ==> (#[trigger] idx@[j]) < chs@.len(),
    ensures
        r@ == stable_sort(idx@, by_position(chs@)),
        forall|j: int| 0 <= j < r@.len() ==> (#[trigger] r@[j]) < chs@.len(),
{
    let ghost le = by_position(chs@);
    let ghost s = idx@;
    let total = idx.len();
    let mut rest = idx;
    let mut out: Vec<usize> = Vec::new();
    let mut n: usize = 0;
    assert(s.take(0) =~= Seq::<usize>::empty());
    while rest.len() > 0
        invariant
            s.len() == total,
            le == by_position(chs@),
            forall|j: int| 0 <= j < s.len() ==> (#[trigger] s[j]) < chs@.len(),
            n + rest@.len() == s.len(),
            rest@ == s.skip(n as int),
            out@ == stable_sort(s.take(n as int), le),
            forall|j: int| 0 <= j < out@.len() ==> (#[trigger] out@[j]) < chs@.len(),
        decreases rest@.len(),
    {
        let x = rest.remove(0);
        assert(x == s[n as int]);
        let mut k: usize = 0;
        assert(out@.skip(0) =~= out@);
        while k < out.len() && chs[out[k]].position <= chs[x].position
            invariant
                k <= out@.len(),
                x < chs@.len(),
                forall|j: int| 0 <= j < out@.len() ==> (#[trigger] out@[j]) < chs@.len(),
                le == by_position(chs@),
                insert_pos(out@, x, le) == k + insert_pos(out@.skip(k as int), x, le),
            decreases out@.len() - k,
        {
            assert(out@.skip(k as int)[0] == out@[k as int]);
            assert(le(out@[k as int], x));
            assert(out@.skip(k as int).drop_first() =~= out@.skip(k + 1));
            k = k + 1;
        }
        proof {
            if k < out@.len() {
                assert(out@.skip(k as int)[0] == out@[k as int]);
            }
            assert(s.take(n + 1).drop_last() =~= s.take(n as int));
            assert(s.take(n + 1).last() == x);
            assert(rest@ =~= s.skip(n + 1));
        }
        let ghost before = out@;
        out.insert(k, x);
        assert forall|j: int| 0 <= j < out@.len() implies (#[trigger] out@[j]) < chs@.len() by {
            if j < k {
                assert(out@[j] == before[j]);
            } else if j > k {
                assert(out@[j] == before[j - 1]);
            }
        }
        n = n + 1;
    }
    assert(s.take(n as int) =~= s);
    out
}

/// The indices of the channels of a group, by position.
fn group_sorted_exec(chs: &Vec<Channel>, g: ChannelGroup) -> (r: Vec<usize>)
    ensures
        r@ == group_sorted(chs@, g),
        forall|j: int| 0 <= j < r@.len() ==> (#[trigger] r@[j]) < chs@.len(),
{
    sort_by_position(group_indices(chs, g), chs)
}

fn arrow_exec(expanded: bool) -> (v: Vec<char>)
    ensures
        v@ == arrow(expanded),
{
    if expanded {
        to_chars("\u{25be} ")
    } else {
        to_chars("\u{25b8} ")
    }
}

fn branch_exec(is_last: bool) -> (v: Vec<char>)
    ensures
        v@ == branch(is_last),
{
    if is_last {
        to_chars("\u{2514}\u{2500}\u{2500} ")
    } else {
        to_chars("\u{251c}\u{2500}\u{2500} ")
    }
}

fn sibling_indent_exec(is_last: bool) -> (v: Vec<char>)
    ensures
        v@ == sibling_indent(is_last),
{
    if is_last {
        to_chars("    ")
    } else {
        to_chars("\u{2502}   ")
    }
}

proof fn lemma_rows_view_push(v: Seq<FlattenedNode>, n: FlattenedNode)
    ensures
        rows_view(v.push(n)) == rows_view(v) + seq![row_view(n)],
{
    assert(rows_view(v.push(n)) =~= rows_view(v) + seq![row_view(n)]);
}

proof fn lemma_concat_step(start: Seq<RowView>, f: spec_fn(int) -> Seq<RowView>, k: int)
    requires
        k >= 0,
    ensures
        start + concat_range(f, k + 1) == (start + concat_range(f, k)) + f(k),
{
    assert(concat_range(f, k + 1) == concat_range(f, k) + f(k));
    assert(start + (concat_range(f, k) + f(k)) =~= (start + concat_range(f, k)) + f(k));
}

fn push_row(out: &mut Vec<FlattenedNode>, n: FlattenedNode)
    ensures
        rows_view(final(out)@) == rows_view(old(out)@) + seq![row_view(n)],
{
    let ghost before = out@;
    out.push(n);
    proof {
        lemma_rows_view_push(before, n);
    }
}

impl GuildsTreeData {
    /// Appends the rows of the channels of an expanded category.
    fn push_category_children(
        &self,
        out: &mut Vec<FlattenedNode>,
        chs: &Vec<Channel>,
        kids: &Vec<usize>,
        last_cat: bool,
        width: u16,
        b1: &Vec<char>,
        b2: &Vec<char>,
    )
        requires
            forall|j: int| 0 <= j < kids@.len() ==> (#[trigger] kids@[j]) < chs@.len(),
        ensures
            rows_view(final(out)@) == rows_view(old(out)@) + concat_range(
                child_rows_fn(self.spec_active_channel(), chs@, kids@, last_cat, width, b1@, b2@),
                kids@.len() as int,
            ),
    {
        let ghost f = child_rows_fn(self.spec_active_channel(), chs@, kids@, last_cat, width, b1@, b2@);
        let ghost start = rows_view(out@);
        let mut j: usize = 0;
        while j < kids.len()
            invariant
                j <= kids@.len(),
                forall|m: int| 0 <= m < kids@.len() ==> (#[trigger] kids@[m]) < chs@.len(),
                f == child_rows_fn(self.spec_active_channel(), chs@, kids@, last_cat, width, b1@, b2@),
                rows_view(out@) == start + concat_range(f, j as int),
            decreases kids@.len() - j,
        {
            let mut prefix = sibling_indent_exec(last_cat);
            let br = branch_exec(j + 1 == kids.len());
            append_chars(&mut prefix, &br);
            proof {
                lemma_concat_step(start, f, j as int);
            }
            match self.create_channel_node(&chs[kids[j]], 2, &prefix, width, b1, b2) {
                Some(node) => push_row(out, node),
                None => {
                    assert(rows_view(out@) + Seq::<RowView>::empty() =~= rows_view(out@));
                },
            }
            j = j + 1;
        }
    }

    /// Appends the rows of a category and, when expanded, of its channels.
    fn push_category_rows(
        &self,
        out: &mut Vec<FlattenedNode>,
        state: &GuildsTreeState,
        chs: &Vec<Channel>,
        cats: &Vec<usize>,
        i: usize,
        width: u16,
        b1: &Vec<char>,
        b2: &Vec<char>,
    )
        requires
            i < cats@.len(),
            forall|j: int| 0 <= j < cats@.len() ==> (#[trigger] cats@[j]) < chs@.len(),
        ensures
            rows_view(final(out)@) == rows_view(old(out)@) + category_rows(
                self.spec_active_channel(),
                state.expanded_keys(),
                chs@,
                cats@,
                i as int,
                width,
                b1@,
                b2@,
            ),
    {
        let cat = &chs[cats[i]];
        let last = i == cats.len() - 1;
        let exp = state.is_expanded(&TreeNodeId::Category(cat.id));
        let mut label: Vec<LabelSpan> = Vec::new();
        label.push(make_span(b1, SpanRole::TreeGuide));
        label.push(make_span(b2, SpanRole::TreeGuide));
        label.push(make_span(&branch_exec(last), SpanRole::TreeGuide));
        label.push(make_span(&arrow_exec(exp), SpanRole::TreeGuide));
        let cleaned = crate::utils::clean_text(cat.name.as_str());
        label.push(LabelSpan { text: crate::text::to_uppercase(cleaned.as_str()), role: SpanRole::Category });
        let ghost head = seq![
            (b1@, SpanRole::TreeGuide),
            (b2@, SpanRole::TreeGuide),
            (branch(last), SpanRole::TreeGuide),
            (arrow(exp), SpanRole::TreeGuide),
            (uppercase(spec_clean_text(cat.name@)), SpanRole::Category),
        ];
        assert(label_view(label@) =~= head);
        push_row(out, FlattenedNode { id: TreeNodeId::Category(cat.id), label, depth: 1 });
        if exp {
            let kids = group_sorted_exec(chs, ChannelGroup::InCategory(cat.id));
            let ghost mid = rows_view(out@);
            self.push_category_children(out, chs, &kids, last, width, b1, b2);
            assert(rows_view(out@) =~= rows_view(old(out)@) + category_rows(
                self.spec_active_channel(),
                state.expanded_keys(),
                chs@,
                cats@,
                i as int,
                width,
                b1@,
                b2@,
            ));
        } else {
            assert(rows_view(out@) =~= rows_view(old(out)@) + category_rows(
                self.spec_active_channel(),
                state.expanded_keys(),
                chs@,
                cats@,
                i as int,
                width,
                b1@,
                b2@,
            ));
        }
    }

    /// Appends the rows of a guild's channels.
    fn push_channel_rows(
        &self,
        out: &mut Vec<FlattenedNode>,
        state: &GuildsTreeState,
        chs: &Vec<Channel>,
        width: u16,
        b1: &Vec<char>,
        b2: &Vec<char>,
    )
        ensures
            rows_view(final(out)@) == rows_view(old(out)@) + channel_rows(
                self.spec_active_channel(),
                state.expanded_keys(),
                chs@,
                width,
                b1@,
                b2@,
            ),
    {
        let ghost active = self.spec_active_channel();
        let ghost ex = state.expanded_keys();
        let ghost start = rows_view(out@);
        let cats = group_sorted_exec(chs, ChannelGroup::Categories);
        let orphans = group_sorted_exec(chs, ChannelGroup::Uncategorized);
        let ghost of = orphan_rows_fn(active, chs@, orphans@, cats@.len() == 0, width, b1@, b2@);
        let ghost cf = category_rows_fn(active, ex, chs@, cats@, width, b1@, b2@);
        let mut i: usize = 0;
        while i < orphans.len()
            invariant
                i <= orphans@.len(),
                forall|j: int| 0 <= j < orphans@.len() ==> (#[trigger] orphans@[j]) < chs@.len(),
                active == self.spec_active_channel(),
                of == orphan_rows_fn(active, chs@, orphans@, cats@.len() == 0, width, b1@, b2@),
                rows_view(out@) == start + concat_range(of, i as int),
            decreases orphans@.len() - i,
        {
            let prefix = branch_exec(i + 1 == orphans.len() && cats.len() == 0);
            proof {
                lemma_concat_step(start, of, i as int);
            }
            match self.create_channel_node(&chs[orphans[i]], 1, &prefix, width, b1, b2) {
                Some(node) => push_row(out, node),
                None => {
                    assert(rows_view(out@) + Seq::<RowView>::empty() =~= rows_view(out@));
                },
            }
            i = i + 1;
        }
        let ghost mid = rows_view(out@);
        let mut k: usize = 0;
        while k < cats.len()
            invariant
                k <= cats@.len(),
                forall|j: int| 0 <= j < cats@.len() ==> (#[trigger] cats@[j]) < chs@.len(),
                active == self.spec_active_channel(),
                ex == state.expanded_keys(),
                cf == category_rows_fn(active, ex, chs@, cats@, width, b1@, b2@),
                rows_view(out@) == mid + concat_range(cf, k as int),
            decreases cats@.len() - k,
        {
            proof {
                lemma_concat_step(mid, cf, k as int);
            }
            self.push_category_rows(out, state, chs, &cats, k, width, b1, b2);
            k = k + 1;
        }
        assert(rows_view(out@) =~= start + (concat_range(of, orphans@.len() as int) + concat_range(cf, cats@.len() as int)));
    }
}


impl GuildsTreeData {
    fn guild_role_exec(&self, g: &Guild) -> (r: SpanRole)
        ensures
            r == guild_role(self.spec_active_guild(), *g),
    {
        let active = match self.active_guild_id {
            Some(a) => a == g.id,
            None => false,
        };
        if active {
            SpanRole::GuildActive
        } else if g.unread {
            SpanRole::GuildUnread
        } else {
            SpanRole::Guild
        }
    }

    /// Appends the rows under an expanded guild: its channels, or a
    /// placeholder while they load.
    fn push_guild_children(
        &self,
        out: &mut Vec<FlattenedNode>,
        state: &GuildsTreeState,
        g: &Guild,
        width: u16,
        b1: &Vec<char>,
        b2: &Vec<char>,
        nested: bool,
    )
        requires
            self.wf(),
            !nested ==> b2@.len() == 0,
        ensures
            rows_view(final(out)@) == rows_view(old(out)@) + self.guild_children(
                state.expanded_keys(),
                *g,
                width,
                b1@,
                if nested { Some(b2@) } else { None },
            ),
    {
        match self.channels(g.id) {
            Some(chs) => {
                assert(b2@ == (match (if nested { Some(b2@) } else { None }) {
                    Some(b) => b,
                    None => Seq::<char>::empty(),
                }));
                self.push_channel_rows(out, state, chs, width, b1, b2);
            },
            None => {
                let mut label: Vec<LabelSpan> = Vec::new();
                label.push(make_span(b1, SpanRole::TreeGuide));
                if nested {
                    label.push(make_span(b2, SpanRole::TreeGuide));
                }
                label.push(make_span(&branch_exec(true), SpanRole::TreeGuide));
                label.push(str_span("Loading...", SpanRole::Placeholder));
                assert(label_view(label@) =~= placeholder_row(g.id, b1@, if nested { Some(b2@) } else { None }).1);
                push_row(out, FlattenedNode { id: TreeNodeId::Placeholder(g.id), label, depth: 1 });
            },
        }
    }

    /// Appends the rows of a guild at the top level.
    fn push_guild_rows(&self, out: &mut Vec<FlattenedNode>, state: &GuildsTreeState, g: &Guild, width: u16)
        requires
            self.wf(),
        ensures
            rows_view(final(out)@) == rows_view(old(out)@) + self.guild_rows(state.expanded_keys(), *g, width),
    {
        let exp = state.is_expanded(&TreeNodeId::Guild(g.id));
        let role = self.guild_role_exec(g);
        let mut label: Vec<LabelSpan> = Vec::new();
        label.push(make_span(&arrow_exec(exp), SpanRole::TreeGuide));
        label.push(LabelSpan { text: crate::utils::clean_text(g.name.as_str()), role });
        assert(label_view(label@) =~= seq![(arrow(exp), SpanRole::TreeGuide), (spec_clean_text(g.name@), role)]);
        push_row(out, FlattenedNode { id: TreeNodeId::Guild(g.id), label, depth: 0 });
        if exp {
            let empty: Vec<char> = Vec::new();
            self.push_guild_children(out, state, g, width, &empty, &empty, false);
            assert(empty@ =~= Seq::<char>::empty());
        } else {
            assert(rows_view(out@) + Seq::<RowView>::empty() =~= rows_view(out@));
        }
        assert(rows_view(out@) =~= rows_view(old(out)@) + self.guild_rows(state.expanded_keys(), *g, width));
    }

    /// Appends the rows of a guild inside a folder.
    fn push_nested_guild_rows(
        &self,
        out: &mut Vec<FlattenedNode>,
        state: &GuildsTreeState,
        g: &Guild,
        width: u16,
        connector: &Vec<char>,
        b2: &Vec<char>,
    )
        requires
            self.wf(),
        ensures
            rows_view(final(out)@) == rows_view(old(out)@) + self.nested_guild_rows(
                state.expanded_keys(),
                *g,
                width,
                connector@,
                b2@,
            ),
    {
        let exp = state.is_expanded(&TreeNodeId::Guild(g.id));
        let role = self.guild_role_exec(g);
        let empty: Vec<char> = Vec::new();
        let mut label: Vec<LabelSpan> = Vec::new();
        label.push(make_span(&empty, SpanRole::TreeGuide));
        label.push(make_span(connector, SpanRole::TreeGuide));
        label.push(make_span(&arrow_exec(exp), SpanRole::TreeGuide));
        label.push(LabelSpan { text: crate::utils::clean_text(g.name.as_str()), role });
        assert(label_view(label@) =~= seq![
            (Seq::<char>::empty(), SpanRole::TreeGuide),
            (connector@, SpanRole::TreeGuide),
            (arrow(exp), SpanRole::TreeGuide),
            (spec_clean_text(g.name@), role),
        ]);
        push_row(out, FlattenedNode { id: TreeNodeId::Guild(g.id), label, depth: 0 });
        if exp {
            self.push_guild_children(out, state, g, width, &empty, b2, true);
            assert(empty@ =~= Seq::<char>::empty());
        } else {
            assert(rows_view(out@) + Seq::<RowView>::empty() =~= rows_view(out@));
        }
        assert(rows_view(out@) =~= rows_view(old(out)@) + self.nested_guild_rows(
            state.expanded_keys(),
            *g,
            width,
            connector@,
            b2@,
        ));
    }

    /// The index of the first guild with an id.
    fn find_guild(&self, id: u64) -> (r: Option<usize>)
        ensures
            match r {
                Some(k) => k < self.spec_guilds().len() && self.guild_with_id(id) == Some(self.spec_guilds()[k as int]),
                None => self.guild_with_id(id) is None,
            },
    {
        let mut k: usize = 0;
        while k < self.guilds.len()
            invariant
                k <= self.guilds@.len(),
                forall|m: int| 0 <= m < k ==> (#[trigger] self.guilds@[m]).id != id,
            decreases self.guilds@.len() - k,
        {
            if self.guilds[k].id == id {
                proof {
                    let c = choose|c: int| 0 <= c < self.guilds@.len() && (#[trigger] self.guilds@[c]).id == id
                        && forall|m: int| 0 <= m < c ==> (#[trigger] self.guilds@[m]).id != id;
                    assert(0 <= k < self.guilds@.len() && self.guilds@[k as int].id == id
                        && forall|m: int| 0 <= m < k ==> (#[trigger] self.guilds@[m]).id != id);
                    if c < k {
                        assert(self.guilds@[c].id != id);
                    }
                    if c > k {
                        assert(self.guilds@[k as int].id != id);
                    }
                    assert(c == k);
                }
                return Some(k);
            }
            k = k + 1;
        }
        None
    }

    /// Appends the rows of a folder and, when expanded, of its guilds.
    fn push_folder_rows(&self, out: &mut Vec<FlattenedNode>, state: &GuildsTreeState, f: &GuildFolder, width: u16)
        requires
            self.wf(),
        ensures
            rows_view(final(out)@) == rows_view(old(out)@) + self.folder_rows(state.expanded_keys(), *f, width),
    {
        let exp = state.is_expanded(&TreeNodeId::Folder(f.id));
        let fg = match f.color {
            Some(c) => Some(crate::theme::Color::Rgb(((c >> 16u32) & 0xffu32) as u8, ((c >> 8u32) & 0xffu32) as u8, (c & 0xffu32) as u8)),
            None => None,
        };
        let role = SpanRole::Folder { fg };
        let mut label: Vec<LabelSpan> = Vec::new();
        label.push(make_span(&arrow_exec(exp), SpanRole::TreeGuide));
        label.push(str_span("\u{e5ff} ", role));
        match &f.name {
            Some(n) => label.push(str_span(n.as_str(), role)),
            None => label.push(str_span("Folder", role)),
        }
        let ghost name = match &f.name {
            Some(n) => n@,
            None => "Folder"@,
        };
        assert(role == SpanRole::Folder { fg: Self::folder_fg(*f) });
        assert(label_view(label@) =~= seq![(arrow(exp), SpanRole::TreeGuide), ("\u{e5ff} "@, role), (name, role)]);
        push_row(out, FlattenedNode { id: TreeNodeId::Folder(f.id), label, depth: 0 });
        if exp {
            let ghost ex = state.expanded_keys();
            let ghost gf = self.folder_guilds_fn(ex, *f, width);
            let ghost start = rows_view(out@);
            let mut i: usize = 0;
            while i < f.guild_ids.len()
                invariant
                    i <= f.guild_ids@.len(),
                    self.wf(),
                    ex == state.expanded_keys(),
                    gf == self.folder_guilds_fn(ex, *f, width),
                    rows_view(out@) == start + concat_range(gf, i as int),
                decreases f.guild_ids@.len() - i,
            {
                proof {
                    lemma_concat_step(start, gf, i as int);
                }
                match self.find_guild(f.guild_ids[i]) {
                    Some(k) => {
                        let last = i == f.guild_ids.len() - 1;
                        let conn = branch_exec(last);
                        let ind = sibling_indent_exec(last);
                        self.push_nested_guild_rows(out, state, &self.guilds[k], width, &conn, &ind);
                    },
                    None => {
                        assert(rows_view(out@) + Seq::<RowView>::empty() =~= rows_view(out@));
                    },
                }
                i = i + 1;
            }
            assert(rows_view(out@) =~= rows_view(old(out)@) + self.folder_rows(state.expanded_keys(), *f, width));
        } else {
            assert(rows_view(out@) =~= rows_view(old(out)@) + self.folder_rows(state.expanded_keys(), *f, width));
        }
    }

    /// Appends the direct-messages row and, when expanded, a row per user.
    fn push_dm_rows(&self, out: &mut Vec<FlattenedNode>, state: &GuildsTreeState)
        ensures
            rows_view(final(out)@) == rows_view(old(out)@) + self.dm_rows(state.expanded_keys()),
    {
        let exp = state.is_expanded(&TreeNodeId::DirectMessages);
        let mut label: Vec<LabelSpan> = Vec::new();
        label.push(make_span(&arrow_exec(exp), SpanRole::TreeGuide));
        label.push(str_span("Direct Messages", SpanRole::Plain));
        assert(label_view(label@) =~= seq![(arrow(exp), SpanRole::TreeGuide), ("Direct Messages"@, SpanRole::Plain)]);
        push_row(out, FlattenedNode { id: TreeNodeId::DirectMessages, label, depth: 0 });
        let ghost start = rows_view(out@);
        if exp {
            let mut i: usize = 0;
            while i < self.dm_users.len()
                invariant
                    i <= self.dm_users@.len(),
                    rows_view(out@) == start + Seq::new(i as nat, |k: int| self.dm_user_row(k)),
                decreases self.dm_users@.len() - i,
            {
                let id = &self.dm_users[i].0;
                let name = &self.dm_users[i].1;
                let active = match &self.active_dm_user_id {
                    Some(a) => crate::text::chars_eq(&to_chars(a.as_str()), &to_chars(id.as_str())),
                    None => false,
                };
                let role = if active {
                    SpanRole::DirectMessageActive
                } else {
                    SpanRole::DirectMessage
                };
                let empty: Vec<char> = Vec::new();
                let mut label: Vec<LabelSpan> = Vec::new();
                label.push(make_span(&empty, SpanRole::TreeGuide));
                label.push(make_span(&branch_exec(i == self.dm_users.len() - 1), SpanRole::TreeGuide));
                label.push(str_span("@ ", role));
                label.push(LabelSpan { text: crate::utils::clean_text(name.as_str()), role });
                let node = FlattenedNode { id: TreeNodeId::DirectMessageUser(copy_str(id.as_str())), label, depth: 1 };
                assert(row_view(node) =~= self.dm_user_row(i as int));
                push_row(out, node);
                assert(Seq::new((i + 1) as nat, |k: int| self.dm_user_row(k)) =~= Seq::new(i as nat, |k: int| self.dm_user_row(k))
                    + seq![self.dm_user_row(i as int)]);
                i = i + 1;
            }
            assert(rows_view(out@) =~= rows_view(old(out)@) + self.dm_rows(state.expanded_keys()));
        } else {
            assert(rows_view(out@) =~= rows_view(old(out)@) + self.dm_rows(state.expanded_keys()));
        }
    }
}


impl GuildsTreeData {
    fn in_some_folder_exec(&self, id: u64) -> (b: bool)
        ensures
            b == self.in_some_folder(id),
    {
        let mut i: usize = 0;
        while i < self.folders.len()
            invariant
                i <= self.folders@.len(),
                forall|a: int, b: int| 0 <= a < i && 0 <= b < self.folders@[a].guild_ids@.len()
                    ==> #[trigger] self.folders@[a].guild_ids@[b] != id,
            decreases self.folders@.len() - i,
        {
            let ids = &self.folders[i].guild_ids;
            let mut j: usize = 0;
            while j < ids.len()
                invariant
                    j <= ids@.len(),
                    i < self.folders@.len(),
                    *ids == self.folders@[i as int].guild_ids,
                    forall|b: int| 0 <= b < j ==> #[trigger] ids@[b] != id,
                decreases ids@.len() - j,
            {
                if ids[j] == id {
                    assert(self.folders@[i as int].guild_ids@[j as int] == id);
                    return true;
                }
                j = j + 1;
            }
            i = i + 1;
        }
        false
    }

    /// The rows of the tree for the state's expanded nodes: direct messages
    /// first; then, when grouping, each folder and then the guilds in no
    /// folder; otherwise every guild.
    pub fn flatten(&self, state: &GuildsTreeState, width: u16) -> (rows: Vec<FlattenedNode>)
        requires
            self.wf(),
        ensures
            rows_view(rows@) == self.spec_flatten(state.expanded_keys(), width),
    {
        let ghost ex = state.expanded_keys();
        let mut out: Vec<FlattenedNode> = Vec::new();
        assert(rows_view(out@) =~= Seq::<RowView>::empty());
        self.push_dm_rows(&mut out, state);
        let ghost start = rows_view(out@);
        assert(start =~= self.dm_rows(ex));
        if self.group_guilds {
            let ghost ff = self.folders_fn(ex, width);
            let mut i: usize = 0;
            while i < self.folders.len()
                invariant
                    i <= self.folders@.len(),
                    self.wf(),
                    ex == state.expanded_keys(),
                    ff == self.folders_fn(ex, width),
                    rows_view(out@) == start + concat_range(ff, i as int),
                decreases self.folders@.len() - i,
            {
                proof {
                    lemma_concat_step(start, ff, i as int);
                }
                self.push_folder_rows(&mut out, state, &self.folders[i], width);
                i = i + 1;
            }
            let ghost mid = rows_view(out@);
            let ghost lf = self.loose_guilds_fn(ex, width);
            let mut k: usize = 0;
            while k < self.guilds.len()
                invariant
                    k <= self.guilds@.len(),
                    self.wf(),
                    ex == state.expanded_keys(),
                    lf == self.loose_guilds_fn(ex, width),
                    rows_view(out@) == mid + concat_range(lf, k as int),
                decreases self.guilds@.len() - k,
            {
                proof {
                    lemma_concat_step(mid, lf, k as int);
                }
                if self.in_some_folder_exec(self.guilds[k].id) {
                    assert(rows_view(out@) + Seq::<RowView>::empty() =~= rows_view(out@));
                } else {
                    self.push_guild_rows(&mut out, state, &self.guilds[k], width);
                }
                k = k + 1;
            }
            assert(rows_view(out@) =~= self.dm_rows(ex) + (concat_range(ff, self.folders@.len() as int) + concat_range(
                lf,
                self.guilds@.len() as int,
            )));
        } else {
            let ghost gf = self.guilds_fn(ex, width);
            let mut k: usize = 0;
            while k < self.guilds.len()
                invariant
                    k <= self.guilds@.len(),
                    self.wf(),
                    ex == state.expanded_keys(),
                    gf == self.guilds_fn(ex, width),
                    rows_view(out@) == start + concat_range(gf, k as int),
                decreases self.guilds@.len() - k,
            {
                proof {
                    lemma_concat_step(start, gf, k as int);
                }
                self.push_guild_rows(&mut out, state, &self.guilds[k], width);
                k = k + 1;
            }
        }
        out
    }
}


/// What the tree asks of the application, as values.
pub enum TreeRequest {
    SelectChannel(u64),
    SelectGuild(u64),
    SelectDirectMessage(Seq<char>),
    YankId(Seq<char>),
    LoadGuildChannels(u64),
}

/// The request an action stands for.
pub open spec fn request_of(a: Option<GuildsTreeAction>) -> Option<TreeRequest> {
    match a {
        Some(GuildsTreeAction::SelectChannel(id)) => Some(TreeRequest::SelectChannel(id)),
        Some(GuildsTreeAction::SelectGuild(id)) => Some(TreeRequest::SelectGuild(id)),
        Some(GuildsTreeAction::SelectDirectMessage(s)) => Some(TreeRequest::SelectDirectMessage(s@)),
        Some(GuildsTreeAction::YankId(s)) => Some(TreeRequest::YankId(s@)),
        Some(GuildsTreeAction::LoadGuildChannels(id)) => Some(TreeRequest::LoadGuildChannels(id)),
        None => None,
    }
}

/// The number in a node's key (zero for nodes without one).
pub open spec fn key_id(k: NodeKey) -> u64 {
    match k.1 {
        Some(x) => x,
        None => 0,
    }
}

/// The first row of a node.
pub open spec fn first_row(rows: Seq<RowView>, k: NodeKey) -> Option<int> {
    if exists|i: int| 0 <= i < rows.len() && (#[trigger] rows[i]).0 == k {
        Some(choose|i: int| 0 <= i < rows.len() && (#[trigger] rows[i]).0 == k
            && forall|m: int| 0 <= m < i ==> (#[trigger] rows[m]).0 != k)
    } else {
        None
    }
}

/// The nearest row above `idx` that is less deep than it.
pub open spec fn parent_row(rows: Seq<RowView>, idx: int) -> Option<int> {
    if exists|i: int| 0 <= i < idx && (#[trigger] rows[i]).2 < rows[idx].2 {
        Some(choose|i: int| 0 <= i < idx && (#[trigger] rows[i]).2 < rows[idx].2
            && forall|m: int| i < m < idx ==> (#[trigger] rows[m]).2 >= rows[idx].2)
    } else {
        None
    }
}

/// What choosing a node asks for: a channel, a guild or a direct-message
/// user is selected; other nodes ask for nothing.
pub open spec fn selection_request(k: NodeKey) -> Option<TreeRequest> {
    if k.0 == 5 {
        Some(TreeRequest::SelectChannel(key_id(k)))
    } else if k.0 == 3 {
        Some(TreeRequest::SelectGuild(key_id(k)))
    } else if k.0 == 1 {
        Some(TreeRequest::SelectDirectMessage(k.2))
    } else {
        None
    }
}

/// The id that yanking a node copies.
pub open spec fn yank_text(k: NodeKey) -> Seq<char> {
    if k.0 == 0 {
        "direct_messages"@
    } else if k.0 == 1 {
        k.2
    } else if k.0 == 2 {
        spec_option_debug(k.1)
    } else {
        decimal(key_id(k) as nat)
    }
}

/// The expanded nodes with one node toggled.
pub open spec fn toggled(ex: Set<NodeKey>, k: NodeKey) -> Set<NodeKey> {
    if ex.contains(k) {
        ex.remove(k)
    } else {
        ex.insert(k)
    }
}

/// Whether a node can be expanded: direct messages, a folder, a guild or a category.
pub open spec fn expandable(k: NodeKey) -> bool {
    k.0 == 0 || k.0 == 2 || k.0 == 3 || k.0 == 4
}

/// The tree after an action, as expanded nodes, selected node and selected
/// row, with what it asks of the application. Moving down or up wraps
/// around the rows of the tree as flattened at full width; left collapses
/// the selected node, or selects the nearest less deep row above it; right
/// expands it, or chooses it when it cannot be expanded or already is;
/// select toggles an expandable node and chooses any other. Expanding a
/// guild whose channels are not loaded asks to load them.
pub open spec fn tree_key_result(
    data: GuildsTreeData,
    ex: Set<NodeKey>,
    sel: Option<NodeKey>,
    row: Option<usize>,
    act: Option<Action>,
) -> (Set<NodeKey>, Option<NodeKey>, Option<usize>, Option<TreeRequest>) {
    let rows = data.spec_flatten(ex, 65535);
    let n = rows.len() as int;
    let cur = match sel {
        Some(k) => first_row(rows, k),
        None => None,
    };
    let same = (ex, sel, row, None::<TreeRequest>);
    match act {
        Some(Action::NavigateDown) => if n > 0 {
            let i = match cur {
                Some(c) => if c + 1 >= n { 0 } else { c + 1 },
                None => 0,
            };
            (ex, Some(rows[i].0), Some(i as usize), None)
        } else {
            same
        },
        Some(Action::NavigateUp) => if n > 0 {
            let i = match cur {
                Some(c) => if c == 0 { n - 1 } else { c - 1 },
                None => 0,
            };
            (ex, Some(rows[i].0), Some(i as usize), None)
        } else {
            same
        },
        Some(Action::NavigateLeft) => match sel {
            Some(k) => if ex.contains(k) {
                (ex.remove(k), sel, row, None)
            } else {
                match cur {
                    Some(c) => match parent_row(rows, c) {
                        Some(p) => (ex, Some(rows[p].0), Some(p as usize), None),
                        None => same,
                    },
                    None => same,
                }
            },
            None => same,
        },
        Some(Action::NavigateRight) => match sel {
            Some(k) => if expandable(k) && !ex.contains(k) {
                (
                    ex.insert(k),
                    sel,
                    row,
                    if k.0 == 3 && data.spec_channels(key_id(k)) is None {
                        Some(TreeRequest::LoadGuildChannels(key_id(k)))
                    } else {
                        None
                    },
                )
            } else {
                (ex, sel, row, selection_request(k))
            },
            None => same,
        },
        Some(Action::SelectFirst) => if n > 0 {
            (ex, Some(rows[0].0), Some(0), None)
        } else {
            same
        },
        Some(Action::SelectLast) => if n > 0 {
            (ex, Some(rows[n - 1].0), Some((n - 1) as usize), None)
        } else {
            same
        },
        Some(Action::Select) => match sel {
            Some(k) => if k.0 == 3 {
                let ex2 = toggled(ex, k);
                (
                    ex2,
                    sel,
                    row,
                    if ex2.contains(k) && data.spec_channels(key_id(k)) is None {
                        Some(TreeRequest::LoadGuildChannels(key_id(k)))
                    } else {
                        None
                    },
                )
            } else if expandable(k) {
                (toggled(ex, k), sel, row, None)
            } else {
                (ex, sel, row, selection_request(k))
            },
            None => same,
        },
        Some(Action::YankId) => (
            ex,
            sel,
            row,
            match sel {
                Some(k) => Some(TreeRequest::YankId(yank_text(k))),
                None => None,
            },
        ),
        _ => same,
    }
}

fn first_row_exec(rows: &Vec<FlattenedNode>, k: &TreeNodeId) -> (r: Option<usize>)
    ensures
        match r {
            Some(i) => first_row(rows_view(rows@), node_key(*k)) == Some(i as int) && i < rows@.len(),
            None => first_row(rows_view(rows@), node_key(*k)) is None,
        },
{
    let ghost rv = rows_view(rows@);
    let ghost key = node_key(*k);
    let mut i: usize = 0;
    while i < rows.len()
        invariant
            i <= rows@.len(),
            rv == rows_view(rows@),
            key == node_key(*k),
            forall|m: int| 0 <= m < i ==> (#[trigger] rv[m]).0 != key,
        decreases rows@.len() - i,
    {
        if rows[i].id.same(k) {
            proof {
                assert(rv[i as int].0 == key);
                let c = choose|c: int| 0 <= c < rv.len() && (#[trigger] rv[c]).0 == key
                    && forall|m: int| 0 <= m < c ==> (#[trigger] rv[m]).0 != key;
                assert(0 <= i < rv.len() && rv[i as int].0 == key && forall|m: int| 0 <= m < i ==> (#[trigger] rv[m]).0 != key);
                if c < i {
                    assert(rv[c].0 != key);
                }
                if c > i {
                    assert(rv[i as int].0 != key);
                }
            }
            return Some(i);
        }
        assert(rv[i as int].0 == node_key(rows@[i as int].id));
        i = i + 1;
    }
    None
}

fn parent_row_exec(rows: &Vec<FlattenedNode>, idx: usize) -> (r: Option<usize>)
    requires
        idx < rows@.len(),
    ensures
        match r {
            Some(p) => parent_row(rows_view(rows@), idx as int) == Some(p as int) && p < idx,
            None => parent_row(rows_view(rows@), idx as int) is None,
        },
{
    let ghost rv = rows_view(rows@);
    let d = rows[idx].depth;
    assert(rv[idx as int].2 == d as int);
    let mut i: usize = idx;
    while i > 0
        invariant
            i <= idx,
            idx < rows@.len(),
            rv == rows_view(rows@),
            rv[idx as int].2 == d as int,
            forall|m: int| i <= m < idx ==> (#[trigger] rv[m]).2 >= rv[idx as int].2,
        decreases i,
    {
        i = i - 1;
        assert(rv[i as int].2 == rows@[i as int].depth as int);
        if rows[i].depth < d {
            proof {
                let c = choose|c: int| 0 <= c < idx && (#[trigger] rv[c]).2 < rv[idx as int].2
                    && forall|m: int| c < m < idx ==> (#[trigger] rv[m]).2 >= rv[idx as int].2;
                assert(0 <= i < idx && rv[i as int].2 < rv[idx as int].2
                    && forall|m: int| i < m < idx ==> (#[trigger] rv[m]).2 >= rv[idx as int].2);
                if c < i {
                    assert(rv[i as int].2 >= rv[idx as int].2);
                }
                if c > i {
                    assert(rv[c].2 >= rv[idx as int].2);
                }
            }
            return Some(i);
        }
    }
    None
}

fn yank_text_exec(n: &TreeNodeId) -> (s: String)
    ensures
        s@ == yank_text(node_key(*n)),
{
    match n {
        TreeNodeId::DirectMessages => copy_str("direct_messages"),
        TreeNodeId::DirectMessageUser(id) => copy_str(id.as_str()),
        TreeNodeId::Folder(id) => option_debug(*id),
        TreeNodeId::Guild(id) => u64_to_decimal(*id),
        TreeNodeId::Placeholder(id) => u64_to_decimal(*id),
        TreeNodeId::Category(id) => u64_to_decimal(*id),
        TreeNodeId::Channel(id) => u64_to_decimal(*id),
    }
}

impl GuildsTreeState {
    fn get_selection_action(&self) -> (r: Option<GuildsTreeAction>)
        ensures
            request_of(r) == match self.selected_key() {
                Some(k) => selection_request(k),
                None => None,
            },
    {
        match &self.selected {
            Some(TreeNodeId::Channel(id)) => Some(GuildsTreeAction::SelectChannel(*id)),
            Some(TreeNodeId::Guild(id)) => Some(GuildsTreeAction::SelectGuild(*id)),
            Some(TreeNodeId::DirectMessageUser(id)) => Some(GuildsTreeAction::SelectDirectMessage(copy_str(id.as_str()))),
            _ => None,
        }
    }

    /// Handles a key: see `tree_key_result` for what each action does.
    pub fn handle_key(&mut self, key: KeyEvent, data: &GuildsTreeData, registry: &CommandRegistry) -> (r: Option<
        GuildsTreeAction,
    >)
        requires
            old(self).wf(),
            data.wf(),
        ensures
            final(self).wf(),
            (final(self).expanded_keys(), final(self).selected_key(), final(self).spec_list_selected(), request_of(r))
                == tree_key_result(
                *data,
                old(self).expanded_keys(),
                old(self).selected_key(),
                old(self).spec_list_selected(),
                first_action(registry.inputs(), key),
            ),
            final(self).spec_focused() == old(self).spec_focused(),
    {
        let flattened = data.flatten(self, 65535);
        let ghost rows = rows_view(flattened@);
        let n = flattened.len();
        assert(rows.len() == n);
        let current = match &self.selected {
            Some(sel) => first_row_exec(&flattened, sel),
            None => None,
        };
        match registry.find_action(key) {
            Some(Action::NavigateDown) => {
                if n > 0 {
                    let next = match current {
                        Some(i) => if i + 1 >= n { 0 } else { i + 1 },
                        None => 0,
                    };
                    assert(rows[next as int].0 == node_key(flattened@[next as int].id));
                    self.selected = Some(flattened[next].id.copy());
                    self.list_selected = Some(next);
                }
                None
            },
            Some(Action::NavigateUp) => {
                if n > 0 {
                    let prev = match current {
                        Some(i) => if i == 0 { n - 1 } else { i - 1 },
                        None => 0,
                    };
                    assert(rows[prev as int].0 == node_key(flattened@[prev as int].id));
                    self.selected = Some(flattened[prev].id.copy());
                    self.list_selected = Some(prev);
                }
                None
            },
            Some(Action::NavigateLeft) => {
                let sel = match &self.selected {
                    Some(s) => s.copy(),
                    None => {
                        return None;
                    },
                };
                if self.is_expanded(&sel) {
                    self.collapse(&sel);
                } else {
                    match current {
                        Some(idx) => {
                            match parent_row_exec(&flattened, idx) {
                                Some(p) => {
                                    assert(rows[p as int].0 == node_key(flattened@[p as int].id));
                                    self.selected = Some(flattened[p].id.copy());
                                    self.list_selected = Some(p);
                                },
                                None => {},
                            }
                        },
                        None => {},
                    }
                }
                None
            },
            Some(Action::NavigateRight) => {
                let sel = match &self.selected {
                    Some(s) => s.copy(),
                    None => {
                        return None;
                    },
                };
                let can_expand = match sel {
                    TreeNodeId::Guild(_) | TreeNodeId::Category(_) | TreeNodeId::DirectMessages | TreeNodeId::Folder(_) => true,
                    _ => false,
                };
                if can_expand && !self.is_expanded(&sel) {
                    let gid = match sel {
                        TreeNodeId::Guild(id) => Some(id),
                        _ => None,
                    };
                    self.expand(sel);
                    match gid {
                        Some(id) => {
                            if data.channels(id).is_none() {
                                return Some(GuildsTreeAction::LoadGuildChannels(id));
                            }
                        },
                        None => {},
                    }
                    None
                } else {
                    self.get_selection_action()
                }
            },
            Some(Action::SelectFirst) => {
                if n > 0 {
                    assert(rows[0].0 == node_key(flattened@[0].id));
                    self.selected = Some(flattened[0].id.copy());
                    self.list_selected = Some(0);
                }
                None
            },
            Some(Action::SelectLast) => {
                if n > 0 {
                    let idx = n - 1;
                    assert(rows[idx as int].0 == node_key(flattened@[idx as int].id));
                    self.selected = Some(flattened[idx].id.copy());
                    self.list_selected = Some(idx);
                }
                None
            },
            Some(Action::Select) => {
                let sel = match &self.selected {
                    Some(s) => s.copy(),
                    None => {
                        return None;
                    },
                };
                match sel {
                    TreeNodeId::Guild(id) => {
                        self.toggle_current();
                        if self.is_expanded(&sel) && data.channels(id).is_none() {
                            return Some(GuildsTreeAction::LoadGuildChannels(id));
                        }
                        None
                    },
                    TreeNodeId::Category(_) | TreeNodeId::DirectMessages | TreeNodeId::Folder(_) => {
                        self.toggle_current();
                        None
                    },
                    _ => self.get_selection_action(),
                }
            },
            Some(Action::YankId) => {
                match &self.selected {
                    Some(node) => Some(GuildsTreeAction::YankId(yank_text_exec(node))),
                    None => None,
                }
            },
            _ => None,
        }
    }
}


impl GuildsTreeData {
    proof fn lemma_collapsed_guild_rows(&self, width: u16, k: int)
        requires
            0 <= k <= self.guilds@.len(),
        ensures
            concat_range(self.guilds_fn(Set::empty(), width), k).len() == k,
            forall|i: int| 0 <= i < k ==> (#[trigger] concat_range(self.guilds_fn(Set::empty(), width), k)[i]).0
                == guild_key(self.guilds@[i].id) && concat_range(self.guilds_fn(Set::empty(), width), k)[i].2 == 0,
        decreases k,
    {
        let f = self.guilds_fn(Set::empty(), width);
        if k > 0 {
            self.lemma_collapsed_guild_rows(width, k - 1);
            let g = self.guilds@[k - 1];
            assert(!Set::<NodeKey>::empty().contains(guild_key(g.id)));
            assert(f(k - 1) =~= self.guild_rows(Set::empty(), g, width));
            assert(self.guild_rows(Set::empty(), g, width).len() == 1);
            assert forall|i: int| 0 <= i < k implies (#[trigger] concat_range(f, k)[i]).0 == guild_key(self.guilds@[i].id)
                && concat_range(f, k)[i].2 == 0 by {
                if i < k - 1 {
                    assert(concat_range(f, k)[i] == concat_range(f, k - 1)[i]);
                } else {
                    assert(concat_range(f, k)[i] == f(k - 1)[0]);
                }
            }
        }
    }

    /// With nothing expanded and guilds not grouped, the tree shows the
    /// direct-messages row and then one row per guild, in order, all at the
    /// top level.
    pub proof fn lemma_flatten_collapsed(&self, width: u16)
        requires
            !self.spec_group_guilds(),
        ensures
            self.spec_flatten(Set::empty(), width).len() == self.spec_guilds().len() + 1,
            self.spec_flatten(Set::empty(), width)[0].0 == dm_key(),
            forall|i: int| 0 <= i < self.spec_guilds().len() ==> (#[trigger] self.spec_flatten(Set::empty(), width)[i + 1]).0
                == guild_key(self.spec_guilds()[i].id),
            forall|i: int| 0 <= i < self.spec_flatten(Set::empty(), width).len()
                ==> (#[trigger] self.spec_flatten(Set::empty(), width)[i]).2 == 0,
    {
        let n = self.guilds@.len() as int;
        self.lemma_collapsed_guild_rows(width, n);
        assert(!Set::<NodeKey>::empty().contains(dm_key()));
        assert(self.dm_rows(Set::empty()).len() == 1);
        let rows = self.spec_flatten(Set::empty(), width);
        let rest = concat_range(self.guilds_fn(Set::empty(), width), n);
        assert(rows == self.dm_rows(Set::empty()) + rest);
        assert forall|i: int| 0 <= i < n implies (#[trigger] rows[i + 1]).0 == guild_key(self.guilds@[i].id) by {
            assert(rows[i + 1] == rest[i]);
        }
        assert forall|i: int| 0 <= i < rows.len() implies (#[trigger] rows[i]).2 == 0 by {
            if i > 0 {
                assert(rows[i] == rest[i - 1]);
            }
        }
    }

    proof fn lemma_collapsed_folder_rows(&self, width: u16, k: int)
        requires
            0 <= k <= self.folders@.len(),
        ensures
            concat_range(self.folders_fn(Set::empty(), width), k).len() == k,
            forall|i: int| 0 <= i < k ==> (#[trigger] concat_range(self.folders_fn(Set::empty(), width), k)[i]).0
                == folder_key(self.folders@[i].id),
        decreases k,
    {
        let f = self.folders_fn(Set::empty(), width);
        if k > 0 {
            self.lemma_collapsed_folder_rows(width, k - 1);
            let fo = self.folders@[k - 1];
            assert(!Set::<NodeKey>::empty().contains(folder_key(fo.id)));
            assert(f(k - 1) =~= self.folder_rows(Set::empty(), fo, width));
            assert(self.folder_rows(Set::empty(), fo, width).len() == 1);
            assert forall|i: int| 0 <= i < k implies (#[trigger] concat_range(f, k)[i]).0 == folder_key(self.folders@[i].id) by {
                if i < k - 1 {
                    assert(concat_range(f, k)[i] == concat_range(f, k - 1)[i]);
                } else {
                    assert(concat_range(f, k)[i] == f(k - 1)[0]);
                }
            }
        }
    }

    proof fn lemma_collapsed_loose_rows(&self, width: u16, k: int)
        requires
            0 <= k <= self.guilds@.len(),
        ensures
            concat_range(self.loose_guilds_fn(Set::empty(), width), k).map_values(|r: RowView| r.0)
                == self.guilds@.take(k).filter(|g: Guild| !folder_holds(self.folders@, g.id)).map_values(
                |g: Guild| guild_key(g.id),
            ),
        decreases k,
    {
        let f = self.loose_guilds_fn(Set::empty(), width);
        let pred = |g: Guild| !folder_holds(self.folders@, g.id);
        if k == 0 {
            assert(self.guilds@.take(0) =~= Seq::<Guild>::empty());
            assert(Seq::<Guild>::empty().filter(pred) =~= Seq::<Guild>::empty()) by {
                reveal(Seq::filter);
            }
            assert(concat_range(f, 0).map_values(|r: RowView| r.0) =~= Seq::<NodeKey>::empty());
            assert(Seq::<Guild>::empty().map_values(|g: Guild| guild_key(g.id)) =~= Seq::<NodeKey>::empty());
        } else {
            self.lemma_collapsed_loose_rows(width, k - 1);
            let g = self.guilds@[k - 1];
            let t = self.guilds@.take(k);
            assert(t.drop_last() =~= self.guilds@.take(k - 1));
            assert(t.last() == g);
            assert(t.filter(pred) == if pred(g) { t.drop_last().filter(pred).push(g) } else { t.drop_last().filter(pred) }) by {
                reveal(Seq::filter);
            }
            assert(self.in_some_folder(g.id) == folder_holds(self.folders@, g.id));
            let prev = concat_range(f, k - 1);
            assert(concat_range(f, k) == prev + f(k - 1));
            if pred(g) {
                assert(!Set::<NodeKey>::empty().contains(guild_key(g.id)));
                assert(f(k - 1) =~= self.guild_rows(Set::empty(), g, width));
                assert(f(k - 1).len() == 1);
                assert((prev + f(k - 1)).map_values(|r: RowView| r.0) =~= prev.map_values(|r: RowView| r.0).push(
                    f(k - 1)[0].0,
                ));
                assert(t.drop_last().filter(pred).push(g).map_values(|g: Guild| guild_key(g.id))
                    =~= t.drop_last().filter(pred).map_values(|g: Guild| guild_key(g.id)).push(guild_key(g.id)));
            } else {
                assert(f(k - 1) =~= Seq::<RowView>::empty());
                assert(prev + f(k - 1) =~= prev);
            }
        }
    }

    /// With guilds grouped and nothing expanded, the tree shows the
    /// direct-messages row, then one row per folder, in order, then one row
    /// per guild that is in no folder, in order.
    pub proof fn lemma_flatten_grouped_collapsed(&self, width: u16)
        requires
            self.spec_group_guilds(),
        ensures
            ({
                let rows = self.spec_flatten(Set::empty(), width);
                let folders = self.spec_folders();
                let loose = self.spec_guilds().filter(|g: Guild| !folder_holds(folders, g.id));
                &&& rows.len() == 1 + folders.len() + loose.len()
                &&& rows[0].0 == dm_key()
                &&& forall|i: int| 0 <= i < folders.len() ==> (#[trigger] rows[1 + i]).0 == folder_key(folders[i].id)
                &&& forall|i: int| 0 <= i < loose.len() ==> (#[trigger] rows[1 + folders.len() + i]).0 == guild_key(loose[i].id)
            }),
    {
        let nf = self.folders@.len() as int;
        let ng = self.guilds@.len() as int;
        self.lemma_collapsed_folder_rows(width, nf);
        self.lemma_collapsed_loose_rows(width, ng);
        assert(self.guilds@.take(ng) =~= self.guilds@);
        assert(!Set::<NodeKey>::empty().contains(dm_key()));
        assert(self.dm_rows(Set::empty()).len() == 1);
        let rows = self.spec_flatten(Set::empty(), width);
        let fr = concat_range(self.folders_fn(Set::empty(), width), nf);
        let lr = concat_range(self.loose_guilds_fn(Set::empty(), width), ng);
        let loose = self.guilds@.filter(|g: Guild| !folder_holds(self.folders@, g.id));
        assert(rows == self.dm_rows(Set::empty()) + (fr + lr));
        assert(lr.map_values(|r: RowView| r.0) == loose.map_values(|g: Guild| guild_key(g.id)));
        assert(lr.len() == loose.len()) by {
            assert(lr.map_values(|r: RowView| r.0).len() == lr.len());
        }
        assert forall|i: int| 0 <= i < nf implies (#[trigger] rows[1 + i]).0 == folder_key(self.folders@[i].id) by {
            assert(rows[1 + i] == fr[i]);
        }
        assert forall|i: int| 0 <= i < loose.len() implies (#[trigger] rows[1 + nf + i]).0 == guild_key(loose[i].id) by {
            assert(rows[1 + nf + i] == lr[i]);
            assert(lr.map_values(|r: RowView| r.0)[i] == lr[i].0);
            assert(loose.map_values(|g: Guild| guild_key(g.id))[i] == guild_key(loose[i].id));
        }
    }

    /// The tree always starts with the direct-messages row, whose arrow shows
    /// whether it is expanded; when it is, one row per direct-message user
    /// follows, in order, each one level deep, with the user's cleaned name
    /// and the active style on the active user.
    pub proof fn lemma_flatten_dm_rows(&self, ex: Set<NodeKey>, width: u16)
        ensures
            self.spec_flatten(ex, width).len() >= 1,
            self.spec_flatten(ex, width)[0] == (
                dm_key(),
                seq![(arrow(ex.contains(dm_key())), SpanRole::TreeGuide), ("Direct Messages"@, SpanRole::Plain)],
                0int,
            ),
            ex.contains(dm_key()) ==> self.spec_flatten(ex, width).len() >= 1 + self.spec_dm_users().len(),
            ex.contains(dm_key()) ==> forall|i: int| 0 <= i < self.spec_dm_users().len()
                ==> #[trigger] self.spec_flatten(ex, width)[i + 1] == ({
                    let role = if self.spec_active_dm_user() == Some(self.spec_dm_users()[i].0@) {
                        SpanRole::DirectMessageActive
                    } else {
                        SpanRole::DirectMessage
                    };
                    (
                        dm_user_key(self.spec_dm_users()[i].0@),
                        seq![
                            (Seq::<char>::empty(), SpanRole::TreeGuide),
                            (branch(i == self.spec_dm_users().len() - 1), SpanRole::TreeGuide),
                            ("@ "@, role),
                            (spec_clean_text(self.spec_dm_users()[i].1@), role),
                        ],
                        1int,
                    )
                }),
    {
        let rows = self.spec_flatten(ex, width);
        let d = self.dm_rows(ex);
        assert(rows == d + (rows.subrange(d.len() as int, rows.len() as int)));
        assert(rows[0] == d[0]);
        if ex.contains(dm_key()) {
            assert forall|i: int| 0 <= i < self.dm_users@.len() implies #[trigger] rows[i + 1] == self.dm_user_row(i) by {
                assert(rows[i + 1] == d[i + 1]);
            }
        }
    }
}


proof fn lemma_unique_guilds_update(e: Seq<(u64, Vec<Channel>)>, i: int)
    requires
        unique_guilds(e),
        0 <= i < e.len(),
    ensures
        forall|x: (u64, Vec<Channel>)| x.0 == e[i].0 ==> #[trigger] unique_guilds(e.update(i, x)),
{
    assert forall|x: (u64, Vec<Channel>)| x.0 == e[i].0 implies #[trigger] unique_guilds(e.update(i, x)) by {
        let f = e.update(i, x);
        assert forall|a: int, b: int| 0 <= a < f.len() && 0 <= b < f.len() && a != b implies (#[trigger] f[a]).0
            != (#[trigger] f[b]).0 by {
            assert(f[a].0 == e[a].0);
            assert(f[b].0 == e[b].0);
        }
    }
}

fn list_slot(v: &mut Vec<(u64, Vec<Channel>)>, i: usize) -> (l: &mut Vec<Channel>)
    requires
        i < old(v)@.len(),
    ensures
        *l == old(v)@[i as int].1,
        final(v)@ == old(v)@.update(i as int, (old(v)@[i as int].0, *final(l))),
{
    &mut v[i].1
}

fn channel_slot(v: &mut Vec<Channel>, j: usize) -> (c: &mut Channel)
    requires
        j < old(v)@.len(),
    ensures
        *c == old(v)@[j as int],
        final(v)@ == old(v)@.update(j as int, *final(c)),
{
    &mut v[j]
}

/// Whether list position `(a, b)` comes before `(i, j)`.
pub open spec fn before(a: int, b: int, i: int, j: int) -> bool {
    a < i || (a == i && b < j)
}

/// The first place, as list index and channel index, of a channel with the id.
pub open spec fn channel_position(e: Seq<(u64, Vec<Channel>)>, id: u64) -> Option<(int, int)> {
    if exists|i: int, j: int| 0 <= i < e.len() && 0 <= j < e[i].1@.len() && (#[trigger] e[i].1@[j]).id == id {
        Some(choose|p: (int, int)| 0 <= p.0 < e.len() && 0 <= p.1 < e[p.0].1@.len() && e[p.0].1@[p.1].id == id
            && forall|a: int, b: int| 0 <= a < e.len() && 0 <= b < e[a].1@.len() && before(a, b, p.0, p.1)
                ==> (#[trigger] e[a].1@[b]).id != id)
    } else {
        None
    }
}

impl GuildsTreeData {
    /// The first loaded channel with the id.
    pub fn get_channel(&self, channel_id: u64) -> (r: Option<&Channel>)
        ensures
            match channel_position(self.spec_channel_lists(), channel_id) {
                Some(p) => r is Some && *r.unwrap() == self.spec_channel_lists()[p.0].1@[p.1]
                    && 0 <= p.0 < self.spec_channel_lists().len() && 0 <= p.1 < self.spec_channel_lists()[p.0].1@.len(),
                None => r is None,
            },
            r matches Some(c) ==> c.id == channel_id,
    {
        let ghost e = self.channels_by_guild@;
        let mut i: usize = 0;
        while i < self.channels_by_guild.len()
            invariant
                i <= e.len(),
                self.channels_by_guild@ == e,
                forall|a: int, b: int| 0 <= a < i && 0 <= b < e[a].1@.len() ==> (#[trigger] e[a].1@[b]).id != channel_id,
            decreases e.len() - i,
        {
            let mut j: usize = 0;
            while j < self.channels_by_guild[i].1.len()
                invariant
                    i < e.len(),
                    j <= e[i as int].1@.len(),
                    self.channels_by_guild@ == e,
                    forall|a: int, b: int| 0 <= a < i && 0 <= b < e[a].1@.len() ==> (#[trigger] e[a].1@[b]).id != channel_id,
                    forall|b: int| 0 <= b < j ==> (#[trigger] e[i as int].1@[b]).id != channel_id,
                decreases e[i as int].1@.len() - j,
            {
                if self.channels_by_guild[i].1[j].id == channel_id {
                    proof {
                        let q = (i as int, j as int);
                        assert(0 <= q.0 < e.len() && 0 <= q.1 < e[q.0].1@.len() && e[q.0].1@[q.1].id == channel_id
                            && forall|a: int, b: int| 0 <= a < e.len() && 0 <= b < e[a].1@.len() && before(a, b, q.0, q.1)
                                ==> (#[trigger] e[a].1@[b]).id != channel_id);
                        let p = choose|p: (int, int)| 0 <= p.0 < e.len() && 0 <= p.1 < e[p.0].1@.len() && e[p.0].1@[p.1].id == channel_id
                            && forall|a: int, b: int| 0 <= a < e.len() && 0 <= b < e[a].1@.len() && before(a, b, p.0, p.1)
                                ==> (#[trigger] e[a].1@[b]).id != channel_id;
                        if before(p.0, p.1, q.0, q.1) {
                            assert(e[p.0].1@[p.1].id != channel_id);
                        }
                        if before(q.0, q.1, p.0, p.1) {
                            assert(e[q.0].1@[q.1].id != channel_id);
                        }
                        assert(p == q);
                    }
                    return Some(&self.channels_by_guild[i].1[j]);
                }
                j = j + 1;
            }
            i = i + 1;
        }
        None
    }
}

impl GuildsTreeData {
    /// The first loaded channel with the id, to change in place.
    pub fn get_channel_mut(&mut self, channel_id: u64) -> (r: Option<&mut Channel>)
        requires
            old(self).wf(),
        ensures
            final(self).wf(),
            final(self).spec_channel_lists().len() == old(self).spec_channel_lists().len(),
            final(self).spec_guilds() == old(self).spec_guilds(),
            final(self).spec_folders() == old(self).spec_folders(),
            final(self).spec_group_guilds() == old(self).spec_group_guilds(),
            final(self).spec_dm_users() == old(self).spec_dm_users(),
            final(self).spec_active_guild() == old(self).spec_active_guild(),
            final(self).spec_active_channel() == old(self).spec_active_channel(),
            final(self).spec_active_dm_user() == old(self).spec_active_dm_user(),
            match channel_position(old(self).spec_channel_lists(), channel_id) {
                Some(p) => {
                    &&& r is Some
                    &&& *r.unwrap() == old(self).spec_channel_lists()[p.0].1@[p.1]
                    &&& forall|i: int| 0 <= i < old(self).spec_channel_lists().len() && i != p.0
                        ==> #[trigger] final(self).spec_channel_lists()[i] == old(self).spec_channel_lists()[i]
                    &&& final(self).spec_channel_lists()[p.0].0 == old(self).spec_channel_lists()[p.0].0
                    &&& final(self).spec_channel_lists()[p.0].1@ == old(self).spec_channel_lists()[p.0].1@.update(
                        p.1,
                        *final(r.unwrap()),
                    )
                },
                None => r is None && final(self).spec_channel_lists() == old(self).spec_channel_lists(),
            },
    {
        let ghost e = self.channels_by_guild@;
        let mut i: usize = 0;
        while i < self.channels_by_guild.len()
            invariant
                i <= e.len(),
                *self == *old(self),
                unique_guilds(e),
                self.channels_by_guild@ == e,
                forall|a: int, b: int| 0 <= a < i && 0 <= b < e[a].1@.len() ==> (#[trigger] e[a].1@[b]).id != channel_id,
            decreases e.len() - i,
        {
            let mut j: usize = 0;
            while j < self.channels_by_guild[i].1.len()
                invariant
                    i < e.len(),
                    j <= e[i as int].1@.len(),
                    *self == *old(self),
                    unique_guilds(e),
                    self.channels_by_guild@ == e,
                    forall|a: int, b: int| 0 <= a < i && 0 <= b < e[a].1@.len() ==> (#[trigger] e[a].1@[b]).id != channel_id,
                    forall|b: int| 0 <= b < j ==> (#[trigger] e[i as int].1@[b]).id != channel_id,
                decreases e[i as int].1@.len() - j,
            {
                if self.channels_by_guild[i].1[j].id == channel_id {
                    proof {
                        let p = choose|p: (int, int)| 0 <= p.0 < e.len() && 0 <= p.1 < e[p.0].1@.len() && e[p.0].1@[p.1].id == channel_id
                            && forall|a: int, b: int| 0 <= a < e.len() && 0 <= b < e[a].1@.len() && before(a, b, p.0, p.1)
                                ==> (#[trigger] e[a].1@[b]).id != channel_id;
                        let q = (i as int, j as int);
                        assert(0 <= q.0 < e.len() && 0 <= q.1 < e[q.0].1@.len() && e[q.0].1@[q.1].id == channel_id
                            && forall|a: int, b: int| 0 <= a < e.len() && 0 <= b < e[a].1@.len() && before(a, b, q.0, q.1)
                                ==> (#[trigger] e[a].1@[b]).id != channel_id);
                        if before(p.0, p.1, q.0, q.1) {
                            assert(e[p.0].1@[p.1].id != channel_id);
                        }
                        if before(q.0, q.1, p.0, p.1) {
                            assert(e[q.0].1@[q.1].id != channel_id);
                        }
                        assert(p == q);
                    }
                    proof {
                        lemma_unique_guilds_update(e, i as int);
                    }
                    let list = list_slot(&mut self.channels_by_guild, i);
                    return Some(channel_slot(list, j));
                }
                j = j + 1;
            }
            i = i + 1;
        }
        None
    }
}

/// Whether some folder holds the guild.
pub open spec fn folder_holds(folders: Seq<GuildFolder>, id: u64) -> bool {
    exists|i: int, j: int| 0 <= i < folders.len() && 0 <= j < folders[i].guild_ids@.len()
        && #[trigger] folders[i].guild_ids@[j] == id
}

/// Rows whose keys are all different.
pub open spec fn distinct_keys(rows: Seq<RowView>) -> bool {
    forall|i: int, j: int|
        0 <= i < rows.len() && 0 <= j < rows.len() && i != j ==> (#[trigger] rows[i]).0 != (#[trigger] rows[j]).0
}

proof fn lemma_first_row_of_distinct(rows: Seq<RowView>, i: int)
    requires
        distinct_keys(rows),
        0 <= i < rows.len(),
    ensures
        first_row(rows, rows[i].0) == Some(i),
{
    assert(rows[i].0 == rows[i].0);
    let c = choose|c: int| 0 <= c < rows.len() && (#[trigger] rows[c]).0 == rows[i].0
        && forall|m: int| 0 <= m < c ==> (#[trigger] rows[m]).0 != rows[i].0;
    assert(forall|m: int| 0 <= m < i ==> (#[trigger] rows[m]).0 != rows[i].0);
    assert(exists|c: int| 0 <= c < rows.len() && (#[trigger] rows[c]).0 == rows[i].0
        && forall|m: int| 0 <= m < c ==> (#[trigger] rows[m]).0 != rows[i].0);
    assert(rows[c].0 == rows[i].0);
}

/// When the rows of the tree have distinct keys, moving up after moving down
/// selects the node that was selected again, and so does moving down after
/// moving up; both moves wrap around at the ends of the tree.
#[verifier::spinoff_prover]
#[verifier::rlimit(80)]
pub proof fn lemma_up_undoes_down(data: GuildsTreeData, ex: Set<NodeKey>, k: NodeKey, row: Option<usize>)
    requires
        distinct_keys(data.spec_flatten(ex, 65535)),
        first_row(data.spec_flatten(ex, 65535), k) is Some,
    ensures
        ({
            let d = tree_key_result(data, ex, Some(k), row, Some(Action::NavigateDown));
            tree_key_result(data, d.0, d.1, d.2, Some(Action::NavigateUp)).1 == Some(k)
        }),
        ({
            let u = tree_key_result(data, ex, Some(k), row, Some(Action::NavigateUp));
            tree_key_result(data, u.0, u.1, u.2, Some(Action::NavigateDown)).1 == Some(k)
        }),
{
    let rows = data.spec_flatten(ex, 65535);
    let n = rows.len() as int;
    let c = first_row(rows, k).unwrap();
    assert(0 <= c < n && rows[c].0 == k);
    let down = if c + 1 >= n { 0 } else { c + 1 };
    lemma_first_row_of_distinct(rows, down);
    let up = if c == 0 { n - 1 } else { c - 1 };
    lemma_first_row_of_distinct(rows, up);
}

} // verus!
