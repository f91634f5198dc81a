//! The Discord entities the user interface shows: users, guilds, channels,
//! folders, read states and the connection status.

use vstd::prelude::*;
use crate::chars::{from_chars, to_chars};

verus! {

/// A copy of a string slice.
pub fn copy_str(s: &str) -> (r: String)
    ensures
        r@ == s@,
{
    let v = to_chars(s);
    from_chars(&v)
}

/// A Discord user.
#[derive(Debug, Clone)]
pub struct User {
    id: String,
    username: String,
    discriminator: String,
    avatar: Option<String>,
    bot: bool,
}

impl User {
    /// The user's id.
    pub closed spec fn spec_id(&self) -> Seq<char> {
        self.id@
    }

    /// The user's name.
    pub closed spec fn spec_username(&self) -> Seq<char> {
        self.username@
    }

    /// The user's discriminator.
    pub closed spec fn spec_discriminator(&self) -> Seq<char> {
        self.discriminator@
    }

    /// Whether the user is a bot.
    pub closed spec fn spec_bot(&self) -> bool {
        self.bot
    }

    /// A user with the given id, name, discriminator, avatar hash and bot flag.
    pub fn new(id: &str, username: &str, discriminator: &str, avatar: Option<&str>, bot: bool) -> (u: User)
        ensures
            u.spec_id() == id@,
            u.spec_username() == username@,
            u.spec_discriminator() == discriminator@,
            u.spec_bot() == bot,
    {
        User {
            id: copy_str(id),
            username: copy_str(username),
            discriminator: copy_str(discriminator),
            avatar: match avatar {
                Some(a) => Some(copy_str(a)),
                None => None,
            },
            bot,
        }
    }

    /// The user's id.
    pub fn id(&self) -> (s: &str)
        ensures
            s@ == self.spec_id(),
    {
        self.id.as_str()
    }

    /// The user's name.
    pub fn username(&self) -> (s: &str)
        ensures
            s@ == self.spec_username(),
    {
        self.username.as_str()
    }

    /// The name shown for the user: the user name.
    pub fn display_name(&self) -> (s: &str)
        ensures
            s@ == self.spec_username(),
    {
        self.username.as_str()
    }

    /// Whether the user is a bot.
    pub fn is_bot(&self) -> (b: bool)
        ensures
            b == self.spec_bot(),
    {
        self.bot
    }
}

/// The state of the connection to the gateway.
#[derive(Clone, Copy, Debug, PartialEq, Eq, Structural)]
pub enum ConnectionStatus {
    Disconnected,
    Connecting,
    Connected,
    Reconnecting,
    Error,
}

impl Default for ConnectionStatus {
    fn default() -> (s: ConnectionStatus)
        ensures
            s == ConnectionStatus::Disconnected,
    {
        ConnectionStatus::Disconnected
    }
}

/// The kind of a channel.
#[derive(Clone, Copy, Debug, PartialEq, Eq, Structural)]
pub enum ChannelKind {
    Text,
    Voice,
    Category,
    Announcement,
    Stage,
    Forum,
    Thread,
    Dm,
    GroupDm,
}

impl ChannelKind {
    /// Categories group channels.
    pub open spec fn spec_is_category(self) -> bool {
        self == ChannelKind::Category
    }

    /// Channels that hold text messages.
    pub open spec fn spec_is_text_based(self) -> bool {
        match self {
            ChannelKind::Text | ChannelKind::Announcement | ChannelKind::Thread | ChannelKind::Dm
            | ChannelKind::GroupDm => true,
            _ => false,
        }
    }

    /// Voice and stage channels.
    pub open spec fn spec_is_voice(self) -> bool {
        match self {
            ChannelKind::Voice | ChannelKind::Stage => true,
            _ => false,
        }
    }

    /// Whether the kind is a category.
    pub fn is_category(self) -> (b: bool)
        ensures
            b == self.spec_is_category(),
    {
        match self {
            ChannelKind::Category => true,
            _ => false,
        }
    }

    /// Whether the kind holds text messages.
    pub fn is_text_based(self) -> (b: bool)
        ensures
            b == self.spec_is_text_based(),
    {
        match self {
            ChannelKind::Text | ChannelKind::Announcement | ChannelKind::Thread | ChannelKind::Dm
            | ChannelKind::GroupDm => true,
            _ => false,
        }
    }

    /// Whether the kind is a voice channel.
    pub fn is_voice(self) -> (b: bool)
        ensures
            b == self.spec_is_voice(),
    {
        match self {
            ChannelKind::Voice | ChannelKind::Stage => true,
            _ => false,
        }
    }

    /// The icon shown before a channel's name.
    pub open spec fn spec_prefix(self) -> Seq<char> {
        match self {
            ChannelKind::Text => "# "@,
            ChannelKind::Announcement => "! "@,
            ChannelKind::Thread => "^ "@,
            ChannelKind::Voice | ChannelKind::Stage => "\u{f057e} "@,
            ChannelKind::Forum => "\u{f0b79} "@,
            ChannelKind::Dm | ChannelKind::GroupDm => "@ "@,
            ChannelKind::Category => ""@,
        }
    }

    /// The icon shown before a channel's name.
    pub fn prefix(self) -> (s: &'static str)
        ensures
            s@ == self.spec_prefix(),
    {
        match self {
            ChannelKind::Text => "# ",
            ChannelKind::Announcement => "! ",
            ChannelKind::Thread => "^ ",
            ChannelKind::Voice | ChannelKind::Stage => "\u{f057e} ",
            ChannelKind::Forum => "\u{f0b79} ",
            ChannelKind::Dm | ChannelKind::GroupDm => "@ ",
            ChannelKind::Category => "",
        }
    }

    /// Whether the guilds tree lists channels of this kind.
    pub open spec fn spec_is_listed(self) -> bool {
        self.spec_is_text_based() || self.spec_is_voice() || self == ChannelKind::Forum
    }
}

/// A channel of a guild.
#[derive(Debug, Clone)]
pub struct Channel {
    pub id: u64,
    pub name: String,
    pub kind: ChannelKind,
    pub parent_id: Option<u64>,
    pub position: i32,
    pub last_message_id: Option<u64>,
    pub unread: bool,
    pub topic: Option<String>,
}

impl Channel {
    /// A channel with no parent, at position 0, with no message and read.
    pub fn new(id: u64, name: &str, kind: ChannelKind) -> (c: Channel)
        ensures
            c.id == id,
            c.name@ == name@,
            c.kind == kind,
            c.parent_id is None,
            c.position == 0,
            c.last_message_id is None,
            !c.unread,
            c.topic is None,
    {
        Channel {
            id,
            name: copy_str(name),
            kind,
            parent_id: None,
            position: 0,
            last_message_id: None,
            unread: false,
            topic: None,
        }
    }
}

/// A guild (server).
#[derive(Debug, Clone)]
pub struct Guild {
    pub id: u64,
    pub name: String,
    pub unread: bool,
}

impl Guild {
    /// A guild with the given id and name, read.
    pub fn new(id: u64, name: &str) -> (g: Guild)
        ensures
            g.id == id,
            g.name@ == name@,
            !g.unread,
    {
        Guild { id, name: copy_str(name), unread: false }
    }
}

/// A folder of guilds.
#[derive(Debug, Clone)]
pub struct GuildFolder {
    pub id: Option<u64>,
    pub name: Option<String>,
    pub color: Option<u32>,
    pub guild_ids: Vec<u64>,
}

/// The last message read in a channel, and how many mentions of the user
/// arrived since.
#[derive(Clone, Copy, Debug, PartialEq, Eq, Structural)]
pub struct ReadState {
    pub channel_id: u64,
    pub last_read_message_id: Option<u64>,
    pub mention_count: u32,
}

impl ReadState {
    /// A read state with no mentions.
    pub fn new(channel_id: u64, last_read_message_id: Option<u64>) -> (r: ReadState)
        ensures
            r == (ReadState { channel_id, last_read_message_id, mention_count: 0 }),
    {
        ReadState { channel_id, last_read_message_id, mention_count: 0 }
    }
}

/// A thread of a forum channel.
#[derive(Debug, Clone)]
pub struct ForumThread {
    pub id: u64,
    pub guild_id: Option<u64>,
    pub name: String,
    pub author_id: String,
    pub message_count: u32,
    pub reaction_count: u32,
    pub last_message_id: Option<u64>,
    /// Whether the thread holds messages not read yet.
    pub new: bool,
}

/// A channel as plain values.
pub open spec fn channel_view(c: Channel) -> (u64, Seq<char>, ChannelKind, Option<u64>, i32, Option<u64>, bool, Option<Seq<char>>) {
    (
        c.id,
        c.name@,
        c.kind,
        c.parent_id,
        c.position,
        c.last_message_id,
        c.unread,
        match c.topic {
            Some(t) => Some(t@),
            None => None,
        },
    )
}

/// A copy of a channel.
pub fn copy_channel(c: &Channel) -> (r: Channel)
    ensures
        channel_view(r) == channel_view(*c),
{
    Channel {
        id: c.id,
        name: copy_str(c.name.as_str()),
        kind: c.kind,
        parent_id: c.parent_id,
        position: c.position,
        last_message_id: c.last_message_id,
        unread: c.unread,
        topic: match &c.topic {
            Some(t) => Some(copy_str(t.as_str())),
            None => None,
        },
    }
}

/// A forum thread as plain values.
pub open spec fn thread_view(t: ForumThread) -> (u64, Option<u64>, Seq<char>, Seq<char>, u32, u32, Option<u64>, bool) {
    (t.id, t.guild_id, t.name@, t.author_id@, t.message_count, t.reaction_count, t.last_message_id, t.new)
}

/// A copy of a forum thread.
pub fn copy_thread(t: &ForumThread) -> (r: ForumThread)
    ensures
        thread_view(r) == thread_view(*t),
{
    ForumThread {
        id: t.id,
        guild_id: t.guild_id,
        name: copy_str(t.name.as_str()),
        author_id: copy_str(t.author_id.as_str()),
        message_count: t.message_count,
        reaction_count: t.reaction_count,
        last_message_id: t.last_message_id,
        new: t.new,
    }
}

} // verus!
