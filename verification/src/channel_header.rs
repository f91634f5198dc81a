//! The line above the message list: the channel's icon and name on the left,
//! its online count and topic on the right.

use vstd::prelude::*;
use crate::chars::{append_chars, append_str, from_chars, to_chars};
use crate::status_bar::byte_len;
use crate::text::{to_uppercase, uppercase};
use crate::utils::{bytes_prefix, decimal, first_bytes, u64_to_decimal, utf8_len};

verus! {

/// The view of an optional string slice.
pub open spec fn opt_text(s: Option<&str>) -> Option<Seq<char>> {
    match s {
        Some(t) => Some(t@),
        None => None,
    }
}

/// A channel header: what it shows, each part optional.
pub struct ChannelHeader<'a> {
    channel_name: Option<&'a str>,
    channel_icon: Option<&'a str>,
    online_count: Option<u32>,
    topic: Option<&'a str>,
}

/// The text on the left: the icon and a space, then the name.
pub open spec fn spec_left_text(icon: Option<Seq<char>>, name: Option<Seq<char>>) -> Seq<char> {
    (match icon {
        Some(i) => i + seq![' '],
        None => seq![],
    }) + (match name {
        Some(n) => n,
        None => seq![],
    })
}

/// The width of the left text as a `u16` (its character count, cut to 16 bits).
pub open spec fn spec_left_width(icon: Option<Seq<char>>, name: Option<Seq<char>>) -> u16 {
    spec_left_text(icon, name).len() as u16
}

/// The online count as shown: the number and " ONLINE".
pub open spec fn spec_online_text(count: u32) -> Seq<char> {
    decimal(count as nat) + " ONLINE"@
}

/// The bytes left for the topic: the width less the left text and twenty.
pub open spec fn topic_room(width: u16, left_width: u16) -> int {
    if width >= left_width + 20 {
        width - (left_width + 20)
    } else {
        0
    }
}

/// The topic cut to `room` bytes: when longer, its first `room - 3` bytes
/// and "...".
pub open spec fn cut_topic(topic: Seq<char>, room: int) -> Seq<char> {
    if byte_len(topic) > room {
        bytes_prefix(topic, (if room >= 3 { room - 3 } else { 0 }) as nat).unwrap() + "..."@
    } else {
        topic
    }
}

/// The right text: the online count, a bullet when both show, then
/// "TOPIC: " and the cut topic in upper case.
pub open spec fn spec_right_text(count: Option<u32>, topic: Option<Seq<char>>, room: int) -> Seq<char> {
    (match count {
        Some(c) => spec_online_text(c),
        None => seq![],
    }) + (match topic {
        Some(t) => (if count is Some {
            " \u{2022} "@
        } else {
            seq![]
        }) + "TOPIC: "@ + uppercase(cut_topic(t, room)),
        None => seq![],
    })
}

/// Where the parts of a header go on a line.
pub struct ChannelHeaderLayout {
    /// The icon and a space, then the name.
    pub left_text: String,
    /// The width of the area the left text is drawn in.
    pub left_area_width: u16,
    /// The online count as shown.
    pub online: Option<String>,
    /// Whether a bullet separates the count from the topic.
    pub separator: bool,
    /// The topic as shown after "TOPIC: ": cut to the room left, upper case.
    pub topic: Option<String>,
    /// The width of the right text.
    pub right_width: u16,
    /// Whether the right text is drawn, against the right edge.
    pub show_right: bool,
}

fn online_chars(c: u32) -> (v: Vec<char>)
    ensures
        v@ == spec_online_text(c),
{
    let digits = u64_to_decimal(c as u64);
    let mut v = to_chars(digits.as_str());
    append_str(&mut v, " ONLINE");
    v
}

/// The topic as shown: cut to `room` bytes and in upper case.
fn shown_topic(t: &str, room: usize) -> (up: String)
    requires
        byte_len(t@) > room ==> bytes_prefix(t@, (if room >= 3 { room - 3 } else { 0 }) as nat) is Some,
    ensures
        up@ == uppercase(cut_topic(t@, room as int)),
{
    let tv = to_chars(t);
    let cut = if utf8_len(&tv) > room as u128 {
        let keep = room.saturating_sub(3);
        match first_bytes(&tv, keep) {
            Some(p) => {
                let mut p = p;
                append_str(&mut p, "...");
                p
            },
            None => {
                assert(false);
                tv
            },
        }
    } else {
        tv
    };
    assert(cut@ == cut_topic(t@, room as int));
    to_uppercase(from_chars(&cut).as_str())
}

impl<'a> ChannelHeader<'a> {
    /// The channel name.
    pub closed spec fn spec_name(&self) -> Option<Seq<char>> {
        opt_text(self.channel_name)
    }

    /// The channel icon.
    pub closed spec fn spec_icon(&self) -> Option<Seq<char>> {
        opt_text(self.channel_icon)
    }

    /// The online count.
    pub closed spec fn spec_count(&self) -> Option<u32> {
        self.online_count
    }

    /// The topic.
    pub closed spec fn spec_topic(&self) -> Option<Seq<char>> {
        opt_text(self.topic)
    }

    /// The width of the left text.
    pub open spec fn left_width(&self) -> u16 {
        spec_left_width(self.spec_icon(), self.spec_name())
    }

    /// The header can be laid out `width` columns wide without overflow: the
    /// sums with the left width fit 16 bits, and a topic that is cut is cut
    /// at a character boundary.
    pub open spec fn layout_defined(&self, width: u16) -> bool {
        let lw = self.left_width();
        &&& self.spec_topic() is Some ==> lw + 20 <= u16::MAX
        &&& self.spec_count() is Some ==> lw + 2 <= u16::MAX
        &&& match self.spec_topic() {
            Some(t) => byte_len(t) > topic_room(width, lw) ==> bytes_prefix(
                t,
                (if topic_room(width, lw) >= 3 { topic_room(width, lw) - 3 } else { 0 }) as nat,
            ) is Some,
            None => true,
        }
    }

    /// An empty header.
    pub fn new() -> (h: Self)
        ensures
            h.spec_name() is None,
            h.spec_icon() is None,
            h.spec_count() is None,
            h.spec_topic() is None,
    {
        ChannelHeader { channel_name: None, channel_icon: None, online_count: None, topic: None }
    }

    /// The header with the given channel name.
    pub fn channel_name(self, name: Option<&'a str>) -> (h: Self)
        ensures
            h.spec_name() == opt_text(name),
            h.spec_icon() == self.spec_icon(),
            h.spec_count() == self.spec_count(),
            h.spec_topic() == self.spec_topic(),
    {
        ChannelHeader { channel_name: name, ..self }
    }

    /// The header with the given channel icon.
    pub fn channel_icon(self, icon: Option<&'a str>) -> (h: Self)
        ensures
            h.spec_icon() == opt_text(icon),
            h.spec_name() == self.spec_name(),
            h.spec_count() == self.spec_count(),
            h.spec_topic() == self.spec_topic(),
    {
        ChannelHeader { channel_icon: icon, ..self }
    }

    /// The header with the given online count.
    pub fn online_count(self, count: Option<u32>) -> (h: Self)
        ensures
            h.spec_count() == count,
            h.spec_name() == self.spec_name(),
            h.spec_icon() == self.spec_icon(),
            h.spec_topic() == self.spec_topic(),
    {
        ChannelHeader { online_count: count, ..self }
    }

    /// The header with the given topic.
    pub fn topic(self, topic: Option<&'a str>) -> (h: Self)
        ensures
            h.spec_topic() == opt_text(topic),
            h.spec_name() == self.spec_name(),
            h.spec_icon() == self.spec_icon(),
            h.spec_count() == self.spec_count(),
    {
        ChannelHeader { topic, ..self }
    }

    fn left_chars(&self) -> (v: Vec<char>)
        ensures
            v@ == spec_left_text(self.spec_icon(), self.spec_name()),
    {
        let mut left: Vec<char> = Vec::new();
        match self.channel_icon {
            Some(i) => {
                append_str(&mut left, i);
                left.push(' ');
            },
            None => {},
        }
        match self.channel_name {
            Some(n) => append_str(&mut left, n),
            None => {},
        }
        assert(left@ =~= spec_left_text(self.spec_icon(), self.spec_name()));
        left
    }

    /// Where the parts go on a line `width` columns wide and `height` rows
    /// high; nothing is drawn in an empty area. The left text takes at most a
    /// third of the line; the right text is drawn only where it leaves two
    /// columns after the left text.
    pub fn layout(&self, width: u16, height: u16) -> (r: Option<ChannelHeaderLayout>)
        requires
            width > 0 && height > 0 ==> self.layout_defined(width),
        ensures
            r is None <==> (width == 0 || height == 0),
            r matches Some(l) ==> {
                let lw = self.left_width();
                let room = topic_room(width, lw);
                &&& l.left_text@ == spec_left_text(self.spec_icon(), self.spec_name())
                &&& l.left_area_width == (if lw <= width / 3 { lw } else { width / 3 })
                &&& match self.spec_count() {
                    Some(c) => l.online matches Some(o) && o@ == spec_online_text(c),
                    None => l.online is None,
                }
                &&& l.separator == (self.spec_count() is Some && self.spec_topic() is Some)
                &&& match self.spec_topic() {
                    Some(t) => l.topic matches Some(x) && x@ == uppercase(cut_topic(t, room)),
                    None => l.topic is None,
                }
                &&& l.right_width == spec_right_text(self.spec_count(), self.spec_topic(), room).len() as u16
                &&& l.show_right == ((self.spec_count() is Some || self.spec_topic() is Some) && l.right_width < (if width
                    >= lw + 2 { width - (lw + 2) } else { 0 }))
            },
    {
        if width == 0 || height == 0 {
            return None;
        }
        let left = self.left_chars();
        let lw = left.len() as u16;
        let third = width / 3;
        let left_area_width = if lw <= third {
            lw
        } else {
            third
        };
        let ghost room = topic_room(width, lw);
        let mut right: Vec<char> = Vec::new();
        let online = match self.online_count {
            Some(c) => {
                let v = online_chars(c);
                append_chars(&mut right, &v);
                Some(from_chars(&v))
            },
            None => None,
        };
        let separator = self.online_count.is_some() && self.topic.is_some();
        let topic = match self.topic {
            Some(t) => {
                let room_now = width.saturating_sub(lw + 20) as usize;
                assert(room_now == room);
                let up = shown_topic(t, room_now);
                if separator {
                    append_str(&mut right, " \u{2022} ");
                }
                append_str(&mut right, "TOPIC: ");
                append_str(&mut right, up.as_str());
                Some(up)
            },
            None => None,
        };
        assert(right@ =~= spec_right_text(self.spec_count(), self.spec_topic(), room));
        let right_width = right.len() as u16;
        let show_right = if self.online_count.is_some() || self.topic.is_some() {
            right_width < width.saturating_sub(lw + 2)
        } else {
            false
        };
        Some(ChannelHeaderLayout {
            left_text: from_chars(&left),
            left_area_width,
            online,
            separator,
            topic,
            right_width,
            show_right,
        })
    }

    /// Whether `layout` can be asked for at this width.
    pub fn can_layout(&self, width: u16) -> (b: bool)
        ensures
            b == self.layout_defined(width),
    {
        let left = self.left_chars();
        let lw = left.len() as u16;
        if self.topic.is_some() && lw > 65515 {
            return false;
        }
        if self.online_count.is_some() && lw > 65533 {
            return false;
        }
        match self.topic {
            Some(t) => {
                let room = width.saturating_sub(lw + 20) as usize;
                let tv = to_chars(t);
                if utf8_len(&tv) > room as u128 {
                    first_bytes(&tv, room.saturating_sub(3)).is_some()
                } else {
                    true
                }
            },
            None => true,
        }
    }

    /// The channel name.
    pub fn get_channel_name(&self) -> (r: Option<&'a str>)
        ensures
            opt_text(r) == self.spec_name(),
    {
        self.channel_name
    }

    /// The channel icon.
    pub fn get_channel_icon(&self) -> (r: Option<&'a str>)
        ensures
            opt_text(r) == self.spec_icon(),
    {
        self.channel_icon
    }

    /// The online count.
    pub fn get_online_count(&self) -> (r: Option<u32>)
        ensures
            r == self.spec_count(),
    {
        self.online_count
    }

    /// The topic.
    pub fn get_topic(&self) -> (r: Option<&'a str>)
        ensures
            opt_text(r) == self.spec_topic(),
    {
        self.topic
    }
}

} // verus!
