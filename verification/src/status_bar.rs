//! The status bar: three texts and a severity level.

use vstd::prelude::*;
use vstd::utf8::encode_utf8;
use crate::entities::copy_str;
use crate::theme::Color;

verus! {

/// The severity of a status message.
#[derive(Clone, Copy, Debug, PartialEq, Eq, Structural)]
pub enum StatusLevel {
    Info,
    Success,
    Warning,
    Error,
}

impl StatusLevel {
    /// The color of a level.
    pub open spec fn spec_color(self) -> Color {
        match self {
            StatusLevel::Info => Color::Cyan,
            StatusLevel::Success => Color::Green,
            StatusLevel::Warning => Color::Yellow,
            StatusLevel::Error => Color::Red,
        }
    }

    /// The color of a level: cyan, green, yellow or red.
    pub fn color(self) -> (c: Color)
        ensures
            c == self.spec_color(),
    {
        match self {
            StatusLevel::Info => Color::Cyan,
            StatusLevel::Success => Color::Green,
            StatusLevel::Warning => Color::Yellow,
            StatusLevel::Error => Color::Red,
        }
    }
}

/// The length in bytes of a text in UTF-8.
pub open spec fn byte_len(s: Seq<char>) -> nat {
    encode_utf8(s).len()
}

/// A status bar: left, centered and right texts, and a level.
#[derive(Debug, Clone)]
pub struct StatusBar {
    left: String,
    center: String,
    right: String,
    level: StatusLevel,
}

/// Where the status bar's texts go on a line: the spaces after the left text
/// and the spaces before the right text.
#[derive(Clone, Copy, Debug, PartialEq, Eq, Structural)]
pub struct StatusBarLayout {
    pub left_padding: usize,
    pub right_padding: usize,
}

impl StatusBar {
    /// The left text.
    pub closed spec fn left_text(&self) -> Seq<char> {
        self.left@
    }

    /// The centered text.
    pub closed spec fn center_text(&self) -> Seq<char> {
        self.center@
    }

    /// The right text.
    pub closed spec fn right_text(&self) -> Seq<char> {
        self.right@
    }

    /// The level.
    pub closed spec fn spec_level(&self) -> StatusLevel {
        self.level
    }

    /// An empty status bar at the informational level.
    pub fn new() -> (s: StatusBar)
        ensures
            s.left_text() == Seq::<char>::empty(),
            s.center_text() == Seq::<char>::empty(),
            s.right_text() == Seq::<char>::empty(),
            s.spec_level() == StatusLevel::Info,
    {
        StatusBar { left: String::new(), center: String::new(), right: String::new(), level: StatusLevel::Info }
    }

    /// The same bar with the given left text.
    pub fn left(self, content: &str) -> (s: StatusBar)
        ensures
            s.left_text() == content@,
            s.center_text() == self.center_text(),
            s.right_text() == self.right_text(),
            s.spec_level() == self.spec_level(),
    {
        let mut s = self;
        s.left = copy_str(content);
        s
    }

    /// The same bar with the given centered text.
    pub fn center(self, content: &str) -> (s: StatusBar)
        ensures
            s.center_text() == content@,
            s.left_text() == self.left_text(),
            s.right_text() == self.right_text(),
            s.spec_level() == self.spec_level(),
    {
        let mut s = self;
        s.center = copy_str(content);
        s
    }

    /// The same bar with the given right text.
    pub fn right(self, content: &str) -> (s: StatusBar)
        ensures
            s.right_text() == content@,
            s.left_text() == self.left_text(),
            s.center_text() == self.center_text(),
            s.spec_level() == self.spec_level(),
    {
        let mut s = self;
        s.right = copy_str(content);
        s
    }

    /// The same bar with the given level.
    pub fn level(self, level: StatusLevel) -> (s: StatusBar)
        ensures
            s.spec_level() == level,
            s.left_text() == self.left_text(),
            s.center_text() == self.center_text(),
            s.right_text() == self.right_text(),
    {
        let mut s = self;
        s.level = level;
        s
    }

    /// A bar with the message on the left at the informational level.
    pub fn info(message: &str) -> (s: StatusBar)
        ensures
            s.left_text() == message@,
            s.center_text() == Seq::<char>::empty(),
            s.right_text() == Seq::<char>::empty(),
            s.spec_level() == StatusLevel::Info,
    {
        Self::new().left(message).level(StatusLevel::Info)
    }

    /// A bar with the message on the left at the success level.
    pub fn success(message: &str) -> (s: StatusBar)
        ensures
            s.left_text() == message@,
            s.center_text() == Seq::<char>::empty(),
            s.right_text() == Seq::<char>::empty(),
            s.spec_level() == StatusLevel::Success,
    {
        Self::new().left(message).level(StatusLevel::Success)
    }

    /// A bar with the message on the left at the warning level.
    pub fn warning(message: &str) -> (s: StatusBar)
        ensures
            s.left_text() == message@,
            s.center_text() == Seq::<char>::empty(),
            s.right_text() == Seq::<char>::empty(),
            s.spec_level() == StatusLevel::Warning,
    {
        Self::new().left(message).level(StatusLevel::Warning)
    }

    /// A bar with the message on the left at the error level.
    pub fn error(message: &str) -> (s: StatusBar)
        ensures
            s.left_text() == message@,
            s.center_text() == Seq::<char>::empty(),
            s.right_text() == Seq::<char>::empty(),
            s.spec_level() == StatusLevel::Error,
    {
        Self::new().left(message).level(StatusLevel::Error)
    }

    /// The left text.
    pub fn left_str(&self) -> (s: &str)
        ensures
            s@ == self.left_text(),
    {
        self.left.as_str()
    }

    /// The centered text.
    pub fn center_str(&self) -> (s: &str)
        ensures
            s@ == self.center_text(),
    {
        self.center.as_str()
    }

    /// The right text.
    pub fn right_str(&self) -> (s: &str)
        ensures
            s@ == self.right_text(),
    {
        self.right.as_str()
    }

    /// The level.
    pub fn get_level(&self) -> (l: StatusLevel)
        ensures
            l == self.spec_level(),
    {
        self.level
    }

    /// The paddings on a line `width` bytes wide: the center text starts at
    /// half the space it leaves, the right text ends at the edge, and each
    /// padding is what remains before that start (none when the texts overlap).
    pub open spec fn spec_layout(&self, width: nat) -> StatusBarLayout {
        let l = byte_len(self.left_text());
        let c = byte_len(self.center_text());
        let r = byte_len(self.right_text());
        let center_start: int = if width >= c { (width - c) / 2 } else { 0 };
        let right_start: int = if width >= r { width - r } else { 0 };
        let left_padding: int = if center_start >= l { center_start - l } else { 0 };
        let current: int = l + left_padding + c;
        let right_padding: int = if right_start >= current { right_start - current } else { 0 };
        StatusBarLayout { left_padding: left_padding as usize, right_padding: right_padding as usize }
    }

    /// Where the texts go on a line `width` bytes wide.
    pub fn layout(&self, width: usize) -> (r: StatusBarLayout)
        requires
            byte_len(self.left_text()) + byte_len(self.center_text()) + width <= usize::MAX,
            byte_len(self.right_text()) <= usize::MAX,
        ensures
            r == self.spec_layout(width as nat),
    {
        let l = self.left.as_str().len();
        let c = self.center.as_str().len();
        let r = self.right.as_str().len();
        assert(l == byte_len(self.left_text()));
        assert(c == byte_len(self.center_text()));
        assert(r == byte_len(self.right_text()));
        let center_start = width.saturating_sub(c) / 2;
        let right_start = width.saturating_sub(r);
        let left_padding = center_start.saturating_sub(l);
        let current = l + left_padding + c;
        let right_padding = right_start.saturating_sub(current);
        StatusBarLayout { left_padding, right_padding }
    }
}

impl Default for StatusBar {
    fn default() -> (s: StatusBar)
        ensures
            s.left_text() == Seq::<char>::empty(),
            s.center_text() == Seq::<char>::empty(),
            s.right_text() == Seq::<char>::empty(),
            s.spec_level() == StatusLevel::Info,
    {
        Self::new()
    }
}

} // verus!
