//! Keyboard events as the library sees them, the actions that keys are bound
//! to, and the terminal event handler's decisions.

use vstd::prelude::*;
use std::time::Duration;

verus! {

/// A key on the keyboard.
#[derive(Clone, Copy, Debug, PartialEq, Eq, Structural, Hash)]
pub enum KeyCode {
    Backspace,
    Enter,
    Left,
    Right,
    Up,
    Down,
    Home,
    End,
    PageUp,
    PageDown,
    Tab,
    BackTab,
    Delete,
    Insert,
    F(u8),
    Char(char),
    Null,
    Esc,
    CapsLock,
    ScrollLock,
    NumLock,
    PrintScreen,
    Pause,
    Menu,
    KeypadBegin,
}

/// The modifier keys held with a key, as a set of bits.
#[derive(Clone, Copy, Debug, PartialEq, Eq, Structural, Hash)]
pub struct KeyModifiers {
    pub bits: u8,
}

pub const MOD_SHIFT: u8 = 1;
pub const MOD_CONTROL: u8 = 2;
pub const MOD_ALT: u8 = 4;
pub const MOD_SUPER: u8 = 8;
pub const MOD_HYPER: u8 = 16;
pub const MOD_META: u8 = 32;

impl KeyModifiers {
    /// Whether every bit of `flag` is set.
    pub open spec fn has(self, flag: u8) -> bool {
        self.bits & flag == flag
    }

    /// No modifier.
    pub fn none() -> (m: KeyModifiers)
        ensures
            m.bits == 0,
    {
        KeyModifiers { bits: 0 }
    }

    /// The modifier set holding exactly the given bits.
    pub fn from_bits(bits: u8) -> (m: KeyModifiers)
        ensures
            m.bits == bits,
    {
        KeyModifiers { bits }
    }

    /// Whether every bit of `flag` is set.
    pub fn contains(&self, flag: u8) -> (b: bool)
        ensures
            b == self.has(flag),
    {
        self.bits & flag == flag
    }

    /// Sets the bits of `flag`.
    pub fn insert(&mut self, flag: u8)
        ensures
            final(self).bits == old(self).bits | flag,
    {
        self.bits = self.bits | flag;
    }
}

/// Whether a key was pressed, repeated or released.
#[derive(Clone, Copy, Debug, PartialEq, Eq, Structural, Hash)]
pub enum KeyEventKind {
    Press,
    Repeat,
    Release,
}

/// A key event: the key, its modifiers, its kind and the keyboard state bits.
#[derive(Clone, Copy, Debug, Hash)]
pub struct KeyEvent {
    pub code: KeyCode,
    pub modifiers: KeyModifiers,
    pub kind: KeyEventKind,
    pub state: u8,
}

/// A character is an ASCII upper-case letter.
pub open spec fn is_ascii_upper(c: char) -> bool {
    'A' <= c && c <= 'Z'
}

/// A character is an ASCII lower-case letter.
pub open spec fn is_ascii_lower(c: char) -> bool {
    'a' <= c && c <= 'z'
}

/// The upper-case form of an ASCII lower-case letter; other characters are kept.
pub open spec fn ascii_upper(c: char) -> char {
    if is_ascii_lower(c) {
        ((c as u32) - 32) as char
    } else {
        c
    }
}

/// Executable form of `ascii_upper`.
pub fn to_ascii_upper(c: char) -> (r: char)
    ensures
        r == ascii_upper(c),
{
    if 'a' <= c && c <= 'z' {
        let n: u32 = (c as u32) - 32;
        proof {
            assert(0x41 <= n <= 0x5a);
        }
        char_from_ascii(n)
    } else {
        c
    }
}

/// The character with the given ASCII code point.
fn char_from_ascii(n: u32) -> (c: char)
    requires
        n < 128,
    ensures
        c == n as char,
{
    // an ASCII code point is always a valid character
    (n as u8) as char
}

impl KeyEvent {
    /// A key press with the given code and modifiers and an empty state.
    pub fn new(code: KeyCode, modifiers: KeyModifiers) -> (e: KeyEvent)
        ensures
            e == (KeyEvent { code, modifiers, kind: KeyEventKind::Press, state: 0 }),
    {
        KeyEvent { code, modifiers, kind: KeyEventKind::Press, state: 0 }
    }

    /// A key event with the given kind.
    pub fn new_with_kind(code: KeyCode, modifiers: KeyModifiers, kind: KeyEventKind) -> (e: KeyEvent)
        ensures
            e == (KeyEvent { code, modifiers, kind, state: 0 }),
    {
        KeyEvent { code, modifiers, kind, state: 0 }
    }

    /// The event with the case of a character key and the SHIFT bit made to
    /// agree: an upper-case letter implies SHIFT, and SHIFT turns a letter upper-case.
    pub open spec fn normalized(self) -> KeyEvent {
        match self.code {
            KeyCode::Char(c) => {
                if is_ascii_upper(c) {
                    KeyEvent {
                        modifiers: KeyModifiers { bits: self.modifiers.bits | MOD_SHIFT },
                        ..self
                    }
                } else if self.modifiers.has(MOD_SHIFT) {
                    KeyEvent { code: KeyCode::Char(ascii_upper(c)), ..self }
                } else {
                    self
                }
            },
            _ => self,
        }
    }

    /// Executable form of `normalized`.
    pub fn normalize_case(&self) -> (e: KeyEvent)
        ensures
            e == self.normalized(),
    {
        match self.code {
            KeyCode::Char(c) => {
                if 'A' <= c && c <= 'Z' {
                    KeyEvent {
                        code: self.code,
                        modifiers: KeyModifiers { bits: self.modifiers.bits | MOD_SHIFT },
                        kind: self.kind,
                        state: self.state,
                    }
                } else if self.modifiers.contains(MOD_SHIFT) {
                    KeyEvent {
                        code: KeyCode::Char(to_ascii_upper(c)),
                        modifiers: self.modifiers,
                        kind: self.kind,
                        state: self.state,
                    }
                } else {
                    *self
                }
            },
            _ => *self,
        }
    }
}

/// Two key events are the same key when they agree after case normalization.
pub open spec fn same_key(a: KeyEvent, b: KeyEvent) -> bool {
    a.normalized() == b.normalized()
}

impl PartialEq for KeyEvent {
    fn eq(&self, other: &KeyEvent) -> (r: bool) {
        let a = self.normalize_case();
        let b = other.normalize_case();
        a.code == b.code && a.modifiers == b.modifiers && a.kind == b.kind && a.state == b.state
    }
}

impl vstd::std_specs::cmp::PartialEqSpecImpl for KeyEvent {
    open spec fn obeys_eq_spec() -> bool {
        true
    }

    open spec fn eq_spec(&self, other: &KeyEvent) -> bool {
        same_key(*self, *other)
    }
}

impl Eq for KeyEvent {}

/// What a key binding asks the application to do.
#[derive(Clone, Copy, Debug, PartialEq, Eq, Structural, Hash)]
pub enum Action {
    Quit,
    Logout,
    SecureLogout,
    ToggleHelp,
    FocusGuilds,
    FocusMessages,
    FocusInput,
    FocusNext,
    FocusPrevious,
    ToggleGuildsTree,
    ToggleFileExplorer,
    ToggleHiddenFiles,
    NextTab,
    NavigateUp,
    NavigateDown,
    NavigateLeft,
    NavigateRight,
    Select,
    SelectFirst,
    SelectLast,
    Collapse,
    MoveToParent,
    ScrollDown,
    ScrollUp,
    ScrollToTop,
    ScrollToBottom,
    Cancel,
    ClearSelection,
    Reply,
    ReplyNoMention,
    EditMessage,
    DeleteMessage,
    CopyContent,
    CopyImage,
    YankId,
    OpenAttachments,
    JumpToReply,
    SendMessage,
    OpenEditor,
    ClearInput,
    Paste,
    ToggleDisplayName,
    ToggleQuickSwitcher,
    NoAction,
}

/// What an event handler tells its caller.
#[derive(Clone, Copy, Debug, PartialEq, Eq, Structural)]
pub enum EventResult {
    /// Continue processing.
    Continue,
    /// Exit the application.
    Exit,
    /// The event was consumed.
    Consumed,
}

/// The length of a duration in nanoseconds, as `Duration::as_nanos` gives it.
pub uninterp spec fn nanos_of(d: Duration) -> u128;

/// `std::time::Duration::from_millis`: a duration of exactly `ms`
/// milliseconds, that is `ms` million nanoseconds.
#[verifier::external_body]
pub(crate) fn duration_from_millis(ms: u64) -> (d: Duration)
    ensures
        nanos_of(d) == ms as u128 * 1_000_000,
{
    Duration::from_millis(ms)
}

/// The longest duration, `Duration::MAX`, in nanoseconds: `u64::MAX`
/// seconds and 999 999 999 nanoseconds.
pub open spec fn max_duration_nanos() -> u128 {
    (u64::MAX as u128 * 1_000_000_000 + 999_999_999) as u128
}

/// `std::time::Duration::saturating_add`: the sum of two durations, or
/// `Duration::MAX` where the sum would overflow.
#[verifier::external_body]
pub(crate) fn duration_saturating_add(a: Duration, b: Duration) -> (d: Duration)
    ensures
        nanos_of(d) == if nanos_of(a) + nanos_of(b) <= max_duration_nanos() {
            (nanos_of(a) + nanos_of(b)) as u128
        } else {
            max_duration_nanos()
        },
{
    a.saturating_add(b)
}

/// `std::time::Duration::as_millis`: the whole milliseconds of a duration,
/// its nanoseconds divided by a million.
#[verifier::external_body]
fn duration_as_millis(d: Duration) -> (r: u128)
    ensures
        r == nanos_of(d) / 1_000_000,
{
    d.as_millis()
}

/// The terminal event handler's configuration: how long one poll waits.
pub struct EventHandler {
    poll_timeout: Duration,
}

impl EventHandler {
    /// The poll timeout used by `new`, in milliseconds.
    pub open spec fn default_poll_timeout_ms() -> u128 {
        100
    }

    /// The poll timeout.
    pub closed spec fn timeout(&self) -> Duration {
        self.poll_timeout
    }

    /// A handler with the default timeout of 100 ms.
    pub fn new() -> (h: EventHandler)
        ensures
            nanos_of(h.timeout()) == Self::default_poll_timeout_ms() * 1_000_000,
    {
        EventHandler { poll_timeout: duration_from_millis(100) }
    }

    /// A handler with the given timeout.
    pub fn with_timeout(timeout: Duration) -> (h: EventHandler)
        ensures
            h.timeout() == timeout,
    {
        EventHandler { poll_timeout: timeout }
    }

    /// The poll timeout.
    pub fn poll_timeout(&self) -> (t: Duration)
        ensures
            t == self.timeout(),
    {
        self.poll_timeout
    }

    /// The poll timeout, in whole milliseconds.
    pub fn poll_timeout_ms(&self) -> (t: u128)
        ensures
            t == nanos_of(self.timeout()) / 1_000_000,
    {
        duration_as_millis(self.poll_timeout)
    }

    /// `q` or `Esc` with no modifier, or `Ctrl+c`, asks to quit.
    pub open spec fn spec_is_quit(key: KeyEvent) -> bool {
        (key.code == KeyCode::Char('q') && key.modifiers.bits == 0)
            || (key.code == KeyCode::Char('c') && key.modifiers.bits == MOD_CONTROL)
            || (key.code == KeyCode::Esc && key.modifiers.bits == 0)
    }

    /// Whether the key asks to quit.
    pub fn is_quit_event(key: &KeyEvent) -> (b: bool)
        ensures
            b == Self::spec_is_quit(*key),
    {
        match key.code {
            KeyCode::Char(c) => {
                (c == 'q' && key.modifiers.bits == 0) || (c == 'c' && key.modifiers.bits == MOD_CONTROL)
            },
            KeyCode::Esc => key.modifiers.bits == 0,
            _ => false,
        }
    }

    /// Whether the key submits: `Enter`, whatever the modifiers.
    pub fn is_submit_event(key: &KeyEvent) -> (b: bool)
        ensures
            b == (key.code == KeyCode::Enter),
    {
        match key.code {
            KeyCode::Enter => true,
            _ => false,
        }
    }
}

impl Default for EventHandler {
    fn default() -> (h: EventHandler)
        ensures
            nanos_of(h.timeout()) == Self::default_poll_timeout_ms() * 1_000_000,
    {
        Self::new()
    }
}

/// Whether a key leaves the application before any screen sees it: Ctrl+c
/// always, and Esc with any modifiers on the login screen.
pub open spec fn spec_exits_app(at_login: bool, key: KeyEvent) -> bool {
    (key.code == KeyCode::Char('c') && key.modifiers.bits == MOD_CONTROL) || (at_login && key.code == KeyCode::Esc)
}

/// Whether a key leaves the application before any screen sees it.
pub fn exits_app(at_login: bool, key: &KeyEvent) -> (b: bool)
    ensures
        b == spec_exits_app(at_login, *key),
{
    let ctrl_c = match key.code {
        KeyCode::Char(c) => c == 'c' && key.modifiers.bits == MOD_CONTROL,
        _ => false,
    };
    let esc = match key.code {
        KeyCode::Esc => true,
        _ => false,
    };
    ctrl_c || (at_login && esc)
}

} // verus!
