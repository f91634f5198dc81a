//! The footer bar: the focused pane and the key bindings of the moment.

use vstd::prelude::*;
use crate::chars::{append_chars, append_str, from_chars, to_chars};
use crate::entities::copy_str;
use crate::keys::{Action, KeyCode, KeyEvent, MOD_ALT, MOD_CONTROL, MOD_SHIFT};
use crate::utils::{decimal, u64_to_decimal};

verus! {

/// The pane that has focus, as the footer names it.
#[derive(Clone, Copy, Debug, PartialEq, Eq, Structural)]
pub enum FocusContext {
    GuildsTree,
    MessagesList,
    MessageInput,
    ConfirmationModal,
}

impl Default for FocusContext {
    fn default() -> (f: FocusContext)
        ensures
            f == FocusContext::GuildsTree,
    {
        FocusContext::GuildsTree
    }
}

/// The name of a focus context.
pub open spec fn spec_focus_name(f: FocusContext) -> Seq<char> {
    match f {
        FocusContext::GuildsTree => "GUILDS"@,
        FocusContext::MessagesList => "MESSAGES"@,
        FocusContext::MessageInput => "INPUT"@,
        FocusContext::ConfirmationModal => "CONFIRM"@,
    }
}

impl FocusContext {
    /// The name shown for the context.
    pub fn display_name(self) -> (s: &'static str)
        ensures
            s@ == spec_focus_name(self),
    {
        match self {
            FocusContext::GuildsTree => "GUILDS",
            FocusContext::MessagesList => "MESSAGES",
            FocusContext::MessageInput => "INPUT",
            FocusContext::ConfirmationModal => "CONFIRM",
        }
    }
}

/// A key binding as shown to the user.
#[derive(Clone, Debug)]
pub struct Keybind {
    pub key: KeyEvent,
    pub action: Action,
    pub label: String,
    pub key_display: Option<String>,
    pub visible_in_bar: bool,
}

impl Keybind {
    /// A binding shown in the bar under its key's own name.
    pub fn new(key: KeyEvent, action: Action, label: &str) -> (b: Keybind)
        ensures
            b.key == key,
            b.action == action,
            b.label@ == label@,
            b.key_display is None,
            b.visible_in_bar,
    {
        Keybind { key, action, label: copy_str(label), key_display: None, visible_in_bar: true }
    }

    /// The binding shown under another name for its key.
    pub fn with_display(self, display: &str) -> (b: Keybind)
        ensures
            b.key == self.key,
            b.action == self.action,
            b.label == self.label,
            b.key_display matches Some(d) && d@ == display@,
            b.visible_in_bar == self.visible_in_bar,
    {
        Keybind { key_display: Some(copy_str(display)), ..self }
    }
}

/// The name of a key code without modifiers.
pub open spec fn spec_code_label(code: KeyCode) -> Seq<char> {
    match code {
        KeyCode::Char(c) => seq![c],
        KeyCode::Enter => "Enter"@,
        KeyCode::Esc => "Esc"@,
        KeyCode::Tab => "Tab"@,
        KeyCode::Backspace => "Bksp"@,
        KeyCode::Up => "\u{2191}"@,
        KeyCode::Down => "\u{2193}"@,
        KeyCode::Left => "\u{2190}"@,
        KeyCode::Right => "\u{2192}"@,
        KeyCode::F(n) => "F"@ + decimal(n as nat),
        KeyCode::Home => "Home"@,
        KeyCode::End => "End"@,
        KeyCode::PageUp => "PageUp"@,
        KeyCode::PageDown => "PageDown"@,
        KeyCode::BackTab => "BackTab"@,
        KeyCode::Delete => "Delete"@,
        KeyCode::Insert => "Insert"@,
        KeyCode::Null => "Null"@,
        KeyCode::CapsLock => "CapsLock"@,
        KeyCode::ScrollLock => "ScrollLock"@,
        KeyCode::NumLock => "NumLock"@,
        KeyCode::PrintScreen => "PrintScreen"@,
        KeyCode::Pause => "Pause"@,
        KeyCode::Menu => "Menu"@,
        KeyCode::KeypadBegin => "KeypadBegin"@,
    }
}

/// The short form of a key: `C-` for Control, `A-` for Alt, `S-` for Shift
/// on a non-character key, then the key's name.
pub open spec fn spec_format_key(key: KeyEvent) -> Seq<char> {
    (if key.modifiers.has(MOD_CONTROL) { "C-"@ } else { Seq::<char>::empty() })
        + (if key.modifiers.has(MOD_ALT) { "A-"@ } else { Seq::<char>::empty() })
        + (if key.modifiers.has(MOD_SHIFT) && !(key.code is Char) { "S-"@ } else { Seq::<char>::empty() })
        + spec_code_label(key.code)
}

fn code_label(code: KeyCode, v: &mut Vec<char>)
    ensures
        final(v)@ == old(v)@ + spec_code_label(code),
{
    match code {
        KeyCode::Char(c) => {
            v.push(c);
            assert(final(v)@ =~= old(v)@ + seq![c]);
        },
        KeyCode::Enter => append_str(v, "Enter"),
        KeyCode::Esc => append_str(v, "Esc"),
        KeyCode::Tab => append_str(v, "Tab"),
        KeyCode::Backspace => append_str(v, "Bksp"),
        KeyCode::Up => append_str(v, "\u{2191}"),
        KeyCode::Down => append_str(v, "\u{2193}"),
        KeyCode::Left => append_str(v, "\u{2190}"),
        KeyCode::Right => append_str(v, "\u{2192}"),
        KeyCode::F(n) => {
            let ghost start = v@;
            append_str(v, "F");
            let d = u64_to_decimal(n as u64);
            append_str(v, d.as_str());
            assert(v@ =~= start + ("F"@ + decimal(n as nat)));
        },
        KeyCode::Home => append_str(v, "Home"),
        KeyCode::End => append_str(v, "End"),
        KeyCode::PageUp => append_str(v, "PageUp"),
        KeyCode::PageDown => append_str(v, "PageDown"),
        KeyCode::BackTab => append_str(v, "BackTab"),
        KeyCode::Delete => append_str(v, "Delete"),
        KeyCode::Insert => append_str(v, "Insert"),
        KeyCode::Null => append_str(v, "Null"),
        KeyCode::CapsLock => append_str(v, "CapsLock"),
        KeyCode::ScrollLock => append_str(v, "ScrollLock"),
        KeyCode::NumLock => append_str(v, "NumLock"),
        KeyCode::PrintScreen => append_str(v, "PrintScreen"),
        KeyCode::Pause => append_str(v, "Pause"),
        KeyCode::Menu => append_str(v, "Menu"),
        KeyCode::KeypadBegin => append_str(v, "KeypadBegin"),
    }
}

/// The short form of a key, such as `C-k`, `S-Tab` or `F1`.
pub fn format_key(key: &KeyEvent) -> (s: String)
    ensures
        s@ == spec_format_key(*key),
{
    let mut v: Vec<char> = Vec::new();
    let ghost e = Seq::<char>::empty();
    let ctrl = key.modifiers.contains(MOD_CONTROL);
    let alt = key.modifiers.contains(MOD_ALT);
    let shift = key.modifiers.contains(MOD_SHIFT);
    if ctrl {
        append_str(&mut v, "C-");
    }
    let ghost a = v@;
    assert(a == (if ctrl { "C-"@ } else { e }));
    if alt {
        append_str(&mut v, "A-");
    }
    let ghost b = v@;
    assert(b == a + (if alt { "A-"@ } else { e }));
    let is_char = match key.code {
        KeyCode::Char(_) => true,
        _ => false,
    };
    if shift && !is_char {
        append_str(&mut v, "S-");
    }
    let ghost c = v@;
    assert(c == b + (if shift && !(key.code is Char) { "S-"@ } else { e }));
    code_label(key.code, &mut v);
    assert(v@ =~= spec_format_key(*key));
    from_chars(&v)
}

/// How a segment of the footer is styled.
#[derive(Clone, Copy, Debug, PartialEq, Eq, Structural)]
pub enum FooterRole {
    FocusIndicator,
    Plain,
    Label,
    Key,
}

/// The text shown for a binding's key: its display text if it has one,
/// else its short form.
pub open spec fn spec_key_text(b: Keybind) -> Seq<char> {
    match b.key_display {
        Some(d) => d@,
        None => spec_format_key(b.key),
    }
}

/// The segments of the visible bindings among `bs`, the first visible one
/// being the `k`-th shown: bindings separated by a space, each a ` label `
/// then a ` key `.
pub open spec fn spec_binding_segments(bs: Seq<Keybind>) -> Seq<(Seq<char>, FooterRole)>
    decreases bs.len(),
{
    if bs.len() == 0 {
        Seq::empty()
    } else {
        let prev = spec_binding_segments(bs.drop_last());
        let b = bs.last();
        if !b.visible_in_bar {
            prev
        } else {
            (if prev.len() > 0 { prev.push((" "@, FooterRole::Plain)) } else { prev })
                .push((" "@ + b.label@ + " "@, FooterRole::Label))
                .push((" "@ + spec_key_text(b) + " "@, FooterRole::Key))
        }
    }
}

/// The left part of the footer: the focused pane, if known, then the bindings.
pub open spec fn spec_left_segments(focus: Option<FocusContext>, bs: Seq<Keybind>) -> Seq<(Seq<char>, FooterRole)> {
    match focus {
        Some(f) => seq![(" "@ + spec_focus_name(f) + " "@, FooterRole::FocusIndicator), (" "@, FooterRole::Plain)]
            + spec_binding_segments(bs),
        None => spec_binding_segments(bs),
    }
}

/// The views of a list of segments.
pub open spec fn segments_view(v: Seq<(String, FooterRole)>) -> Seq<(Seq<char>, FooterRole)> {
    v.map_values(|s: (String, FooterRole)| (s.0@, s.1))
}

fn padded(s: &Vec<char>) -> (r: String)
    ensures
        r@ == " "@ + s@ + " "@,
{
    let mut v: Vec<char> = Vec::new();
    append_str(&mut v, " ");
    append_chars(&mut v, s);
    append_str(&mut v, " ");
    from_chars(&v)
}

/// The left part of the footer as styled texts.
pub fn left_segments(focus: Option<FocusContext>, bindings: &Vec<Keybind>) -> (r: Vec<(String, FooterRole)>)
    ensures
        segments_view(r@) == spec_left_segments(focus, bindings@),
{
    let mut out: Vec<(String, FooterRole)> = Vec::new();
    match focus {
        Some(f) => {
            let name = to_chars(f.display_name());
            out.push((padded(&name), FooterRole::FocusIndicator));
            out.push((from_chars(&to_chars(" ")), FooterRole::Plain));
        },
        None => {},
    }
    let ghost head = segments_view(out@);
    assert(head == match focus {
        Some(f) => seq![(" "@ + spec_focus_name(f) + " "@, FooterRole::FocusIndicator), (" "@, FooterRole::Plain)],
        None => Seq::<(Seq<char>, FooterRole)>::empty(),
    }) by {
        assert(segments_view(out@) =~= match focus {
            Some(f) => seq![(" "@ + spec_focus_name(f) + " "@, FooterRole::FocusIndicator), (" "@, FooterRole::Plain)],
            None => Seq::<(Seq<char>, FooterRole)>::empty(),
        });
    }
    let mut i: usize = 0;
    let mut shown: usize = 0;
    assert(bindings@.take(0) =~= Seq::<Keybind>::empty());
    while i < bindings.len()
        invariant
            i <= bindings@.len(),
            segments_view(out@) == head + spec_binding_segments(bindings@.take(i as int)),
            (shown == 0) == (spec_binding_segments(bindings@.take(i as int)).len() == 0),
        decreases bindings@.len() - i,
    {
        let b = &bindings[i];
        proof {
            assert(bindings@.take(i + 1).drop_last() =~= bindings@.take(i as int));
            assert(bindings@.take(i + 1).last() == *b);
        }
        if b.visible_in_bar {
            let ghost before = segments_view(out@);
            let ghost prev = spec_binding_segments(bindings@.take(i as int));
            assert(before == head + prev);
            if shown > 0 {
                let sp = from_chars(&to_chars(" "));
                out.push((sp, FooterRole::Plain));
                assert(segments_view(out@) =~= before.push((" "@, FooterRole::Plain)));
            }
            let ghost mid = segments_view(out@);
            assert(mid == head + (if prev.len() > 0 { prev.push((" "@, FooterRole::Plain)) } else { prev })) by {
                if prev.len() > 0 {
                    assert((head + prev).push((" "@, FooterRole::Plain)) =~= head + prev.push((" "@, FooterRole::Plain)));
                }
            }
            let label = to_chars(b.label.as_str());
            let ls = padded(&label);
            out.push((ls, FooterRole::Label));
            assert(segments_view(out@) =~= mid.push((" "@ + b.label@ + " "@, FooterRole::Label)));
            let ghost mid2 = segments_view(out@);
            let key_text = match &b.key_display {
                Some(d) => to_chars(d.as_str()),
                None => to_chars(format_key(&b.key).as_str()),
            };
            assert(key_text@ == spec_key_text(*b));
            let ks = padded(&key_text);
            out.push((ks, FooterRole::Key));
            assert(segments_view(out@) =~= mid2.push((" "@ + spec_key_text(*b) + " "@, FooterRole::Key)));
            let ghost mid1 = if prev.len() > 0 { prev.push((" "@, FooterRole::Plain)) } else { prev };
            assert(segments_view(out@) =~= head + mid1
                .push((" "@ + b.label@ + " "@, FooterRole::Label))
                .push((" "@ + spec_key_text(*b) + " "@, FooterRole::Key)));
            shown = 1;
        }
        i = i + 1;
    }
    assert(bindings@.take(bindings@.len() as int) =~= bindings@);
    assert(spec_left_segments(focus, bindings@) =~= head + spec_binding_segments(bindings@));
    out
}

} // verus!
