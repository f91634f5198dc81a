//! The key labels of the keyboard-shortcut help: each key bound to an
//! action, with its modifiers spelled out.

use vstd::prelude::*;
use crate::chars::{append_str, from_chars};
use crate::commands::{named_key, CommandRegistry};
use crate::text::ascii_lower;
use crate::keys::{is_ascii_upper, Action, KeyCode, KeyEvent, MOD_ALT, MOD_CONTROL, MOD_SHIFT};
use crate::utils::{decimal, u64_to_decimal};

verus! {

/// The modifiers of a key as the help spells them: `Ctrl+`, `Alt+`, and
/// `Shift+` unless the key is an upper-case letter.
pub open spec fn spec_help_prefix(key: KeyEvent) -> Seq<char> {
    (if key.modifiers.has(MOD_CONTROL) { "Ctrl+"@ } else { Seq::<char>::empty() })
        + (if key.modifiers.has(MOD_ALT) { "Alt+"@ } else { Seq::<char>::empty() })
        + (if key.modifiers.has(MOD_SHIFT) && !(key.code matches KeyCode::Char(c) && is_ascii_upper(c)) {
            "Shift+"@
        } else {
            Seq::<char>::empty()
        })
}

/// The name the help gives a key, for the keys it names; the others are
/// described by the terminal library.
pub open spec fn spec_help_name(code: KeyCode) -> Option<Seq<char>> {
    match code {
        KeyCode::Char(c) => Some(seq![c]),
        KeyCode::Enter => Some("Enter"@),
        KeyCode::Tab => Some("Tab"@),
        KeyCode::BackTab => Some("Tab"@),
        KeyCode::Esc => Some("Esc"@),
        KeyCode::Backspace => Some("Backspace"@),
        KeyCode::Up => Some("Up"@),
        KeyCode::Down => Some("Down"@),
        KeyCode::Left => Some("Left"@),
        KeyCode::Right => Some("Right"@),
        KeyCode::F(n) => Some("F"@ + decimal(n as nat)),
        _ => None,
    }
}

/// A key name as a binding string spells it: the help's name in lower case.
pub open spec fn lowered_name(code: KeyCode) -> Seq<char> {
    spec_help_name(code).unwrap().map_values(|c: char| ascii_lower(c))
}

/// The names the help gives the named keys read back, in any case, as the
/// same keys in a binding string: Enter, Tab, Esc, Backspace and the four
/// arrows each parse to the key they name, and so to four different arrows.
pub proof fn lemma_key_names_read_back(code: KeyCode)
    requires
        code == KeyCode::Enter || code == KeyCode::Tab || code == KeyCode::Esc || code == KeyCode::Backspace
            || code == KeyCode::Up || code == KeyCode::Down || code == KeyCode::Left || code == KeyCode::Right,
    ensures
        named_key(lowered_name(code)) == Some(code),
{
    reveal_strlit("esc");
    reveal_strlit("escape");
    reveal_strlit("enter");
    reveal_strlit("return");
    reveal_strlit("tab");
    reveal_strlit("backtab");
    reveal_strlit("backspace");
    reveal_strlit("delete");
    reveal_strlit("del");
    reveal_strlit("insert");
    reveal_strlit("ins");
    reveal_strlit("home");
    reveal_strlit("end");
    reveal_strlit("pageup");
    reveal_strlit("pgup");
    reveal_strlit("pagedown");
    reveal_strlit("pgdn");
    reveal_strlit("up");
    reveal_strlit("down");
    reveal_strlit("left");
    reveal_strlit("right");
    reveal_strlit("space");
    reveal_strlit("Enter");
    reveal_strlit("Tab");
    reveal_strlit("Esc");
    reveal_strlit("Backspace");
    reveal_strlit("Up");
    reveal_strlit("Down");
    reveal_strlit("Left");
    reveal_strlit("Right");
    match code {
        KeyCode::Enter => {
            assert(ascii_lower('E') == 'e');
            assert(lowered_name(code) =~= "enter"@);
            assert(named_key("enter"@) == Some(KeyCode::Enter));
        },
        KeyCode::Tab => {
            assert(ascii_lower('T') == 't');
            assert(lowered_name(code) =~= "tab"@);
            assert("tab"@[0] != "esc"@[0]);
            assert(named_key("tab"@) == Some(KeyCode::Tab));
        },
        KeyCode::Esc => {
            assert(ascii_lower('E') == 'e');
            assert(lowered_name(code) =~= "esc"@);
            assert(named_key("esc"@) == Some(KeyCode::Esc));
        },
        KeyCode::Backspace => {
            assert(ascii_lower('B') == 'b');
            assert(lowered_name(code) =~= "backspace"@);
            assert(named_key("backspace"@) == Some(KeyCode::Backspace));
        },
        KeyCode::Up => {
            assert(ascii_lower('U') == 'u');
            assert(lowered_name(code) =~= "up"@);
            assert(named_key("up"@) == Some(KeyCode::Up));
        },
        KeyCode::Down => {
            assert(ascii_lower('D') == 'd');
            assert(lowered_name(code) =~= "down"@);
            assert("down"@[0] != "home"@[0]);
            assert("down"@[0] != "pgup"@[0]);
            assert("down"@[0] != "pgdn"@[0]);
            assert(named_key("down"@) == Some(KeyCode::Down));
        },
        KeyCode::Left => {
            assert(ascii_lower('L') == 'l');
            assert(lowered_name(code) =~= "left"@);
            assert("left"@[0] != "home"@[0]);
            assert("left"@[0] != "pgup"@[0]);
            assert("left"@[0] != "pgdn"@[0]);
            assert("left"@[0] != "down"@[0]);
            assert(named_key("left"@) == Some(KeyCode::Left));
        },
        KeyCode::Right => {
            assert(ascii_lower('R') == 'r');
            assert(lowered_name(code) =~= "right"@);
            assert("right"@[0] != "enter"@[0]);
            assert(named_key("right"@) == Some(KeyCode::Right));
        },
        _ => {},
    }
}

/// How the help shows one key: the modifier prefix and, where the help
/// names the key, its name.
pub struct HelpKeyLabel {
    pub key: KeyEvent,
    pub prefix: String,
    pub name: Option<String>,
}

/// The label matches the key.
pub open spec fn labels_key(l: HelpKeyLabel, key: KeyEvent) -> bool {
    &&& l.key == key
    &&& l.prefix@ == spec_help_prefix(key)
    &&& match spec_help_name(key.code) {
        Some(n) => l.name matches Some(s) && s@ == n,
        None => l.name is None,
    }
}

fn help_name(code: KeyCode) -> (r: Option<String>)
    ensures
        match spec_help_name(code) {
            Some(n) => r matches Some(s) && s@ == n,
            None => r is None,
        },
{
    match code {
        KeyCode::Char(c) => {
            let mut v: Vec<char> = Vec::new();
            v.push(c);
            assert(v@ =~= seq![c]);
            Some(from_chars(&v))
        },
        KeyCode::Enter => Some(String::from_str("Enter")),
        KeyCode::Tab => Some(String::from_str("Tab")),
        KeyCode::BackTab => Some(String::from_str("Tab")),
        KeyCode::Esc => Some(String::from_str("Esc")),
        KeyCode::Backspace => Some(String::from_str("Backspace")),
        KeyCode::Up => Some(String::from_str("Up")),
        KeyCode::Down => Some(String::from_str("Down")),
        KeyCode::Left => Some(String::from_str("Left")),
        KeyCode::Right => Some(String::from_str("Right")),
        KeyCode::F(n) => {
            let mut v: Vec<char> = Vec::new();
            append_str(&mut v, "F");
            let d = u64_to_decimal(n as u64);
            append_str(&mut v, d.as_str());
            Some(from_chars(&v))
        },
        _ => None,
    }
}

/// How the help shows a key.
pub fn help_key_label(key: &KeyEvent) -> (r: HelpKeyLabel)
    ensures
        labels_key(r, *key),
{
    let mut v: Vec<char> = Vec::new();
    let ghost e = Seq::<char>::empty();
    let ctrl = key.modifiers.contains(MOD_CONTROL);
    let alt = key.modifiers.contains(MOD_ALT);
    let shift = key.modifiers.contains(MOD_SHIFT);
    if ctrl {
        append_str(&mut v, "Ctrl+");
    }
    let ghost a = v@;
    assert(a == (if ctrl { "Ctrl+"@ } else { e }));
    if alt {
        append_str(&mut v, "Alt+");
    }
    let ghost b = v@;
    assert(b == a + (if alt { "Alt+"@ } else { e }));
    let upper_letter = match key.code {
        KeyCode::Char(c) => 'A' <= c && c <= 'Z',
        _ => false,
    };
    if shift && !upper_letter {
        append_str(&mut v, "Shift+");
    }
    assert(v@ =~= spec_help_prefix(*key));
    HelpKeyLabel { key: *key, prefix: from_chars(&v), name: help_name(key.code) }
}

/// The labels of the keys bound to an action, in the registry's display
/// order, or none when no key is.
pub fn help_key_labels(registry: &CommandRegistry, action: Action) -> (r: Option<Vec<HelpKeyLabel>>)
    requires
        registry.wf(),
    ensures
        r is Some <==> registry.display().contains_key(action),
        r matches Some(v) ==> {
            &&& v@.len() == registry.display()[action].len()
            &&& forall|i: int| 0 <= i < v@.len() ==> labels_key(#[trigger] v@[i], registry.display()[action][i])
        },
{
    match registry.get(action) {
        None => None,
        Some(keys) => {
            let mut out: Vec<HelpKeyLabel> = Vec::new();
            let mut i: usize = 0;
            while i < keys.len()
                invariant
                    i <= keys@.len(),
                    out@.len() == i,
                    forall|k: int| 0 <= k < i ==> labels_key(#[trigger] out@[k], keys@[k]),
                decreases keys.len() - i,
            {
                out.push(help_key_label(&keys[i]));
                i = i + 1;
            }
            Some(out)
        },
    }
}

} // verus!
