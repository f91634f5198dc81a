//! Key-binding strings and the registry that maps keys to actions.

use vstd::prelude::*;
use crate::chars::to_chars;
use crate::keys::{
    Action, KeyCode, KeyEvent, KeyEventKind, KeyModifiers, MOD_ALT, MOD_CONTROL, MOD_SHIFT,
    ascii_upper, is_ascii_lower, is_ascii_upper, same_key, to_ascii_upper,
};
use crate::text::{chars_eq_str, lowercase, lowercase_chars, split_chars, split_on, trim, trim_chars};

verus! {

/// A string of one byte in UTF-8: a single ASCII character.
pub open spec fn is_single_ascii(s: Seq<char>) -> bool {
    s.len() == 1 && (s[0] as u32) < 128
}

/// Whether a character vector is a single ASCII character.
fn single_ascii(v: &Vec<char>) -> (b: bool)
    ensures
        b == is_single_ascii(v@),
{
    v.len() == 1 && (v[0] as u32) < 128
}

/// The named keys of a key-binding string, by their lower-case names.
pub open spec fn named_key(k: Seq<char>) -> Option<KeyCode> {
    if k == "esc"@ || k == "escape"@ {
        Some(KeyCode::Esc)
    } else if k == "enter"@ || k == "return"@ {
        Some(KeyCode::Enter)
    } else if k == "tab"@ {
        Some(KeyCode::Tab)
    } else if k == "backtab"@ {
        Some(KeyCode::BackTab)
    } else if k == "backspace"@ {
        Some(KeyCode::Backspace)
    } else if k == "delete"@ || k == "del"@ {
        Some(KeyCode::Delete)
    } else if k == "insert"@ || k == "ins"@ {
        Some(KeyCode::Insert)
    } else if k == "home"@ {
        Some(KeyCode::Home)
    } else if k == "end"@ {
        Some(KeyCode::End)
    } else if k == "pageup"@ || k == "pgup"@ {
        Some(KeyCode::PageUp)
    } else if k == "pagedown"@ || k == "pgdn"@ {
        Some(KeyCode::PageDown)
    } else if k == "up"@ {
        Some(KeyCode::Up)
    } else if k == "down"@ {
        Some(KeyCode::Down)
    } else if k == "left"@ {
        Some(KeyCode::Left)
    } else if k == "right"@ {
        Some(KeyCode::Right)
    } else if k == "space"@ {
        Some(KeyCode::Char(' '))
    } else {
        None
    }
}

fn named_key_exec(k: &Vec<char>) -> (r: Option<KeyCode>)
    ensures
        r == named_key(k@),
{
    if chars_eq_str(k, "esc") || chars_eq_str(k, "escape") {
        Some(KeyCode::Esc)
    } else if chars_eq_str(k, "enter") || chars_eq_str(k, "return") {
        Some(KeyCode::Enter)
    } else if chars_eq_str(k, "tab") {
        Some(KeyCode::Tab)
    } else if chars_eq_str(k, "backtab") {
        Some(KeyCode::BackTab)
    } else if chars_eq_str(k, "backspace") {
        Some(KeyCode::Backspace)
    } else if chars_eq_str(k, "delete") || chars_eq_str(k, "del") {
        Some(KeyCode::Delete)
    } else if chars_eq_str(k, "insert") || chars_eq_str(k, "ins") {
        Some(KeyCode::Insert)
    } else if chars_eq_str(k, "home") {
        Some(KeyCode::Home)
    } else if chars_eq_str(k, "end") {
        Some(KeyCode::End)
    } else if chars_eq_str(k, "pageup") || chars_eq_str(k, "pgup") {
        Some(KeyCode::PageUp)
    } else if chars_eq_str(k, "pagedown") || chars_eq_str(k, "pgdn") {
        Some(KeyCode::PageDown)
    } else if chars_eq_str(k, "up") {
        Some(KeyCode::Up)
    } else if chars_eq_str(k, "down") {
        Some(KeyCode::Down)
    } else if chars_eq_str(k, "left") {
        Some(KeyCode::Left)
    } else if chars_eq_str(k, "right") {
        Some(KeyCode::Right)
    } else if chars_eq_str(k, "space") {
        Some(KeyCode::Char(' '))
    } else {
        None
    }
}

/// An ASCII decimal digit.
pub open spec fn is_digit(c: char) -> bool {
    '0' <= c && c <= '9'
}

/// The value of a digit.
pub open spec fn digit_value(c: char) -> nat {
    ((c as u32) - ('0' as u32)) as nat
}

/// The value of a string of decimal digits.
pub open spec fn decimal_value(s: Seq<char>) -> nat
    decreases s.len(),
{
    if s.len() == 0 {
        0
    } else {
        decimal_value(s.drop_last()) * 10 + digit_value(s.last())
    }
}

/// `u8::from_str`: an optional `+`, then one or more decimal digits whose value fits.
pub open spec fn parse_u8(s: Seq<char>) -> Option<u8> {
    parse_u8_digits(if s.len() > 0 && s[0] == '+' { s.drop_first() } else { s })
}

/// Digits only: one or more decimal digits whose value fits in a byte.
pub open spec fn parse_u8_digits(d: Seq<char>) -> Option<u8> {
    if d.len() == 0 || !(forall|i: int| 0 <= i < d.len() ==> is_digit(#[trigger] d[i]))
        || decimal_value(d) > 255 {
        None
    } else {
        Some(decimal_value(d) as u8)
    }
}

/// Parses a decimal byte from characters `v[from..]`.
pub fn parse_u8_chars(v: &Vec<char>, from: usize) -> (r: Option<u8>)
    requires
        from <= v.len(),
    ensures
        r == parse_u8(v@.skip(from as int)),
{
    let ghost s = v@.skip(from as int);
    let mut start = from;
    if from < v.len() && v[from] == '+' {
        start = from + 1;
    }
    let ghost d = v@.skip(start as int);
    assert(d == (if s.len() > 0 && s[0] == '+' { s.drop_first() } else { s }));
    if start == v.len() {
        assert(d.len() == 0);
        assert(parse_u8(s) is None);
        return None;
    }
    let mut acc: u32 = 0;
    let mut i = start;
    assert(v@.subrange(start as int, start as int) =~= Seq::<char>::empty());
    while i < v.len()
        invariant
            start <= i <= v.len(),
            s == v@.skip(from as int),
            d == (if s.len() > 0 && s[0] == '+' { s.drop_first() } else { s }),
            d == v@.skip(start as int),
            forall|j: int| start <= j < i ==> is_digit(#[trigger] v@[j]),
            acc <= 256,
            acc == (if decimal_value(v@.subrange(start as int, i as int)) > 255 { 256 } else {
                decimal_value(v@.subrange(start as int, i as int))
            }),
        decreases v.len() - i,
    {
        let c = v[i];
        if !('0' <= c && c <= '9') {
            assert(d[i - start] == c);
            assert(!is_digit(d[i - start]));
            assert((i - start) < d.len());
            assert(!(forall|j: int| 0 <= j < d.len() ==> is_digit(#[trigger] d[j])));
            assert(parse_u8(s) is None);
            return None;
        }
        let dv: u32 = (c as u32) - ('0' as u32);
        proof {
            let pre = v@.subrange(start as int, i as int);
            let post = v@.subrange(start as int, i + 1);
            assert(post.drop_last() =~= pre);
            assert(post.last() == c);
            assert(decimal_value(post) == decimal_value(pre) * 10 + dv);
        }
        if acc > 255 {
            acc = 256;
        } else {
            let n = acc * 10 + dv;
            acc = if n > 255 { 256 } else { n };
        }
        i = i + 1;
    }
    assert(v@.subrange(start as int, v.len() as int) =~= d);
    assert forall|j: int| 0 <= j < d.len() implies is_digit(#[trigger] d[j]) by {
        assert(d[j] == v@[start + j]);
    }
    if acc > 255 {
        None
    } else {
        Some(acc as u8)
    }
}

/// One part of a key-binding string applied to the modifiers and key read so
/// far; `None` when the part names no key.
pub open spec fn part_step(part: Seq<char>, mods: u8, code: KeyCode) -> Option<(u8, KeyCode)> {
    let p = trim(part);
    if p.len() == 0 {
        Some((mods, code))
    } else {
        let k = lowercase(p);
        if k == "ctrl"@ || k == "control"@ {
            Some((mods | MOD_CONTROL, code))
        } else if k == "alt"@ {
            Some((mods | MOD_ALT, code))
        } else if k == "shift"@ {
            Some((mods | MOD_SHIFT, code))
        } else {
            match named_key(k) {
                Some(c) => Some((mods, c)),
                None => {
                    if is_single_ascii(k) {
                        let cc = k[0];
                        if mods & MOD_SHIFT == MOD_SHIFT && is_ascii_lower(cc) {
                            Some((mods, KeyCode::Char(ascii_upper(cc))))
                        } else if is_single_ascii(p) {
                            if is_ascii_upper(p[0]) {
                                Some((mods | MOD_SHIFT, KeyCode::Char(p[0])))
                            } else {
                                Some((mods, KeyCode::Char(p[0])))
                            }
                        } else {
                            Some((mods, KeyCode::Char(cc)))
                        }
                    } else if k.len() > 0 && k[0] == 'f' {
                        match parse_u8(k.drop_first()) {
                            Some(n) => Some((mods, KeyCode::F(n))),
                            None => None,
                        }
                    } else {
                        None
                    }
                },
            }
        }
    }
}

/// The parts `parts[i..]` applied in order.
pub open spec fn parts_fold(parts: Seq<Seq<char>>, i: int, mods: u8, code: KeyCode) -> Option<(u8, KeyCode)>
    decreases parts.len() - i,
{
    if i >= parts.len() || i < 0 {
        Some((mods, code))
    } else {
        match part_step(parts[i], mods, code) {
            Some((m, c)) => parts_fold(parts, i + 1, m, c),
            None => None,
        }
    }
}

/// The parts without their trailing empty parts.
pub open spec fn drop_trailing_empty(parts: Seq<Seq<char>>) -> Seq<Seq<char>>
    decreases parts.len(),
{
    if parts.len() > 0 && parts.last().len() == 0 {
        drop_trailing_empty(parts.drop_last())
    } else {
        parts
    }
}

/// The key event a binding string such as `Ctrl+c`, `Shift+Tab`, `F5` or
/// `Ctrl++` stands for: parts separated by `+`, case-insensitive modifier and
/// key names, a trailing `++` meaning the `+` key.
pub open spec fn spec_parse_key_event(s: Seq<char>) -> Option<KeyEvent> {
    let parts0 = split_on(s, '+');
    let n = parts0.len();
    let plus_key = n >= 2 && parts0[n - 1].len() == 0 && parts0[n - 2].len() == 0;
    let parts = if plus_key { drop_trailing_empty(parts0) } else if s == "+"@ {
        Seq::<Seq<char>>::empty()
    } else {
        parts0
    };
    let code0 = if plus_key || s == "+"@ { KeyCode::Char('+') } else { KeyCode::Null };
    match parts_fold(parts, 0, 0, code0) {
        None => None,
        Some((m, c)) => {
            if c == KeyCode::Null {
                None
            } else {
                Some(KeyEvent { code: c, modifiers: KeyModifiers { bits: m }, kind: KeyEventKind::Press, state: 0 })
            }
        },
    }
}

/// Applies one part of a binding string.
fn part_step_exec(part: &Vec<char>, mods: u8, code: KeyCode) -> (r: Option<(u8, KeyCode)>)
    ensures
        r == part_step(part@, mods, code),
{
    let p = trim_chars(part);
    if p.len() == 0 {
        return Some((mods, code));
    }
    let k = lowercase_chars(&p);
    if chars_eq_str(&k, "ctrl") || chars_eq_str(&k, "control") {
        Some((mods | MOD_CONTROL, code))
    } else if chars_eq_str(&k, "alt") {
        Some((mods | MOD_ALT, code))
    } else if chars_eq_str(&k, "shift") {
        Some((mods | MOD_SHIFT, code))
    } else {
        match named_key_exec(&k) {
            Some(c) => Some((mods, c)),
            None => {
                if single_ascii(&k) {
                    let cc = k[0];
                    if mods & MOD_SHIFT == MOD_SHIFT && 'a' <= cc && cc <= 'z' {
                        Some((mods, KeyCode::Char(to_ascii_upper(cc))))
                    } else if single_ascii(&p) {
                        let oc = p[0];
                        if 'A' <= oc && oc <= 'Z' {
                            Some((mods | MOD_SHIFT, KeyCode::Char(oc)))
                        } else {
                            Some((mods, KeyCode::Char(oc)))
                        }
                    } else {
                        Some((mods, KeyCode::Char(cc)))
                    }
                } else if k.len() > 0 && k[0] == 'f' {
                    assert(k@.drop_first() == k@.skip(1));
                    match parse_u8_chars(&k, 1) {
                        Some(n) => Some((mods, KeyCode::F(n))),
                        None => None,
                    }
                } else {
                    None
                }
            },
        }
    }
}

/// Parses a key-binding string such as `Ctrl+c`, `Shift+Tab`, `F5` or `Ctrl++`.
pub fn parse_key_event(s: &str) -> (r: Option<KeyEvent>)
    ensures
        r == spec_parse_key_event(s@),
{
    let v = to_chars(s);
    let mut parts = split_chars(&v, '+');
    let ghost parts0 = split_on(v@, '+');
    let ghost n = parts0.len();
    let ghost plus_key = n >= 2 && parts0[n - 1].len() == 0 && parts0[n - 2].len() == 0;
    let mut code = KeyCode::Null;
    let len = parts.len();
    let is_plus = chars_eq_str(&v, "+");
    if len >= 2 && parts[len - 1].len() == 0 && parts[len - 2].len() == 0 {
        code = KeyCode::Char('+');
        assert(parts@.map_values(|p: Vec<char>| p@) =~= parts0);
        while parts.len() > 0 && parts[parts.len() - 1].len() == 0
            invariant
                drop_trailing_empty(parts@.map_values(|p: Vec<char>| p@)) == drop_trailing_empty(parts0),
            decreases parts.len(),
        {
            let ghost before = parts@.map_values(|p: Vec<char>| p@);
            parts.pop();
            assert(parts@.map_values(|p: Vec<char>| p@) =~= before.drop_last());
        }
        proof {
            let cur = parts@.map_values(|p: Vec<char>| p@);
            if cur.len() > 0 {
                assert(cur.last() == parts@[parts.len() - 1]@);
            }
            assert(drop_trailing_empty(cur) == cur);
        }
    } else if is_plus {
        code = KeyCode::Char('+');
        parts.clear();
    } else {
        assert(parts@.map_values(|p: Vec<char>| p@) =~= parts0);
    }
    let ghost pv = parts@.map_values(|p: Vec<char>| p@);
    let ghost expected = if plus_key { drop_trailing_empty(parts0) } else if s@ == "+"@ {
        Seq::<Seq<char>>::empty()
    } else {
        parts0
    };
    assert(pv =~= expected);
    let mut mods: u8 = 0;
    let mut i: usize = 0;
    while i < parts.len()
        invariant
            i <= parts.len(),
            pv == parts@.map_values(|p: Vec<char>| p@),
            pv == expected,
            v@ == s@,
            parts0 == split_on(v@, '+'),
            n == parts0.len(),
            plus_key == (n >= 2 && parts0[n - 1].len() == 0 && parts0[n - 2].len() == 0),
            expected == (if plus_key { drop_trailing_empty(parts0) } else if s@ == "+"@ {
                Seq::<Seq<char>>::empty()
            } else {
                parts0
            }),
            parts_fold(pv, 0, 0, if plus_key || s@ == "+"@ { KeyCode::Char('+') } else { KeyCode::Null })
                == parts_fold(pv, i as int, mods, code),
        decreases parts.len() - i,
    {
        assert(pv[i as int] == parts@[i as int]@);
        let step = part_step_exec(&parts[i], mods, code);
        assert(parts_fold(pv, i as int, mods, code) == match step {
            Some((m, c)) => parts_fold(pv, i + 1, m, c),
            None => None,
        });
        match step {
            Some((m, c)) => {
                mods = m;
                code = c;
            },
            None => {
                assert(parts_fold(pv, 0, 0, if plus_key || s@ == "+"@ { KeyCode::Char('+') } else { KeyCode::Null }) is None);
                return None;
            },
        }
        i = i + 1;
    }
    match code {
        KeyCode::Null => None,
        _ => Some(KeyEvent::new(code, KeyModifiers::from_bits(mods))),
    }
}

/// One registration of the default key map: the key, its action, and whether
/// the key is shown in the help and footer.
pub open spec fn binding(code: KeyCode, bits: u8, action: Action, shown: bool) -> (KeyEvent, Action, bool) {
    (KeyEvent { code, modifiers: KeyModifiers { bits }, kind: KeyEventKind::Press, state: 0 }, action, shown)
}

fn make_binding(code: KeyCode, bits: u8, action: Action, shown: bool) -> (r: (KeyEvent, Action, bool))
    ensures
        r == binding(code, bits, action, shown),
{
    (KeyEvent::new(code, KeyModifiers::from_bits(bits)), action, shown)
}

/// The registration at position `i` of the default key map.
pub open spec fn registration(i: int) -> (KeyEvent, Action, bool) {
    if i == 0 {
        binding(KeyCode::Char('c'), MOD_CONTROL, Action::Quit, true)
    } else if i == 1 {
        binding(KeyCode::Char('d'), MOD_CONTROL, Action::Logout, true)
    } else if i == 2 {
        binding(KeyCode::Char('d'), MOD_ALT, Action::SecureLogout, true)
    } else if i == 3 {
        binding(KeyCode::Char('?'), 0, Action::ToggleHelp, true)
    } else if i == 4 {
        binding(KeyCode::F(1), 0, Action::ToggleHelp, false)
    } else if i == 5 {
        binding(KeyCode::Char('?'), MOD_SHIFT, Action::ToggleHelp, false)
    } else if i == 6 {
        binding(KeyCode::Char('g'), MOD_CONTROL, Action::FocusGuilds, true)
    } else if i == 7 {
        binding(KeyCode::Char('t'), MOD_CONTROL, Action::FocusMessages, true)
    } else if i == 8 {
        binding(KeyCode::Char('i'), MOD_CONTROL, Action::FocusInput, true)
    } else if i == 9 {
        binding(KeyCode::Char('i'), 0, Action::FocusInput, false)
    } else if i == 10 {
        binding(KeyCode::Char('l'), MOD_CONTROL, Action::FocusNext, true)
    } else if i == 11 {
        binding(KeyCode::Char('h'), MOD_CONTROL, Action::FocusPrevious, true)
    } else if i == 12 {
        binding(KeyCode::BackTab, MOD_SHIFT, Action::FocusPrevious, true)
    } else if i == 13 {
        binding(KeyCode::BackTab, 0, Action::FocusPrevious, false)
    } else if i == 14 {
        binding(KeyCode::Tab, MOD_SHIFT, Action::FocusPrevious, false)
    } else if i == 15 {
        binding(KeyCode::Char('b'), MOD_CONTROL, Action::ToggleGuildsTree, true)
    } else if i == 16 {
        binding(KeyCode::Char('a'), MOD_CONTROL, Action::ToggleFileExplorer, true)
    } else if i == 17 {
        binding(KeyCode::Char('.'), 0, Action::ToggleHiddenFiles, false)
    } else if i == 18 {
        binding(KeyCode::Char('h'), MOD_CONTROL, Action::ToggleHiddenFiles, false)
    } else if i == 19 {
        binding(KeyCode::Tab, 0, Action::NextTab, true)
    } else if i == 20 {
        binding(KeyCode::Char('k'), 0, Action::NavigateUp, true)
    } else if i == 21 {
        binding(KeyCode::Up, 0, Action::NavigateUp, true)
    } else if i == 22 {
        binding(KeyCode::Char('j'), 0, Action::NavigateDown, true)
    } else if i == 23 {
        binding(KeyCode::Down, 0, Action::NavigateDown, true)
    } else if i == 24 {
        binding(KeyCode::Char('h'), 0, Action::NavigateLeft, true)
    } else if i == 25 {
        binding(KeyCode::Left, 0, Action::NavigateLeft, true)
    } else if i == 26 {
        binding(KeyCode::Char('l'), 0, Action::NavigateRight, true)
    } else if i == 27 {
        binding(KeyCode::Right, 0, Action::NavigateRight, true)
    } else if i == 28 {
        binding(KeyCode::Enter, 0, Action::Select, true)
    } else if i == 29 {
        binding(KeyCode::Char(' '), 0, Action::Select, false)
    } else if i == 30 {
        binding(KeyCode::Char('g'), 0, Action::SelectFirst, true)
    } else if i == 31 {
        binding(KeyCode::Char('G'), MOD_SHIFT, Action::SelectLast, true)
    } else if i == 32 {
        binding(KeyCode::Char('-'), 0, Action::Collapse, true)
    } else if i == 33 {
        binding(KeyCode::Char('p'), 0, Action::MoveToParent, true)
    } else if i == 34 {
        binding(KeyCode::Char('J'), MOD_SHIFT, Action::ScrollDown, true)
    } else if i == 35 {
        binding(KeyCode::Char('K'), MOD_SHIFT, Action::ScrollUp, true)
    } else if i == 36 {
        binding(KeyCode::Home, 0, Action::ScrollToTop, true)
    } else if i == 37 {
        binding(KeyCode::End, 0, Action::ScrollToBottom, true)
    } else if i == 38 {
        binding(KeyCode::Esc, 0, Action::Cancel, true)
    } else if i == 39 {
        binding(KeyCode::Char('r'), 0, Action::Reply, true)
    } else if i == 40 {
        binding(KeyCode::Char('R'), MOD_SHIFT, Action::ReplyNoMention, true)
    } else if i == 41 {
        binding(KeyCode::Char('e'), 0, Action::EditMessage, true)
    } else if i == 42 {
        binding(KeyCode::Char('d'), 0, Action::DeleteMessage, true)
    } else if i == 43 {
        binding(KeyCode::Char('y'), 0, Action::CopyContent, true)
    } else if i == 44 {
        binding(KeyCode::Char('Y'), MOD_SHIFT, Action::CopyImage, true)
    } else if i == 45 {
        binding(KeyCode::Char('I'), MOD_SHIFT | MOD_CONTROL, Action::YankId, true)
    } else if i == 46 {
        binding(KeyCode::Char('o'), 0, Action::OpenAttachments, true)
    } else if i == 47 {
        binding(KeyCode::Char('s'), 0, Action::JumpToReply, true)
    } else if i == 48 {
        binding(KeyCode::Enter, 0, Action::SendMessage, true)
    } else if i == 49 {
        binding(KeyCode::Char('e'), MOD_CONTROL, Action::OpenEditor, true)
    } else if i == 50 {
        binding(KeyCode::Char('u'), MOD_CONTROL, Action::ClearInput, true)
    } else if i == 51 {
        binding(KeyCode::Esc, 0, Action::Cancel, true)
    } else if i == 52 {
        binding(KeyCode::Char('v'), MOD_CONTROL, Action::Paste, true)
    } else if i == 53 {
        binding(KeyCode::Char('V'), MOD_CONTROL | MOD_SHIFT, Action::Paste, false)
    } else if i == 54 {
        binding(KeyCode::Char('v'), MOD_CONTROL | MOD_SHIFT, Action::Paste, false)
    } else if i == 55 {
        binding(KeyCode::Char('V'), MOD_CONTROL, Action::Paste, false)
    } else if i == 56 {
        binding(KeyCode::Insert, MOD_SHIFT, Action::Paste, false)
    } else if i == 57 {
        binding(KeyCode::Char('n'), MOD_CONTROL, Action::ToggleDisplayName, true)
    } else {
        binding(KeyCode::Char('k'), MOD_CONTROL, Action::ToggleQuickSwitcher, true)
    }
}

/// The number of registrations of the default key map.
pub open spec fn registration_count() -> nat {
    59
}

/// The default key map, in registration order.
pub open spec fn default_registrations() -> Seq<(KeyEvent, Action, bool)> {
    Seq::new(registration_count(), |i: int| registration(i))
}

fn registration_exec(i: usize) -> (r: (KeyEvent, Action, bool))
    ensures
        r == registration(i as int),
{
    match i {
        0 => make_binding(KeyCode::Char('c'), MOD_CONTROL, Action::Quit, true),
        1 => make_binding(KeyCode::Char('d'), MOD_CONTROL, Action::Logout, true),
        2 => make_binding(KeyCode::Char('d'), MOD_ALT, Action::SecureLogout, true),
        3 => make_binding(KeyCode::Char('?'), 0, Action::ToggleHelp, true),
        4 => make_binding(KeyCode::F(1), 0, Action::ToggleHelp, false),
        5 => make_binding(KeyCode::Char('?'), MOD_SHIFT, Action::ToggleHelp, false),
        6 => make_binding(KeyCode::Char('g'), MOD_CONTROL, Action::FocusGuilds, true),
        7 => make_binding(KeyCode::Char('t'), MOD_CONTROL, Action::FocusMessages, true),
        8 => make_binding(KeyCode::Char('i'), MOD_CONTROL, Action::FocusInput, true),
        9 => make_binding(KeyCode::Char('i'), 0, Action::FocusInput, false),
        10 => make_binding(KeyCode::Char('l'), MOD_CONTROL, Action::FocusNext, true),
        11 => make_binding(KeyCode::Char('h'), MOD_CONTROL, Action::FocusPrevious, true),
        12 => make_binding(KeyCode::BackTab, MOD_SHIFT, Action::FocusPrevious, true),
        13 => make_binding(KeyCode::BackTab, 0, Action::FocusPrevious, false),
        14 => make_binding(KeyCode::Tab, MOD_SHIFT, Action::FocusPrevious, false),
        15 => make_binding(KeyCode::Char('b'), MOD_CONTROL, Action::ToggleGuildsTree, true),
        16 => make_binding(KeyCode::Char('a'), MOD_CONTROL, Action::ToggleFileExplorer, true),
        17 => make_binding(KeyCode::Char('.'), 0, Action::ToggleHiddenFiles, false),
        18 => make_binding(KeyCode::Char('h'), MOD_CONTROL, Action::ToggleHiddenFiles, false),
        19 => make_binding(KeyCode::Tab, 0, Action::NextTab, true),
        20 => make_binding(KeyCode::Char('k'), 0, Action::NavigateUp, true),
        21 => make_binding(KeyCode::Up, 0, Action::NavigateUp, true),
        22 => make_binding(KeyCode::Char('j'), 0, Action::NavigateDown, true),
        23 => make_binding(KeyCode::Down, 0, Action::NavigateDown, true),
        24 => make_binding(KeyCode::Char('h'), 0, Action::NavigateLeft, true),
        25 => make_binding(KeyCode::Left, 0, Action::NavigateLeft, true),
        26 => make_binding(KeyCode::Char('l'), 0, Action::NavigateRight, true),
        27 => make_binding(KeyCode::Right, 0, Action::NavigateRight, true),
        28 => make_binding(KeyCode::Enter, 0, Action::Select, true),
        29 => make_binding(KeyCode::Char(' '), 0, Action::Select, false),
        30 => make_binding(KeyCode::Char('g'), 0, Action::SelectFirst, true),
        31 => make_binding(KeyCode::Char('G'), MOD_SHIFT, Action::SelectLast, true),
        32 => make_binding(KeyCode::Char('-'), 0, Action::Collapse, true),
        33 => make_binding(KeyCode::Char('p'), 0, Action::MoveToParent, true),
        34 => make_binding(KeyCode::Char('J'), MOD_SHIFT, Action::ScrollDown, true),
        35 => make_binding(KeyCode::Char('K'), MOD_SHIFT, Action::ScrollUp, true),
        36 => make_binding(KeyCode::Home, 0, Action::ScrollToTop, true),
        37 => make_binding(KeyCode::End, 0, Action::ScrollToBottom, true),
        38 => make_binding(KeyCode::Esc, 0, Action::Cancel, true),
        39 => make_binding(KeyCode::Char('r'), 0, Action::Reply, true),
        40 => make_binding(KeyCode::Char('R'), MOD_SHIFT, Action::ReplyNoMention, true),
        41 => make_binding(KeyCode::Char('e'), 0, Action::EditMessage, true),
        42 => make_binding(KeyCode::Char('d'), 0, Action::DeleteMessage, true),
        43 => make_binding(KeyCode::Char('y'), 0, Action::CopyContent, true),
        44 => make_binding(KeyCode::Char('Y'), MOD_SHIFT, Action::CopyImage, true),
        45 => make_binding(KeyCode::Char('I'), MOD_SHIFT | MOD_CONTROL, Action::YankId, true),
        46 => make_binding(KeyCode::Char('o'), 0, Action::OpenAttachments, true),
        47 => make_binding(KeyCode::Char('s'), 0, Action::JumpToReply, true),
        48 => make_binding(KeyCode::Enter, 0, Action::SendMessage, true),
        49 => make_binding(KeyCode::Char('e'), MOD_CONTROL, Action::OpenEditor, true),
        50 => make_binding(KeyCode::Char('u'), MOD_CONTROL, Action::ClearInput, true),
        51 => make_binding(KeyCode::Esc, 0, Action::Cancel, true),
        52 => make_binding(KeyCode::Char('v'), MOD_CONTROL, Action::Paste, true),
        53 => make_binding(KeyCode::Char('V'), MOD_CONTROL | MOD_SHIFT, Action::Paste, false),
        54 => make_binding(KeyCode::Char('v'), MOD_CONTROL | MOD_SHIFT, Action::Paste, false),
        55 => make_binding(KeyCode::Char('V'), MOD_CONTROL, Action::Paste, false),
        56 => make_binding(KeyCode::Insert, MOD_SHIFT, Action::Paste, false),
        57 => make_binding(KeyCode::Char('n'), MOD_CONTROL, Action::ToggleDisplayName, true),
        _ => make_binding(KeyCode::Char('k'), MOD_CONTROL, Action::ToggleQuickSwitcher, true),
    }
}

fn default_registrations_exec() -> (v: Vec<(KeyEvent, Action, bool)>)
    ensures
        v@ == default_registrations(),
{
    let mut v: Vec<(KeyEvent, Action, bool)> = Vec::new();
    let mut i: usize = 0;
    while i < 59
        invariant
            i <= 59,
            v@ == default_registrations().take(i as int),
        decreases 59 - i,
    {
        v.push(registration_exec(i));
        assert(default_registrations().take(i + 1) =~= default_registrations().take(i as int).push(registration(i as int)));
        i = i + 1;
    }
    assert(default_registrations().take(59) =~= default_registrations());
    v
}

/// The input bindings made by a sequence of registrations.
pub open spec fn inputs_of(regs: Seq<(KeyEvent, Action, bool)>) -> Seq<(KeyEvent, Action)> {
    regs.map_values(|r: (KeyEvent, Action, bool)| (r.0, r.1))
}

/// The keys shown for an action, in registration order.
pub open spec fn shown_keys(regs: Seq<(KeyEvent, Action, bool)>, a: Action) -> Seq<KeyEvent>
    decreases regs.len(),
{
    if regs.len() == 0 {
        Seq::<KeyEvent>::empty()
    } else {
        let r = shown_keys(regs.drop_last(), a);
        let l = regs.last();
        if l.2 && l.1 == a {
            r.push(l.0)
        } else {
            r
        }
    }
}

/// The shown keys of each action that has at least one.
pub open spec fn display_of(regs: Seq<(KeyEvent, Action, bool)>) -> Map<Action, Seq<KeyEvent>> {
    Map::new(|a: Action| shown_keys(regs, a).len() > 0, |a: Action| shown_keys(regs, a))
}

/// The map from action to shown keys held by a list of entries.
pub open spec fn entries_map(e: Seq<(Action, Vec<KeyEvent>)>) -> Map<Action, Seq<KeyEvent>> {
    Map::new(
        |a: Action| exists|j: int| 0 <= j < e.len() && (#[trigger] e[j]).0 == a,
        |a: Action| e[choose|j: int| 0 <= j < e.len() && (#[trigger] e[j]).0 == a].1@,
    )
}

/// No action has two entries.
pub open spec fn unique_actions(e: Seq<(Action, Vec<KeyEvent>)>) -> bool {
    forall|i: int, j: int| 0 <= i < e.len() && 0 <= j < e.len() && i != j ==> (#[trigger] e[i]).0 != (#[trigger] e[j]).0
}

proof fn lemma_entries_map_at(e: Seq<(Action, Vec<KeyEvent>)>, j: int)
    requires
        unique_actions(e),
        0 <= j < e.len(),
    ensures
        entries_map(e).contains_key(e[j].0),
        entries_map(e)[e[j].0] == e[j].1@,
{
    let a = e[j].0;
    assert(exists|k: int| 0 <= k < e.len() && (#[trigger] e[k]).0 == a) by {
        assert(e[j].0 == a);
    }
    let k = choose|k: int| 0 <= k < e.len() && (#[trigger] e[k]).0 == a;
    assert(k == j);
}

proof fn lemma_entries_map_set(e: Seq<(Action, Vec<KeyEvent>)>, j: int, v: Vec<KeyEvent>)
    requires
        unique_actions(e),
        0 <= j < e.len(),
    ensures
        unique_actions(e.update(j, (e[j].0, v))),
        entries_map(e.update(j, (e[j].0, v))) == entries_map(e).insert(e[j].0, v@),
{
    let a = e[j].0;
    let e2 = e.update(j, (a, v));
    assert forall|i: int, k: int| 0 <= i < e2.len() && 0 <= k < e2.len() && i != k implies (#[trigger] e2[i]).0 != (#[trigger] e2[k]).0 by {
        assert(e2[i].0 == e[i].0);
        assert(e2[k].0 == e[k].0);
    }
    let m1 = entries_map(e2);
    let m2 = entries_map(e).insert(a, v@);
    assert forall|b: Action| m1.contains_key(b) <==> m2.contains_key(b) by {
        if m2.contains_key(b) {
            if b != a {
                let k = choose|k: int| 0 <= k < e.len() && (#[trigger] e[k]).0 == b;
                assert(e2[k].0 == b);
            } else {
                assert(e2[j].0 == a);
            }
        }
        if m1.contains_key(b) {
            let k = choose|k: int| 0 <= k < e2.len() && (#[trigger] e2[k]).0 == b;
            assert(e[k].0 == b);
        }
    }
    assert forall|b: Action| #[trigger] m1.contains_key(b) implies m1[b] == m2[b] by {
        let k = choose|k: int| 0 <= k < e2.len() && (#[trigger] e2[k]).0 == b;
        lemma_entries_map_at(e2, k);
        if b == a {
            assert(k == j);
        } else {
            assert(e[k].0 == b);
            lemma_entries_map_at(e, k);
        }
    }
    assert(m1 =~= m2);
}

proof fn lemma_entries_map_push(e: Seq<(Action, Vec<KeyEvent>)>, a: Action, v: Vec<KeyEvent>)
    requires
        unique_actions(e),
        !entries_map(e).contains_key(a),
    ensures
        unique_actions(e.push((a, v))),
        entries_map(e.push((a, v))) == entries_map(e).insert(a, v@),
{
    let e2 = e.push((a, v));
    assert forall|i: int| 0 <= i < e.len() implies (#[trigger] e[i]).0 != a by {
        if e[i].0 == a {
            assert(entries_map(e).contains_key(a));
        }
    }
    assert forall|i: int, k: int| 0 <= i < e2.len() && 0 <= k < e2.len() && i != k implies (#[trigger] e2[i]).0 != (#[trigger] e2[k]).0 by {
        if i < e.len() {
            assert(e2[i] == e[i]);
        }
        if k < e.len() {
            assert(e2[k] == e[k]);
        }
    }
    let m1 = entries_map(e2);
    let m2 = entries_map(e).insert(a, v@);
    assert forall|b: Action| m1.contains_key(b) <==> m2.contains_key(b) by {
        if m2.contains_key(b) {
            if b != a {
                let k = choose|k: int| 0 <= k < e.len() && (#[trigger] e[k]).0 == b;
                assert(e2[k].0 == b);
            } else {
                assert(e2[e.len() as int].0 == a);
            }
        }
        if m1.contains_key(b) {
            let k = choose|k: int| 0 <= k < e2.len() && (#[trigger] e2[k]).0 == b;
            if k < e.len() {
                assert(e[k].0 == b);
            }
        }
    }
    assert forall|b: Action| #[trigger] m1.contains_key(b) implies m1[b] == m2[b] by {
        let k = choose|k: int| 0 <= k < e2.len() && (#[trigger] e2[k]).0 == b;
        lemma_entries_map_at(e2, k);
        if b != a {
            assert(k < e.len());
            assert(e[k].0 == b);
            lemma_entries_map_at(e, k);
        }
    }
    assert(m1 =~= m2);
}

/// Whether a binding answers a key: the same code and the same modifiers.
pub open spec fn answers(b: (KeyEvent, Action), key: KeyEvent) -> bool {
    b.0.code == key.code && b.0.modifiers == key.modifiers
}

/// The action of the first binding that answers the key.
pub open spec fn first_action(bs: Seq<(KeyEvent, Action)>, key: KeyEvent) -> Option<Action>
    decreases bs.len(),
{
    if bs.len() == 0 {
        None
    } else if answers(bs[0], key) {
        Some(bs[0].1)
    } else {
        first_action(bs.drop_first(), key)
    }
}

/// The bindings without those for the same key as `k`, in order.
pub open spec fn without_key(bs: Seq<(KeyEvent, Action)>, k: KeyEvent) -> Seq<(KeyEvent, Action)>
    decreases bs.len(),
{
    if bs.len() == 0 {
        bs
    } else {
        let r = without_key(bs.drop_last(), k);
        if same_key(bs.last().0, k) {
            r
        } else {
            r.push(bs.last())
        }
    }
}

/// The shown keys of an action, or none.
pub open spec fn keys_or_empty(m: Map<Action, Seq<KeyEvent>>, a: Action) -> Seq<KeyEvent> {
    if m.contains_key(a) {
        m[a]
    } else {
        Seq::<KeyEvent>::empty()
    }
}

/// One override applied to input bindings and shown keys: a string that
/// parses to a key replaces every binding of that key with one for the
/// action, placed first, and puts the key first among the action's shown keys.
pub open spec fn override_step(
    inputs: Seq<(KeyEvent, Action)>,
    display: Map<Action, Seq<KeyEvent>>,
    key_str: Seq<char>,
    action: Action,
) -> (Seq<(KeyEvent, Action)>, Map<Action, Seq<KeyEvent>>) {
    match spec_parse_key_event(key_str) {
        None => (inputs, display),
        Some(k) => (
            without_key(inputs, k).insert(0, (k, action)),
            display.insert(action, keys_or_empty(display, action).insert(0, k)),
        ),
    }
}

/// The overrides `ov[..n]` applied in order.
pub open spec fn overrides_applied(
    inputs: Seq<(KeyEvent, Action)>,
    display: Map<Action, Seq<KeyEvent>>,
    ov: Seq<(Seq<char>, Action)>,
    n: int,
) -> (Seq<(KeyEvent, Action)>, Map<Action, Seq<KeyEvent>>)
    decreases n,
{
    if n <= 0 || n > ov.len() {
        (inputs, display)
    } else {
        let prev = overrides_applied(inputs, display, ov, n - 1);
        override_step(prev.0, prev.1, ov[n - 1].0, ov[n - 1].1)
    }
}

/// An override wins: after a list of overrides whose last string parses to a
/// key, that key triggers the last override's action.
pub proof fn lemma_last_override_wins(
    inputs: Seq<(KeyEvent, Action)>,
    display: Map<Action, Seq<KeyEvent>>,
    ov: Seq<(Seq<char>, Action)>,
)
    requires
        ov.len() > 0,
        spec_parse_key_event(ov.last().0) is Some,
    ensures
        first_action(overrides_applied(inputs, display, ov, ov.len() as int).0, spec_parse_key_event(ov.last().0).unwrap())
            == Some(ov.last().1),
{
    let k = spec_parse_key_event(ov.last().0).unwrap();
    let prev = overrides_applied(inputs, display, ov, ov.len() - 1);
    let after = overrides_applied(inputs, display, ov, ov.len() as int);
    assert(after.0 == without_key(prev.0, k).insert(0, (k, ov.last().1)));
    assert(after.0[0] == (k, ov.last().1));
}

/// The key map: which key triggers which action, and which keys are shown
/// for each action.
#[derive(Clone)]
pub struct CommandRegistry {
    display_bindings: Vec<(Action, Vec<KeyEvent>)>,
    input_bindings: Vec<(KeyEvent, Action)>,
}

fn copy_keys(v: &Vec<KeyEvent>) -> (r: Vec<KeyEvent>)
    ensures
        r@ == v@,
{
    let mut r: Vec<KeyEvent> = Vec::new();
    let mut i: usize = 0;
    while i < v.len()
        invariant
            i <= v.len(),
            r@ == v@.take(i as int),
        decreases v.len() - i,
    {
        r.push(v[i]);
        assert(v@.take(i + 1) =~= v@.take(i as int).push(v@[i as int]));
        i = i + 1;
    }
    assert(v@.take(v.len() as int) =~= v@);
    r
}

impl CommandRegistry {
    /// No action has two entries of shown keys.
    pub closed spec fn wf(&self) -> bool {
        unique_actions(self.display_bindings@)
    }

    /// The input bindings, in the order in which they are tried.
    pub closed spec fn inputs(&self) -> Seq<(KeyEvent, Action)> {
        self.input_bindings@
    }

    /// The keys shown for each action.
    pub closed spec fn display(&self) -> Map<Action, Seq<KeyEvent>> {
        entries_map(self.display_bindings@)
    }

    fn find_entry(&self, a: Action) -> (r: Option<usize>)
        ensures
            r matches Some(j) ==> j < self.display_bindings@.len() && self.display_bindings@[j as int].0 == a,
            r is None ==> forall|j: int| 0 <= j < self.display_bindings@.len() ==> (#[trigger] self.display_bindings@[j]).0 != a,
    {
        let mut i: usize = 0;
        while i < self.display_bindings.len()
            invariant
                i <= self.display_bindings@.len(),
                forall|j: int| 0 <= j < i ==> (#[trigger] self.display_bindings@[j]).0 != a,
            decreases self.display_bindings@.len() - i,
        {
            if self.display_bindings[i].0 == a {
                return Some(i);
            }
            i = i + 1;
        }
        None
    }

    /// Adds a binding at the end of the input bindings and, when shown, at
    /// the end of the action's shown keys.
    fn register(&mut self, key: KeyEvent, action: Action, shown: bool)
        requires
            old(self).wf(),
        ensures
            final(self).wf(),
            final(self).inputs() == old(self).inputs().push((key, action)),
            final(self).display() == (if shown {
                old(self).display().insert(action, keys_or_empty(old(self).display(), action).push(key))
            } else {
                old(self).display()
            }),
    {
        self.input_bindings.push((key, action));
        if shown {
            match self.find_entry(action) {
                Some(j) => {
                    let mut keys = copy_keys(&self.display_bindings[j].1);
                    keys.push(key);
                    proof {
                        lemma_entries_map_at(self.display_bindings@, j as int);
                        lemma_entries_map_set(self.display_bindings@, j as int, keys);
                    }
                    self.display_bindings.set(j, (action, keys));
                },
                None => {
                    let mut keys: Vec<KeyEvent> = Vec::new();
                    keys.push(key);
                    proof {
                        lemma_entries_map_push(self.display_bindings@, action, keys);
                    }
                    self.display_bindings.push((action, keys));
                },
            }
        }
    }

    /// The default key map.
    pub fn new() -> (r: CommandRegistry)
        ensures
            r.wf(),
            r.inputs() == inputs_of(default_registrations()),
            r.display() == display_of(default_registrations()),
    {
        Self::default()
    }

    /// The shown keys of an action, if it has any.
    pub fn get(&self, action: Action) -> (r: Option<&Vec<KeyEvent>>)
        requires
            self.wf(),
        ensures
            r is Some == self.display().contains_key(action),
            r matches Some(v) ==> v@ == self.display()[action],
    {
        match self.find_entry(action) {
            Some(j) => {
                proof {
                    lemma_entries_map_at(self.display_bindings@, j as int);
                }
                Some(&self.display_bindings[j].1)
            },
            None => None,
        }
    }

    /// The first shown key of an action.
    pub fn get_first(&self, action: Action) -> (r: Option<KeyEvent>)
        requires
            self.wf(),
        ensures
            r == (if self.display().contains_key(action) && self.display()[action].len() > 0 {
                Some(self.display()[action][0])
            } else {
                None
            }),
    {
        match self.get(action) {
            Some(v) => {
                if v.len() > 0 {
                    Some(v[0])
                } else {
                    None
                }
            },
            None => None,
        }
    }

    /// The action of the first binding with the key's code and modifiers.
    pub fn find_action(&self, key: KeyEvent) -> (r: Option<Action>)
        ensures
            r == first_action(self.inputs(), key),
    {
        let mut i: usize = 0;
        assert(self.input_bindings@.skip(0) =~= self.input_bindings@);
        while i < self.input_bindings.len()
            invariant
                i <= self.input_bindings@.len(),
                first_action(self.input_bindings@, key) == first_action(self.input_bindings@.skip(i as int), key),
            decreases self.input_bindings@.len() - i,
        {
            let b = self.input_bindings[i];
            assert(self.input_bindings@.skip(i as int)[0] == b);
            if b.0.code == key.code && b.0.modifiers == key.modifiers {
                return Some(b.1);
            }
            assert(self.input_bindings@.skip(i as int).drop_first() =~= self.input_bindings@.skip(i + 1));
            i = i + 1;
        }
        None
    }

    /// Applies one override given as a key string and an action.
    fn apply_override(&mut self, key_str: &String, action: Action)
        requires
            old(self).wf(),
        ensures
            final(self).wf(),
            (final(self).inputs(), final(self).display()) == override_step(
                old(self).inputs(),
                old(self).display(),
                key_str@,
                action,
            ),
    {
        match parse_key_event(key_str.as_str()) {
            None => {},
            Some(k) => {
                let mut kept: Vec<(KeyEvent, Action)> = Vec::new();
                let mut i: usize = 0;
                while i < self.input_bindings.len()
                    invariant
                        i <= self.input_bindings@.len(),
                        kept@ == without_key(self.input_bindings@.take(i as int), k),
                    decreases self.input_bindings@.len() - i,
                {
                    let b = self.input_bindings[i];
                    proof {
                        assert(self.input_bindings@.take(i + 1).drop_last() =~= self.input_bindings@.take(i as int));
                    }
                    if !(b.0 == k) {
                        kept.push(b);
                    }
                    i = i + 1;
                }
                assert(self.input_bindings@.take(self.input_bindings@.len() as int) =~= self.input_bindings@);
                kept.insert(0, (k, action));
                self.input_bindings = kept;
                match self.find_entry(action) {
                    Some(j) => {
                        let mut keys = copy_keys(&self.display_bindings[j].1);
                        keys.insert(0, k);
                        proof {
                            lemma_entries_map_at(self.display_bindings@, j as int);
                            lemma_entries_map_set(self.display_bindings@, j as int, keys);
                        }
                        self.display_bindings.set(j, (action, keys));
                    },
                    None => {
                        let mut keys: Vec<KeyEvent> = Vec::new();
                        keys.push(k);
                        proof {
                            assert(!entries_map(self.display_bindings@).contains_key(action));
                            assert(seq![k] =~= Seq::<KeyEvent>::empty().insert(0, k));
                            lemma_entries_map_push(self.display_bindings@, action, keys);
                        }
                        self.display_bindings.push((action, keys));
                    },
                }
            },
        }
    }

    /// Applies the overrides in order; a string that does not parse is skipped.
    pub fn apply_overrides(&mut self, overrides: &Vec<(String, Action)>)
        requires
            old(self).wf(),
        ensures
            final(self).wf(),
            (final(self).inputs(), final(self).display()) == overrides_applied(
                old(self).inputs(),
                old(self).display(),
                overrides@.map_values(|o: (String, Action)| (o.0@, o.1)),
                overrides@.len() as int,
            ),
    {
        let ghost ov = overrides@.map_values(|o: (String, Action)| (o.0@, o.1));
        let ghost i0 = self.inputs();
        let ghost d0 = self.display();
        let mut i: usize = 0;
        while i < overrides.len()
            invariant
                i <= overrides@.len(),
                ov == overrides@.map_values(|o: (String, Action)| (o.0@, o.1)),
                self.wf(),
                (self.inputs(), self.display()) == overrides_applied(i0, d0, ov, i as int),
            decreases overrides@.len() - i,
        {
            assert(ov[i as int] == (overrides@[i as int].0@, overrides@[i as int].1));
            self.apply_override(&overrides[i].0, overrides[i].1);
            i = i + 1;
        }
    }
}

impl Default for CommandRegistry {
    fn default() -> (r: CommandRegistry)
        ensures
            r.wf(),
            r.inputs() == inputs_of(default_registrations()),
            r.display() == display_of(default_registrations()),
    {
        let regs = default_registrations_exec();
        let mut r = CommandRegistry { display_bindings: Vec::new(), input_bindings: Vec::new() };
        let mut i: usize = 0;
        assert(entries_map(r.display_bindings@) =~= display_of(regs@.take(0)));
        assert(r.input_bindings@ =~= inputs_of(regs@.take(0)));
        while i < regs.len()
            invariant
                i <= regs@.len(),
                regs@ == default_registrations(),
                r.wf(),
                r.inputs() == inputs_of(regs@.take(i as int)),
                r.display() == display_of(regs@.take(i as int)),
            decreases regs@.len() - i,
        {
            let (key, action, shown) = regs[i];
            r.register(key, action, shown);
            proof {
                let pre = regs@.take(i as int);
                let post = regs@.take(i + 1);
                assert(post.drop_last() =~= pre);
                assert(post.last() == (key, action, shown));
                assert(inputs_of(post) =~= inputs_of(pre).push((key, action)));
                assert forall|b: Action| #[trigger] shown_keys(post, b) == (if shown && action == b {
                    shown_keys(pre, b).push(key)
                } else {
                    shown_keys(pre, b)
                }) by {}
                assert(keys_or_empty(display_of(pre), action) == shown_keys(pre, action)) by {
                    if shown_keys(pre, action).len() == 0 {
                        assert(shown_keys(pre, action) =~= Seq::<KeyEvent>::empty());
                    }
                }
                assert(display_of(post) =~= (if shown {
                    display_of(pre).insert(action, keys_or_empty(display_of(pre), action).push(key))
                } else {
                    display_of(pre)
                }));
            }
            i = i + 1;
        }
        assert(regs@.take(regs@.len() as int) =~= regs@);
        r
    }
}

} // verus!
