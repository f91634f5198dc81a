//! Terminal colors: the 256-color palette, hexadecimal color codes and the
//! color names of the configuration.

use vstd::prelude::*;
use crate::chars::to_chars;
use crate::text::{chars_eq_str, in_set, lowercase, lowercase_chars, strip_start, strip_start_in};
use ratatui::style::Color as TermColor;
use std::str::FromStr;

verus! {

/// A terminal color.
#[derive(Clone, Copy, Debug, PartialEq, Eq, Structural, Hash)]
pub enum Color {
    Reset,
    Black,
    Red,
    Green,
    Yellow,
    Blue,
    Magenta,
    Cyan,
    Gray,
    DarkGray,
    LightRed,
    LightGreen,
    LightYellow,
    LightBlue,
    LightMagenta,
    LightCyan,
    White,
    Rgb(u8, u8, u8),
    Indexed(u8),
}

/// One channel of the 6x6x6 color cube: 0, or 55 + 40 * level.
pub open spec fn cube_level(c: int) -> int {
    if c == 0 {
        0
    } else {
        c * 40 + 55
    }
}

/// The RGB value of an entry of the 256-color palette: the 16 system colors,
/// the 6x6x6 cube from 16 to 231, and the gray ramp from 232 to 255.
pub open spec fn spec_ansi_to_rgb(i: u8) -> (u8, u8, u8) {
    if i == 0 {
        (0, 0, 0)
    } else if i == 1 {
        (170, 0, 0)
    } else if i == 2 {
        (0, 170, 0)
    } else if i == 3 {
        (170, 85, 0)
    } else if i == 4 {
        (0, 0, 170)
    } else if i == 5 {
        (170, 0, 170)
    } else if i == 6 {
        (0, 170, 170)
    } else if i == 7 {
        (170, 170, 170)
    } else if i == 8 {
        (85, 85, 85)
    } else if i == 9 {
        (255, 85, 85)
    } else if i == 10 {
        (85, 255, 85)
    } else if i == 11 {
        (255, 255, 85)
    } else if i == 12 {
        (85, 85, 255)
    } else if i == 13 {
        (255, 85, 255)
    } else if i == 14 {
        (85, 255, 255)
    } else if i == 15 {
        (255, 255, 255)
    } else if i <= 231 {
        let k = i - 16;
        (
            cube_level((k / 36) % 6) as u8,
            cube_level((k / 6) % 6) as u8,
            cube_level(k % 6) as u8,
        )
    } else {
        let v = (i - 232) * 10 + 8;
        (v as u8, v as u8, v as u8)
    }
}

fn cube_channel(c: u8) -> (r: u8)
    requires
        c < 6,
    ensures
        r == cube_level(c as int),
{
    if c == 0 {
        0
    } else {
        c * 40 + 55
    }
}

/// The RGB value of an entry of the 256-color palette.
pub fn ansi_to_rgb(i: u8) -> (rgb: (u8, u8, u8))
    ensures
        rgb == spec_ansi_to_rgb(i),
{
    match i {
        0 => (0, 0, 0),
        1 => (170, 0, 0),
        2 => (0, 170, 0),
        3 => (170, 85, 0),
        4 => (0, 0, 170),
        5 => (170, 0, 170),
        6 => (0, 170, 170),
        7 => (170, 170, 170),
        8 => (85, 85, 85),
        9 => (255, 85, 85),
        10 => (85, 255, 85),
        11 => (255, 255, 85),
        12 => (85, 85, 255),
        13 => (255, 85, 255),
        14 => (85, 255, 255),
        15 => (255, 255, 255),
        _ => {
            if i <= 231 {
                let k = i - 16;
                let r = (k / 36) % 6;
                let g = (k / 6) % 6;
                let b = k % 6;
                (cube_channel(r), cube_channel(g), cube_channel(b))
            } else {
                let v = (i - 232) * 10 + 8;
                (v, v, v)
            }
        },
    }
}

/// The RGB value a color is drawn with; `Reset`, `White` and the like are white.
pub open spec fn spec_color_rgb(c: Color) -> (u8, u8, u8) {
    match c {
        Color::Rgb(r, g, b) => (r, g, b),
        Color::Black => (0, 0, 0),
        Color::Red => (170, 0, 0),
        Color::Green => (0, 170, 0),
        Color::Yellow => (170, 85, 0),
        Color::Blue => (0, 0, 170),
        Color::Magenta => (170, 0, 170),
        Color::Cyan => (0, 170, 170),
        Color::Gray => (170, 170, 170),
        Color::DarkGray => (85, 85, 85),
        Color::LightRed => (255, 85, 85),
        Color::LightGreen => (85, 255, 85),
        Color::LightYellow => (255, 255, 85),
        Color::LightBlue => (85, 85, 255),
        Color::LightMagenta => (255, 85, 255),
        Color::LightCyan => (85, 255, 255),
        Color::Indexed(i) => spec_ansi_to_rgb(i),
        _ => (255, 255, 255),
    }
}

/// The RGB value a color is drawn with.
pub fn color_rgb(c: Color) -> (rgb: (u8, u8, u8))
    ensures
        rgb == spec_color_rgb(c),
{
    match c {
        Color::Rgb(r, g, b) => (r, g, b),
        Color::Black => (0, 0, 0),
        Color::Red => (170, 0, 0),
        Color::Green => (0, 170, 0),
        Color::Yellow => (170, 85, 0),
        Color::Blue => (0, 0, 170),
        Color::Magenta => (170, 0, 170),
        Color::Cyan => (0, 170, 170),
        Color::Gray => (170, 170, 170),
        Color::DarkGray => (85, 85, 85),
        Color::LightRed => (255, 85, 85),
        Color::LightGreen => (85, 255, 85),
        Color::LightYellow => (255, 255, 85),
        Color::LightBlue => (85, 85, 255),
        Color::LightMagenta => (255, 85, 255),
        Color::LightCyan => (85, 255, 255),
        Color::Indexed(i) => ansi_to_rgb(i),
        _ => (255, 255, 255),
    }
}

/// The value of a hexadecimal digit.
pub open spec fn hex_value(c: char) -> Option<u8> {
    if '0' <= c && c <= '9' {
        Some(((c as u32) - 48) as u8)
    } else if 'a' <= c && c <= 'f' {
        Some(((c as u32) - 87) as u8)
    } else if 'A' <= c && c <= 'F' {
        Some(((c as u32) - 55) as u8)
    } else {
        None
    }
}

fn hex_value_exec(c: char) -> (r: Option<u8>)
    ensures
        r == hex_value(c),
{
    if '0' <= c && c <= '9' {
        Some(((c as u32) - 48) as u8)
    } else if 'a' <= c && c <= 'f' {
        Some(((c as u32) - 87) as u8)
    } else if 'A' <= c && c <= 'F' {
        Some(((c as u32) - 55) as u8)
    } else {
        None
    }
}

/// `u8::from_str_radix(_, 16)` on two characters: two hexadecimal digits, or
/// a `+` sign and one digit.
pub open spec fn hex_pair(a: char, b: char) -> Option<u8> {
    if a == '+' {
        hex_value(b)
    } else {
        match (hex_value(a), hex_value(b)) {
            (Some(x), Some(y)) => Some((x * 16 + y) as u8),
            _ => None,
        }
    }
}

fn hex_pair_exec(a: char, b: char) -> (r: Option<u8>)
    ensures
        r == hex_pair(a, b),
{
    if a == '+' {
        hex_value_exec(b)
    } else {
        match (hex_value_exec(a), hex_value_exec(b)) {
            (Some(x), Some(y)) => Some(x * 16 + y),
            _ => None,
        }
    }
}

/// `#rrggbb` or `#rgb` (each digit doubled), any number of leading `#`s
/// removed, ASCII only.
pub open spec fn spec_parse_hex_color(s: Seq<char>) -> Result<(u8, u8, u8), ()> {
    parse_hex_digits(strip_start(s, in_set(seq!['#'])))
}

/// Every character is ASCII.
pub open spec fn all_ascii(t: Seq<char>) -> bool {
    forall|i: int| 0 <= i < t.len() ==> (#[trigger] t[i] as u32) < 128
}

/// The hexadecimal digits of a color code, without the `#`.
pub open spec fn parse_hex_digits(t: Seq<char>) -> Result<(u8, u8, u8), ()> {
    if !all_ascii(t) {
        Err(())
    } else if t.len() == 6 {
        match (hex_pair(t[0], t[1]), hex_pair(t[2], t[3]), hex_pair(t[4], t[5])) {
            (Some(r), Some(g), Some(b)) => Ok((r, g, b)),
            _ => Err(()),
        }
    } else if t.len() == 3 {
        match (hex_pair(t[0], t[0]), hex_pair(t[1], t[1]), hex_pair(t[2], t[2])) {
            (Some(r), Some(g), Some(b)) => Ok((r, g, b)),
            _ => Err(()),
        }
    } else {
        Err(())
    }
}

/// Parses a hexadecimal color code such as `#FF0000` or `#0f0`.
pub fn parse_hex_color(s: &str) -> (r: Result<(u8, u8, u8), ()>)
    ensures
        r == spec_parse_hex_color(s@),
{
    let v = to_chars(s);
    let mut hash: Vec<char> = Vec::new();
    hash.push('#');
    assert(hash@ =~= seq!['#']);
    let t = strip_start_in(&v, &hash);
    assert(t@ == strip_start(s@, in_set(seq!['#'])));
    let mut i: usize = 0;
    while i < t.len()
        invariant
            i <= t.len(),
            forall|j: int| 0 <= j < i ==> (t@[j] as u32) < 128,
            t@ == strip_start(s@, in_set(seq!['#'])),
        decreases t.len() - i,
    {
        if (t[i] as u32) >= 128 {
            assert((t@[i as int] as u32) >= 128);
            assert(!all_ascii(t@));
            assert(spec_parse_hex_color(s@) == parse_hex_digits(t@));
            return Err(());
        }
        i = i + 1;
    }
    if t.len() == 6 {
        match (hex_pair_exec(t[0], t[1]), hex_pair_exec(t[2], t[3]), hex_pair_exec(t[4], t[5])) {
            (Some(r), Some(g), Some(b)) => Ok((r, g, b)),
            _ => Err(()),
        }
    } else if t.len() == 3 {
        match (hex_pair_exec(t[0], t[0]), hex_pair_exec(t[1], t[1]), hex_pair_exec(t[2], t[2])) {
            (Some(r), Some(g), Some(b)) => Ok((r, g, b)),
            _ => Err(()),
        }
    } else {
        Err(())
    }
}

/// The color of a configuration string that is not one of the color names
/// the terminal library knows: a hexadecimal code after `#`, `orange` in any
/// case, or yellow.
pub open spec fn spec_parse_color_fallback(s: Seq<char>) -> Color {
    if s.len() > 0 && s[0] == '#' && spec_parse_hex_color(s) is Ok {
        let (r, g, b) = spec_parse_hex_color(s)->Ok_0;
        Color::Rgb(r, g, b)
    } else if lowercase(s) == "orange"@ {
        Color::Indexed(208)
    } else {
        Color::Yellow
    }
}

/// The color of a configuration string that the terminal library does not parse.
pub fn parse_color_fallback(s: &str) -> (c: Color)
    ensures
        c == spec_parse_color_fallback(s@),
{
    let v = to_chars(s);
    if v.len() > 0 && v[0] == '#' {
        match parse_hex_color(s) {
            Ok((r, g, b)) => {
                return Color::Rgb(r, g, b);
            },
            Err(_) => {},
        }
    }
    let l = lowercase_chars(&v);
    if chars_eq_str(&l, "orange") {
        Color::Indexed(208)
    } else {
        Color::Yellow
    }
}

/// The color the terminal library reads a configuration string as, if any.
pub uninterp spec fn terminal_color_name(s: Seq<char>) -> Option<Color>;

/// `ratatui::style::Color::from_str`: the terminal library's reading of a
/// color name, ANSI index or `#RRGGBB` code. Its result depends on the text
/// alone; it is carried over variant by variant.
#[verifier::external_body]
fn named_terminal_color(s: &str) -> (r: Option<Color>)
    ensures
        r == terminal_color_name(s@),
{
    Some(match TermColor::from_str(s).ok()? {
        TermColor::Reset => Color::Reset, TermColor::Black => Color::Black, TermColor::Red => Color::Red,
        TermColor::Green => Color::Green, TermColor::Yellow => Color::Yellow, TermColor::Blue => Color::Blue,
        TermColor::Magenta => Color::Magenta, TermColor::Cyan => Color::Cyan, TermColor::Gray => Color::Gray,
        TermColor::DarkGray => Color::DarkGray, TermColor::LightRed => Color::LightRed,
        TermColor::LightGreen => Color::LightGreen, TermColor::LightYellow => Color::LightYellow,
        TermColor::LightBlue => Color::LightBlue, TermColor::LightMagenta => Color::LightMagenta,
        TermColor::LightCyan => Color::LightCyan, TermColor::White => Color::White,
        TermColor::Rgb(r, g, b) => Color::Rgb(r, g, b), TermColor::Indexed(i) => Color::Indexed(i),
    })
}

/// The color of a configuration string, given the terminal library's
/// reading of it: that reading where there is one, else the fallback.
pub open spec fn spec_resolve_color(named: Option<Color>, s: Seq<char>) -> Color {
    match named {
        Some(c) => c,
        None => spec_parse_color_fallback(s),
    }
}

/// The color a configuration string names.
pub open spec fn spec_parse_color(s: Seq<char>) -> Color {
    spec_resolve_color(terminal_color_name(s), s)
}

/// The color of a configuration string, given what the terminal library
/// read it as.
pub fn resolve_color(named: Option<Color>, s: &str) -> (c: Color)
    ensures
        c == spec_resolve_color(named, s@),
{
    match named {
        Some(c) => c,
        None => parse_color_fallback(s),
    }
}

/// The color of a configuration string: what the terminal library reads it
/// as, else a hexadecimal code after `#`, `orange` in any case, or yellow.
pub fn parse_color(s: &str) -> (c: Color)
    ensures
        c == spec_parse_color(s@),
{
    resolve_color(named_terminal_color(s), s)
}

} // verus!
