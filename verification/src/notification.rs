//! Where a notification pops up: its size from its title and message, at
//! the top right of the screen.

use vstd::prelude::*;
use crate::chars::{append_str, from_chars};
use crate::width::{str_width, str_width_exec};

verus! {

/// A rectangle of the screen.
#[derive(Clone, Copy, Debug, PartialEq, Eq, Structural)]
pub struct PopupArea {
    pub x: u16,
    pub y: u16,
    pub width: u16,
    pub height: u16,
}

/// A width as a `u16`, or `fallback` where it does not fit.
pub open spec fn as_u16_or(n: int, fallback: u16) -> u16 {
    if 0 <= n <= 65535 {
        n as u16
    } else {
        fallback
    }
}

/// The popup's width: the wider of message and title with two columns of
/// border and padding on each side, at most 60 columns and at most the
/// screen less two.
pub open spec fn popup_width(area_width: u16, title_width: int, message_width: int) -> int {
    let max_w: int = if area_width >= 2 { if area_width - 2 < 60 { area_width - 2 } else { 60 } } else { 0 };
    let m = as_u16_or(message_width, 65535) as int;
    let t = as_u16_or(title_width, 0) as int;
    let w = if m >= t { m } else { t };
    let w4 = if w + 4 > 65535 { 65535 } else { w + 4 };
    if w4 < max_w { w4 } else { max_w }
}

/// The width inside the popup's borders, at least one.
pub open spec fn popup_inner(width: int) -> int {
    if width >= 3 { width - 2 } else { 1 }
}

/// The popup can be laid out without overflow: the message's width in
/// `u16` plus the inner width fits 16 bits.
pub open spec fn popup_fits(area_width: u16, title_width: int, message_width: int) -> bool {
    as_u16_or(message_width, 0) + popup_inner(popup_width(area_width, title_width, message_width)) <= 65535
}

/// The popup: as wide as `popup_width`; as high as the message's lines when
/// wrapped inside, plus three, between three and ten rows; two columns from
/// the right edge and two rows from the top.
pub open spec fn spec_popup_area(area_width: u16, title_width: int, message_width: int) -> PopupArea {
    let width = popup_width(area_width, title_width, message_width);
    let inner = popup_inner(width);
    let content = as_u16_or(message_width, 0) as int;
    let lines = (content + inner - 1) / inner;
    let h = if lines + 3 > 65535 { 65535 } else { lines + 3 };
    let height = if h > 10 { 10 } else if h < 3 { 3 } else { h };
    let x0: int = if area_width >= width { area_width - width } else { 0 };
    let x: int = if x0 >= 2 { x0 - 2 } else { 0 };
    PopupArea { x: x as u16, y: 2, width: width as u16, height: height as u16 }
}

fn to_u16_or(n: usize, fallback: u16) -> (r: u16)
    ensures
        r == as_u16_or(n as int, fallback),
{
    if n <= 65535 {
        n as u16
    } else {
        fallback
    }
}

/// Where a popup goes on a screen `area_width` columns wide, for a title
/// and a message of the given widths.
pub fn popup_area(area_width: u16, title_width: usize, message_width: usize) -> (r: PopupArea)
    requires
        popup_fits(area_width, title_width as int, message_width as int),
    ensures
        r == spec_popup_area(area_width, title_width as int, message_width as int),
{
    let max_popup_width: u16 = if area_width.saturating_sub(2) < 60 {
        area_width.saturating_sub(2)
    } else {
        60
    };
    let m = to_u16_or(message_width, 65535);
    let t = to_u16_or(title_width, 0);
    let w = if m >= t {
        m
    } else {
        t
    };
    let w4 = w.saturating_add(4);
    let width = if w4 < max_popup_width {
        w4
    } else {
        max_popup_width
    };
    let inner_width: u16 = if width.saturating_sub(2) >= 1 {
        width.saturating_sub(2)
    } else {
        1
    };
    let content_width = to_u16_or(message_width, 0);
    let lines = (content_width + inner_width - 1) / inner_width;
    let h = lines.saturating_add(3);
    let height = if h > 10 {
        10
    } else if h < 3 {
        3
    } else {
        h
    };
    let x = area_width.saturating_sub(width).saturating_sub(2);
    PopupArea { x, y: 2, width, height }
}

/// The widths of a notification's title, as shown between two spaces, and
/// of its message.
pub open spec fn notification_widths(title: Seq<char>, message: Seq<char>) -> (int, int) {
    (str_width(seq![' '] + title + seq![' ']) as int, str_width(message) as int)
}

/// Where a notification pops up on a screen `area_width` columns wide, or
/// `None` when its size overflows 16 bits.
pub fn notification_popup_area(area_width: u16, title: &str, message: &str) -> (r: Option<PopupArea>)
    ensures
        ({
            let (tw, mw) = notification_widths(title@, message@);
            &&& r is None <==> !popup_fits(area_width, tw, mw)
            &&& r matches Some(a) ==> a == spec_popup_area(area_width, tw, mw)
        }),
{
    let mut t: Vec<char> = Vec::new();
    t.push(' ');
    append_str(&mut t, title);
    t.push(' ');
    assert(t@ =~= seq![' '] + title@ + seq![' ']);
    let shown = from_chars(&t);
    let title_width = str_width_exec(shown.as_str());
    let message_width = str_width_exec(message);
    let max_popup_width: u16 = if area_width.saturating_sub(2) < 60 {
        area_width.saturating_sub(2)
    } else {
        60
    };
    let m = to_u16_or(message_width, 65535);
    let tt = to_u16_or(title_width, 0);
    let w = if m >= tt {
        m
    } else {
        tt
    };
    let width = if w.saturating_add(4) < max_popup_width {
        w.saturating_add(4)
    } else {
        max_popup_width
    };
    let inner_width: u16 = if width.saturating_sub(2) >= 1 {
        width.saturating_sub(2)
    } else {
        1
    };
    let content_width = to_u16_or(message_width, 0);
    if content_width as u32 + inner_width as u32 > 65535 {
        return None;
    }
    Some(popup_area(area_width, title_width, message_width))
}

} // verus!
