//! The message composer: its text, how the text wraps into rows of the
//! input box, cursor movement by rows, mentions, and what keys ask for.

use vstd::prelude::*;
use crate::chars::{append_chars, append_str, from_chars, to_chars};
use crate::entities::copy_str;
use crate::guilds_tree::index_seq;
use crate::commands::{first_action, CommandRegistry};
use crate::keys::{Action, KeyCode, KeyEvent, MOD_ALT, MOD_CONTROL, MOD_SHIFT};
use crate::sorting::{insert_pos, stable_sort};
use crate::utils::{bytes_prefix, first_bytes, utf8_len};
use crate::status_bar::byte_len;
use crate::text::{chars_eq, sub_chars, trim, trim_chars};
use crate::text_area::{
    cur_line, join_lines, push_rows, rows_of, ta_back, ta_clear, ta_delete_char, ta_delete_next_char,
    ta_delete_next_word, ta_delete_word, ta_down, ta_end, ta_forward, ta_head, ta_insert_char, ta_insert_str,
    lemma_clear_empties, lemma_paste_into_empty, ta_is_empty, ta_jump, ta_newline, ta_up, ta_word_back, ta_word_forward, text_state, valid_text, TextBuffer,
    TextState,
};
use crate::width::{char_width, char_width_exec};

verus! {

/// The columns a character takes, a control character counting as none.
pub open spec fn cw(c: char) -> int {
    match char_width(c) {
        Some(x) => x as int,
        None => 0,
    }
}

fn cw_exec(c: char) -> (w: usize)
    ensures
        w == cw(c),
        w <= 3,
{
    match char_width_exec(c) {
        Some(x) => x,
        None => 0,
    }
}

/// A line broken into rows of at most `width` columns, after its first `i`
/// characters: where each row starts, and the width of the last row. A
/// character that does not fit starts a new row.
pub open spec fn wrap_fold(line: Seq<char>, width: int, i: int) -> (Seq<int>, int)
    decreases i,
{
    if i <= 0 {
        (seq![0int], 0)
    } else {
        let (st, w) = wrap_fold(line, width, i - 1);
        let c = cw(line[i - 1]);
        if w + c > width {
            (st.push(i - 1), c)
        } else {
            (st, w + c)
        }
    }
}

/// Where row `k` ends: where the next starts, or at the end of the line.
pub open spec fn row_end(st: Seq<int>, k: int, len: int) -> int {
    if k + 1 < st.len() {
        st[k + 1]
    } else {
        len
    }
}

/// The rows of a line: one empty row for an empty line.
pub open spec fn plain_rows(line: Seq<char>, width: int) -> Seq<Seq<char>> {
    if line.len() == 0 {
        seq![Seq::<char>::empty()]
    } else {
        let st = wrap_fold(line, width, line.len() as int).0;
        Seq::new(st.len(), |k: int| line.subrange(st[k], row_end(st, k, line.len() as int)))
    }
}

/// The rows of the cursor's line and the cursor's row and column among
/// them. A cursor at the end of a line whose last row is full gets a new
/// empty row.
pub open spec fn cursor_rows(line: Seq<char>, width: int, col: int) -> (Seq<Seq<char>>, int, int) {
    if line.len() == 0 {
        (seq![Seq::<char>::empty()], 0, 0)
    } else if col < line.len() {
        let (st, w) = wrap_fold(line, width, col + 1);
        (plain_rows(line, width), st.len() - 1, w - cw(line[col]))
    } else {
        let (st, w) = wrap_fold(line, width, line.len() as int);
        if w >= width {
            (plain_rows(line, width).push(Seq::<char>::empty()), st.len() as int, 0)
        } else {
            (plain_rows(line, width), st.len() - 1, w)
        }
    }
}

/// The rows of line `l`.
pub open spec fn rows_of_line(s: TextState, width: int, l: int) -> Seq<Seq<char>> {
    if l == s.row {
        cursor_rows(s.lines[l], width, s.col).0
    } else {
        plain_rows(s.lines[l], width)
    }
}

/// The rows of the first `n` lines.
pub open spec fn rows_upto(s: TextState, width: int, n: int) -> Seq<Seq<char>>
    decreases n,
{
    if n <= 0 {
        Seq::empty()
    } else {
        rows_upto(s, width, n - 1) + rows_of_line(s, width, n - 1)
    }
}

/// The text as the rows of an input box `width` columns wide, with the
/// cursor's row and column among them; the lines themselves when the width
/// is zero.
pub open spec fn spec_visual_info(s: TextState, width: int) -> (Seq<Seq<char>>, int, int) {
    if width == 0 {
        (s.lines, s.row, s.col)
    } else {
        let cr = cursor_rows(s.lines[s.row], width, s.col);
        (rows_upto(s, width, s.lines.len() as int), rows_upto(s, width, s.row).len() + cr.1, cr.2)
    }
}

/// The position in the row from `k` to `e` (exclusive) of a line under
/// column `col`, `run` columns already passed: the first character that
/// reaches past `col`, or the row's end.
pub open spec fn seg_pos(line: Seq<char>, k: int, e: int, run: int, col: int) -> int
    decreases e - k,
{
    if k >= e {
        e
    } else if run + cw(line[k]) > col {
        k
    } else {
        seg_pos(line, k + 1, e, run + cw(line[k]), col)
    }
}

/// The number of rows of a line.
pub open spec fn row_count(line: Seq<char>, width: int) -> int {
    plain_rows(line, width).len() as int
}

/// The character under column `col` of row `r` of a line.
pub open spec fn pos_in_row(line: Seq<char>, width: int, r: int, col: int) -> int {
    if line.len() == 0 {
        0
    } else {
        let st = wrap_fold(line, width, line.len() as int).0;
        seg_pos(line, st[r], row_end(st, r, line.len() as int), 0, col)
    }
}

/// The line and character under row `trow` and column `tcol` of the rows
/// of lines `l` on; the start of the text past the last row.
pub open spec fn logical_from(lines: Seq<Seq<char>>, l: int, trow: int, tcol: int, width: int) -> (int, int)
    decreases lines.len() - l,
{
    if l < 0 || l >= lines.len() {
        (0, 0)
    } else if trow < row_count(lines[l], width) {
        (l, pos_in_row(lines[l], width, trow, tcol))
    } else {
        logical_from(lines, l + 1, trow - row_count(lines[l], width), tcol, width)
    }
}

/// The line and character under a row and column of the box.
pub open spec fn spec_logical_pos(lines: Seq<Seq<char>>, trow: int, tcol: int, width: int) -> (int, int) {
    logical_from(lines, 0, trow, tcol, width)
}

/// A number as a `u16`, the largest one when it does not fit.
pub open spec fn clamp_u16(n: int) -> u16 {
    if n <= 65535 {
        n as u16
    } else {
        65535
    }
}

fn clamp_u16_exec(n: usize) -> (r: u16)
    ensures
        r == clamp_u16(n as int),
{
    if n <= 65535 {
        n as u16
    } else {
        65535
    }
}

/// Up one row of the box: to the character under the cursor's column in
/// the row above; nothing on the first row. With no width known, up one line.
pub open spec fn spec_move_up(s: TextState, width: int) -> TextState {
    if width == 0 {
        ta_up(s)
    } else {
        let (rows, vr, vc) = spec_visual_info(s, width);
        if vr == 0 {
            s
        } else {
            let (lr, lc) = spec_logical_pos(s.lines, vr - 1, vc, width);
            ta_jump(s, clamp_u16(lr), clamp_u16(lc))
        }
    }
}

/// Down one row of the box; nothing on the last row.
pub open spec fn spec_move_down(s: TextState, width: int) -> TextState {
    if width == 0 {
        ta_down(s)
    } else {
        let (rows, vr, vc) = spec_visual_info(s, width);
        if vr >= (if rows.len() >= 1 { rows.len() - 1 } else { 0 }) {
            s
        } else {
            let (lr, lc) = spec_logical_pos(s.lines, vr + 1, vc, width);
            ta_jump(s, clamp_u16(lr), clamp_u16(lc))
        }
    }
}

/// To the start of the cursor's row of the box.
pub open spec fn spec_move_start(s: TextState, width: int) -> TextState {
    if width == 0 {
        ta_head(s)
    } else {
        let (rows, vr, vc) = spec_visual_info(s, width);
        let (lr, lc) = spec_logical_pos(s.lines, vr, 0, width);
        ta_jump(s, clamp_u16(lr), clamp_u16(lc))
    }
}

/// The columns a row takes, stopping at the largest `usize`.
pub open spec fn row_width(row: Seq<char>) -> int
    decreases row.len(),
{
    if row.len() == 0 {
        0
    } else {
        let w = row_width(row.drop_last()) + cw(row.last());
        if w > usize::MAX {
            usize::MAX as int
        } else {
            w
        }
    }
}

/// To the end of the cursor's row of the box.
pub open spec fn spec_move_end(s: TextState, width: int) -> TextState {
    if width == 0 {
        ta_end(s)
    } else {
        let (rows, vr, vc) = spec_visual_info(s, width);
        if 0 <= vr < rows.len() {
            let (lr, lc) = spec_logical_pos(s.lines, vr, row_width(rows[vr]), width);
            ta_jump(s, clamp_u16(lr), clamp_u16(lc))
        } else {
            s
        }
    }
}

proof fn lemma_wrap_fold_facts(line: Seq<char>, width: int, i: int)
    ensures
        wrap_fold(line, width, i).1 >= 0,
        wrap_fold(line, width, i).0.len() >= 1,
    decreases i,
{
    if i > 0 {
        lemma_wrap_fold_facts(line, width, i - 1);
    }
}

proof fn lemma_wrap_fold_mono(line: Seq<char>, width: int, i: int, j: int)
    requires
        0 <= i <= j,
    ensures
        wrap_fold(line, width, i).0.len() <= wrap_fold(line, width, j).0.len(),
    decreases j - i,
{
    if i < j {
        lemma_wrap_fold_mono(line, width, i, j - 1);
    }
}

proof fn lemma_cursor_row_in_rows(line: Seq<char>, width: int, col: int)
    requires
        0 <= col <= line.len(),
    ensures
        0 <= cursor_rows(line, width, col).1 < cursor_rows(line, width, col).0.len(),
{
    if line.len() > 0 {
        lemma_wrap_fold_facts(line, width, line.len() as int);
        if col < line.len() {
            lemma_wrap_fold_facts(line, width, col + 1);
            lemma_wrap_fold_mono(line, width, col + 1, line.len() as int);
        }
    }
}

/// Row starts and last-row width of a line after its first `n` characters.
fn wrap_fold_exec(line: &Vec<char>, width: usize, n: usize) -> (r: (Vec<usize>, usize))
    requires
        n <= line@.len(),
    ensures
        r.0@.map_values(|x: usize| x as int) == wrap_fold(line@, width as int, n as int).0,
        r.1 == wrap_fold(line@, width as int, n as int).1,
        r.0@.len() >= 1,
        r.0@[0] == 0,
        forall|k: int| 0 <= k < r.0@.len() ==> (#[trigger] r.0@[k]) <= n,
        forall|a: int, b: int| 0 <= a <= b < r.0@.len() ==> r.0@[a] <= r.0@[b],
{
    let mut st: Vec<usize> = Vec::new();
    st.push(0);
    let mut w: usize = 0;
    let mut i: usize = 0;
    assert(st@.map_values(|x: usize| x as int) =~= seq![0int]);
    while i < n
        invariant
            i <= n <= line@.len(),
            st@.map_values(|x: usize| x as int) == wrap_fold(line@, width as int, i as int).0,
            w == wrap_fold(line@, width as int, i as int).1,
            w <= width || w <= 3,
            st@.len() >= 1,
            st@[0] == 0,
            forall|k: int| 0 <= k < st@.len() ==> (#[trigger] st@[k]) <= i,
            forall|a: int, b: int| 0 <= a <= b < st@.len() ==> st@[a] <= st@[b],
        decreases n - i,
    {
        let c = cw_exec(line[i]);
        if c > width || w > width - c {
            let ghost before = st@;
            st.push(i);
            assert(st@.map_values(|x: usize| x as int) =~= before.map_values(|x: usize| x as int).push(i as int));
            w = c;
        } else {
            w = w + c;
        }
        i = i + 1;
    }
    (st, w)
}


/// The rows of a line.
fn plain_rows_exec(line: &Vec<char>, width: usize) -> (rows: Vec<Vec<char>>)
    ensures
        rows_of(rows@) == plain_rows(line@, width as int),
{
    let mut rows: Vec<Vec<char>> = Vec::new();
    if line.len() == 0 {
        rows.push(Vec::new());
        assert(rows_of(rows@) =~= seq![Seq::<char>::empty()]);
        return rows;
    }
    let (st, _w) = wrap_fold_exec(line, width, line.len());
    let ghost sts = wrap_fold(line@, width as int, line@.len() as int).0;
    let mut k: usize = 0;
    while k < st.len()
        invariant
            k <= st@.len(),
            line@.len() > 0,
            st@.map_values(|x: usize| x as int) == sts,
            forall|j: int| 0 <= j < st@.len() ==> (#[trigger] st@[j]) <= line@.len(),
            forall|a: int, b: int| 0 <= a <= b < st@.len() ==> st@[a] <= st@[b],
            rows_of(rows@) == Seq::new(k as nat, |j: int| line@.subrange(sts[j], row_end(sts, j, line@.len() as int))),
        decreases st@.len() - k,
    {
        let e = if k + 1 < st.len() {
            st[k + 1]
        } else {
            line.len()
        };
        assert(sts[k as int] == st@[k as int] as int);
        assert(e as int == row_end(sts, k as int, line@.len() as int));
        let r = sub_chars(line, st[k], e);
        assert(r@ == line@.subrange(sts[k as int], row_end(sts, k as int, line@.len() as int)));
        let ghost before = rows@;
        rows.push(r);
        assert(rows_of(rows@) =~= rows_of(before).push(r@));
        assert(rows_of(rows@) =~= Seq::new((k + 1) as nat, |j: int| line@.subrange(sts[j], row_end(sts, j, line@.len() as int))));
        k = k + 1;
    }
    rows
}

/// The rows of the cursor's line, and the cursor's row and column in them.
fn cursor_rows_exec(line: &Vec<char>, width: usize, col: usize) -> (r: (Vec<Vec<char>>, usize, usize))
    requires
        col <= line@.len(),
    ensures
        rows_of(r.0@) == cursor_rows(line@, width as int, col as int).0,
        r.1 == cursor_rows(line@, width as int, col as int).1,
        r.2 == cursor_rows(line@, width as int, col as int).2,
{
    if line.len() == 0 {
        let mut rows: Vec<Vec<char>> = Vec::new();
        rows.push(Vec::new());
        assert(rows_of(rows@) =~= seq![Seq::<char>::empty()]);
        return (rows, 0, 0);
    }
    let rows = plain_rows_exec(line, width);
    if col < line.len() {
        let (st, w) = wrap_fold_exec(line, width, col + 1);
        let c = cw_exec(line[col]);
        proof {
            lemma_wrap_fold_facts(line@, width as int, col as int);
            lemma_wrap_fold_mono(line@, width as int, col + 1, line@.len() as int);
            let ghost f = wrap_fold(line@, width as int, col as int);
            assert(w as int == (if f.1 + cw(line@[col as int]) > width { cw(line@[col as int]) } else { f.1 + cw(line@[col as int]) }));
        }
        (rows, st.len() - 1, w - c)
    } else {
        let (st, w) = wrap_fold_exec(line, width, line.len());
        if w >= width {
            let mut rows = rows;
            let ghost before = rows@;
            rows.push(Vec::new());
            assert(rows_of(rows@) =~= rows_of(before).push(Seq::<char>::empty()));
            let n = st.len();
            (rows, n, 0)
        } else {
            (rows, st.len() - 1, w)
        }
    }
}

/// The text as rows of a box `width` columns wide, with the cursor's row
/// and column among them.
pub fn visual_info(text: &TextBuffer, width: usize) -> (r: (Vec<Vec<char>>, usize, usize))
    requires
        text.wf(),
    ensures
        (rows_of(r.0@), r.1 as int, r.2 as int) == spec_visual_info(text@, width as int),
        r.1 < r.0@.len(),
{
    let lines = text.lines();
    let (row, col) = text.cursor();
    let ghost s = text@;
    if width == 0 {
        let mut out: Vec<Vec<char>> = Vec::new();
        push_rows(&mut out, &lines, 0, lines.len());
        assert(rows_of(out@) =~= s.lines);
        return (out, row, col);
    }
    let mut out: Vec<Vec<char>> = Vec::new();
    let mut vr: usize = 0;
    let mut vc: usize = 0;
    let mut l: usize = 0;
    while l < lines.len()
        invariant
            valid_text(s),
            s == text@,
            rows_of(lines@) == s.lines,
            row == s.row,
            col == s.col,
            width > 0,
            l <= lines@.len(),
            rows_of(out@) == rows_upto(s, width as int, l as int),
            l > row ==> vr == rows_upto(s, width as int, row as int).len() + cursor_rows(s.lines[row as int], width as int, col as int).1,
            l > row ==> vc == cursor_rows(s.lines[row as int], width as int, col as int).2,
            l > row ==> vr < out@.len(),
        decreases lines@.len() - l,
    {
        let ghost before = out@;
        if l == row {
            let (rs, r, c) = cursor_rows_exec(&lines[l], width, col);
            assert(rows_of(rs@).len() == rs@.len());
            let base = out.len();
            proof {
                lemma_cursor_row_in_rows(s.lines[l as int], width as int, col as int);
            }
            push_rows(&mut out, &rs, 0, rs.len());
            assert(rows_of(rs@).subrange(0, rs@.len() as int) =~= rows_of(rs@));
            let total = out.len();
            assert(rows_of(out@).len() == out@.len());
            assert(rows_of(before).len() == before.len());
            assert(rows_of(rs@).len() == rs@.len());
            assert(total == base + rs@.len());
            vr = base + r;
            vc = c;
        } else {
            let rs = plain_rows_exec(&lines[l], width);
            push_rows(&mut out, &rs, 0, rs.len());
            assert(rows_of(rs@).subrange(0, rs@.len() as int) =~= rows_of(rs@));
            assert(rows_of(out@).len() == out@.len());
            assert(rows_of(before).len() == before.len());
        }
        l = l + 1;
    }
    (out, vr, vc)
}

fn seg_pos_exec(line: &Vec<char>, s: usize, e: usize, col: usize) -> (p: usize)
    requires
        s <= e <= line@.len(),
    ensures
        p == seg_pos(line@, s as int, e as int, 0, col as int),
{
    let mut k = s;
    let mut run: usize = 0;
    while k < e
        invariant
            s <= k <= e <= line@.len(),
            run <= col,
            seg_pos(line@, s as int, e as int, 0, col as int) == seg_pos(line@, k as int, e as int, run as int, col as int),
        decreases e - k,
    {
        let c = cw_exec(line[k]);
        if c > col || run > col - c {
            return k;
        }
        run = run + c;
        k = k + 1;
    }
    e
}

/// The line and character under a row and column of the box.
pub fn logical_pos(lines: &Vec<Vec<char>>, trow: usize, tcol: usize, width: usize) -> (r: (usize, usize))
    ensures
        (r.0 as int, r.1 as int) == spec_logical_pos(rows_of(lines@), trow as int, tcol as int, width as int),
{
    let ghost ls = rows_of(lines@);
    let mut t = trow;
    let mut l: usize = 0;
    while l < lines.len()
        invariant
            l <= lines@.len(),
            ls == rows_of(lines@),
            spec_logical_pos(ls, trow as int, tcol as int, width as int) == logical_from(ls, l as int, t as int, tcol as int, width as int),
        decreases lines@.len() - l,
    {
        let line = &lines[l];
        assert(ls[l as int] == line@);
        if line.len() == 0 {
            if t == 0 {
                return (l, 0);
            }
            t = t - 1;
        } else {
            let (st, _w) = wrap_fold_exec(line, width, line.len());
            let n = st.len();
            assert(row_count(line@, width as int) == n);
            if t < n {
                let e = if t + 1 < n {
                    st[t + 1]
                } else {
                    line.len()
                };
                proof {
                    let sts = wrap_fold(line@, width as int, line@.len() as int).0;
                    assert(sts[t as int] == st@[t as int] as int);
                    assert(e as int == row_end(sts, t as int, line@.len() as int));
                }
                let p = seg_pos_exec(line, st[t], e, tcol);
                return (l, p);
            }
            t = t - n;
        }
        l = l + 1;
    }
    (0, 0)
}


/// The longest message, in bytes, the input keeps.
pub const MAX_MESSAGE_LENGTH: usize = 2000;

/// The placeholder while a channel is open.
pub const PLACEHOLDER_TEXT: &'static str = "Type a message...";

/// The placeholder while no channel is open.
pub const PLACEHOLDER_NO_CHANNEL: &'static str = "Select a channel first";

/// What the input is composing.
#[derive(Debug, Clone, PartialEq, Eq)]
pub enum MessageInputMode {
    Normal,
    Reply { message_id: u64, author: String, mention: bool },
    Editing { message_id: u64 },
}

/// What a key in the input asks the application to do.
#[derive(Debug, Clone, PartialEq, Eq)]
pub enum MessageInputAction {
    SendMessage { content: String, reply_to: Option<u64>, attachments: Vec<String> },
    EditMessage { message_id: u64, content: String },
    StartTyping,
    CancelReply,
    ExitInput,
    OpenEditor,
    Paste,
}

/// What the input asks for, as values.
pub enum InputRequest {
    SendMessage { content: Seq<char>, reply_to: Option<u64>, attachments: Seq<Seq<char>> },
    EditMessage { message_id: u64, content: Seq<char> },
    StartTyping,
    CancelReply,
    ExitInput,
    OpenEditor,
    Paste,
}

/// The texts of a list of strings.
pub open spec fn strings_view(v: Seq<String>) -> Seq<Seq<char>> {
    v.map_values(|s: String| s@)
}

/// The request an action stands for.
pub open spec fn input_request_of(a: Option<MessageInputAction>) -> Option<InputRequest> {
    match a {
        Some(MessageInputAction::SendMessage { content, reply_to, attachments }) => Some(
            InputRequest::SendMessage { content: content@, reply_to, attachments: strings_view(attachments@) },
        ),
        Some(MessageInputAction::EditMessage { message_id, content }) => Some(
            InputRequest::EditMessage { message_id, content: content@ },
        ),
        Some(MessageInputAction::StartTyping) => Some(InputRequest::StartTyping),
        Some(MessageInputAction::CancelReply) => Some(InputRequest::CancelReply),
        Some(MessageInputAction::ExitInput) => Some(InputRequest::ExitInput),
        Some(MessageInputAction::OpenEditor) => Some(InputRequest::OpenEditor),
        Some(MessageInputAction::Paste) => Some(InputRequest::Paste),
        None => None,
    }
}

/// `s` with every occurrence of `pat`, left to right and not overlapping,
/// replaced by `rep`.
pub open spec fn replace_all(s: Seq<char>, pat: Seq<char>, rep: Seq<char>) -> Seq<char>
    decreases s.len(),
{
    if pat.len() == 0 || s.len() < pat.len() {
        s
    } else if s.take(pat.len() as int) == pat {
        rep + replace_all(s.skip(pat.len() as int), pat, rep)
    } else {
        seq![s[0]] + replace_all(s.drop_first(), pat, rep)
    }
}

/// `pat` occurs in `s` at position `i`.
pub open spec fn occurs_at(s: Seq<char>, pat: Seq<char>, i: int) -> bool {
    0 <= i && i + pat.len() <= s.len() && s.subrange(i, i + pat.len()) == pat
}

/// A text in which a (non-empty) pattern does not occur is left as it is.
pub proof fn lemma_replace_all_without_pattern(s: Seq<char>, pat: Seq<char>, rep: Seq<char>)
    requires
        forall|i: int| !occurs_at(s, pat, i),
    ensures
        replace_all(s, pat, rep) == s,
    decreases s.len(),
{
    if pat.len() > 0 && s.len() >= pat.len() {
        assert(s.take(pat.len() as int) =~= s.subrange(0, pat.len() as int));
        assert(!occurs_at(s, pat, 0));
        let t = s.drop_first();
        assert forall|i: int| !occurs_at(t, pat, i) by {
            if occurs_at(t, pat, i) {
                assert(s.subrange(i + 1, i + 1 + pat.len()) =~= t.subrange(i, i + pat.len()));
                assert(occurs_at(s, pat, i + 1));
            }
        }
        lemma_replace_all_without_pattern(t, pat, rep);
        assert(seq![s[0]] + t =~= s);
    }
}

/// A text that is just the (non-empty) pattern becomes the replacement.
pub proof fn lemma_replace_all_pattern(pat: Seq<char>, rep: Seq<char>)
    requires
        pat.len() > 0,
    ensures
        replace_all(pat, pat, rep) == rep,
{
    assert(pat.take(pat.len() as int) =~= pat);
    assert(pat.skip(pat.len() as int) =~= Seq::<char>::empty());
    assert(replace_all(Seq::<char>::empty(), pat, rep) == Seq::<char>::empty());
    assert(rep + Seq::<char>::empty() =~= rep);
}

/// Replacing works piece by piece: when no occurrence of the (non-empty)
/// pattern straddles the boundary between two texts, replacing in their
/// concatenation gives the two replaced texts one after the other. So every
/// occurrence is replaced, not only the first.
pub proof fn lemma_replace_all_concat(s1: Seq<char>, s2: Seq<char>, pat: Seq<char>, rep: Seq<char>)
    requires
        pat.len() > 0,
        forall|i: int| s1.len() - pat.len() < i < s1.len() ==> !occurs_at(s1 + s2, pat, i),
    ensures
        replace_all(s1 + s2, pat, rep) == replace_all(s1, pat, rep) + replace_all(s2, pat, rep),
    decreases s1.len(),
{
    let s = s1 + s2;
    let p = pat.len() as int;
    if s1.len() == 0 {
        assert(s =~= s2);
        assert(Seq::<char>::empty() + replace_all(s2, pat, rep) =~= replace_all(s2, pat, rep));
    } else if s.len() < p {
        assert(replace_all(s1 + s2, pat, rep) == s);
    } else if s.take(p) == pat {
        if s1.len() < p {
            assert(s.take(p) =~= s.subrange(0, p));
            assert(occurs_at(s, pat, 0));
            assert(false);
        }
        assert(s1.take(p) =~= s.take(p));
        let t1 = s1.skip(p);
        assert(s.skip(p) =~= t1 + s2);
        assert forall|i: int| t1.len() - p < i < t1.len() implies !occurs_at(t1 + s2, pat, i) by {
            if occurs_at(t1 + s2, pat, i) {
                assert(s.subrange(i + p, i + p + p) =~= (t1 + s2).subrange(i, i + p));
                assert(occurs_at(s, pat, i + p));
            }
        }
        lemma_replace_all_concat(t1, s2, pat, rep);
        assert(rep + (replace_all(t1, pat, rep) + replace_all(s2, pat, rep)) =~= (rep + replace_all(t1, pat, rep))
            + replace_all(s2, pat, rep));
    } else {
        let t1 = s1.drop_first();
        assert(s.drop_first() =~= t1 + s2);
        assert forall|i: int| t1.len() - p < i < t1.len() implies !occurs_at(t1 + s2, pat, i) by {
            if occurs_at(t1 + s2, pat, i) {
                assert(s.subrange(i + 1, i + 1 + p) =~= (t1 + s2).subrange(i, i + p));
                assert(occurs_at(s, pat, i + 1));
            }
        }
        lemma_replace_all_concat(t1, s2, pat, rep);
        if s1.len() < p {
            assert(replace_all(t1, pat, rep) == t1);
            assert(replace_all(s1, pat, rep) == s1);
            assert(seq![s[0]] + (t1 + replace_all(s2, pat, rep)) =~= s1 + replace_all(s2, pat, rep));
        } else {
            assert(s1.take(p) =~= s.take(p));
            assert(seq![s[0]] + (replace_all(t1, pat, rep) + replace_all(s2, pat, rep)) =~= (seq![s1[0]]
                + replace_all(t1, pat, rep)) + replace_all(s2, pat, rep));
        }
    }
}

/// Longer mention names first (in UTF-8 bytes).
pub open spec fn mention_order(ms: Seq<(Seq<char>, Seq<char>)>) -> spec_fn(usize, usize) -> bool {
    |a: usize, b: usize| byte_len(ms[b as int].0) <= byte_len(ms[a as int].0)
}

/// The mentions, longest name first, ties in the order they were added.
pub open spec fn sorted_mentions(ms: Seq<(Seq<char>, Seq<char>)>) -> Seq<(Seq<char>, Seq<char>)> {
    stable_sort(index_seq(ms.len()), mention_order(ms)).map_values(|i: usize| ms[i as int])
}

/// Each mention name replaced by `<@ID>`, in the given order.
pub open spec fn apply_mentions(content: Seq<char>, ms: Seq<(Seq<char>, Seq<char>)>) -> Seq<char>
    decreases ms.len(),
{
    if ms.len() == 0 {
        content
    } else {
        apply_mentions(replace_all(content, ms[0].0, "<@"@ + ms[0].1 + ">"@), ms.drop_first())
    }
}

/// The message to send: the text with each mention name, longest first,
/// replaced by the user's `<@ID>`.
pub open spec fn spec_message_content(t: TextState, ms: Seq<(Seq<char>, Seq<char>)>) -> Seq<char> {
    apply_mentions(join_lines(t.lines), sorted_mentions(ms))
}

/// Whether `m` ends `p`.
pub open spec fn is_suffix_of(m: Seq<char>, p: Seq<char>) -> bool {
    m.len() <= p.len() && p.skip(p.len() - m.len()) == m
}

/// Among the mentions from `i` on, the first of the longest names (in
/// bytes) that end `prefix`, given the best so far.
pub open spec fn best_mention(ms: Seq<(Seq<char>, Seq<char>)>, prefix: Seq<char>, i: int, best: Option<int>) -> Option<int>
    decreases ms.len() - i,
{
    if i < 0 || i >= ms.len() {
        best
    } else if is_suffix_of(ms[i].0, prefix) && (match best {
        None => true,
        Some(b) => byte_len(ms[i].0) > byte_len(ms[b].0),
    }) {
        best_mention(ms, prefix, i + 1, Some(i))
    } else {
        best_mention(ms, prefix, i + 1, best)
    }
}

/// Backspace `n` times.
pub open spec fn delete_chars(t: TextState, n: nat) -> TextState
    decreases n,
{
    if n == 0 {
        t
    } else {
        ta_delete_char(delete_chars(t, (n - 1) as nat))
    }
}

/// The text replaced by another.
pub open spec fn spec_set_content(t: TextState, content: Seq<char>) -> TextState {
    ta_insert_str(ta_clear(t), content)
}

/// A text longer than the limit in bytes is cut to its first
/// `MAX_MESSAGE_LENGTH` characters.
pub open spec fn spec_enforce_limit(t: TextState) -> TextState {
    let content = join_lines(t.lines);
    if byte_len(content) > MAX_MESSAGE_LENGTH {
        let n = if content.len() < MAX_MESSAGE_LENGTH { content.len() as int } else { MAX_MESSAGE_LENGTH as int };
        spec_set_content(t, content.take(n))
    } else {
        t
    }
}

/// The input as values: its text, mode, attachments, mentions and the
/// width of the box it was last drawn in.
pub struct InputView {
    pub text: TextState,
    pub mode: MessageInputMode,
    pub attachments: Seq<Seq<char>>,
    pub mentions: Seq<(Seq<char>, Seq<char>)>,
    pub last_width: int,
}

/// Clearing: no text, normal mode, no mentions.
pub open spec fn spec_clear(v: InputView) -> InputView {
    InputView { text: ta_clear(v.text), mode: MessageInputMode::Normal, mentions: Seq::empty(), ..v }
}

/// The input with another text.
pub open spec fn with_text(v: InputView, t: TextState) -> InputView {
    InputView { text: t, ..v }
}

/// After an edit: the length limit is applied, and the edit asks to show
/// typing unless the text was and stays empty.
pub open spec fn finish_edit(v: InputView) -> (InputView, Option<InputRequest>) {
    let was_empty = ta_is_empty(v.text);
    let t = spec_enforce_limit(v.text);
    (with_text(v, t), if !was_empty || !ta_is_empty(t) { Some(InputRequest::StartTyping) } else { None })
}

/// An editing key: characters (alone or with Shift) are typed; Backspace
/// deletes a whole mention name ending at the cursor, else a character, and
/// with Control or Alt a word; Delete (with Control or Alt a word, as Alt-d
/// does), Control-w and Control-h (a word back); arrows move; Enter starts a
/// new line.
pub open spec fn edit_step(v: InputView, key: KeyEvent) -> (InputView, Option<InputRequest>) {
    let t = v.text;
    let m = key.modifiers;
    let ctrl_alt = m.has(MOD_CONTROL) || m.has(MOD_ALT);
    match key.code {
        KeyCode::Char(c) => if m.bits == 0 || m.bits == MOD_SHIFT {
            finish_edit(with_text(v, ta_insert_char(t, c)))
        } else if c == 'd' && m.has(MOD_ALT) {
            (with_text(v, ta_delete_next_word(t)), Some(InputRequest::StartTyping))
        } else if (c == 'w' || c == 'h') && m.has(MOD_CONTROL) {
            (with_text(v, ta_delete_word(t)), Some(InputRequest::StartTyping))
        } else {
            finish_edit(v)
        },
        KeyCode::Backspace => if ctrl_alt {
            (with_text(v, ta_delete_word(t)), Some(InputRequest::StartTyping))
        } else {
            match best_mention(v.mentions, cur_line(t).take(t.col), 0, None) {
                Some(i) => (
                    InputView {
                        text: delete_chars(t, byte_len(v.mentions[i].0)),
                        mentions: v.mentions.remove(i),
                        ..v
                    },
                    Some(InputRequest::StartTyping),
                ),
                None => finish_edit(with_text(v, ta_delete_char(t))),
            }
        },
        KeyCode::Delete => if ctrl_alt {
            (with_text(v, ta_delete_next_word(t)), Some(InputRequest::StartTyping))
        } else {
            finish_edit(with_text(v, ta_delete_next_char(t)))
        },
        KeyCode::Left => finish_edit(with_text(v, if ctrl_alt { ta_word_back(t) } else { ta_back(t) })),
        KeyCode::Right => finish_edit(with_text(v, if ctrl_alt { ta_word_forward(t) } else { ta_forward(t) })),
        KeyCode::Up => finish_edit(with_text(v, spec_move_up(t, v.last_width))),
        KeyCode::Down => finish_edit(with_text(v, spec_move_down(t, v.last_width))),
        KeyCode::Enter => finish_edit(with_text(v, ta_newline(t))),
        _ => finish_edit(v),
    }
}

/// A key in the input. `Home` and `End` move to the start and end of the
/// cursor's row. `Enter` without Shift sends; otherwise the bound action
/// decides: cancel leaves editing (clearing) or replying, else clears a
/// non-empty input, else leaves the input; send sends the message content
/// (as an edit while editing) unless there is neither text nor attachment;
/// the editor, clearing and pasting actions; any other key edits.
pub open spec fn input_step(v: InputView, key: KeyEvent, act: Option<Action>) -> (InputView, Option<InputRequest>) {
    match key.code {
        KeyCode::Home => (with_text(v, spec_move_start(v.text, v.last_width)), Some(InputRequest::StartTyping)),
        KeyCode::End => (with_text(v, spec_move_end(v.text, v.last_width)), Some(InputRequest::StartTyping)),
        _ => {
            let a = if key.code == KeyCode::Enter && !key.modifiers.has(MOD_SHIFT) {
                Some(Action::SendMessage)
            } else {
                act
            };
            match a {
                Some(Action::Cancel) => if v.mode is Editing {
                    (spec_clear(v), Some(InputRequest::CancelReply))
                } else if v.mode is Reply {
                    (InputView { mode: MessageInputMode::Normal, ..v }, Some(InputRequest::CancelReply))
                } else if !ta_is_empty(v.text) || v.attachments.len() > 0 {
                    (InputView { attachments: Seq::empty(), ..spec_clear(v) }, None)
                } else {
                    (v, Some(InputRequest::ExitInput))
                },
                Some(Action::SendMessage) => {
                    let content = spec_message_content(v.text, v.mentions);
                    if trim(content).len() == 0 && v.attachments.len() == 0 {
                        (v, None)
                    } else {
                        match v.mode {
                            MessageInputMode::Editing { message_id } => (
                                spec_clear(v),
                                Some(InputRequest::EditMessage { message_id, content }),
                            ),
                            _ => (
                                InputView { attachments: Seq::empty(), ..spec_clear(v) },
                                Some(
                                    InputRequest::SendMessage {
                                        content,
                                        reply_to: match v.mode {
                                            MessageInputMode::Reply { message_id, .. } => Some(message_id),
                                            _ => None,
                                        },
                                        attachments: v.attachments,
                                    },
                                ),
                            ),
                        }
                    }
                },
                Some(Action::OpenEditor) => (v, Some(InputRequest::OpenEditor)),
                Some(Action::ClearInput) => (spec_clear(v), None),
                Some(Action::Paste) => (v, Some(InputRequest::Paste)),
                _ => edit_step(v, key),
            }
        },
    }
}

/// A cursor move of the text area.
#[derive(Clone, Copy, Debug, PartialEq, Eq)]
pub enum CursorMove {
    Forward,
    Back,
    Up,
    Down,
    Head,
    End,
    WordForward,
    WordBack,
    Jump(u16, u16),
}

/// The text after a cursor move.
pub open spec fn spec_cursor_move(t: TextState, m: CursorMove) -> TextState {
    match m {
        CursorMove::Forward => ta_forward(t),
        CursorMove::Back => ta_back(t),
        CursorMove::Up => ta_up(t),
        CursorMove::Down => ta_down(t),
        CursorMove::Head => ta_head(t),
        CursorMove::End => ta_end(t),
        CursorMove::WordForward => ta_word_forward(t),
        CursorMove::WordBack => ta_word_back(t),
        CursorMove::Jump(r, c) => ta_jump(t, r, c),
    }
}


/// The names and ids of a list of mentions.
pub open spec fn mentions_view(v: Seq<(String, String)>) -> Seq<(Seq<char>, Seq<char>)> {
    v.map_values(|p: (String, String)| (p.0@, p.1@))
}

fn starts_at(s: &Vec<char>, i: usize, pat: &Vec<char>) -> (b: bool)
    requires
        i + pat@.len() <= s@.len(),
    ensures
        b == (s@.skip(i as int).take(pat@.len() as int) == pat@),
{
    let slen = s.len();
    let mut j: usize = 0;
    while j < pat.len()
        invariant
            j <= pat@.len(),
            slen == s@.len(),
            i + pat@.len() <= s@.len(),
            forall|m: int| 0 <= m < j ==> s@[i + m] == pat@[m],
        decreases pat@.len() - j,
    {
        if s[i + j] != pat[j] {
            assert(s@.skip(i as int).take(pat@.len() as int)[j as int] != pat@[j as int]);
            return false;
        }
        j = j + 1;
    }
    assert(s@.skip(i as int).take(pat@.len() as int) =~= pat@);
    true
}

fn replace_all_exec(s: &Vec<char>, pat: &Vec<char>, rep: &Vec<char>) -> (r: Vec<char>)
    requires
        pat@.len() > 0,
    ensures
        r@ == replace_all(s@, pat@, rep@),
{
    let mut out: Vec<char> = Vec::new();
    let mut i: usize = 0;
    assert(s@.skip(0) =~= s@);
    while i < s.len()
        invariant
            i <= s@.len(),
            pat@.len() > 0,
            replace_all(s@, pat@, rep@) == out@ + replace_all(s@.skip(i as int), pat@, rep@),
        decreases s@.len() - i,
    {
        let ghost rest = s@.skip(i as int);
        if s.len() - i >= pat.len() && starts_at(s, i, pat) {
            append_chars(&mut out, rep);
            assert(rest.skip(pat@.len() as int) =~= s@.skip(i + pat@.len()));
            assert(out@ + replace_all(s@.skip(i + pat@.len()), pat@, rep@) =~= (out@.subrange(0, out@.len() - rep@.len()))
                + (rep@ + replace_all(s@.skip(i + pat@.len()), pat@, rep@)));
            i = i + pat.len();
        } else {
            let ghost before = out@;
            out.push(s[i]);
            proof {
                if rest.len() < pat@.len() {
                    assert(s@.skip(i + 1).len() < pat@.len());
                    assert(rest =~= seq![s@[i as int]] + s@.skip(i + 1));
                } else {
                    assert(rest.drop_first() =~= s@.skip(i + 1));
                    assert(rest[0] == s@[i as int]);
                }
                assert(before + replace_all(rest, pat@, rep@) =~= out@ + replace_all(s@.skip(i + 1), pat@, rep@));
            }
            i = i + 1;
        }
    }
    assert(s@.skip(i as int) =~= Seq::<char>::empty());
    assert(out@ + Seq::<char>::empty() =~= out@);
    out
}

/// Indices of the mentions, longest name first, ties in list order.
fn sort_mentions(ms: &Vec<(String, String)>) -> (r: Vec<usize>)
    ensures
        r@ == stable_sort(index_seq(ms@.len()), mention_order(mentions_view(ms@))),
        forall|j: int| 0 <= j < r@.len() ==> (#[trigger] r@[j]) < ms@.len(),
{
    let ghost mv = mentions_view(ms@);
    let ghost le = mention_order(mv);
    let ghost s = index_seq(ms@.len());
    let n = ms.len();
    let mut out: Vec<usize> = Vec::new();
    let mut k: usize = 0;
    assert(s.take(0) =~= Seq::<usize>::empty());
    while k < n
        invariant
            k <= n == ms@.len(),
            s == index_seq(ms@.len()),
            mv == mentions_view(ms@),
            le == mention_order(mv),
            out@ == stable_sort(s.take(k as int), le),
            forall|j: int| 0 <= j < out@.len() ==> (#[trigger] out@[j]) < n,
        decreases n - k,
    {
        let x = k;
        let xl = utf8_len(&to_chars(ms[x].0.as_str()));
        let mut p: usize = 0;
        assert(out@.skip(0) =~= out@);
        while p < out.len() && xl <= utf8_len(&to_chars(ms[out[p]].0.as_str()))
            invariant
                p <= out@.len(),
                x < n == ms@.len(),
                mv == mentions_view(ms@),
                le == mention_order(mv),
                xl == byte_len(mv[x as int].0),
                forall|j: int| 0 <= j < out@.len() ==> (#[trigger] out@[j]) < n,
                insert_pos(out@, x, le) == p + insert_pos(out@.skip(p as int), x, le),
            decreases out@.len() - p,
        {
            assert(out@.skip(p as int)[0] == out@[p as int]);
            assert(le(out@[p as int], x));
            assert(out@.skip(p as int).drop_first() =~= out@.skip(p + 1));
            p = p + 1;
        }
        proof {
            if p < out@.len() {
                assert(out@.skip(p as int)[0] == out@[p as int]);
            }
            assert(s.take(k + 1).drop_last() =~= s.take(k as int));
            assert(s.take(k + 1).last() == x);
        }
        let ghost before = out@;
        out.insert(p, x);
        assert forall|j: int| 0 <= j < out@.len() implies (#[trigger] out@[j]) < n by {
            if j < p {
                assert(out@[j] == before[j]);
            } else if j > p {
                assert(out@[j] == before[j - 1]);
            }
        }
        k = k + 1;
    }
    assert(s.take(k as int) =~= s);
    out
}

fn mention_tag(id: &str) -> (r: Vec<char>)
    ensures
        r@ == "<@"@ + id@ + ">"@,
{
    let mut v = to_chars("<@");
    append_str(&mut v, id);
    append_str(&mut v, ">");
    v
}

/// The first of the longest mention names ending `prefix`.
fn best_mention_exec(ms: &Vec<(String, String)>, prefix: &Vec<char>) -> (r: Option<usize>)
    ensures
        match r {
            Some(i) => best_mention(mentions_view(ms@), prefix@, 0, None) == Some(i as int) && i < ms@.len(),
            None => best_mention(mentions_view(ms@), prefix@, 0, None) is None,
        },
{
    let ghost mv = mentions_view(ms@);
    let mut best: Option<usize> = None;
    let mut best_len: u128 = 0;
    let mut i: usize = 0;
    while i < ms.len()
        invariant
            i <= ms@.len(),
            mv == mentions_view(ms@),
            match best {
                Some(b) => b < i && best_len == byte_len(mv[b as int].0),
                None => true,
            },
            best_mention(mv, prefix@, 0, None) == best_mention(mv, prefix@, i as int, match best {
                Some(b) => Some(b as int),
                None => None,
            }),
        decreases ms@.len() - i,
    {
        let name = to_chars(ms[i].0.as_str());
        let is_suffix = name.len() <= prefix.len() && starts_at(prefix, prefix.len() - name.len(), &name);
        proof {
            if name@.len() <= prefix@.len() {
                assert(prefix@.skip(prefix@.len() - name@.len()).take(name@.len() as int) =~= prefix@.skip(prefix@.len() - name@.len()));
            }
        }
        if is_suffix {
            let l = utf8_len(&name);
            let better = match best {
                None => true,
                Some(_) => l > best_len,
            };
            if better {
                best = Some(i);
                best_len = l;
            }
        }
        i = i + 1;
    }
    best
}

fn row_width_exec(row: &Vec<char>) -> (w: usize)
    ensures
        w == row_width(row@),
{
    let mut w: usize = 0;
    let mut i: usize = 0;
    assert(row@.take(0) =~= Seq::<char>::empty());
    while i < row.len()
        invariant
            i <= row@.len(),
            w == row_width(row@.take(i as int)),
        decreases row@.len() - i,
    {
        let c = cw_exec(row[i]);
        assert(row@.take(i + 1).drop_last() =~= row@.take(i as int));
        assert(row@.take(i + 1).last() == row@[i as int]);
        if w > usize::MAX - c {
            w = usize::MAX;
        } else {
            w = w + c;
        }
        i = i + 1;
    }
    assert(row@.take(i as int) =~= row@);
    w
}

/// Whether cutting the value at the trigger index and at the cursor index,
/// when a mention replaces what lies between, falls on character boundaries.
pub open spec fn mention_cuts_defined(t: TextState, trigger: int) -> bool {
    let content = join_lines(t.lines);
    let ci = MessageInputState::spec_cursor_index(t);
    0 <= trigger < byte_len(content) && trigger <= ci <= byte_len(content) ==> bytes_prefix(content, trigger as nat)
        is Some && bytes_prefix(content, ci as nat) is Some
}

/// The value with the bytes from the trigger index to the cursor index
/// replaced by the mention text, when the trigger is inside the value and
/// the cursor at or after it.
pub open spec fn mention_value(content: Seq<char>, trigger: int, ci: int, mention: Seq<char>) -> Option<Seq<char>> {
    if 0 <= trigger < byte_len(content) && trigger <= ci <= byte_len(content) {
        match (bytes_prefix(content, trigger as nat), bytes_prefix(content, ci as nat)) {
            (Some(pre), Some(upto)) => Some(pre + mention + content.skip(upto.len() as int)),
            _ => None,
        }
    } else {
        None
    }
}

/// The text after a mention is inserted.
pub open spec fn spec_after_mention(t: TextState, trigger: int, mention: Seq<char>) -> TextState {
    match mention_value(join_lines(t.lines), trigger, MessageInputState::spec_cursor_index(t), mention) {
        Some(v) => spec_set_content(t, v),
        None => t,
    }
}

fn mention_replacement(content: &Vec<char>, trigger: usize, ci: usize, mention: &Vec<char>) -> (r: Option<Vec<char>>)
    ensures
        match r {
            Some(v) => mention_value(content@, trigger as int, ci as int, mention@) == Some(v@),
            None => mention_value(content@, trigger as int, ci as int, mention@) is None,
        },
{
    let total = utf8_len(content);
    if trigger as u128 >= total || ci < trigger || ci as u128 > total {
        return None;
    }
    let pre = match first_bytes(content, trigger) {
        Some(p) => p,
        None => {
            return None;
        },
    };
    let upto = match first_bytes(content, ci) {
        Some(p) => p,
        None => {
            return None;
        },
    };
    proof {
        crate::utils::lemma_bytes_prefix_is_prefix(content@, ci as nat);
    }
    let suffix = sub_chars(content, upto.len(), content.len());
    let mut v = pre;
    append_chars(&mut v, mention);
    append_chars(&mut v, &suffix);
    Some(v)
}

/// The first mention with a name.
pub open spec fn mention_slot(ms: Seq<(Seq<char>, Seq<char>)>, name: Seq<char>) -> Option<int> {
    if exists|i: int| 0 <= i < ms.len() && (#[trigger] ms[i]).0 == name {
        Some(choose|i: int| 0 <= i < ms.len() && (#[trigger] ms[i]).0 == name
            && forall|k: int| 0 <= k < i ==> (#[trigger] ms[k]).0 != name)
    } else {
        None
    }
}

/// The mentions with a name standing for an id: its entry updated, or a new
/// entry at the end.
pub open spec fn mentions_with(ms: Seq<(Seq<char>, Seq<char>)>, name: Seq<char>, id: Seq<char>) -> Seq<(Seq<char>, Seq<char>)> {
    match mention_slot(ms, name) {
        Some(i) => ms.update(i, (name, id)),
        None => ms.push((name, id)),
    }
}

/// The message composer.
pub struct MessageInputState {
    text: TextBuffer,
    focused: bool,
    mode: MessageInputMode,
    has_channel: bool,
    attachments: Vec<String>,
    scroll_offset: usize,
    last_width: usize,
    mentions: Vec<(String, String)>,
    placeholder: String,
}

impl MessageInputState {
    /// The text is well formed and every mention has a name.
    pub closed spec fn wf(&self) -> bool {
        &&& self.text.wf()
        &&& forall|i: int| 0 <= i < self.mentions@.len() ==> (#[trigger] self.mentions@[i]).0@.len() > 0
    }

    /// The input as values.
    pub closed spec fn input_view(&self) -> InputView {
        InputView {
            text: self.text@,
            mode: self.mode,
            attachments: strings_view(self.attachments@),
            mentions: mentions_view(self.mentions@),
            last_width: self.last_width as int,
        }
    }

    /// The text and cursor.
    pub open spec fn spec_text(&self) -> TextState {
        self.input_view().text
    }

    /// What keys leave alone: focus, channel, scroll and placeholder.
    pub closed spec fn chrome(&self) -> (bool, bool, usize, Seq<char>) {
        (self.focused, self.has_channel, self.scroll_offset, self.placeholder@)
    }

    /// Whether the input has focus.
    pub closed spec fn spec_focused(&self) -> bool {
        self.focused
    }

    /// The focus flag is part of the chrome.
    pub proof fn lemma_focus_in_chrome(&self)
        ensures
            self.spec_focused() == self.chrome().0,
    {
    }

    /// Whether a channel is open.
    pub closed spec fn spec_has_channel(&self) -> bool {
        self.has_channel
    }

    /// The first row of the box in view.
    pub closed spec fn spec_scroll_offset(&self) -> usize {
        self.scroll_offset
    }

    /// The placeholder shown while the text is empty.
    pub closed spec fn spec_placeholder(&self) -> Seq<char> {
        self.placeholder@
    }

    /// An empty input in normal mode, unfocused, with no channel.
    pub fn new() -> (s: MessageInputState)
        ensures
            s.wf(),
            s.spec_text() == text_state(seq![Seq::<char>::empty()], 0, 0),
            s.input_view().mode == MessageInputMode::Normal,
            s.input_view().attachments.len() == 0,
            s.input_view().mentions.len() == 0,
            s.input_view().last_width == 0,
            !s.spec_focused(),
            !s.spec_has_channel(),
            s.spec_scroll_offset() == 0,
            s.spec_placeholder().len() == 0,
    {
        let s = MessageInputState {
            text: TextBuffer::new(),
            focused: false,
            mode: MessageInputMode::Normal,
            has_channel: false,
            attachments: Vec::new(),
            scroll_offset: 0,
            last_width: 0,
            mentions: Vec::new(),
            placeholder: String::new(),
        };
        assert(s.placeholder@ =~= Seq::<char>::empty());
        s
    }

    /// Adds an attachment.
    pub fn add_attachment(&mut self, path: String)
        requires
            old(self).wf(),
        ensures
            final(self).wf(),
            final(self).input_view() == (InputView {
                attachments: old(self).input_view().attachments.push(path@),
                ..old(self).input_view()
            }),
            final(self).chrome() == old(self).chrome(),
    {
        let ghost before = self.attachments@;
        self.attachments.push(path);
        assert(strings_view(self.attachments@) =~= strings_view(before).push(path@));
    }

    /// Removes every attachment.
    pub fn clear_attachments(&mut self)
        requires
            old(self).wf(),
        ensures
            final(self).wf(),
            final(self).input_view() == (InputView { attachments: Seq::empty(), ..old(self).input_view() }),
            final(self).chrome() == old(self).chrome(),
    {
        self.attachments = Vec::new();
        assert(strings_view(self.attachments@) =~= Seq::<Seq<char>>::empty());
    }

    /// The attachments.
    pub fn attachments(&self) -> (a: &Vec<String>)
        ensures
            strings_view(a@) == self.input_view().attachments,
    {
        &self.attachments
    }

    /// Sets focus.
    pub fn set_focused(&mut self, focused: bool)
        requires
            old(self).wf(),
        ensures
            final(self).wf(),
            final(self).spec_focused() == focused,
            final(self).input_view() == old(self).input_view(),
            final(self).spec_has_channel() == old(self).spec_has_channel(),
    {
        self.focused = focused;
    }

    /// Whether the input has focus.
    pub fn is_focused(&self) -> (b: bool)
        ensures
            b == self.spec_focused(),
    {
        self.focused
    }

    /// Records whether a channel is open and shows the matching placeholder.
    pub fn set_has_channel(&mut self, has_channel: bool)
        requires
            old(self).wf(),
        ensures
            final(self).wf(),
            final(self).spec_has_channel() == has_channel,
            final(self).spec_placeholder() == (if has_channel { PLACEHOLDER_TEXT@ } else { PLACEHOLDER_NO_CHANNEL@ }),
            final(self).input_view() == old(self).input_view(),
            final(self).spec_focused() == old(self).spec_focused(),
    {
        self.has_channel = has_channel;
        self.update_placeholder();
    }

    fn update_placeholder(&mut self)
        requires
            old(self).wf(),
        ensures
            final(self).wf(),
            final(self).spec_placeholder() == (if old(self).spec_has_channel() { PLACEHOLDER_TEXT@ } else { PLACEHOLDER_NO_CHANNEL@ }),
            final(self).input_view() == old(self).input_view(),
            final(self).spec_focused() == old(self).spec_focused(),
            final(self).spec_has_channel() == old(self).spec_has_channel(),
    {
        self.placeholder = if self.has_channel {
            copy_str(PLACEHOLDER_TEXT)
        } else {
            copy_str(PLACEHOLDER_NO_CHANNEL)
        };
    }

    /// Whether a channel is open.
    pub fn has_channel(&self) -> (b: bool)
        ensures
            b == self.spec_has_channel(),
    {
        self.has_channel
    }

    /// The placeholder text.
    pub fn placeholder(&self) -> (p: &str)
        ensures
            p@ == self.spec_placeholder(),
    {
        self.placeholder.as_str()
    }

    /// The text, lines joined with line feeds.
    pub fn value(&self) -> (v: String)
        requires
            self.wf(),
        ensures
            v@ == join_lines(self.spec_text().lines),
    {
        from_chars(&self.text.value_chars())
    }

    /// The message to send: mention names replaced by `<@ID>`.
    pub fn message_content(&self) -> (c: String)
        requires
            self.wf(),
        ensures
            c@ == spec_message_content(self.spec_text(), self.input_view().mentions),
    {
        let ghost mv = mentions_view(self.mentions@);
        let order = sort_mentions(&self.mentions);
        let ghost sorted = sorted_mentions(mv);
        let mut content = self.text.value_chars();
        let mut k: usize = 0;
        assert(sorted.skip(0) =~= sorted);
        while k < order.len()
            invariant
                k <= order@.len(),
                mv == mentions_view(self.mentions@),
                sorted == sorted_mentions(mv),
                order@ == stable_sort(index_seq(self.mentions@.len()), mention_order(mv)),
                forall|j: int| 0 <= j < order@.len() ==> (#[trigger] order@[j]) < self.mentions@.len(),
                forall|i: int| 0 <= i < self.mentions@.len() ==> (#[trigger] self.mentions@[i]).0@.len() > 0,
                spec_message_content(self.text@, mv) == apply_mentions(content@, sorted.skip(k as int)),
            decreases order@.len() - k,
        {
            let m = &self.mentions[order[k]];
            let name = to_chars(m.0.as_str());
            let tag = mention_tag(m.1.as_str());
            proof {
                assert(sorted.len() == order@.len());
                assert(sorted.skip(k as int)[0] == mv[order@[k as int] as int]);
                assert(sorted.skip(k as int).drop_first() =~= sorted.skip(k + 1));
            }
            content = replace_all_exec(&content, &name, &tag);
            k = k + 1;
        }
        assert(sorted.skip(k as int) =~= Seq::<(Seq<char>, Seq<char>)>::empty());
        from_chars(&content)
    }

    /// Whether the text is empty.
    pub fn is_empty(&self) -> (b: bool)
        requires
            self.wf(),
        ensures
            b == ta_is_empty(self.spec_text()),
    {
        self.text.is_empty()
    }

    /// What the input is composing.
    pub fn mode(&self) -> (m: &MessageInputMode)
        ensures
            *m == self.input_view().mode,
    {
        &self.mode
    }

    /// Whether the input composes a reply.
    pub fn is_replying(&self) -> (b: bool)
        ensures
            b == (self.input_view().mode is Reply),
    {
        match &self.mode {
            MessageInputMode::Reply { .. } => true,
            _ => false,
        }
    }

    /// Whether the input edits a message.
    pub fn is_editing(&self) -> (b: bool)
        ensures
            b == (self.input_view().mode is Editing),
    {
        match &self.mode {
            MessageInputMode::Editing { .. } => true,
            _ => false,
        }
    }

    /// Starts a reply to a message.
    pub fn start_reply(&mut self, message_id: u64, author: String, mention: bool)
        requires
            old(self).wf(),
        ensures
            final(self).wf(),
            final(self).input_view() == (InputView {
                mode: MessageInputMode::Reply { message_id, author, mention },
                ..old(self).input_view()
            }),
            final(self).chrome() == old(self).chrome(),
    {
        self.mode = MessageInputMode::Reply { message_id, author, mention };
    }

    /// Starts editing a message with its content.
    pub fn start_edit(&mut self, message_id: u64, content: &str)
        requires
            old(self).wf(),
        ensures
            final(self).wf(),
            final(self).input_view() == (InputView {
                mode: MessageInputMode::Editing { message_id },
                text: spec_set_content(old(self).spec_text(), content@),
                ..old(self).input_view()
            }),
            final(self).chrome() == old(self).chrome(),
            final(self).spec_focused() == old(self).spec_focused(),
            final(self).spec_has_channel() == old(self).spec_has_channel(),
    {
        self.mode = MessageInputMode::Editing { message_id };
        self.set_content(content);
    }

    /// Back to composing a new message.
    pub fn reset_mode(&mut self)
        requires
            old(self).wf(),
        ensures
            final(self).wf(),
            final(self).input_view() == (InputView { mode: MessageInputMode::Normal, ..old(self).input_view() }),
            final(self).chrome() == old(self).chrome(),
    {
        self.mode = MessageInputMode::Normal;
    }

    /// Clears the text, the mode and the mentions.
    pub fn clear(&mut self)
        requires
            old(self).wf(),
        ensures
            final(self).wf(),
            final(self).input_view() == spec_clear(old(self).input_view()),
            final(self).chrome() == old(self).chrome(),
            final(self).spec_focused() == old(self).spec_focused(),
            final(self).spec_has_channel() == old(self).spec_has_channel(),
    {
        self.text.clear();
        self.mode = MessageInputMode::Normal;
        self.mentions = Vec::new();
        assert(mentions_view(self.mentions@) =~= Seq::<(Seq<char>, Seq<char>)>::empty());
    }

    /// Replaces the text.
    pub fn set_content(&mut self, content: &str)
        requires
            old(self).wf(),
        ensures
            final(self).wf(),
            final(self).input_view() == with_text(old(self).input_view(), spec_set_content(old(self).spec_text(), content@)),
            final(self).chrome() == old(self).chrome(),
    {
        self.text.clear();
        self.text.insert_str(content);
    }

    /// Inserts a text at the cursor.
    pub fn insert_text_at_cursor(&mut self, content: &str)
        requires
            old(self).wf(),
        ensures
            final(self).wf(),
            final(self).input_view() == with_text(old(self).input_view(), ta_insert_str(old(self).spec_text(), content@)),
            final(self).chrome() == old(self).chrome(),
    {
        self.text.insert_str(content);
    }

    /// Moves the cursor.
    pub fn move_cursor(&mut self, m: CursorMove)
        requires
            old(self).wf(),
        ensures
            final(self).wf(),
            final(self).input_view() == with_text(old(self).input_view(), spec_cursor_move(old(self).spec_text(), m)),
            final(self).chrome() == old(self).chrome(),
    {
        match m {
            CursorMove::Forward => self.text.move_forward(),
            CursorMove::Back => self.text.move_back(),
            CursorMove::Up => self.text.move_up(),
            CursorMove::Down => self.text.move_down(),
            CursorMove::Head => self.text.move_head(),
            CursorMove::End => self.text.move_end(),
            CursorMove::WordForward => self.text.move_word_forward(),
            CursorMove::WordBack => self.text.move_word_back(),
            CursorMove::Jump(r, c) => self.text.jump(r, c),
        }
    }

    /// Backspace in the text.
    pub fn delete_char(&mut self)
        requires
            old(self).wf(),
        ensures
            final(self).wf(),
            final(self).input_view() == with_text(old(self).input_view(), ta_delete_char(old(self).spec_text())),
            final(self).chrome() == old(self).chrome(),
    {
        self.text.delete_char();
    }

    /// The cursor: line and character.
    pub fn cursor(&self) -> (c: (usize, usize))
        ensures
            c.0 == self.spec_text().row,
            c.1 == self.spec_text().col,
    {
        self.text.cursor()
    }

    /// The width of the box the input was last drawn in.
    pub fn last_width(&self) -> (w: usize)
        ensures
            w == self.input_view().last_width,
    {
        self.last_width
    }

    /// The first row of the box in view.
    pub fn scroll_offset(&self) -> (o: usize)
        ensures
            o == self.spec_scroll_offset(),
    {
        self.scroll_offset
    }

    /// The text as rows of a box `width` columns wide, with the cursor's row
    /// and column.
    pub fn get_visual_info(&self, width: usize) -> (r: (Vec<Vec<char>>, usize, usize))
        requires
            self.wf(),
        ensures
            (rows_of(r.0@), r.1 as int, r.2 as int) == spec_visual_info(self.spec_text(), width as int),
    {
        visual_info(&self.text, width)
    }

    /// The line and character under a row and column of the box.
    pub fn get_logical_pos(&self, target_v_row: usize, target_v_col: usize, width: usize) -> (r: (usize, usize))
        requires
            self.wf(),
        ensures
            (r.0 as int, r.1 as int) == spec_logical_pos(self.spec_text().lines, target_v_row as int, target_v_col as int, width as int),
    {
        logical_pos(&self.text.lines(), target_v_row, target_v_col, width)
    }

    fn move_cursor_up(&mut self)
        requires
            old(self).wf(),
        ensures
            final(self).wf(),
            final(self).input_view() == with_text(old(self).input_view(), spec_move_up(old(self).spec_text(), old(self).input_view().last_width)),
            final(self).chrome() == old(self).chrome(),
    {
        let width = self.last_width;
        if width == 0 {
            self.text.move_up();
            return;
        }
        let (_rows, vr, vc) = visual_info(&self.text, width);
        if vr == 0 {
            return;
        }
        let (lr, lc) = logical_pos(&self.text.lines(), vr - 1, vc, width);
        self.text.jump(clamp_u16_exec(lr), clamp_u16_exec(lc));
    }

    fn move_cursor_down(&mut self)
        requires
            old(self).wf(),
        ensures
            final(self).wf(),
            final(self).input_view() == with_text(old(self).input_view(), spec_move_down(old(self).spec_text(), old(self).input_view().last_width)),
            final(self).chrome() == old(self).chrome(),
    {
        let width = self.last_width;
        if width == 0 {
            self.text.move_down();
            return;
        }
        let (rows, vr, vc) = visual_info(&self.text, width);
        let last = if rows.len() >= 1 {
            rows.len() - 1
        } else {
            0
        };
        assert(rows_of(rows@).len() == rows@.len());
        if vr >= last {
            return;
        }
        let (lr, lc) = logical_pos(&self.text.lines(), vr + 1, vc, width);
        self.text.jump(clamp_u16_exec(lr), clamp_u16_exec(lc));
    }

    fn move_cursor_start(&mut self)
        requires
            old(self).wf(),
        ensures
            final(self).wf(),
            final(self).input_view() == with_text(old(self).input_view(), spec_move_start(old(self).spec_text(), old(self).input_view().last_width)),
            final(self).chrome() == old(self).chrome(),
    {
        let width = self.last_width;
        if width == 0 {
            self.text.move_head();
            return;
        }
        let (_rows, vr, _vc) = visual_info(&self.text, width);
        let (lr, lc) = logical_pos(&self.text.lines(), vr, 0, width);
        self.text.jump(clamp_u16_exec(lr), clamp_u16_exec(lc));
    }

    fn move_cursor_end(&mut self)
        requires
            old(self).wf(),
        ensures
            final(self).wf(),
            final(self).input_view() == with_text(old(self).input_view(), spec_move_end(old(self).spec_text(), old(self).input_view().last_width)),
            final(self).chrome() == old(self).chrome(),
    {
        let width = self.last_width;
        if width == 0 {
            self.text.move_end();
            return;
        }
        let (rows, vr, _vc) = visual_info(&self.text, width);
        assert(rows_of(rows@).len() == rows@.len());
        if vr < rows.len() {
            assert(rows_of(rows@)[vr as int] == rows@[vr as int]@);
            let end_col = row_width_exec(&rows[vr]);
            let (lr, lc) = logical_pos(&self.text.lines(), vr, end_col, width);
            self.text.jump(clamp_u16_exec(lr), clamp_u16_exec(lc));
        }
    }

    fn enforce_message_limit(&mut self)
        requires
            old(self).wf(),
        ensures
            final(self).wf(),
            final(self).input_view() == with_text(old(self).input_view(), spec_enforce_limit(old(self).spec_text())),
            final(self).chrome() == old(self).chrome(),
    {
        let content = self.text.value_chars();
        if utf8_len(&content) > MAX_MESSAGE_LENGTH as u128 {
            let n = if content.len() < MAX_MESSAGE_LENGTH {
                content.len()
            } else {
                MAX_MESSAGE_LENGTH
            };
            let truncated = sub_chars(&content, 0, n);
            assert(truncated@ =~= content@.take(n as int));
            let t = from_chars(&truncated);
            self.text.clear();
            self.text.insert_str(t.as_str());
        }
    }

    fn finish_edit(&mut self) -> (r: Option<MessageInputAction>)
        requires
            old(self).wf(),
        ensures
            final(self).wf(),
            (final(self).input_view(), input_request_of(r)) == finish_edit(old(self).input_view()),
            final(self).chrome() == old(self).chrome(),
    {
        let was_empty = self.text.is_empty();
        self.enforce_message_limit();
        if !was_empty || !self.text.is_empty() {
            Some(MessageInputAction::StartTyping)
        } else {
            None
        }
    }

    fn delete_chars(&mut self, n: u128)
        requires
            old(self).wf(),
        ensures
            final(self).wf(),
            final(self).input_view() == with_text(old(self).input_view(), delete_chars(old(self).spec_text(), n as nat)),
            final(self).chrome() == old(self).chrome(),
    {
        let mut k: u128 = 0;
        while k < n
            invariant
                k <= n,
                self.wf(),
                self.input_view() == with_text(old(self).input_view(), delete_chars(old(self).spec_text(), k as nat)),
                self.chrome() == old(self).chrome(),
            decreases n - k,
        {
            self.text.delete_char();
            k = k + 1;
        }
    }

    fn remove_mention(&mut self, i: usize)
        requires
            old(self).wf(),
            i < old(self).input_view().mentions.len(),
        ensures
            final(self).wf(),
            final(self).input_view() == (InputView {
                mentions: old(self).input_view().mentions.remove(i as int),
                ..old(self).input_view()
            }),
            final(self).chrome() == old(self).chrome(),
    {
        let ghost before = self.mentions@;
        self.mentions.remove(i);
        assert(mentions_view(self.mentions@) =~= mentions_view(before).remove(i as int));
        assert forall|k: int| 0 <= k < self.mentions@.len() implies (#[trigger] self.mentions@[k]).0@.len() > 0 by {
            if k < i {
                assert(self.mentions@[k] == before[k]);
            } else {
                assert(self.mentions@[k] == before[k + 1]);
            }
        }
    }

    fn edit_key(&mut self, key: KeyEvent) -> (r: Option<MessageInputAction>)
        requires
            old(self).wf(),
        ensures
            final(self).wf(),
            (final(self).input_view(), input_request_of(r)) == edit_step(old(self).input_view(), key),
            final(self).chrome() == old(self).chrome(),
    {
        let m = key.modifiers;
        let ctrl_alt = m.contains(MOD_CONTROL) || m.contains(MOD_ALT);
        match key.code {
            KeyCode::Char(c) => {
                if m.bits == 0 || m.bits == MOD_SHIFT {
                    self.text.insert_char(c);
                    self.finish_edit()
                } else if c == 'd' && m.contains(MOD_ALT) {
                    self.text.delete_next_word();
                    Some(MessageInputAction::StartTyping)
                } else if (c == 'w' || c == 'h') && m.contains(MOD_CONTROL) {
                    self.text.delete_word();
                    Some(MessageInputAction::StartTyping)
                } else {
                    self.finish_edit()
                }
            },
            KeyCode::Backspace => {
                if ctrl_alt {
                    self.text.delete_word();
                    return Some(MessageInputAction::StartTyping);
                }
                let (row, col) = self.text.cursor();
                let prefix = sub_chars(&self.text.lines()[row], 0, col);
                assert(prefix@ =~= cur_line(self.text@).take(col as int));
                match best_mention_exec(&self.mentions, &prefix) {
                    Some(i) => {
                        let n = utf8_len(&to_chars(self.mentions[i].0.as_str()));
                        self.delete_chars(n);
                        self.remove_mention(i);
                        Some(MessageInputAction::StartTyping)
                    },
                    None => {
                        self.text.delete_char();
                        self.finish_edit()
                    },
                }
            },
            KeyCode::Delete => {
                if ctrl_alt {
                    self.text.delete_next_word();
                    Some(MessageInputAction::StartTyping)
                } else {
                    self.text.delete_next_char();
                    self.finish_edit()
                }
            },
            KeyCode::Left => {
                if ctrl_alt {
                    self.text.move_word_back();
                } else {
                    self.text.move_back();
                }
                self.finish_edit()
            },
            KeyCode::Right => {
                if ctrl_alt {
                    self.text.move_word_forward();
                } else {
                    self.text.move_forward();
                }
                self.finish_edit()
            },
            KeyCode::Up => {
                self.move_cursor_up();
                self.finish_edit()
            },
            KeyCode::Down => {
                self.move_cursor_down();
                self.finish_edit()
            },
            KeyCode::Enter => {
                self.text.insert_newline();
                self.finish_edit()
            },
            _ => self.finish_edit(),
        }
    }

    /// Handles a key: see `input_step` for what each key does.
    pub fn handle_key(&mut self, key: KeyEvent, registry: &CommandRegistry) -> (r: Option<MessageInputAction>)
        requires
            old(self).wf(),
        ensures
            final(self).wf(),
            (final(self).input_view(), input_request_of(r)) == input_step(
                old(self).input_view(),
                key,
                first_action(registry.inputs(), key),
            ),
            final(self).chrome() == old(self).chrome(),
            final(self).spec_focused() == old(self).spec_focused(),
    {
        match key.code {
            KeyCode::Home => {
                self.move_cursor_start();
                return Some(MessageInputAction::StartTyping);
            },
            KeyCode::End => {
                self.move_cursor_end();
                return Some(MessageInputAction::StartTyping);
            },
            _ => {},
        }
        let is_enter = match key.code {
            KeyCode::Enter => true,
            _ => false,
        };
        let act = if is_enter && !key.modifiers.contains(MOD_SHIFT) {
            Some(Action::SendMessage)
        } else {
            registry.find_action(key)
        };
        match act {
            Some(Action::Cancel) => {
                if self.is_editing() {
                    self.reset_mode();
                    self.clear();
                    Some(MessageInputAction::CancelReply)
                } else if self.is_replying() {
                    self.reset_mode();
                    Some(MessageInputAction::CancelReply)
                } else if !self.text.is_empty() || self.attachments.len() > 0 {
                    self.clear();
                    self.clear_attachments();
                    None
                } else {
                    Some(MessageInputAction::ExitInput)
                }
            },
            Some(Action::SendMessage) => {
                let content = self.message_content();
                let trimmed = trim_chars(&to_chars(content.as_str()));
                if trimmed.len() == 0 && self.attachments.len() == 0 {
                    return None;
                }
                match &self.mode {
                    MessageInputMode::Editing { message_id } => {
                        let message_id = *message_id;
                        self.clear();
                        return Some(MessageInputAction::EditMessage { message_id, content });
                    },
                    _ => {},
                }
                let reply_to = match &self.mode {
                    MessageInputMode::Reply { message_id, .. } => Some(*message_id),
                    _ => None,
                };
                let mut attachments: Vec<String> = Vec::new();
                std::mem::swap(&mut attachments, &mut self.attachments);
                self.clear();
                assert(strings_view(self.attachments@) =~= Seq::<Seq<char>>::empty());
                Some(MessageInputAction::SendMessage { content, reply_to, attachments })
            },
            Some(Action::OpenEditor) => Some(MessageInputAction::OpenEditor),
            Some(Action::ClearInput) => {
                self.clear();
                None
            },
            Some(Action::Paste) => Some(MessageInputAction::Paste),
            _ => self.edit_key(key),
        }
    }

    /// Where the cursor is in the value, counting the lines before it in
    /// UTF-8 bytes (each with its line feed) and the cursor's column in
    /// characters.
    pub open spec fn spec_cursor_index(t: TextState) -> int {
        (if t.row > 0 {
            byte_len(join_lines(t.lines.take(t.row))) + 1
        } else {
            0
        }) + t.col
    }

    /// The cursor's index in the value.
    pub fn get_cursor_index(&self) -> (i: usize)
        requires
            self.wf(),
            Self::spec_cursor_index(self.spec_text()) <= usize::MAX,
        ensures
            i == Self::spec_cursor_index(self.spec_text()),
    {
        let (row, col) = self.text.cursor();
        if row == 0 {
            return col;
        }
        let lines = self.text.lines();
        let ghost rows = rows_of(lines@);
        let mut v: Vec<char> = Vec::new();
        append_chars(&mut v, &lines[0]);
        assert(rows.take(1).drop_last() =~= Seq::<Seq<char>>::empty());
        assert(v@ =~= join_lines(rows.take(1)));
        let mut i: usize = 1;
        while i < row
            invariant
                1 <= i <= row < lines@.len(),
                rows == rows_of(lines@),
                v@ == join_lines(rows.take(i as int)),
            decreases row - i,
        {
            v.push('\n');
            append_chars(&mut v, &lines[i]);
            assert(rows.take(i + 1).drop_last() =~= rows.take(i as int));
            assert(v@ =~= join_lines(rows.take(i as int)) + seq!['\n'] + rows[i as int]);
            i = i + 1;
        }
        let b = utf8_len(&v);
        (b as usize) + 1 + col
    }

    /// Inserts a mention: `@NAME` is remembered as standing for the user,
    /// and when the trigger index is inside the value and the cursor index
    /// at or after it, the text from the trigger to the cursor is replaced
    /// by `@NAME ` (the value cut at those byte indices).
    pub fn insert_mention(&mut self, trigger_index: usize, resolved_name: &str, user_id: &str)
        requires
            old(self).wf(),
            Self::spec_cursor_index(old(self).spec_text()) <= usize::MAX,
            mention_cuts_defined(old(self).spec_text(), trigger_index as int),
        ensures
            final(self).wf(),
            final(self).input_view() == (InputView {
                mentions: mentions_with(old(self).input_view().mentions, "@"@ + resolved_name@, user_id@),
                text: spec_after_mention(old(self).spec_text(), trigger_index as int, "@"@ + resolved_name@ + " "@),
                ..old(self).input_view()
            }),
            final(self).chrome() == old(self).chrome(),
    {
        let content = self.text.value_chars();
        let mut mention_text = to_chars("@");
        proof {
            reveal_strlit("@");
        }
        append_str(&mut mention_text, resolved_name);
        let name = from_chars(&mention_text);
        append_str(&mut mention_text, " ");
        let cursor_idx = self.get_cursor_index();
        self.add_mention(name, copy_str(user_id));
        match mention_replacement(&content, trigger_index, cursor_idx, &mention_text) {
            Some(nc) => {
                let text = from_chars(&nc);
                self.text.clear();
                self.text.insert_str(text.as_str());
            },
            None => {},
        }
    }

    fn add_mention(&mut self, name: String, id: String)
        requires
            old(self).wf(),
            name@.len() > 0,
        ensures
            final(self).wf(),
            final(self).input_view() == (InputView {
                mentions: mentions_with(old(self).input_view().mentions, name@, id@),
                ..old(self).input_view()
            }),
            final(self).chrome() == old(self).chrome(),
    {
        let ghost mv = mentions_view(self.mentions@);
        let ghost nv = name@;
        let mut i: usize = 0;
        while i < self.mentions.len()
            invariant
                i <= self.mentions@.len(),
                *self == *old(self),
                self.wf(),
                nv == name@,
                nv.len() > 0,
                mv == mentions_view(self.mentions@),
                forall|k: int| 0 <= k < i ==> (#[trigger] mv[k]).0 != name@,
            decreases self.mentions@.len() - i,
        {
            if chars_eq(&to_chars(self.mentions[i].0.as_str()), &to_chars(name.as_str())) {
                proof {
                    assert(mv[i as int].0 == name@);
                    assert(mention_slot(mv, name@) == Some(i as int)) by {
                        let c = choose|c: int| 0 <= c < mv.len() && (#[trigger] mv[c]).0 == name@
                            && forall|k: int| 0 <= k < c ==> (#[trigger] mv[k]).0 != name@;
                        assert(0 <= i < mv.len() && mv[i as int].0 == name@ && forall|k: int| 0 <= k < i ==> (#[trigger] mv[k]).0 != name@);
                        if c < i {
                            assert(mv[c].0 != name@);
                        }
                        if c > i {
                            assert(mv[i as int].0 != name@);
                        }
                    }
                }
                let ghost before = self.mentions@;
                self.mentions.set(i, (name, id));
                assert(mentions_view(self.mentions@) =~= mv.update(i as int, (name@, id@)));
                assert forall|k: int| 0 <= k < self.mentions@.len() implies (#[trigger] self.mentions@[k]).0@.len() > 0 by {
                    if k != i {
                        assert(self.mentions@[k] == before[k]);
                    } else {
                        assert(self.mentions@[k].0@ == nv);
                    }
                }
                return;
            }
            i = i + 1;
        }
        let ghost before = self.mentions@;
        self.mentions.push((name, id));
        assert(mentions_view(self.mentions@) =~= mv.push((name@, id@)));
        assert forall|k: int| 0 <= k < self.mentions@.len() implies (#[trigger] self.mentions@[k]).0@.len() > 0 by {
            if k < before.len() {
                assert(self.mentions@[k] == before[k]);
            } else {
                assert(self.mentions@[k].0@ == nv);
            }
        }
    }

    /// Keeps the cursor's row in view of a box `width` columns wide and
    /// `height` rows high, and records the width; nothing for a zero width.
    pub fn update_scroll(&mut self, width: usize, height: usize)
        requires
            old(self).wf(),
        ensures
            final(self).wf(),
            width == 0 ==> final(self).input_view() == old(self).input_view() && final(self).chrome() == old(self).chrome(),
            width > 0 ==> final(self).input_view() == (InputView { last_width: width as int, ..old(self).input_view() }),
            width > 0 ==> final(self).spec_scroll_offset() == ({
                let vr = spec_visual_info(old(self).spec_text(), width as int).1;
                let off = old(self).spec_scroll_offset() as int;
                if vr >= off + height {
                    vr - height + 1
                } else if vr < off {
                    vr
                } else {
                    off
                }
            }),
    {
        if width == 0 {
            return;
        }
        self.last_width = width;
        let (_rows, vr, _vc) = visual_info(&self.text, width);
        let nrows = _rows.len();
        if vr >= self.scroll_offset && vr - self.scroll_offset >= height {
            self.scroll_offset = vr + 1 - height;
        } else if vr < self.scroll_offset {
            self.scroll_offset = vr;
        }
    }
}

impl Default for MessageInputState {
    fn default() -> (s: MessageInputState)
        ensures
            s.wf(),
            s.spec_text() == text_state(seq![Seq::<char>::empty()], 0, 0),
    {
        MessageInputState::new()
    }
}

/// Replacing the text with a content that holds no carriage return and
/// reading the text back gives that content, whenever select-all reaches the
/// end of the old text: at most 65536 lines, the last at most 65535
/// characters long.
pub proof fn lemma_set_content_reads_back(t: TextState, content: Seq<char>)
    requires
        valid_text(t),
        t.lines.len() <= 65536,
        t.lines.last().len() <= 65535,
        !content.contains('\r'),
    ensures
        join_lines(spec_set_content(t, content).lines) == content,
{
    lemma_clear_empties(t);
    lemma_paste_into_empty(content);
}

/// Clearing leaves an empty text with the cursor at its start, whenever
/// select-all reaches the end of the old text.
pub proof fn lemma_clear_leaves_empty(t: TextState)
    requires
        valid_text(t),
        t.lines.len() <= 65536,
        t.lines.last().len() <= 65535,
    ensures
        ta_is_empty(ta_clear(t)),
        ta_clear(t).row == 0 && ta_clear(t).col == 0,
        join_lines(ta_clear(t).lines) == Seq::<char>::empty(),
{
    lemma_clear_empties(t);
}

} // verus!
