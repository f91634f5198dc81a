//! A multi-line text with a cursor, edited the way the `tui-textarea`
//! widget edits its text: characters, new lines, deletions, cursor moves,
//! word-wise edits (computed by the widget itself) and pasted strings.

use vstd::prelude::*;
use crate::chars::{append_chars, to_chars};
use tui_textarea::{CursorMove, TextArea};
use crate::text::{split_on, sub_chars};

verus! {

/// The widget that holds and edits the text: a `tui_textarea::TextArea`.
#[verifier::external_body]
pub struct TextAreaBox {
    area: TextArea<'static>,
}

/// The lines of a text and its cursor (row, and column in characters).
pub struct TextState {
    pub lines: Seq<Seq<char>>,
    pub row: int,
    pub col: int,
}

/// A text state.
pub open spec fn text_state(lines: Seq<Seq<char>>, row: int, col: int) -> TextState {
    TextState { lines, row, col }
}

/// At least one line, and the cursor on a line and within or at the end of it.
pub open spec fn valid_text(s: TextState) -> bool {
    &&& s.lines.len() >= 1
    &&& 0 <= s.row < s.lines.len()
    &&& 0 <= s.col <= s.lines[s.row].len()
}

/// The cursor's line.
pub open spec fn cur_line(s: TextState) -> Seq<char> {
    s.lines[s.row]
}

/// The lines with the cursor's line replaced.
pub open spec fn with_line(s: TextState, line: Seq<char>) -> Seq<Seq<char>> {
    s.lines.update(s.row, line)
}

/// A new line at the cursor: the line is split there and the cursor goes to
/// the start of the second part.
pub open spec fn ta_newline(s: TextState) -> TextState {
    let line = cur_line(s);
    text_state(
        s.lines.take(s.row) + seq![line.take(s.col), line.skip(s.col)] + s.lines.skip(s.row + 1),
        s.row + 1,
        0,
    )
}

/// A character typed at the cursor; a line feed or carriage return starts a
/// new line.
pub open spec fn ta_insert_char(s: TextState, c: char) -> TextState {
    if c == '\n' || c == '\r' {
        ta_newline(s)
    } else {
        let line = cur_line(s);
        text_state(with_line(s, line.take(s.col).push(c) + line.skip(s.col)), s.row, s.col + 1)
    }
}

/// The line break before the cursor's line removed: the line joins the one
/// above, with the cursor where they meet; nothing on the first line.
pub open spec fn ta_delete_newline(s: TextState) -> TextState {
    if s.row == 0 {
        s
    } else {
        let prev = s.lines[s.row - 1];
        text_state(
            s.lines.take(s.row - 1) + seq![prev + cur_line(s)] + s.lines.skip(s.row + 1),
            s.row - 1,
            prev.len() as int,
        )
    }
}

/// Backspace: the character before the cursor removed, or at the start of a
/// line the line break before it.
pub open spec fn ta_delete_char(s: TextState) -> TextState {
    if s.col == 0 {
        ta_delete_newline(s)
    } else {
        let line = cur_line(s);
        text_state(with_line(s, line.take(s.col - 1) + line.skip(s.col)), s.row, s.col - 1)
    }
}

/// Delete: the character after the cursor removed, or at the end of a line
/// the line break after it.
pub open spec fn ta_delete_next_char(s: TextState) -> TextState {
    let line = cur_line(s);
    if s.col < line.len() {
        text_state(with_line(s, line.take(s.col) + line.skip(s.col + 1)), s.row, s.col)
    } else if s.row + 1 < s.lines.len() {
        ta_delete_newline(text_state(s.lines, s.row + 1, 0))
    } else {
        s
    }
}

/// One character back, or to the end of the line above.
pub open spec fn ta_back(s: TextState) -> TextState {
    if s.col == 0 {
        if s.row == 0 {
            s
        } else {
            text_state(s.lines, s.row - 1, s.lines[s.row - 1].len() as int)
        }
    } else {
        text_state(s.lines, s.row, s.col - 1)
    }
}

/// One character forward, or to the start of the line below.
pub open spec fn ta_forward(s: TextState) -> TextState {
    if s.col >= cur_line(s).len() {
        if s.row + 1 < s.lines.len() {
            text_state(s.lines, s.row + 1, 0)
        } else {
            s
        }
    } else {
        text_state(s.lines, s.row, s.col + 1)
    }
}

/// A column kept within a line.
pub open spec fn fit_col(col: int, line: Seq<char>) -> int {
    if col <= line.len() {
        col
    } else {
        line.len() as int
    }
}

/// One line up, the column kept within it.
pub open spec fn ta_up(s: TextState) -> TextState {
    if s.row == 0 {
        s
    } else {
        text_state(s.lines, s.row - 1, fit_col(s.col, s.lines[s.row - 1]))
    }
}

/// One line down, the column kept within it.
pub open spec fn ta_down(s: TextState) -> TextState {
    if s.row + 1 < s.lines.len() {
        text_state(s.lines, s.row + 1, fit_col(s.col, s.lines[s.row + 1]))
    } else {
        s
    }
}

/// To the start of the line.
pub open spec fn ta_head(s: TextState) -> TextState {
    text_state(s.lines, s.row, 0)
}

/// To the end of the line.
pub open spec fn ta_end(s: TextState) -> TextState {
    text_state(s.lines, s.row, cur_line(s).len() as int)
}

/// To a row and column, each kept within the text.
pub open spec fn ta_jump(s: TextState, row: u16, col: u16) -> TextState {
    let r = if row < s.lines.len() { row as int } else { s.lines.len() - 1 };
    text_state(s.lines, r, fit_col(col as int, s.lines[r]))
}

/// Select-all followed by cut: the selection runs from the start to the
/// position a jump to row and column 65535 reaches, and is removed.
pub open spec fn ta_clear(s: TextState) -> TextState {
    let end = ta_jump(s, 65535, 65535);
    text_state(seq![s.lines[end.row].skip(end.col)] + s.lines.skip(end.row + 1), 0, 0)
}

/// A piece of pasted text without one trailing carriage return.
pub open spec fn strip_cr(p: Seq<char>) -> Seq<char> {
    if p.len() > 0 && p.last() == '\r' {
        p.drop_last()
    } else {
        p
    }
}

/// The lines of a pasted text: split at line feeds, each without a trailing
/// carriage return.
pub open spec fn paste_pieces(text: Seq<char>) -> Seq<Seq<char>> {
    split_on(text, '\n').map_values(|p: Seq<char>| strip_cr(p))
}

/// A text inserted at the cursor; the cursor ends after it. One empty piece
/// changes nothing.
pub open spec fn ta_insert_str(s: TextState, text: Seq<char>) -> TextState {
    let pieces = paste_pieces(text);
    let line = cur_line(s);
    if pieces.len() <= 1 {
        if pieces.len() == 0 || pieces[0].len() == 0 {
            s
        } else {
            text_state(with_line(s, line.take(s.col) + pieces[0] + line.skip(s.col)), s.row, s.col + pieces[0].len())
        }
    } else {
        let k = pieces.len() as int;
        text_state(
            s.lines.take(s.row) + seq![line.take(s.col) + pieces[0]] + pieces.subrange(1, k - 1) + seq![
                pieces[k - 1] + line.skip(s.col),
            ] + s.lines.skip(s.row + 1),
            s.row + k - 1,
            pieces[k - 1].len() as int,
        )
    }
}

/// Whether the text is one empty line.
pub open spec fn ta_is_empty(s: TextState) -> bool {
    s.lines == seq![Seq::<char>::empty()]
}

/// The lines joined with line feeds.
pub open spec fn join_lines(lines: Seq<Seq<char>>) -> Seq<char>
    decreases lines.len(),
{
    if lines.len() == 0 {
        Seq::empty()
    } else if lines.len() == 1 {
        lines[0]
    } else {
        join_lines(lines.drop_last()) + seq!['\n'] + lines.last()
    }
}

/// The lines of a `tui_textarea::TextArea`.
pub uninterp spec fn area_lines(t: TextAreaBox) -> Seq<Seq<char>>;

/// The cursor of a `tui_textarea::TextArea`: row, and column in characters.
pub uninterp spec fn area_cursor(t: TextAreaBox) -> (usize, usize);

/// Where a `tui_textarea::TextArea` selection starts, if one is under way.
pub uninterp spec fn area_selection_start(t: TextAreaBox) -> Option<(usize, usize)>;

/// The text and cursor of a `tui_textarea::TextArea`.
pub open spec fn area_state(t: TextAreaBox) -> TextState {
    text_state(area_lines(t), area_cursor(t).0 as int, area_cursor(t).1 as int)
}

/// The cursor `CursorMove::WordBack` moves to in a text area holding
/// `lines` with the cursor at `row` and `col`.
pub uninterp spec fn word_back_cursor(lines: Seq<Seq<char>>, row: int, col: int) -> (usize, usize);

/// The cursor `CursorMove::WordForward` moves to in a text area holding
/// `lines` with the cursor at `row` and `col`.
pub uninterp spec fn word_forward_cursor(lines: Seq<Seq<char>>, row: int, col: int) -> (usize, usize);

/// The lines and cursor `TextArea::delete_word` leaves in a text area
/// holding `lines` with the cursor at `row` and `col`.
pub uninterp spec fn after_delete_word(lines: Seq<Seq<char>>, row: int, col: int) -> (Seq<Seq<char>>, usize, usize);

/// The lines and cursor `TextArea::delete_next_word` leaves in a text area
/// holding `lines` with the cursor at `row` and `col`.
pub uninterp spec fn after_delete_next_word(lines: Seq<Seq<char>>, row: int, col: int) -> (Seq<Seq<char>>, usize, usize);

/// Word back, as the text area moves.
pub open spec fn ta_word_back(s: TextState) -> TextState {
    let c = word_back_cursor(s.lines, s.row, s.col);
    text_state(s.lines, c.0 as int, c.1 as int)
}

/// Word forward, as the text area moves.
pub open spec fn ta_word_forward(s: TextState) -> TextState {
    let c = word_forward_cursor(s.lines, s.row, s.col);
    text_state(s.lines, c.0 as int, c.1 as int)
}

/// The word before the cursor deleted, as the text area deletes it.
pub open spec fn ta_delete_word(s: TextState) -> TextState {
    let r = after_delete_word(s.lines, s.row, s.col);
    text_state(r.0, r.1 as int, r.2 as int)
}

/// The word after the cursor deleted, as the text area deletes it.
pub open spec fn ta_delete_next_word(s: TextState) -> TextState {
    let r = after_delete_next_word(s.lines, s.row, s.col);
    text_state(r.0, r.1 as int, r.2 as int)
}

/// A cursor move of the text area.
pub enum Move {
    Back,
    Forward,
    Up,
    Down,
    Head,
    End,
    Jump(u16, u16),
    WordBack,
    WordForward,
}

/// Where a cursor move takes a text.
pub open spec fn ta_move(s: TextState, m: Move) -> TextState {
    match m {
        Move::Back => ta_back(s),
        Move::Forward => ta_forward(s),
        Move::Up => ta_up(s),
        Move::Down => ta_down(s),
        Move::Head => ta_head(s),
        Move::End => ta_end(s),
        Move::Jump(r, c) => ta_jump(s, r, c),
        Move::WordBack => ta_word_back(s),
        Move::WordForward => ta_word_forward(s),
    }
}

/// A text area in which no selection is under way.
pub open spec fn area_ready(t: TextAreaBox) -> bool {
    valid_text(area_state(t)) && area_selection_start(t) is None
}

/// `TextArea::default`: one empty line, the cursor at its start.
#[verifier::external_body]
fn area_default() -> (t: TextAreaBox)
    ensures
        area_ready(t),
        area_state(t) == text_state(seq![Seq::<char>::empty()], 0, 0),
{
    TextAreaBox { area: TextArea::default() }
}

/// `TextArea::insert_newline`: the line split at the cursor.
#[verifier::external_body]
fn area_insert_newline(t: &mut TextAreaBox)
    requires
        area_ready(*old(t)),
    ensures
        area_ready(*final(t)),
        area_state(*final(t)) == ta_newline(area_state(*old(t))),
{
    t.area.insert_newline();
}

/// `TextArea::insert_char`: the character typed at the cursor, a line feed
/// or carriage return starting a new line.
#[verifier::external_body]
fn area_insert_char(t: &mut TextAreaBox, c: char)
    requires
        area_ready(*old(t)),
    ensures
        area_ready(*final(t)),
        area_state(*final(t)) == ta_insert_char(area_state(*old(t)), c),
{
    t.area.insert_char(c);
}

/// `TextArea::delete_newline`: the line joined to the one above.
#[verifier::external_body]
fn area_delete_newline(t: &mut TextAreaBox)
    requires
        area_ready(*old(t)),
    ensures
        area_ready(*final(t)),
        area_state(*final(t)) == ta_delete_newline(area_state(*old(t))),
{
    t.area.delete_newline();
}

/// `TextArea::delete_char`: backspace.
#[verifier::external_body]
fn area_delete_char(t: &mut TextAreaBox)
    requires
        area_ready(*old(t)),
    ensures
        area_ready(*final(t)),
        area_state(*final(t)) == ta_delete_char(area_state(*old(t))),
{
    t.area.delete_char();
}

/// `TextArea::delete_next_char`: delete.
#[verifier::external_body]
fn area_delete_next_char(t: &mut TextAreaBox)
    requires
        area_ready(*old(t)),
    ensures
        area_ready(*final(t)),
        area_state(*final(t)) == ta_delete_next_char(area_state(*old(t))),
{
    t.area.delete_next_char();
}

/// `TextArea::delete_word`: the word before the cursor deleted; the cursor
/// stays within the text.
#[verifier::external_body]
fn area_delete_word(t: &mut TextAreaBox)
    requires
        area_ready(*old(t)),
    ensures
        area_ready(*final(t)),
        area_state(*final(t)) == ta_delete_word(area_state(*old(t))),
        (area_lines(*final(t)), area_cursor(*final(t)).0, area_cursor(*final(t)).1) == after_delete_word(
            area_lines(*old(t)),
            area_cursor(*old(t)).0 as int,
            area_cursor(*old(t)).1 as int,
        ),
{
    t.area.delete_word();
}

/// `TextArea::delete_next_word`: the word after the cursor deleted; the
/// cursor stays within the text.
#[verifier::external_body]
fn area_delete_next_word(t: &mut TextAreaBox)
    requires
        area_ready(*old(t)),
    ensures
        area_ready(*final(t)),
        area_state(*final(t)) == ta_delete_next_word(area_state(*old(t))),
        (area_lines(*final(t)), area_cursor(*final(t)).0, area_cursor(*final(t)).1) == after_delete_next_word(
            area_lines(*old(t)),
            area_cursor(*old(t)).0 as int,
            area_cursor(*old(t)).1 as int,
        ),
{
    t.area.delete_next_word();
}

/// `TextArea::move_cursor`: the cursor moved, the text unchanged, the
/// cursor within the text.
#[verifier::external_body]
fn area_move_cursor(t: &mut TextAreaBox, m: Move)
    requires
        area_ready(*old(t)),
    ensures
        area_ready(*final(t)),
        area_state(*final(t)) == ta_move(area_state(*old(t)), m),
        m is WordBack ==> area_cursor(*final(t)) == word_back_cursor(
            area_lines(*old(t)),
            area_cursor(*old(t)).0 as int,
            area_cursor(*old(t)).1 as int,
        ),
        m is WordForward ==> area_cursor(*final(t)) == word_forward_cursor(
            area_lines(*old(t)),
            area_cursor(*old(t)).0 as int,
            area_cursor(*old(t)).1 as int,
        ),
{
    t.area.move_cursor(match m {
        Move::Back => CursorMove::Back,
        Move::Forward => CursorMove::Forward,
        Move::Up => CursorMove::Up,
        Move::Down => CursorMove::Down,
        Move::Head => CursorMove::Head,
        Move::End => CursorMove::End,
        Move::Jump(r, c) => CursorMove::Jump(r, c),
        Move::WordBack => CursorMove::WordBack,
        Move::WordForward => CursorMove::WordForward,
    });
}

/// `TextArea::insert_str`: a text pasted at the cursor, split at line
/// feeds, a carriage return before a line feed dropped.
#[verifier::external_body]
fn area_insert_str(t: &mut TextAreaBox, text: &str)
    requires
        area_ready(*old(t)),
    ensures
        area_ready(*final(t)),
        area_state(*final(t)) == ta_insert_str(area_state(*old(t)), text@),
{
    t.area.insert_str(text);
}

/// `TextArea::select_all`: the cursor jumps to row and column 65535, kept
/// within the text, and a selection starts at the beginning.
#[verifier::external_body]
fn area_select_all(t: &mut TextAreaBox)
    requires
        area_ready(*old(t)),
    ensures
        valid_text(area_state(*final(t))),
        area_selection_start(*final(t)) == Some((0usize, 0usize)),
        area_state(*final(t)) == ta_jump(area_state(*old(t)), 65535, 65535),
{
    t.area.select_all();
}

/// `TextArea::cut` with a selection from the start to the cursor: the text
/// before the cursor removed, the cursor at the start, no selection left.
#[verifier::external_body]
fn area_cut(t: &mut TextAreaBox)
    requires
        valid_text(area_state(*old(t))),
        area_selection_start(*old(t)) == Some((0usize, 0usize)),
    ensures
        area_ready(*final(t)),
        area_state(*final(t)) == text_state(
            seq![cur_line(area_state(*old(t))).skip(area_state(*old(t)).col)] + area_state(*old(t)).lines.skip(
                area_state(*old(t)).row + 1,
            ),
            0,
            0,
        ),
{
    t.area.cut();
}

/// `TextArea::lines`: the lines.
#[verifier::external_body]
fn area_lines_exec(t: &TextAreaBox) -> (r: Vec<String>)
    ensures
        r@.map_values(|l: String| l@) == area_lines(*t),
{
    t.area.lines().to_vec()
}

/// `TextArea::cursor`: the cursor.
#[verifier::external_body]
fn area_cursor_exec(t: &TextAreaBox) -> (r: (usize, usize))
    ensures
        r == area_cursor(*t),
{
    t.area.cursor()
}

/// The character views of a list of character vectors.
pub open spec fn rows_of(v: Seq<Vec<char>>) -> Seq<Seq<char>> {
    v.map_values(|l: Vec<char>| l@)
}

/// A text with a cursor, held by a `tui_textarea::TextArea`.
pub struct TextBuffer {
    area: TextAreaBox,
}

impl View for TextBuffer {
    type V = TextState;

    closed spec fn view(&self) -> TextState {
        area_state(self.area)
    }
}

fn copy_chars(v: &Vec<char>) -> (r: Vec<char>)
    ensures
        r@ == v@,
{
    let r = sub_chars(v, 0, v.len());
    assert(r@ =~= v@);
    r
}

/// Appends copies of the rows `lo..hi`.
pub(crate) fn push_rows(out: &mut Vec<Vec<char>>, src: &Vec<Vec<char>>, lo: usize, hi: usize)
    requires
        lo <= hi <= src@.len(),
    ensures
        rows_of(final(out)@) == rows_of(old(out)@) + rows_of(src@).subrange(lo as int, hi as int),
{
    let ghost start = rows_of(out@);
    let mut i = lo;
    while i < hi
        invariant
            lo <= i <= hi <= src@.len(),
            rows_of(out@) == start + rows_of(src@).subrange(lo as int, i as int),
        decreases hi - i,
    {
        let line = copy_chars(&src[i]);
        let ghost before = out@;
        out.push(line);
        assert(rows_of(out@) =~= rows_of(before) + seq![line@]);
        assert(rows_of(src@).subrange(lo as int, i + 1) =~= rows_of(src@).subrange(lo as int, i as int) + seq![src@[i as int]@]);
        i = i + 1;
    }
}

impl TextBuffer {
    /// No selection is under way in the text area.
    pub closed spec fn idle(&self) -> bool {
        area_selection_start(self.area) is None
    }

    /// At least one line, the cursor within the text, and no selection.
    pub open spec fn wf(&self) -> bool {
        valid_text(self@) && self.idle()
    }

    /// One empty line, the cursor at its start.
    pub fn new() -> (t: TextBuffer)
        ensures
            t.wf(),
            t@ == text_state(seq![Seq::<char>::empty()], 0, 0),
    {
        TextBuffer { area: area_default() }
    }

    /// The lines.
    pub fn lines(&self) -> (l: Vec<Vec<char>>)
        ensures
            rows_of(l@) == self@.lines,
    {
        let strings = area_lines_exec(&self.area);
        let mut out: Vec<Vec<char>> = Vec::new();
        let mut i: usize = 0;
        while i < strings.len()
            invariant
                i <= strings@.len(),
                rows_of(out@) == strings@.map_values(|l: String| l@).take(i as int),
            decreases strings@.len() - i,
        {
            let ghost before = out@;
            out.push(to_chars(strings[i].as_str()));
            assert(rows_of(out@) =~= rows_of(before).push(strings@[i as int]@));
            assert(strings@.map_values(|l: String| l@).take(i + 1) =~= strings@.map_values(|l: String| l@).take(
                i as int,
            ).push(strings@[i as int]@));
            i = i + 1;
        }
        assert(strings@.map_values(|l: String| l@).take(strings@.len() as int) =~= strings@.map_values(
            |l: String| l@,
        ));
        out
    }

    /// The cursor: row and column.
    pub fn cursor(&self) -> (c: (usize, usize))
        ensures
            c.0 == self@.row,
            c.1 == self@.col,
    {
        area_cursor_exec(&self.area)
    }

    /// Whether the text is one empty line.
    pub fn is_empty(&self) -> (b: bool)
        requires
            self.wf(),
        ensures
            b == ta_is_empty(self@),
    {
        let lines = self.lines();
        if lines.len() == 1 && lines[0].len() == 0 {
            assert(self@.lines[0] =~= Seq::<char>::empty());
            assert(self@.lines =~= seq![Seq::<char>::empty()]);
            true
        } else {
            proof {
                if self@.lines.len() == 1 {
                    assert(self@.lines[0].len() != 0);
                    assert(self@.lines != seq![Seq::<char>::empty()]) by {
                        assert(seq![Seq::<char>::empty()][0].len() == 0);
                    }
                }
            }
            false
        }
    }

    /// Starts a new line at the cursor.
    pub fn insert_newline(&mut self)
        requires
            old(self).wf(),
        ensures
            final(self).wf(),
            final(self)@ == ta_newline(old(self)@),
    {
        area_insert_newline(&mut self.area);
    }

    /// Types a character at the cursor.
    pub fn insert_char(&mut self, c: char)
        requires
            old(self).wf(),
        ensures
            final(self).wf(),
            final(self)@ == ta_insert_char(old(self)@, c),
    {
        area_insert_char(&mut self.area, c);
    }

    /// Joins the line to the one above.
    pub fn delete_newline(&mut self)
        requires
            old(self).wf(),
        ensures
            final(self).wf(),
            final(self)@ == ta_delete_newline(old(self)@),
    {
        area_delete_newline(&mut self.area);
    }

    /// Backspace.
    pub fn delete_char(&mut self)
        requires
            old(self).wf(),
        ensures
            final(self).wf(),
            final(self)@ == ta_delete_char(old(self)@),
    {
        area_delete_char(&mut self.area);
    }

    /// Delete.
    pub fn delete_next_char(&mut self)
        requires
            old(self).wf(),
        ensures
            final(self).wf(),
            final(self)@ == ta_delete_next_char(old(self)@),
    {
        area_delete_next_char(&mut self.area);
    }

    /// One character back.
    pub fn move_back(&mut self)
        requires
            old(self).wf(),
        ensures
            final(self).wf(),
            final(self)@ == ta_back(old(self)@),
    {
        area_move_cursor(&mut self.area, Move::Back);
    }

    /// One character forward.
    pub fn move_forward(&mut self)
        requires
            old(self).wf(),
        ensures
            final(self).wf(),
            final(self)@ == ta_forward(old(self)@),
    {
        area_move_cursor(&mut self.area, Move::Forward);
    }

    /// One line up.
    pub fn move_up(&mut self)
        requires
            old(self).wf(),
        ensures
            final(self).wf(),
            final(self)@ == ta_up(old(self)@),
    {
        area_move_cursor(&mut self.area, Move::Up);
    }

    /// One line down.
    pub fn move_down(&mut self)
        requires
            old(self).wf(),
        ensures
            final(self).wf(),
            final(self)@ == ta_down(old(self)@),
    {
        area_move_cursor(&mut self.area, Move::Down);
    }

    /// To the start of the line.
    pub fn move_head(&mut self)
        requires
            old(self).wf(),
        ensures
            final(self).wf(),
            final(self)@ == ta_head(old(self)@),
    {
        area_move_cursor(&mut self.area, Move::Head);
    }

    /// To the end of the line.
    pub fn move_end(&mut self)
        requires
            old(self).wf(),
        ensures
            final(self).wf(),
            final(self)@ == ta_end(old(self)@),
    {
        area_move_cursor(&mut self.area, Move::End);
    }

    /// To a row and column, each kept within the text.
    pub fn jump(&mut self, row: u16, col: u16)
        requires
            old(self).wf(),
        ensures
            final(self).wf(),
            final(self)@ == ta_jump(old(self)@, row, col),
    {
        area_move_cursor(&mut self.area, Move::Jump(row, col));
    }

    /// Select-all and cut.
    pub fn clear(&mut self)
        requires
            old(self).wf(),
        ensures
            final(self).wf(),
            final(self)@ == ta_clear(old(self)@),
    {
        area_select_all(&mut self.area);
        area_cut(&mut self.area);
    }

    /// To the start of the word before the cursor.
    pub fn move_word_back(&mut self)
        requires
            old(self).wf(),
        ensures
            final(self).wf(),
            final(self)@ == ta_word_back(old(self)@),
    {
        area_move_cursor(&mut self.area, Move::WordBack);
    }

    /// To the start of the next word.
    pub fn move_word_forward(&mut self)
        requires
            old(self).wf(),
        ensures
            final(self).wf(),
            final(self)@ == ta_word_forward(old(self)@),
    {
        area_move_cursor(&mut self.area, Move::WordForward);
    }

    /// Deletes the word before the cursor.
    pub fn delete_word(&mut self)
        requires
            old(self).wf(),
        ensures
            final(self).wf(),
            final(self)@ == ta_delete_word(old(self)@),
    {
        area_delete_word(&mut self.area);
    }

    /// Deletes the word after the cursor.
    pub fn delete_next_word(&mut self)
        requires
            old(self).wf(),
        ensures
            final(self).wf(),
            final(self)@ == ta_delete_next_word(old(self)@),
    {
        area_delete_next_word(&mut self.area);
    }

    /// The text, lines joined with line feeds.
    pub fn value_chars(&self) -> (v: Vec<char>)
        requires
            self.wf(),
        ensures
            v@ == join_lines(self@.lines),
    {
        let lines = self.lines();
        let ghost rows = self@.lines;
        let mut v = copy_chars(&lines[0]);
        assert(rows.take(1).drop_last() =~= Seq::<Seq<char>>::empty());
        assert(join_lines(rows.take(1)) == rows[0]);
        let mut i: usize = 1;
        while i < lines.len()
            invariant
                1 <= i <= lines@.len(),
                rows == rows_of(lines@),
                v@ == join_lines(rows.take(i as int)),
            decreases lines@.len() - i,
        {
            v.push('\n');
            append_chars(&mut v, &lines[i]);
            assert(rows.take(i + 1).drop_last() =~= rows.take(i as int));
            assert(v@ =~= join_lines(rows.take(i as int)) + seq!['\n'] + rows[i as int]);
            i = i + 1;
        }
        assert(rows.take(i as int) =~= rows);
        v
    }

    /// Inserts a text at the cursor, as pasting it would.
    pub fn insert_str(&mut self, text: &str)
        requires
            old(self).wf(),
        ensures
            final(self).wf(),
            final(self)@ == ta_insert_str(old(self)@, text@),
    {
        area_insert_str(&mut self.area, text);
    }
}

/// Adding a character to the last line adds it to the end of the joined text.
proof fn lemma_join_push_last(lines: Seq<Seq<char>>, c: char)
    requires
        lines.len() >= 1,
    ensures
        join_lines(lines.update(lines.len() - 1, lines.last().push(c))) == join_lines(lines).push(c),
{
    let up = lines.update(lines.len() - 1, lines.last().push(c));
    if lines.len() > 1 {
        assert(up.drop_last() =~= lines.drop_last());
        assert(join_lines(up) =~= join_lines(lines).push(c));
    }
}

/// Joining the pieces of a text split at line feeds gives the text back.
pub(crate) proof fn lemma_join_split(s: Seq<char>)
    ensures
        join_lines(split_on(s, '\n')) == s,
    decreases s.len(),
{
    if s.len() > 0 {
        let rest = split_on(s.drop_last(), '\n');
        lemma_join_split(s.drop_last());
        crate::text::lemma_split_on_nonempty(s.drop_last(), '\n');
        if s.last() == '\n' {
            let pieces = rest.push(Seq::<char>::empty());
            assert(pieces.drop_last() =~= rest);
            assert(join_lines(pieces) =~= s);
        } else {
            lemma_join_push_last(rest, s.last());
            assert(s.drop_last().push(s.last()) =~= s);
        }
    }
}

/// Every character of a piece of a split text is a character of the text.
pub(crate) proof fn lemma_split_chars_from(s: Seq<char>, sep: char, i: int, j: int)
    requires
        0 <= i < split_on(s, sep).len(),
        0 <= j < split_on(s, sep)[i].len(),
    ensures
        s.contains(split_on(s, sep)[i][j]),
    decreases s.len(),
{
    if s.len() > 0 {
        let rest = split_on(s.drop_last(), sep);
        crate::text::lemma_split_on_nonempty(s.drop_last(), sep);
        let c = split_on(s, sep)[i][j];
        if s.last() == sep {
            assert(i < rest.len());
            assert(rest[i] == split_on(s, sep)[i]);
            lemma_split_chars_from(s.drop_last(), sep, i, j);
            assert(s.drop_last().contains(c));
            let k = choose|k: int| 0 <= k < s.drop_last().len() && s.drop_last()[k] == c;
            assert(s[k] == c);
        } else if i == rest.len() - 1 && j == rest[i].len() {
            assert(c == s.last());
            assert(s[s.len() - 1] == c);
        } else {
            assert(j < rest[i].len());
            assert(rest[i][j] == c);
            lemma_split_chars_from(s.drop_last(), sep, i, j);
            let k = choose|k: int| 0 <= k < s.drop_last().len() && s.drop_last()[k] == c;
            assert(s[k] == c);
        }
    }
}

/// A text without carriage returns pastes as its pieces between line feeds.
pub(crate) proof fn lemma_paste_pieces_plain(text: Seq<char>)
    requires
        !text.contains('\r'),
    ensures
        paste_pieces(text) == split_on(text, '\n'),
{
    let pieces = split_on(text, '\n');
    assert forall|i: int| 0 <= i < pieces.len() implies strip_cr(#[trigger] pieces[i]) == pieces[i] by {
        if pieces[i].len() > 0 && pieces[i].last() == '\r' {
            lemma_split_chars_from(text, '\n', i, pieces[i].len() - 1);
        }
    }
    assert(paste_pieces(text) =~= pieces);
}

/// Clearing a text that a jump to row and column 65535 reaches the end of
/// leaves one empty line.
pub(crate) proof fn lemma_clear_empties(s: TextState)
    requires
        valid_text(s),
        s.lines.len() <= 65536,
        s.lines.last().len() <= 65535,
    ensures
        ta_clear(s) == text_state(seq![Seq::<char>::empty()], 0, 0),
{
    let end = ta_jump(s, 65535, 65535);
    assert(end.row == s.lines.len() - 1);
    assert(end.col == s.lines.last().len());
    assert(s.lines[end.row].skip(end.col) =~= Seq::<char>::empty());
    assert(s.lines.skip(end.row + 1) =~= Seq::<Seq<char>>::empty());
    assert(ta_clear(s).lines =~= seq![Seq::<char>::empty()]);
}

/// A text without carriage returns pasted into an empty text reads back
/// as itself.
pub(crate) proof fn lemma_paste_into_empty(text: Seq<char>)
    requires
        !text.contains('\r'),
    ensures
        join_lines(ta_insert_str(text_state(seq![Seq::<char>::empty()], 0, 0), text).lines) == text,
{
    let e = text_state(seq![Seq::<char>::empty()], 0, 0);
    lemma_paste_pieces_plain(text);
    lemma_join_split(text);
    crate::text::lemma_split_on_nonempty(text, '\n');
    let pieces = split_on(text, '\n');
    if pieces.len() <= 1 {
        if pieces[0].len() == 0 {
            assert(join_lines(e.lines) == pieces[0]);
        } else {
            let line = cur_line(e);
            assert(line.take(0) + pieces[0] + line.skip(0) =~= pieces[0]);
            assert(with_line(e, pieces[0]) =~= seq![pieces[0]]);
        }
    } else {
        let k = pieces.len() as int;
        let line = cur_line(e);
        let lines = e.lines.take(0) + seq![line.take(0) + pieces[0]] + pieces.subrange(1, k - 1) + seq![
            pieces[k - 1] + line.skip(0),
        ] + e.lines.skip(1);
        assert(lines =~= pieces);
    }
}

} // verus!
