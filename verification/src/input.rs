//! A single-line text input field with a cursor.

use vstd::prelude::*;
use crate::chars::{from_chars, to_chars};

verus! {

/// A text input field: its characters, a cursor between characters, focus,
/// password masking, placeholder and label.
#[derive(Debug, Clone)]
pub struct TextInput {
    value: Vec<char>,
    cursor: usize,
    focused: bool,
    masked: bool,
    placeholder: String,
    label: String,
}

/// `n` copies of a character.
pub open spec fn repeat_char(c: char, n: nat) -> Seq<char> {
    Seq::new(n, |i: int| c)
}

impl TextInput {
    /// The cursor lies within the text.
    pub closed spec fn wf(&self) -> bool {
        self.cursor <= self.value@.len()
    }

    /// A well-formed field has its cursor within the text.
    pub proof fn lemma_cursor_in_text(&self)
        requires
            self.wf(),
        ensures
            self.cursor_pos() <= self.text().len(),
    {
    }

    /// The characters entered.
    pub closed spec fn text(&self) -> Seq<char> {
        self.value@
    }

    /// The cursor position, in characters from the start.
    pub closed spec fn cursor_pos(&self) -> nat {
        self.cursor as nat
    }

    /// Whether the field has focus.
    pub closed spec fn has_focus(&self) -> bool {
        self.focused
    }

    /// Whether the text is shown masked.
    pub closed spec fn masked(&self) -> bool {
        self.masked
    }

    /// The placeholder shown when the field is empty.
    pub closed spec fn placeholder_text(&self) -> Seq<char> {
        self.placeholder@
    }

    /// The label of the field.
    pub closed spec fn label_text(&self) -> Seq<char> {
        self.label@
    }

    /// An empty, unfocused, unmasked field with the given label.
    pub fn new(label: &str) -> (r: TextInput)
        ensures
            r.wf(),
            r.text() == Seq::<char>::empty(),
            r.cursor_pos() == 0,
            !r.has_focus(),
            !r.masked(),
            r.placeholder_text() == Seq::<char>::empty(),
            r.label_text() == label@,
    {
        let l = to_chars(label);
        TextInput {
            value: Vec::new(),
            cursor: 0,
            focused: false,
            masked: false,
            placeholder: String::new(),
            label: from_chars(&l),
        }
    }

    /// The same field with password masking.
    pub fn password(self) -> (r: TextInput)
        requires
            self.wf(),
        ensures
            r.wf(),
            r.masked(),
            r.text() == self.text(),
            r.cursor_pos() == self.cursor_pos(),
            r.has_focus() == self.has_focus(),
            r.placeholder_text() == self.placeholder_text(),
            r.label_text() == self.label_text(),
    {
        let mut s = self;
        s.masked = true;
        s
    }

    /// The same field with the given placeholder.
    pub fn placeholder(self, text: &str) -> (r: TextInput)
        requires
            self.wf(),
        ensures
            r.wf(),
            r.placeholder_text() == text@,
            r.text() == self.text(),
            r.cursor_pos() == self.cursor_pos(),
            r.has_focus() == self.has_focus(),
            r.masked() == self.masked(),
            r.label_text() == self.label_text(),
    {
        let mut s = self;
        let p = to_chars(text);
        s.placeholder = from_chars(&p);
        s
    }

    /// Sets focus.
    pub fn set_focused(&mut self, focused: bool)
        requires
            old(self).wf(),
        ensures
            final(self).wf(),
            final(self).has_focus() == focused,
            final(self).text() == old(self).text(),
            final(self).cursor_pos() == old(self).cursor_pos(),
            final(self).masked() == old(self).masked(),
            final(self).placeholder_text() == old(self).placeholder_text(),
            final(self).label_text() == old(self).label_text(),
    {
        self.focused = focused;
    }

    /// Whether the field has focus.
    pub fn is_focused(&self) -> (b: bool)
        ensures
            b == self.has_focus(),
    {
        self.focused
    }

    /// The characters entered.
    pub fn value(&self) -> (s: String)
        ensures
            s@ == self.text(),
    {
        from_chars(&self.value)
    }

    /// The cursor position.
    pub fn cursor(&self) -> (c: usize)
        ensures
            c == self.cursor_pos(),
    {
        self.cursor
    }

    /// Replaces the text and puts the cursor at its end.
    pub fn set_value(&mut self, value: &str)
        requires
            old(self).wf(),
        ensures
            final(self).wf(),
            final(self).text() == value@,
            final(self).cursor_pos() == value@.len(),
            final(self).has_focus() == old(self).has_focus(),
            final(self).masked() == old(self).masked(),
            final(self).placeholder_text() == old(self).placeholder_text(),
            final(self).label_text() == old(self).label_text(),
    {
        self.value = to_chars(value);
        self.cursor = self.value.len();
    }

    /// Empties the text.
    pub fn clear(&mut self)
        requires
            old(self).wf(),
        ensures
            final(self).wf(),
            final(self).text() == Seq::<char>::empty(),
            final(self).cursor_pos() == 0,
            final(self).has_focus() == old(self).has_focus(),
            final(self).masked() == old(self).masked(),
            final(self).placeholder_text() == old(self).placeholder_text(),
            final(self).label_text() == old(self).label_text(),
    {
        self.value = Vec::new();
        self.cursor = 0;
    }

    /// Inserts a character at the cursor and moves the cursor past it.
    pub fn input_char(&mut self, c: char)
        requires
            old(self).wf(),
            old(self).text().len() < usize::MAX,
        ensures
            final(self).wf(),
            final(self).text() == old(self).text().insert(old(self).cursor_pos() as int, c),
            final(self).cursor_pos() == old(self).cursor_pos() + 1,
            final(self).has_focus() == old(self).has_focus(),
            final(self).masked() == old(self).masked(),
            final(self).placeholder_text() == old(self).placeholder_text(),
            final(self).label_text() == old(self).label_text(),
    {
        self.value.insert(self.cursor, c);
        self.cursor = self.cursor + 1;
    }

    /// Deletes the character before the cursor, if any.
    pub fn backspace(&mut self)
        requires
            old(self).wf(),
        ensures
            final(self).wf(),
            old(self).cursor_pos() > 0 ==> final(self).text() == old(self).text().remove(old(self).cursor_pos() - 1)
                && final(self).cursor_pos() == old(self).cursor_pos() - 1,
            old(self).cursor_pos() == 0 ==> final(self).text() == old(self).text() && final(self).cursor_pos() == 0,
            final(self).has_focus() == old(self).has_focus(),
            final(self).masked() == old(self).masked(),
            final(self).placeholder_text() == old(self).placeholder_text(),
            final(self).label_text() == old(self).label_text(),
    {
        if self.cursor > 0 {
            self.cursor = self.cursor - 1;
            self.value.remove(self.cursor);
        }
    }

    /// Deletes the character at the cursor, if any.
    pub fn delete(&mut self)
        requires
            old(self).wf(),
        ensures
            final(self).wf(),
            old(self).cursor_pos() < old(self).text().len() ==> final(self).text() == old(self).text().remove(
                old(self).cursor_pos() as int,
            ),
            old(self).cursor_pos() >= old(self).text().len() ==> final(self).text() == old(self).text(),
            final(self).cursor_pos() == old(self).cursor_pos(),
            final(self).has_focus() == old(self).has_focus(),
            final(self).masked() == old(self).masked(),
            final(self).placeholder_text() == old(self).placeholder_text(),
            final(self).label_text() == old(self).label_text(),
    {
        if self.cursor < self.value.len() {
            self.value.remove(self.cursor);
        }
    }

    /// Moves the cursor one character left, stopping at the start.
    pub fn move_left(&mut self)
        requires
            old(self).wf(),
        ensures
            final(self).wf(),
            final(self).cursor_pos() == (if old(self).cursor_pos() > 0 { old(self).cursor_pos() - 1 } else { 0 }),
            final(self).text() == old(self).text(),
            final(self).has_focus() == old(self).has_focus(),
            final(self).masked() == old(self).masked(),
            final(self).placeholder_text() == old(self).placeholder_text(),
            final(self).label_text() == old(self).label_text(),
    {
        if self.cursor > 0 {
            self.cursor = self.cursor - 1;
        }
    }

    /// Moves the cursor one character right, stopping at the end.
    pub fn move_right(&mut self)
        requires
            old(self).wf(),
        ensures
            final(self).wf(),
            final(self).cursor_pos() == (if old(self).cursor_pos() < old(self).text().len() {
                old(self).cursor_pos() + 1
            } else {
                old(self).cursor_pos()
            }),
            final(self).text() == old(self).text(),
            final(self).has_focus() == old(self).has_focus(),
            final(self).masked() == old(self).masked(),
            final(self).placeholder_text() == old(self).placeholder_text(),
            final(self).label_text() == old(self).label_text(),
    {
        if self.cursor < self.value.len() {
            self.cursor = self.cursor + 1;
        }
    }

    /// Moves the cursor to the start.
    pub fn move_start(&mut self)
        requires
            old(self).wf(),
        ensures
            final(self).wf(),
            final(self).cursor_pos() == 0,
            final(self).text() == old(self).text(),
            final(self).has_focus() == old(self).has_focus(),
            final(self).masked() == old(self).masked(),
            final(self).placeholder_text() == old(self).placeholder_text(),
            final(self).label_text() == old(self).label_text(),
    {
        self.cursor = 0;
    }

    /// Moves the cursor to the end.
    pub fn move_end(&mut self)
        requires
            old(self).wf(),
        ensures
            final(self).wf(),
            final(self).cursor_pos() == old(self).text().len(),
            final(self).text() == old(self).text(),
            final(self).has_focus() == old(self).has_focus(),
            final(self).masked() == old(self).masked(),
            final(self).placeholder_text() == old(self).placeholder_text(),
            final(self).label_text() == old(self).label_text(),
    {
        self.cursor = self.value.len();
    }

    /// What the field shows: the placeholder when empty, one `•` per character
    /// when masked, or the text.
    pub open spec fn spec_display_text(&self) -> Seq<char> {
        if self.text().len() == 0 {
            self.placeholder_text()
        } else if self.masked() {
            repeat_char('\u{2022}', self.text().len())
        } else {
            self.text()
        }
    }

    /// What the field shows.
    pub fn display_text(&self) -> (s: String)
        ensures
            s@ == self.spec_display_text(),
    {
        if self.value.len() == 0 {
            self.placeholder.clone()
        } else if self.masked {
            let mut v: Vec<char> = Vec::new();
            let mut i: usize = 0;
            while i < self.value.len()
                invariant
                    i <= self.value@.len(),
                    v@ == repeat_char('\u{2022}', i as nat),
                decreases self.value@.len() - i,
            {
                v.push('\u{2022}');
                assert(v@ =~= repeat_char('\u{2022}', (i + 1) as nat));
                i = i + 1;
            }
            from_chars(&v)
        } else {
            from_chars(&self.value)
        }
    }

    /// The label of the field.
    pub fn label(&self) -> (s: &String)
        ensures
            s@ == self.label_text(),
    {
        &self.label
    }
}

/// Typing a character and then pressing backspace leaves the text and the
/// cursor as they were: `typed` is the field after `input_char(c)` on
/// `before`, and `after` the field after `backspace` on `typed`.
pub proof fn lemma_backspace_undoes_input(before: TextInput, typed: TextInput, after: TextInput, c: char)
    requires
        before.wf(),
        typed.text() == before.text().insert(before.cursor_pos() as int, c),
        typed.cursor_pos() == before.cursor_pos() + 1,
        after.text() == typed.text().remove(typed.cursor_pos() - 1),
        after.cursor_pos() == typed.cursor_pos() - 1,
    ensures
        after.text() == before.text(),
        after.cursor_pos() == before.cursor_pos(),
{
    assert(before.text().insert(before.cursor_pos() as int, c).remove(before.cursor_pos() as int) =~= before.text());
}

} // verus!
