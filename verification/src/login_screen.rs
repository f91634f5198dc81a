//! The login screen: a masked token field, a remember-me switch and the
//! state of validation.

use vstd::prelude::*;
use crate::entities::copy_str;
use crate::input::TextInput;
use crate::keys::{KeyCode, KeyEvent};

verus! {

/// The phase of the login.
#[derive(Clone, Copy, Debug, PartialEq, Eq, Structural)]
pub enum LoginState {
    Input,
    Validating,
    Error,
    Success,
}

/// The login screen.
pub struct LoginScreen {
    token_input: TextInput,
    state: LoginState,
    error_message: Option<String>,
    persist_token: bool,
}

impl LoginScreen {
    /// The token field is well formed.
    pub closed spec fn wf(&self) -> bool {
        self.token_input.wf()
    }

    /// The phase.
    pub closed spec fn spec_state(&self) -> LoginState {
        self.state
    }

    /// The token field.
    pub closed spec fn field(&self) -> TextInput {
        self.token_input
    }

    /// The error message shown.
    pub closed spec fn spec_error(&self) -> Option<Seq<char>> {
        match &self.error_message {
            Some(m) => Some(m@),
            None => None,
        }
    }

    /// Whether the token is to be remembered.
    pub closed spec fn spec_persist(&self) -> bool {
        self.persist_token
    }

    /// A screen waiting for input, with an empty focused masked field and the
    /// token to be remembered.
    pub fn new() -> (s: LoginScreen)
        ensures
            s.wf(),
            s.spec_state() == LoginState::Input,
            s.field().text() == Seq::<char>::empty(),
            s.field().cursor_pos() == 0,
            s.field().has_focus(),
            s.field().masked(),
            s.field().label_text() == "Discord Token"@,
            s.field().placeholder_text() == "Paste your Discord token here..."@,
            s.spec_error() is None,
            s.spec_persist(),
    {
        let mut token_input = TextInput::new("Discord Token").password().placeholder(
            "Paste your Discord token here...",
        );
        token_input.set_focused(true);
        LoginScreen { token_input, state: LoginState::Input, error_message: None, persist_token: true }
    }

    /// The phase.
    pub fn state(&self) -> (s: LoginState)
        ensures
            s == self.spec_state(),
    {
        self.state
    }

    /// The token entered, if any.
    pub fn token(&self) -> (t: Option<String>)
        ensures
            self.field().text().len() == 0 ==> t is None,
            self.field().text().len() > 0 ==> (t matches Some(v) && v@ == self.field().text()),
    {
        let v = self.token_input.value();
        if v.as_str().is_empty() {
            None
        } else {
            Some(v)
        }
    }

    /// Whether the token is to be remembered.
    pub fn should_persist(&self) -> (b: bool)
        ensures
            b == self.spec_persist(),
    {
        self.persist_token
    }

    /// The error message shown, if any.
    pub fn error_message(&self) -> (m: Option<&String>)
        ensures
            match m {
                Some(s) => self.spec_error() == Some(s@),
                None => self.spec_error() is None,
            },
    {
        match &self.error_message {
            Some(s) => Some(s),
            None => None,
        }
    }

    /// The token field.
    pub fn token_input(&self) -> (f: &TextInput)
        ensures
            *f == self.field(),
    {
        &self.token_input
    }

    /// Enters validation.
    pub fn set_validating(&mut self)
        ensures
            final(self).spec_state() == LoginState::Validating,
            final(self).spec_error() is None,
            final(self).field() == old(self).field(),
            final(self).spec_persist() == old(self).spec_persist(),
    {
        self.state = LoginState::Validating;
        self.error_message = None;
    }

    /// Enters success.
    pub fn set_success(&mut self)
        ensures
            final(self).spec_state() == LoginState::Success,
            final(self).spec_error() is None,
            final(self).field() == old(self).field(),
            final(self).spec_persist() == old(self).spec_persist(),
    {
        self.state = LoginState::Success;
        self.error_message = None;
    }

    /// Enters the error phase with a message.
    pub fn set_error(&mut self, message: &str)
        ensures
            final(self).spec_state() == LoginState::Error,
            final(self).spec_error() == Some(message@),
            final(self).field() == old(self).field(),
            final(self).spec_persist() == old(self).spec_persist(),
    {
        self.state = LoginState::Error;
        self.error_message = Some(copy_str(message));
    }

    /// Returns to input.
    pub fn reset(&mut self)
        ensures
            final(self).spec_state() == LoginState::Input,
            final(self).spec_error() is None,
            final(self).field() == old(self).field(),
            final(self).spec_persist() == old(self).spec_persist(),
    {
        self.state = LoginState::Input;
        self.error_message = None;
    }

    /// Handles a key; true when the key submits a non-empty token. During
    /// validation keys are ignored; after an error any key returns to input.
    /// Otherwise characters edit the field, arrows, `Home` and `End` move
    /// its cursor, and `Tab` switches whether the token is remembered.
    pub fn handle_key(&mut self, key: KeyEvent) -> (submit: bool)
        requires
            old(self).wf(),
            old(self).field().text().len() < usize::MAX,
        ensures
            final(self).wf(),
            submit == (old(self).spec_state() != LoginState::Validating
                && old(self).spec_state() != LoginState::Error
                && key.code == KeyCode::Enter
                && old(self).field().text().len() > 0),
            old(self).spec_state() == LoginState::Validating ==> *final(self) == *old(self),
            old(self).spec_state() == LoginState::Error ==> final(self).spec_state() == LoginState::Input
                && final(self).spec_error() is None
                && final(self).field() == old(self).field()
                && final(self).spec_persist() == old(self).spec_persist(),
            old(self).spec_state() != LoginState::Validating && old(self).spec_state() != LoginState::Error ==> {
                &&& final(self).spec_state() == old(self).spec_state()
                &&& final(self).spec_error() == old(self).spec_error()
                &&& final(self).spec_persist() == (if key.code == KeyCode::Tab {
                    !old(self).spec_persist()
                } else {
                    old(self).spec_persist()
                })
                &&& match key.code {
                    KeyCode::Char(c) => final(self).field().text() == old(self).field().text().insert(
                        old(self).field().cursor_pos() as int,
                        c,
                    ) && final(self).field().cursor_pos() == old(self).field().cursor_pos() + 1,
                    KeyCode::Backspace => if old(self).field().cursor_pos() > 0 {
                        final(self).field().text() == old(self).field().text().remove(
                            old(self).field().cursor_pos() - 1,
                        ) && final(self).field().cursor_pos() == old(self).field().cursor_pos() - 1
                    } else {
                        final(self).field().text() == old(self).field().text()
                            && final(self).field().cursor_pos() == 0
                    },
                    KeyCode::Delete => final(self).field().cursor_pos() == old(self).field().cursor_pos()
                        && final(self).field().text() == (if old(self).field().cursor_pos()
                        < old(self).field().text().len() {
                        old(self).field().text().remove(old(self).field().cursor_pos() as int)
                    } else {
                        old(self).field().text()
                    }),
                    KeyCode::Left => final(self).field().text() == old(self).field().text()
                        && final(self).field().cursor_pos() == (if old(self).field().cursor_pos() > 0 {
                        old(self).field().cursor_pos() - 1
                    } else {
                        0
                    }),
                    KeyCode::Right => final(self).field().text() == old(self).field().text()
                        && final(self).field().cursor_pos() == (if old(self).field().cursor_pos()
                        < old(self).field().text().len() {
                        old(self).field().cursor_pos() + 1
                    } else {
                        old(self).field().cursor_pos()
                    }),
                    KeyCode::Home => final(self).field().text() == old(self).field().text()
                        && final(self).field().cursor_pos() == 0,
                    KeyCode::End => final(self).field().text() == old(self).field().text()
                        && final(self).field().cursor_pos() == old(self).field().text().len(),
                    _ => final(self).field() == old(self).field(),
                }
                &&& final(self).field().has_focus() == old(self).field().has_focus()
                &&& final(self).field().masked() == old(self).field().masked()
            },
    {
        if self.state == LoginState::Validating {
            return false;
        }
        if self.state == LoginState::Error {
            self.reset();
            return false;
        }
        match key.code {
            KeyCode::Enter => {
                let v = self.token_input.value();
                if !v.as_str().is_empty() {
                    return true;
                }
            },
            KeyCode::Char(c) => {
                self.token_input.input_char(c);
            },
            KeyCode::Backspace => {
                self.token_input.backspace();
            },
            KeyCode::Delete => {
                self.token_input.delete();
            },
            KeyCode::Left => {
                self.token_input.move_left();
            },
            KeyCode::Right => {
                self.token_input.move_right();
            },
            KeyCode::Home => {
                self.token_input.move_start();
            },
            KeyCode::End => {
                self.token_input.move_end();
            },
            KeyCode::Tab => {
                self.persist_token = !self.persist_token;
            },
            _ => {},
        }
        false
    }
}

impl Default for LoginScreen {
    fn default() -> (s: LoginScreen)
        ensures
            s.wf(),
            s.spec_state() == LoginState::Input,
            s.spec_persist(),
    {
        Self::new()
    }
}

} // verus!
