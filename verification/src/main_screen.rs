//! The welcome screen shown after login.

use vstd::prelude::*;
use crate::chars::{from_chars, to_chars};
use crate::entities::User;
use crate::status_bar::{StatusBar, StatusLevel};

verus! {

/// The main screen: the user logged in and a status bar.
pub struct MainScreen {
    user: User,
    status: StatusBar,
}

impl MainScreen {
    /// The user.
    pub closed spec fn spec_user(&self) -> User {
        self.user
    }

    /// The status bar.
    pub closed spec fn spec_status(&self) -> StatusBar {
        self.status
    }

    /// The screen for a user, with a success status naming the user on the
    /// left and how to quit on the right.
    pub fn new(user: User) -> (s: MainScreen)
        ensures
            s.spec_user() == user,
            s.spec_status().left_text() == "Logged in as: "@ + user.spec_username(),
            s.spec_status().center_text() == Seq::<char>::empty(),
            s.spec_status().right_text() == "Press 'q' to quit"@,
            s.spec_status().spec_level() == StatusLevel::Success,
    {
        let mut text = to_chars("Logged in as: ");
        let name = to_chars(user.display_name());
        let mut i: usize = 0;
        let ghost prefix = text@;
        while i < name.len()
            invariant
                i <= name.len(),
                text@ == prefix + name@.take(i as int),
            decreases name.len() - i,
        {
            text.push(name[i]);
            assert(name@.take(i + 1) =~= name@.take(i as int).push(name@[i as int]));
            i = i + 1;
        }
        assert(name@.take(name.len() as int) =~= name@);
        let left = from_chars(&text);
        let status = StatusBar::new().left(left.as_str()).right("Press 'q' to quit").level(StatusLevel::Success);
        MainScreen { user, status }
    }

    /// The user.
    pub fn user(&self) -> (u: &User)
        ensures
            *u == self.spec_user(),
    {
        &self.user
    }

    /// The status bar.
    pub fn status(&self) -> (s: &StatusBar)
        ensures
            *s == self.spec_status(),
    {
        &self.status
    }

    /// Replaces the status bar.
    pub fn set_status(&mut self, status: StatusBar)
        ensures
            final(self).spec_status() == status,
            final(self).spec_user() == old(self).spec_user(),
    {
        self.status = status;
    }
}

} // verus!
