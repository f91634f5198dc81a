//! The header bar: application name, version and connection status.

use vstd::prelude::*;
use crate::chars::{append_str as append, from_chars};
use crate::entities::{ConnectionStatus, copy_str};
use crate::status_bar::byte_len;

verus! {

/// The word shown for a connection status.
pub open spec fn spec_status_text(s: ConnectionStatus) -> Seq<char> {
    match s {
        ConnectionStatus::Disconnected => "DISCONNECTED"@,
        ConnectionStatus::Connecting => "CONNECTING"@,
        ConnectionStatus::Connected => "CONNECTED"@,
        ConnectionStatus::Reconnecting => "RECONNECTING"@,
        ConnectionStatus::Error => "ERROR"@,
    }
}

/// The symbol shown for a connection status: full, half or empty circle.
pub open spec fn spec_indicator(s: ConnectionStatus) -> Seq<char> {
    match s {
        ConnectionStatus::Connected => "\u{25cf}"@,
        ConnectionStatus::Connecting | ConnectionStatus::Reconnecting => "\u{25d0}"@,
        ConnectionStatus::Disconnected | ConnectionStatus::Error => "\u{25cb}"@,
    }
}

impl ConnectionStatus {
    /// The word shown for the status.
    pub fn display_text(self) -> (s: &'static str)
        ensures
            s@ == spec_status_text(self),
    {
        match self {
            ConnectionStatus::Disconnected => "DISCONNECTED",
            ConnectionStatus::Connecting => "CONNECTING",
            ConnectionStatus::Connected => "CONNECTED",
            ConnectionStatus::Reconnecting => "RECONNECTING",
            ConnectionStatus::Error => "ERROR",
        }
    }

    /// The symbol shown for the status.
    pub fn indicator(self) -> (s: &'static str)
        ensures
            s@ == spec_indicator(self),
    {
        match self {
            ConnectionStatus::Connected => "\u{25cf}",
            ConnectionStatus::Connecting | ConnectionStatus::Reconnecting => "\u{25d0}",
            ConnectionStatus::Disconnected | ConnectionStatus::Error => "\u{25cb}",
        }
    }
}

/// The header bar's content.
pub struct HeaderBar {
    app_name: String,
    version: String,
    connection_status: ConnectionStatus,
}

/// The status text of the header: ` {indicator} {status} `.
pub open spec fn spec_status_label(s: ConnectionStatus) -> Seq<char> {
    " "@ + spec_indicator(s) + " "@ + spec_status_text(s) + " "@
}

impl HeaderBar {
    /// The application name.
    pub closed spec fn spec_app_name(&self) -> Seq<char> {
        self.app_name@
    }

    /// The version.
    pub closed spec fn spec_version(&self) -> Seq<char> {
        self.version@
    }

    /// The connection status.
    pub closed spec fn spec_connection_status(&self) -> ConnectionStatus {
        self.connection_status
    }

    /// A header for an application name and version, disconnected.
    pub fn new(app_name: &str, version: &str) -> (h: HeaderBar)
        ensures
            h.spec_app_name() == app_name@,
            h.spec_version() == version@,
            h.spec_connection_status() == ConnectionStatus::Disconnected,
    {
        HeaderBar {
            app_name: copy_str(app_name),
            version: copy_str(version),
            connection_status: ConnectionStatus::Disconnected,
        }
    }

    /// The same header with the given status.
    pub fn connection_status(self, status: ConnectionStatus) -> (h: HeaderBar)
        ensures
            h.spec_connection_status() == status,
            h.spec_app_name() == self.spec_app_name(),
            h.spec_version() == self.spec_version(),
    {
        let mut h = self;
        h.connection_status = status;
        h
    }

    /// The application name.
    pub fn app_name(&self) -> (s: &str)
        ensures
            s@ == self.spec_app_name(),
    {
        self.app_name.as_str()
    }

    /// The version.
    pub fn version(&self) -> (s: &str)
        ensures
            s@ == self.spec_version(),
    {
        self.version.as_str()
    }

    /// The status.
    pub fn status(&self) -> (s: ConnectionStatus)
        ensures
            s == self.spec_connection_status(),
    {
        self.connection_status
    }

    /// The status text and its width in characters.
    pub fn build_status_label(&self) -> (r: (String, usize))
        ensures
            r.0@ == spec_status_label(self.spec_connection_status()),
            r.1 == r.0@.len(),
    {
        let mut v: Vec<char> = Vec::new();
        append(&mut v, " ");
        append(&mut v, self.connection_status.indicator());
        append(&mut v, " ");
        append(&mut v, self.connection_status.display_text());
        append(&mut v, " ");
        let n = v.len();
        (from_chars(&v), n)
    }

    /// The width of the left part, ` NAME ` then a space then ` vVERSION `,
    /// counted in bytes as the name and version are.
    pub fn left_width(&self) -> (w: usize)
        requires
            byte_len(self.spec_app_name()) + byte_len(self.spec_version()) + 6 <= usize::MAX,
        ensures
            w == byte_len(self.spec_app_name()) + 2 + 1 + byte_len(self.spec_version()) + 3,
    {
        self.app_name.as_str().len() + 2 + 1 + self.version.as_str().len() + 3
    }
}

} // verus!
