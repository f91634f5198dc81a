//! Verified presentation logic of a terminal Discord client: key handling,
//! command bindings, text editing, list navigation, scrolling and layout.

pub mod chars;
pub mod keys;
pub mod text;
pub mod commands;
pub mod theme;
pub mod utils;
pub mod input;
pub mod status_bar;
pub mod entities;
pub mod login_screen;
pub mod main_screen;
pub mod header_bar;
pub mod footer_bar;
pub mod chat_screen;
pub mod message_pane;
pub mod sorting;
pub mod quick_switcher;
pub mod width;
pub mod guilds_tree;
pub mod pane_data;
pub mod text_area;
pub mod message_input;
pub mod wrap;
pub mod channel_header;
pub mod help;
pub mod images;
pub mod notification;
pub mod search;
pub mod channel_access;
pub mod backend_events;
