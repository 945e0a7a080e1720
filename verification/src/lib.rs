//! The core of a feed reader. `data` holds the stored items, feeds and
//! groups, the identity of an item and the merge of a freshly parsed
//! document into a feed. `net` holds the conditional fetch of one feed and
//! the course of a refresh cycle over all of them. `tui` holds the state of
//! an interactive session and what the user's keys do to it. `config` holds
//! the settings, `text` what the rest needs of strings.
//!
//! The library neither reads nor writes anything: what comes from the
//! network, the disk or the keyboard is handed to it, and what is to be
//! sent, opened or drawn is handed back.

pub mod config;
pub mod data;
pub mod net;
pub mod text;
pub mod tui;
