//! The settings of the reader and their defaults.

use vstd::prelude::*;
use vstd::string::*;

verus! {

/// The colour scheme.
#[derive(Debug, Clone, Copy, PartialEq, Eq)]
pub enum Theme {
    Dark,
    Light,
}

/// The order in which the items of a feed are listed.
#[derive(Debug, Clone, Copy, PartialEq, Eq)]
pub enum SortOrder {
    /// Newest first.
    Date,
    /// By title, ascending.
    Title,
    /// As the feed holds them.
    Channel,
}

/// The kind of system that the reader runs on, as far as the defaults
/// depend on it.
#[derive(Debug, Clone, Copy, PartialEq, Eq)]
pub enum Platform {
    Windows,
    MacOs,
    Other,
}

/// How the reader looks and what it lists.
#[derive(Debug, PartialEq, Eq)]
pub struct Ui {
    pub theme: Theme,
    pub unread_only: bool,
    pub sort: SortOrder,
}

/// The command that opens a link.
#[derive(Debug, PartialEq, Eq)]
pub struct Opener {
    pub command: String,
}

/// The keys of the three global actions.
#[derive(Debug, PartialEq, Eq)]
pub struct Keys {
    pub quit: String,
    pub open: String,
    pub refresh: String,
}

/// How often the feeds are refreshed.
#[derive(Debug, Clone, Copy, PartialEq, Eq)]
pub struct Refresh {
    pub interval_secs: u64,
}

/// All settings.
#[derive(Debug, PartialEq, Eq)]
pub struct Config {
    pub ui: Ui,
    pub opener: Opener,
    pub keys: Keys,
    pub refresh: Refresh,
}

/// The seconds between two refresh cycles unless configured otherwise: a
/// quarter of an hour.
pub const DEFAULT_INTERVAL_SECS: u64 = 900;

impl Default for Ui {
    fn default() -> (ui: Ui)
        ensures
            ui == (Ui { theme: Theme::Dark, unread_only: true, sort: SortOrder::Date }),
    {
        Ui { theme: Theme::Dark, unread_only: true, sort: SortOrder::Date }
    }
}

impl Default for Keys {
    fn default() -> (keys: Keys)
        ensures
            keys.quit@ == "q"@,
            keys.open@ == "o"@,
            keys.refresh@ == "r"@,
    {
        Keys {
            quit: String::from_str("q"),
            open: String::from_str("o"),
            refresh: String::from_str("r"),
        }
    }
}

impl Default for Refresh {
    fn default() -> (refresh: Refresh)
        ensures
            refresh.interval_secs == DEFAULT_INTERVAL_SECS,
    {
        Refresh { interval_secs: DEFAULT_INTERVAL_SECS }
    }
}

/// The name of the command that opens a link on a platform.
pub open spec fn opener_command(platform: Platform) -> Seq<char> {
    match platform {
        Platform::Windows => "start"@,
        Platform::MacOs => "open"@,
        Platform::Other => "xdg-open"@,
    }
}

impl Opener {
    /// The opener that a platform uses unless configured otherwise.
    pub fn for_platform(platform: Platform) -> (opener: Opener)
        ensures
            opener.command@ == opener_command(platform),
    {
        let command = match platform {
            Platform::Windows => "start",
            Platform::MacOs => "open",
            Platform::Other => "xdg-open",
        };
        Opener { command: String::from_str(command) }
    }
}

impl Config {
    /// The settings that a platform starts with: the dark theme, unread
    /// items only, newest first, the platform's opener, the keys `q`, `o`
    /// and `r`, and a refresh every quarter of an hour.
    pub fn for_platform(platform: Platform) -> (config: Config)
        ensures
            config.ui == (Ui { theme: Theme::Dark, unread_only: true, sort: SortOrder::Date }),
            config.opener.command@ == opener_command(platform),
            config.keys.quit@ == "q"@,
            config.keys.open@ == "o"@,
            config.keys.refresh@ == "r"@,
            config.refresh.interval_secs == DEFAULT_INTERVAL_SECS,
    {
        Config {
            ui: Ui::default(),
            opener: Opener::for_platform(platform),
            keys: Keys::default(),
            refresh: Refresh::default(),
        }
    }
}

} // verus!
