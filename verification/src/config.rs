//! Settings of a practice session.

use vstd::prelude::*;

verus! {

/// The tab width that a fresh configuration holds.
pub const DEFAULT_TAB_WIDTH: u8 = 4;

/// Settings of a practice session.
#[derive(Clone, Copy, Debug)]
pub struct Config {
    /// Number of spaces that stand for one tab character; at most
    /// eight of them are ever written, however large the value is.
    pub tab_width: u8,
}

impl Config {
    /// The default settings: a tab is four spaces wide.
    pub fn new() -> (config: Config)
        ensures
            config.tab_width == DEFAULT_TAB_WIDTH,
    {
        Config { tab_width: DEFAULT_TAB_WIDTH }
    }

    /// Settings with the given tab width. A width beyond the largest that
    /// the settings hold is replaced by that largest one: no tab is ever
    /// written wider than eight spaces, so nothing is lost by it.
    pub fn with_tab_width(tab_width: u32) -> (config: Config)
        ensures
            tab_width <= u8::MAX ==> config.tab_width == tab_width,
            tab_width > u8::MAX ==> config.tab_width == u8::MAX,
    {
        if tab_width > u8::MAX as u32 {
            Config { tab_width: u8::MAX }
        } else {
            Config { tab_width: tab_width as u8 }
        }
    }
}

} // verus!
