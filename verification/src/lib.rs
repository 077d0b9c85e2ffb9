//! A typing-practice engine for the terminal.
//!
//! A text is split into display lines, shown through a scrolling window, and
//! a cursor walks through it one character at a time as matching keys arrive.

pub mod config;
pub mod game;
pub mod laws;
pub mod machine;
pub mod screen;
pub mod session;
pub mod terminal;
pub mod text;

pub use crate::config::Config;
pub use crate::game::Game;
pub use crate::screen::Screen;
pub use crate::session::run;
