//! How the page is brought up to date with the terminal.
pub mod diff;
