//! The logic of a browser terminal: a shell with built-in commands and a
//! small read-only file tree, three games (guess, snake, tetris), and the
//! state machine that moves between the shell and a running game.
pub mod text;
pub mod random;
pub mod apps;
pub mod commands;
pub mod terminal_fs;
pub mod terminal;
