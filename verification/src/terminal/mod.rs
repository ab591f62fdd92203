//! The terminal itself: its history and screens, the session that keeps
//! them, and the core that turns user actions into changes of state.
pub mod model;
pub mod bootstrap;
pub mod emulator;
pub mod session;
pub mod render_state;
pub mod ui;
pub mod engine;
pub mod input;
