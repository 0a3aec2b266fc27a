//! Filtering, navigation and rendering logic of a keyboard-driven session
//! explorer: it searches the tabs and panes of a terminal-multiplexer session
//! by title, keeps a selection on the matching rows and draws the result as
//! text for a fixed-size terminal viewport.

pub mod text;
pub mod session;
pub mod filter;
pub mod input;
pub mod action;
pub mod render;
pub mod state;
