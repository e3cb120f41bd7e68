//! Core of a modal, terminal-style line editor: a line buffer with cursor
//! and selection model, word and paragraph motions, visual-range editing,
//! comment toggling, wrap-around search, snapshot-based undo/redo history,
//! a modal key dispatcher, and a differential cell-grid renderer.
//!
//! Text is held as sequences of characters (`Vec<char>`), one vector per
//! line, so every column index addresses one code point.

pub mod comment;
pub mod edit;
pub mod history;
pub mod keys;
pub mod motion;
pub mod render;
pub mod search;
pub mod session;
pub mod text;
