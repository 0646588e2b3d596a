//! Core of a terminal text editor: a line-oriented byte buffer, a scrolling
//! viewport with a cursor, a mode-dependent key interpreter, and a controller
//! that applies commands to the editor state.

pub mod command;
pub mod editor;
pub mod file;
pub mod view;
