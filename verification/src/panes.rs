//! The panes of the window.

pub mod canvas;
pub mod export;
