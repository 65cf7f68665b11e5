//! The screen: its state, its table and its texts.

pub mod app;
pub mod format;
pub mod laws;
pub mod table;
