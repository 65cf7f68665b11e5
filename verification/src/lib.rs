//! Relative strength of perpetual futures against BTC.
//!
//! The crate holds the decisions of a market screener: which requests are made
//! and in what order, how replies are read, how the screen's state follows the
//! messages it is sent, and how rows are filtered and sorted.

pub mod analysis;
pub mod clock;
pub mod double;
pub mod feeds;
pub mod json;
pub mod order;
pub mod pipeline;
pub mod store;
pub mod text;
pub mod ui;
