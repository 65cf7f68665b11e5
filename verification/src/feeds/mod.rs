//! The market-data feed: its types, its requests and its replies.

pub mod hyperliquid;
pub mod live;
pub mod messages;
pub mod requests;
pub mod types;
