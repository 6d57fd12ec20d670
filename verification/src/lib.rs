//! Verified core of the NewsPenguin RSS bot: date handling, text helpers,
//! the key-value store model, JSON-RPC framing, feed screening, the Mastodon
//! request plan and the run state machine that drives one bot run.

pub mod error;
pub mod feed;
pub mod http;
pub mod instant;
pub mod json;
pub mod kv;
pub mod mastodon;
pub mod posted;
pub mod rpc;
pub mod run;
pub mod text;
