//! Aggregates RSS feeds, filters their items by per-source exclusion rules and
//! keeps a reading list on the Pocket service in step with them.
//!
//! This crate holds the verified logic; network access, files and the
//! command-line program live in the companion application.

pub mod text;
pub mod datetime;
pub mod item;
pub mod source;
pub mod feed;
pub mod pocket_item;
pub mod pocket_item_response;
pub mod pocket_api;
pub mod pocket_auth;
pub mod config;
pub mod sync;
