//! Indexing and parsing of append-only, newline-delimited JSON session logs.
//!
//! The library offers two tiers of access: a cheap metadata scan over a
//! file's lines (targeted substring search, no full decoding) used to build
//! a session inventory, and a full per-line decode into a structured event
//! model for detailed viewing. All functions work on lines already read
//! into memory; reading files and directories is the caller's concern.

pub mod events;
pub mod json;
pub mod loader;
pub mod messages;
pub mod scan;
pub mod text;
pub mod time;
