//! Core logic of a crates-registry and Rust-toolchain mirror: path and URL
//! derivation, artifact integrity checking, index and channel task fan-out,
//! journals, retention, and the serving layer's routing decisions.
pub mod channel;
pub mod cloud;
pub mod config;
pub mod crates_sync;
pub mod dates;
pub mod download;
pub mod errors;
pub mod file_server;
pub mod git_protocol;
pub mod hashing;
pub mod journal;
pub mod jsonfmt;
pub mod paths;
pub mod rustup;
pub mod server_model;
pub mod text;
pub mod urlenc;
