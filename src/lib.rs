//! Synchronisation engine for a local wallpaper directory: identifier list
//! handling, the digest ledger, the retry policy for metadata fetches and the
//! per-identifier decision procedure. Everything that touches the network or
//! the disk is performed by the caller, which feeds the results back in.

pub mod ledger;
pub mod text;
pub mod wallpapers;
pub mod config;
pub mod digest;
pub mod formats;
pub mod errors;
pub mod retry;
pub mod reply;
pub mod task;
