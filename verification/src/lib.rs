//! Rate-limited download planning for osu! beatmap archives.
//!
//! The crate holds the decisions of the downloader: which archives are still
//! missing, how a mirror's quota is tracked, what to do with each response, and
//! how many downloads may run at once.  Callers perform the network and file
//! operations and report what happened.

pub mod config;
pub mod downloader;
pub mod fetcher;
pub mod headers;
pub mod limiter;
pub mod mirror;
pub mod text;
pub mod types;
pub mod worker;
