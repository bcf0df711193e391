//! Path resolution and per-link bookkeeping for a media downloader.
//!
//! The library derives the destination path of every media link from its
//! post and a filename pattern, tracks each link's download status, and
//! decides what a download or rename run does next. It performs no I/O:
//! callers carry out the actions it returns and report what happened.

pub mod cli;
pub mod config;
pub mod download;
pub mod filenames;
pub mod metadata;
pub mod model;
pub mod paths;
pub mod records;
pub mod rename;
pub mod report;
pub mod set_dates;
pub mod store;
pub mod text;
