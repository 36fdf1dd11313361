//! Verified core of a bulk downloader for MediaFire files and folders.
//!
//! The library holds what the downloader decides and computes: which links
//! name MediaFire files or folders and with which keys, the URL list read
//! from a file, the API requests, the walk through a folder tree and the steps of one
//! download, the order in which files are downloaded,
//! the retry budget of a download, what its progress bar shows, and whether
//! downloaded contents match their hash. The program around it does the
//! network and file work.

pub mod api;
pub mod config;
pub mod download;
pub mod downloader;
pub mod paths;
pub mod progress;
pub mod queue;
pub mod report;
pub mod size;
pub mod text;
pub mod types;
pub mod urls;
pub mod utils;
