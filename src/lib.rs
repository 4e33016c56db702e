//! Transactional deployment engine for a game add-on: naming rules, path
//! safety, retry and rate-limit strategies, deletion and upgrade decisions.

pub mod atomic;
pub mod cli;
pub mod config;
pub mod consolidate;
pub mod download;
pub mod error;
pub mod extractor;
pub mod file_ops;
pub mod installer;
pub mod model;
pub mod naming;
pub mod rate_limit;
pub mod retry;
pub mod shutdown;
pub mod temp_dir;
pub mod text;
pub mod uninstall;
pub mod upgrade;
