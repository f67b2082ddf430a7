//! The core of a multi-connection file downloader.
//!
//! A remote file is cut into byte segments of growing size. Workers
//! download the segments side by side; a coordinator hands them out and,
//! when none is left, takes work from a busy worker for an idle one.
//! Progress is kept per segment in a journal, so that an interrupted
//! download resumes where it stopped, unless the file on the server has
//! changed in the meantime.
//!
//! This crate holds the rules: how a file is cut, what is handed out and
//! stolen, what the journal holds, when a download restarts from zero,
//! when a worker retries or pauses, how settings and command-line arguments
//! are read. Requests, files, clocks and windows belong to the program that
//! uses it.

pub mod args;
pub mod cli;
pub mod config;
pub mod database;
pub mod downloads;
pub mod settings;
pub mod text;
pub mod tui;
