//! Merging and deduplication of line-oriented text files written in
//! assorted legacy encodings, with a checkpoint ledger for resuming.

pub mod cli;
pub mod clock;
pub mod commands;
pub mod config;
pub mod converter;
pub mod dedup;
pub mod detector;
pub mod display;
pub mod errors;
pub mod encoding;
pub mod file_utils;
pub mod handler;
pub mod ingest;
pub mod names;
pub mod order;
pub mod progress;
pub mod session;
pub mod stats;
pub mod strategies;
pub mod text;
