//! `sigan`: a command-line time tracker, as a verified library.
//!
//! The library holds the tracker's logic: the model of time entries, the
//! rules of the entry store, the tracking service, the parsing of user
//! input and the layout rules of the output. Reading and writing files,
//! running the editor and printing stay with the program that uses it.

pub mod cli;
pub mod config;
pub mod datetime;
pub mod editor;
pub mod error;
pub mod laws;
pub mod models;
pub mod output;
pub mod service;
pub mod storage;
pub mod string_set;
pub mod text;
pub mod time;

pub use error::SiganError;
