//! Parsing and classification of the logs of a trading application.
pub mod bucket;
pub mod domain;
pub mod error;
pub mod log;
pub mod parse;
pub mod text;
