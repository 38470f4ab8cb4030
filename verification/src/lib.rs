//! A library for a command-line client of the Samson deployment service.
//!
//! The verified core covers the API client's request building and
//! response classification, the JSON wire format of the service, and
//! the resolution rules that pick a token, a project id and a
//! source-control reference from command-line input and configuration.
//! Network and file I/O live outside the library and hand it plain
//! values.

pub mod chars;
pub mod commands;
pub mod configuration;
pub mod errors;
pub mod json;
pub mod samson;
pub mod wire;
