//! A small verified core for a command-line HTTP client.
//!
//! The library validates arguments (URLs, `key=value` tokens), folds
//! key-value pairs into a request body and encodes it as JSON, and turns a
//! received response into text ready for a terminal. Network I/O and
//! terminal output live outside the library.

pub mod args;
pub mod body;
pub mod kv;
pub mod render;
pub mod request;
