//! Decoder for the fixed header and constant pool of JVM class files.
//!
//! The input is an immutable byte buffer. The decoder reads the fixed
//! ten-byte preamble (magic, minor and major version, constant-pool count),
//! then walks `count - 1` tag-discriminated records, threading an explicit
//! cursor position forward, and returns the decoded structure together with
//! the offset of the first byte it did not consume. Truncated or malformed
//! input yields a structured error; no partial pool is ever returned.

pub mod flags;
pub mod model;
pub mod pool;
pub mod props;
pub mod reader;
pub mod types;
