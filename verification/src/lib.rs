//! Scanner for the raw value of an email header field.
//!
//! A header value may be "folded" across several physical lines: a line feed
//! followed by a space or a horizontal tab continues the same logical value.
//! This crate locates the raw span of one value in a byte buffer, either
//! extracting its text ([`raw::parse_raw`]) or discarding it while advancing
//! the cursor ([`raw::parse_and_ignore`]).

pub mod decode;
pub mod raw;
pub mod scan;
pub mod stream;
