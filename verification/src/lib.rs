//! A proxy between clients of the Responses API and a Chat Completions API.
//!
//! Requests are converted by [`converter::request`], whole replies by [`converter::response`] and
//! streamed replies by [`converter::stream`]. What the proxy decides around these conversions is in
//! [`handler`].

pub mod config;
pub mod converter;
pub mod handler;
pub mod json;
pub mod log;
pub mod names;
pub mod text;
pub mod text_laws;
pub mod types;
pub mod utf8_stream;
