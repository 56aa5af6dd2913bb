//! A verified core for a place-name-to-forecast tool: provider selection and
//! construction, per-provider request URLs and response normalization, geocoder
//! candidate handling and disambiguation, and the persisted configuration text.
//!
//! Network and terminal I/O live outside this crate; the functions here take
//! what was read (status codes, decoded payloads, input lines) as plain values
//! and return classified results.

pub mod argparser;
pub mod cli;
pub mod config_text;
pub mod configs;
pub mod dates;
pub mod geocoder;
pub mod input;
pub mod provider_builder;
pub mod providers;
pub mod text;
