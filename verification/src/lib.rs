//! A request-inspection library: given the headers and peer address of an
//! inbound HTTP request, it reports the caller's apparent IP address,
//! browser, operating system and preferred language, together with a
//! process-wide request tally.
//!
//! All parsing is pure string processing, specified over `Seq<char>` views
//! and verified; the surrounding HTTP server lives outside this crate and
//! hands in plain header values.

pub mod counter;
pub mod error;
pub mod handlers;
pub mod models;
pub mod origin;
pub mod text;
pub mod utils;
