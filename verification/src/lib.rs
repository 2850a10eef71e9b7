//! Verified core of a scraper for the FuOverflow community forum.

pub mod text;
pub mod constants;
pub mod error;
pub mod client;
pub mod model;
pub mod scrape;
pub mod forum;
pub mod thread;
pub mod login;
pub mod cli;
pub mod install;
pub mod laws;
pub mod prelude;
